//! The file browser: the local files on one side, an instance's on the other.
//! Only its state; fetching and transfers are driven from elsewhere.
use vstd::prelude::*;

use crate::listing;
use crate::order;
use crate::path;
use crate::path::Platform;
use crate::protocol::api::DirEntry;
use crate::text;

verus! {

#[derive(Clone, Copy, Debug, PartialEq, Eq, Structural)]
pub enum Side {
    Local,
    Remote,
}

impl Side {
    pub open spec fn spec_other(self) -> Side {
        match self {
            Side::Local => Side::Remote,
            Side::Remote => Side::Local,
        }
    }

    #[verifier::when_used_as_spec(spec_other)]
    pub fn other(self) -> (r: Side)
        ensures
            r == self.spec_other(),
    {
        match self {
            Side::Local => Side::Remote,
            Side::Remote => Side::Local,
        }
    }

    pub fn name(self) -> (r: &'static str)
        ensures
            r@ == (match self {
                Side::Local => "local"@,
                Side::Remote => "remote"@,
            }),
    {
        match self {
            Side::Local => "local",
            Side::Remote => "remote",
        }
    }
}

#[derive(Debug)]
pub struct Panel {
    pub cwd: String,
    pub entries: Vec<DirEntry>,
    pub cursor: usize,
    /// The marked names, each once.
    pub selected: Vec<String>,
    pub error: Option<String>,
    pub loading: bool,
    /// Names that a running transfer is writing here, shown until the listing
    /// that follows it holds the real entries.
    pub incoming: Vec<String>,
}

/// The names of a listing, in order.
pub open spec fn names_of(entries: Seq<DirEntry>) -> Seq<Seq<char>> {
    entries.map_values(|e: DirEntry| e.name@)
}

/// The names on a list that also stand on another, in the order of the first.
pub open spec fn also_in(list: Seq<Seq<char>>, other: Seq<Seq<char>>) -> Seq<Seq<char>>
    decreases list.len(),
{
    if list.len() == 0 {
        seq![]
    } else {
        let before = also_in(list.drop_last(), other);
        if other.contains(list.last()) {
            before.push(list.last())
        } else {
            before
        }
    }
}

/// Keeps the cursor on a list of the given length.
pub open spec fn clamped(cursor: int, len: int) -> int {
    if len == 0 {
        0
    } else if cursor >= len {
        len - 1
    } else {
        cursor
    }
}

pub fn clamp(cursor: usize, len: usize) -> (r: usize)
    ensures
        r == clamped(cursor as int, len as int),
{
    if len == 0 {
        0
    } else if cursor >= len {
        len - 1
    } else {
        cursor
    }
}

/// Whether a name stands on a list.
pub fn holds(list: &Vec<String>, name: &str) -> (r: bool)
    ensures
        r == text::views(list@).contains(name@),
{
    let mut i: usize = 0;
    while i < list.len()
        invariant
            i <= list.len(),
            forall|j: int| 0 <= j < i ==> (#[trigger] list@[j])@ != name@,
        decreases list.len() - i,
    {
        if text::same(&list[i], name) {
            assert(text::views(list@)[i as int] == name@);
            return true;
        }
        i = i + 1;
    }
    assert forall|j: int| 0 <= j < text::views(list@).len() implies text::views(list@)[j]
        != name@ by {
        assert(text::views(list@)[j] == list@[j]@);
    }
    false
}

fn names(entries: &Vec<DirEntry>) -> (r: Vec<String>)
    ensures
        text::views(r@) == names_of(entries@),
{
    let mut out: Vec<String> = Vec::new();
    let mut i: usize = 0;
    while i < entries.len()
        invariant
            i <= entries.len(),
            out@.len() == i,
            forall|j: int| 0 <= j < i ==> (#[trigger] out@[j])@ == entries@[j].name@,
        decreases entries.len() - i,
    {
        out.push(entries[i].name.clone());
        i = i + 1;
    }
    assert(text::views(out@) =~= names_of(entries@));
    out
}

fn common(list: &Vec<String>, other: &Vec<String>) -> (r: Vec<String>)
    ensures
        text::views(r@) == also_in(text::views(list@), text::views(other@)),
{
    let mut out: Vec<String> = Vec::new();
    let ghost all = text::views(list@);
    let mut i: usize = 0;
    assert(all.take(0) =~= seq![]);
    assert(text::views(out@) =~= seq![]);
    while i < list.len()
        invariant
            i <= list.len(),
            all == text::views(list@),
            text::views(out@) == also_in(all.take(i as int), text::views(other@)),
        decreases list.len() - i,
    {
        assert(all.take(i as int + 1).drop_last() =~= all.take(i as int));
        assert(all.take(i as int + 1).last() == list@[i as int]@);
        if holds(other, &list[i]) {
            let ghost before = text::views(out@);
            out.push(list[i].clone());
            assert(text::views(out@) =~= before.push(list@[i as int]@));
        }
        i = i + 1;
    }
    assert(all.take(i as int) =~= all);
    out
}

/// A panel, as what it holds.
#[verifier::ext_equal]
pub struct Shown {
    pub cwd: Seq<char>,
    pub entries: Seq<DirEntry>,
    pub cursor: int,
    pub selected: Seq<Seq<char>>,
    pub error: Option<Seq<char>>,
    pub loading: bool,
    pub incoming: Seq<Seq<char>>,
}

impl View for Panel {
    type V = Shown;

    open spec fn view(&self) -> Shown {
        Shown {
            cwd: self.cwd@,
            entries: self.entries@,
            cursor: self.cursor as int,
            selected: text::views(self.selected@),
            error: crate::client::form::opt_text(self.error),
            loading: self.loading,
            incoming: text::views(self.incoming@),
        }
    }
}

/// No name is marked twice.
pub open spec fn each_once(names: Seq<Seq<char>>) -> bool {
    forall|i: int, j: int| 0 <= i < j < names.len() ==> #[trigger] names[i] != #[trigger] names[j]
}

impl Shown {
    /// The cursor is on an entry, where there is one, and no name is marked twice.
    pub open spec fn wf(self) -> bool {
        &&& 0 <= self.cursor
        &&& self.entries.len() > 0 ==> self.cursor < self.entries.len()
        &&& each_once(self.selected)
    }
}

/// A panel after a listing has come in. Marks are kept on the names that still
/// exist; a failed listing leaves nothing.
pub open spec fn applied(p: Shown, cwd: Seq<char>, result: Result<Seq<DirEntry>, Seq<char>>) -> Shown {
    match result {
        Ok(entries) => Shown {
            cwd,
            loading: false,
            selected: also_in(p.selected, names_of(entries)),
            cursor: clamped(p.cursor, entries.len() as int),
            entries,
            error: None,
            ..p
        },
        Err(e) => Shown {
            cwd,
            loading: false,
            entries: seq![],
            selected: seq![],
            cursor: 0,
            error: Some(e),
            ..p
        },
    }
}

/// A panel that has begun to load another directory; what it showed stays
/// until that has come in.
pub open spec fn navigated(p: Shown, cwd: Seq<char>) -> Shown {
    Shown { cwd, cursor: 0, selected: seq![], loading: true, ..p }
}

/// The name under the cursor.
pub open spec fn name_at_cursor(p: Shown) -> Option<Seq<char>> {
    if 0 <= p.cursor < p.entries.len() {
        Some(p.entries[p.cursor].name@)
    } else {
        None
    }
}

/// The names without one of them.
pub open spec fn without(names: Seq<Seq<char>>, name: Seq<char>) -> Seq<Seq<char>> {
    names.remove(names.index_of(name))
}

/// The marks with the one under the cursor turned round.
pub open spec fn toggled(p: Shown) -> Shown {
    match name_at_cursor(p) {
        None => p,
        Some(name) => Shown {
            selected: if p.selected.contains(name) {
                without(p.selected, name)
            } else {
                p.selected.push(name)
            },
            ..p
        },
    }
}

/// What a copy takes: the marked names, in the order of the listing, or the one
/// under the cursor where nothing is marked.
pub open spec fn picked_names(p: Shown) -> Seq<Seq<char>> {
    if p.selected.len() == 0 {
        match name_at_cursor(p) {
            Some(name) => seq![name],
            None => seq![],
        }
    } else {
        also_in(names_of(p.entries), p.selected)
    }
}

proof fn also_in_keeps_once(list: Seq<Seq<char>>, other: Seq<Seq<char>>)
    requires
        each_once(list),
    ensures
        each_once(also_in(list, other)),
        forall|i: int|
            0 <= i < also_in(list, other).len() ==> list.contains(#[trigger] also_in(list, other)[i])
                && other.contains(also_in(list, other)[i]),
    decreases list.len(),
{
    if list.len() > 0 {
        let front = list.drop_last();
        assert(each_once(front)) by {
            assert forall|i: int, j: int| 0 <= i < j < front.len() implies #[trigger] front[i]
                != #[trigger] front[j] by {
                assert(list[i] == front[i] && list[j] == front[j]);
            }
        }
        also_in_keeps_once(front, other);
        let before = also_in(front, other);
        let r = also_in(list, other);
        assert forall|i: int| 0 <= i < r.len() implies list.contains(#[trigger] r[i])
            && other.contains(r[i]) by {
            if i < before.len() {
                assert(r[i] == before[i]);
                let k = choose|k: int| 0 <= k < front.len() && front[k] == before[i];
                assert(list[k] == r[i]);
            } else {
                assert(list[list.len() - 1] == r[i]);
            }
        }
        assert forall|i: int, j: int| 0 <= i < j < r.len() implies #[trigger] r[i]
            != #[trigger] r[j] by {
            assert(r[i] == before[i]);
            if j < before.len() {
                assert(r[j] == before[j]);
            } else {
                let k = choose|k: int| 0 <= k < front.len() && front[k] == before[i];
                assert(list[k] != list[list.len() - 1]);
            }
        }
    }
}

/// A panel that has just been opened.
pub open spec fn fresh_panel(cwd: Seq<char>) -> Shown {
    Shown {
        cwd,
        entries: seq![],
        cursor: 0,
        selected: seq![],
        error: None,
        loading: true,
        incoming: seq![],
    }
}

impl Panel {
    pub fn new(cwd: String) -> (r: Panel)
        ensures
            r@ == fresh_panel(cwd@),
            r@.wf(),
    {
        Panel {
            cwd,
            entries: Vec::new(),
            cursor: 0,
            selected: Vec::new(),
            error: None,
            loading: true,
            incoming: Vec::new(),
        }
    }

    /// Takes in a listing of `cwd`, as it was resolved.
    pub fn apply(&mut self, cwd: String, result: Result<Vec<DirEntry>, String>)
        requires
            old(self)@.wf(),
        ensures
            final(self)@.wf(),
            final(self)@ == applied(
                old(self)@,
                cwd@,
                match result {
                    Ok(entries) => Ok(entries@),
                    Err(e) => Err(e@),
                },
            ),
    {
        self.cwd = cwd;
        self.loading = false;
        match result {
            Ok(entries) => {
                let kept = names(&entries);
                proof {
                    also_in_keeps_once(text::views(self.selected@), names_of(entries@));
                }
                self.selected = common(&self.selected, &kept);
                self.cursor = clamp(self.cursor, entries.len());
                self.entries = entries;
                self.error = None;
            },
            Err(e) => {
                self.entries = Vec::new();
                self.selected = Vec::new();
                self.cursor = 0;
                self.error = Some(e);
            },
        }
    }

    /// Begins to load `cwd`; what was shown stays until then.
    pub fn navigate(&mut self, cwd: String)
        requires
            old(self)@.wf(),
        ensures
            final(self)@.wf(),
            final(self)@ == navigated(old(self)@, cwd@),
    {
        self.cwd = cwd;
        self.cursor = 0;
        self.selected = Vec::new();
        self.loading = true;
    }

    pub fn under_cursor(&self) -> (r: Option<&DirEntry>)
        ensures
            r == (if self.cursor < self.entries@.len() {
                Some(&self.entries@[self.cursor as int])
            } else {
                None
            }),
    {
        if self.cursor < self.entries.len() {
            Some(&self.entries[self.cursor])
        } else {
            None
        }
    }

    /// Marks the entry under the cursor, or takes its mark away.
    pub fn toggle_selected(&mut self)
        requires
            old(self)@.wf(),
        ensures
            final(self)@.wf(),
            final(self)@ == toggled(old(self)@),
    {
        if self.cursor >= self.entries.len() {
            return ;
        }
        let name: String = self.entries[self.cursor].name.clone();
        let ghost before = text::views(self.selected@);
        let mut i: usize = 0;
        while i < self.selected.len()
            invariant
                self == old(self),
                self@.wf(),
                before == text::views(self.selected@),
                i <= self.selected.len(),
                name_at_cursor(self@) == Some(name@),
                forall|j: int| 0 <= j < i ==> (#[trigger] before[j]) != name@,
            decreases self.selected.len() - i,
        {
            assert(before[i as int] == self.selected@[i as int]@);
            if text::same(&self.selected[i], &name) {
                proof {
                    assert(before.contains(name@));
                    let k = before.index_of(name@);
                    assert(0 <= k < before.len() && before[k] == name@);
                    if k < i {
                        assert(before[k] != name@);
                    } else if i < k {
                        assert(before[i as int] != before[k]);
                    }
                }
                self.selected.remove(i);
                assert(text::views(self.selected@) =~= before.remove(i as int));
                assert(each_once(before.remove(i as int))) by {
                    let r = before.remove(i as int);
                    assert forall|a: int, b: int| 0 <= a < b < r.len() implies #[trigger] r[a]
                        != #[trigger] r[b] by {
                        let x = if a < i {
                            a
                        } else {
                            a + 1
                        };
                        let y = if b < i {
                            b
                        } else {
                            b + 1
                        };
                        assert(r[a] == before[x] && r[b] == before[y]);
                    }
                }
                return ;
            }
            i = i + 1;
        }
        assert(!before.contains(name@));
        let ghost new = name@;
        self.selected.push(name);
        assert(text::views(self.selected@) =~= before.push(new));
        assert(each_once(before.push(new))) by {
            let r = before.push(new);
            assert forall|a: int, b: int| 0 <= a < b < r.len() implies #[trigger] r[a]
                != #[trigger] r[b] by {
                assert(r[a] == before[a]);
                if b < before.len() {
                    assert(r[b] == before[b]);
                }
            }
        }
    }

    /// What a copy would take.
    pub fn picked(&self) -> (r: Vec<String>)
        ensures
            text::views(r@) == picked_names(self@),
    {
        if self.selected.len() == 0 {
            let mut out: Vec<String> = Vec::new();
            if self.cursor < self.entries.len() {
                out.push(self.entries[self.cursor].name.clone());
            }
            assert(text::views(out@) =~= picked_names(self@));
            return out;
        }
        common(&names(&self.entries), &self.selected)
    }
}

/// A running transfer: what it is called, and how far it is.
#[derive(Debug)]
pub struct Transfer {
    pub label: String,
    pub done: u64,
    pub total: Option<u64>,
}

#[derive(Debug)]
pub struct Browse {
    pub server: u128,
    pub instance: u128,
    /// Where remote navigation ends: the instance's own directory.
    pub remote_root: String,
    pub local: Panel,
    pub remote: Panel,
    pub focus: Side,
    pub transfer: Option<Transfer>,
}

impl Browse {
    /// The panel on one side.
    pub open spec fn at(self, side: Side) -> Panel {
        match side {
            Side::Local => self.local,
            Side::Remote => self.remote,
        }
    }

    pub open spec fn wf(self) -> bool {
        self.local@.wf() && self.remote@.wf()
    }

    pub fn new(server: u128, instance: u128, local_cwd: String, remote_root: String) -> (r: Browse)
        ensures
            r.wf(),
            r.server == server,
            r.instance == instance,
            r.remote_root@ == remote_root@,
            r.local@ == fresh_panel(local_cwd@),
            r.remote@ == fresh_panel(remote_root@),
            r.focus == Side::Local,
            r.transfer is None,
    {
        Browse {
            server,
            instance,
            local: Panel::new(local_cwd),
            remote: Panel::new(remote_root.clone()),
            remote_root,
            focus: Side::Local,
            transfer: None,
        }
    }

    pub fn panel(&self, side: Side) -> (r: &Panel)
        ensures
            *r == self.at(side),
    {
        match side {
            Side::Local => &self.local,
            Side::Remote => &self.remote,
        }
    }

    pub fn panel_mut(&mut self, side: Side) -> (r: &mut Panel)
        ensures
            *r == old(self).at(side),
            *final(self) == (match side {
                Side::Local => Browse { local: *final(r), ..*old(self) },
                Side::Remote => Browse { remote: *final(r), ..*old(self) },
            }),
    {
        match side {
            Side::Local => &mut self.local,
            Side::Remote => &mut self.remote,
        }
    }

    /// Where going up from a side leads; nowhere from the floor.
    pub open spec fn up_from(self, side: Side, platform: Platform) -> Option<Seq<char>> {
        if side == Side::Remote && path::parts(self.remote.cwd@, platform) == path::parts(
            self.remote_root@,
            platform,
        ) {
            None
        } else {
            path::parent_of(self.at(side).cwd@, platform)
        }
    }

    /// The parent to navigate to, unless the panel is at its floor.
    pub fn parent_of(&self, side: Side, platform: Platform) -> (r: Option<String>)
        ensures
            crate::client::form::opt_text(r) == self.up_from(side, platform),
    {
        if matches!(side, Side::Remote) && path::same_path(
            &self.remote.cwd,
            &self.remote_root,
            platform,
        ) {
            return None;
        }
        path::parent(&self.panel(side).cwd, platform)
    }
}

// ---- local files -------------------------------------------------------------------

/// The listing of a local directory, in the order in which a server lists its own, or
/// why there is none. `read` holds the entries of which anything could be learned.
pub fn read_local_dir(path: &str, read: Result<Vec<DirEntry>, String>) -> (r: Result<
    Vec<DirEntry>,
    String,
>)
    ensures
        match read {
            Ok(entries) => r matches Ok(sorted) && sorted@ == order::sorted(entries@),
            Err(why) => r matches Err(e) && e@ == "cannot list '"@ + path@ + "': "@ + why@,
        },
{
    match read {
        Ok(entries) => Ok(listing::sort_entries(entries)),
        Err(why) => Err(text::cat4("cannot list '", path, "': ", &why)),
    }
}

// ---- laws --------------------------------------------------------------------------

/// After a listing, every mark is on an entry that exists, and the cursor is
/// on an entry where there is one.
pub proof fn marks_are_on_entries(p: Shown, cwd: Seq<char>, entries: Seq<DirEntry>)
    requires
        p.wf(),
    ensures
        applied(p, cwd, Ok(entries)).wf(),
        forall|i: int|
            0 <= i < applied(p, cwd, Ok(entries)).selected.len() ==> names_of(entries).contains(
                #[trigger] applied(p, cwd, Ok(entries)).selected[i],
            ),
{
    also_in_keeps_once(p.selected, names_of(entries));
}

/// Turning the mark of an entry round twice leaves the marked names as they were.
pub proof fn toggling_twice_changes_nothing(p: Shown)
    requires
        p.wf(),
    ensures
        forall|name: Seq<char>|
            toggled(toggled(p)).selected.contains(name) <==> p.selected.contains(name),
{
    match name_at_cursor(p) {
        None => {},
        Some(name) => {
            let once = toggled(p).selected;
            let twice = toggled(toggled(p)).selected;
            if p.selected.contains(name) {
                let k = p.selected.index_of(name);
                assert(p.selected[k] == name);
                assert(!once.contains(name)) by {
                    if once.contains(name) {
                        let j = choose|j: int| 0 <= j < once.len() && once[j] == name;
                        let x = if j < k {
                            j
                        } else {
                            j + 1
                        };
                        assert(p.selected[x] == name);
                        if x < k {
                            assert(p.selected[x] != p.selected[k]);
                        } else {
                            assert(p.selected[k] != p.selected[x]);
                        }
                    }
                }
                assert forall|n: Seq<char>| twice.contains(n) <==> p.selected.contains(n) by {
                    if twice.contains(n) {
                        let j = choose|j: int| 0 <= j < twice.len() && twice[j] == n;
                        if j < once.len() {
                            let x = if j < k {
                                j
                            } else {
                                j + 1
                            };
                            assert(p.selected[x] == n);
                        }
                    }
                    if p.selected.contains(n) {
                        let x = choose|x: int| 0 <= x < p.selected.len() && p.selected[x] == n;
                        if x == k {
                            assert(twice[once.len() as int] == n);
                        } else {
                            let j = if x < k {
                                x
                            } else {
                                x - 1
                            };
                            assert(twice[j] == n);
                        }
                    }
                }
            } else {
                assert(once[p.selected.len() as int] == name);
                assert(once.contains(name));
                let k = once.index_of(name);
                assert(once[k] == name);
                assert(k == p.selected.len()) by {
                    if k < p.selected.len() {
                        assert(p.selected[k] == name);
                    }
                }
                assert(twice =~= p.selected);
            }
        },
    }
}

/// Each side is across from the other.
pub proof fn sides_face_each_other(side: Side)
    ensures
        side.other() != side,
        side.other().other() == side,
{
}

proof fn also_in_is_both(list: Seq<Seq<char>>, other: Seq<Seq<char>>, name: Seq<char>)
    ensures
        also_in(list, other).contains(name) <==> list.contains(name) && other.contains(name),
    decreases list.len(),
{
    if list.len() > 0 {
        let front = list.drop_last();
        also_in_is_both(front, other, name);
        let before = also_in(front, other);
        let r = also_in(list, other);
        if r.contains(name) {
            let i = choose|i: int| 0 <= i < r.len() && r[i] == name;
            if i < before.len() {
                assert(before[i] == name);
                let k = choose|k: int| 0 <= k < front.len() && front[k] == name;
                assert(list[k] == name);
            } else {
                assert(list[list.len() - 1] == name);
            }
        }
        if list.contains(name) && other.contains(name) {
            let k = choose|k: int| 0 <= k < list.len() && list[k] == name;
            if k < front.len() {
                assert(front[k] == name);
                let i = choose|i: int| 0 <= i < before.len() && before[i] == name;
                assert(r[i] == name);
            } else {
                assert(r[before.len() as int] == name);
            }
        }
    }
}

/// A name stays marked over a listing exactly where it was marked and is still there. The
/// cursor stays where it was, or goes to the last entry where there are fewer now.
pub proof fn marks_stay_on_what_is_still_there(
    p: Shown,
    cwd: Seq<char>,
    entries: Seq<DirEntry>,
    name: Seq<char>,
)
    requires
        0 <= p.cursor,
    ensures
        ({
            let q = applied(p, cwd, Ok(entries));
            &&& q.selected.contains(name) <==> p.selected.contains(name) && exists|i: int|
                0 <= i < entries.len() && (#[trigger] entries[i]).name@ == name
            &&& q.cursor == p.cursor || q.cursor == entries.len() - 1 || (entries.len() == 0
                && q.cursor == 0)
            &&& p.cursor < entries.len() ==> q.cursor == p.cursor
            &&& entries.len() > 0 ==> 0 <= q.cursor < entries.len()
            &&& q.cwd == cwd && q.entries == entries && q.error is None && !q.loading
            &&& q.incoming == p.incoming
        }),
{
    let names = names_of(entries);
    also_in_is_both(p.selected, names, name);
    if names.contains(name) {
        let i = choose|i: int| 0 <= i < names.len() && names[i] == name;
        assert(entries[i].name@ == name);
    }
    if exists|i: int| 0 <= i < entries.len() && (#[trigger] entries[i]).name@ == name {
        let i = choose|i: int| 0 <= i < entries.len() && (#[trigger] entries[i]).name@ == name;
        assert(names[i] == name);
    }
}

/// A listing that failed shows why, and nothing else: no entry, no mark.
pub proof fn failed_listings_show_why(p: Shown, cwd: Seq<char>, why: Seq<char>)
    ensures
        ({
            let q = applied(p, cwd, Err(why));
            &&& q.error == Some(why)
            &&& q.entries.len() == 0 && q.selected.len() == 0 && q.cursor == 0
            &&& !q.loading && q.cwd == cwd && q.incoming == p.incoming
        }),
{
}

/// Going to another directory starts at its top with nothing marked, and shows what was
/// there until the listing has come.
pub proof fn going_elsewhere_starts_afresh(p: Shown, cwd: Seq<char>)
    ensures
        ({
            let q = navigated(p, cwd);
            &&& q.cwd == cwd && q.cursor == 0 && q.selected.len() == 0 && q.loading
            &&& q.entries == p.entries && q.error == p.error && q.incoming == p.incoming
        }),
{
}

/// A copy takes the marked names that are listed, all of them and no other; where nothing
/// is marked, the one under the cursor.
pub proof fn copies_take_what_is_marked(p: Shown, name: Seq<char>)
    ensures
        p.selected.len() > 0 ==> (picked_names(p).contains(name) <==> p.selected.contains(name)
            && exists|i: int| 0 <= i < p.entries.len() && (#[trigger] p.entries[i]).name@ == name),
        p.selected.len() == 0 && 0 <= p.cursor < p.entries.len() ==> picked_names(p)
            == seq![p.entries[p.cursor].name@],
        p.selected.len() == 0 && !(0 <= p.cursor < p.entries.len()) ==> picked_names(p).len() == 0,
{
    let names = names_of(p.entries);
    also_in_is_both(names, p.selected, name);
    if names.contains(name) {
        let i = choose|i: int| 0 <= i < names.len() && names[i] == name;
        assert(p.entries[i].name@ == name);
    }
    if exists|i: int| 0 <= i < p.entries.len() && (#[trigger] p.entries[i]).name@ == name {
        let i = choose|i: int| 0 <= i < p.entries.len() && (#[trigger] p.entries[i]).name@ == name;
        assert(names[i] == name);
    }
}

/// Marking turns the mark under the cursor round and leaves every other.
pub proof fn one_mark_is_turned_round(p: Shown, name: Seq<char>)
    requires
        p.wf(),
        p.cursor < p.entries.len(),
    ensures
        name == p.entries[p.cursor].name@ ==> toggled(p).selected.contains(name)
            == !p.selected.contains(name),
        name != p.entries[p.cursor].name@ ==> toggled(p).selected.contains(name)
            == p.selected.contains(name),
        toggled(p).entries == p.entries && toggled(p).cursor == p.cursor && toggled(p).cwd == p.cwd,
{
    let here = p.entries[p.cursor].name@;
    let old = p.selected;
    let new = toggled(p).selected;
    if old.contains(here) {
        let at = old.index_of(here);
        assert(0 <= at < old.len() && old[at] == here);
        if new.contains(name) {
            let i = choose|i: int| 0 <= i < new.len() && new[i] == name;
            let k = if i < at {
                i
            } else {
                i + 1
            };
            assert(old[k] == name);
            assert(old[k] != old[at]) by {
                if k < at {
                    assert(old[k] != old[at]);
                } else {
                    assert(old[at] != old[k]);
                }
            }
        }
        if old.contains(name) && name != here {
            let k = choose|k: int| 0 <= k < old.len() && old[k] == name;
            let i = if k < at {
                k
            } else {
                k - 1
            };
            assert(new[i] == name);
        }
    } else {
        assert(new == old.push(here));
        assert(new[old.len() as int] == here);
        if old.contains(name) {
            let k = choose|k: int| 0 <= k < old.len() && old[k] == name;
            assert(new[k] == name);
        }
        if new.contains(name) && name != here {
            let k = choose|k: int| 0 <= k < new.len() && new[k] == name;
            assert(old[k] == name);
        }
    }
}

/// Going up from the instance's files stops at the directory that the browser was opened
/// at; anywhere else, and among the local files, it leads to the directory above.
pub proof fn the_floor_is_not_left(b: Browse, platform: Platform)
    ensures
        path::parts(b.remote.cwd@, platform) == path::parts(b.remote_root@, platform)
            ==> b.up_from(Side::Remote, platform) is None,
        path::parts(b.remote.cwd@, platform) != path::parts(b.remote_root@, platform) ==> b.up_from(
            Side::Remote,
            platform,
        ) == path::parent_of(b.remote.cwd@, platform),
        b.up_from(Side::Local, platform) == path::parent_of(b.local.cwd@, platform),
{
}

} // verus!
