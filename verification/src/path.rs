//! Paths as texts, read by their components. No file system is asked.
//!
//! On Windows a path may start with a drive (`C:`), a share (`\\server\share`), a
//! device (`\\.\COM1`) or the mark of a verbatim path (`\\?\`). A backslash
//! separates there as a slash does, and alone in a verbatim path.
use vstd::prelude::*;

use crate::text;

verus! {

/// The family of systems that a path is meant for.
#[derive(Clone, Copy, Debug, PartialEq, Eq, Structural)]
pub enum Platform {
    Unix,
    MacOs,
    Windows,
}

/// One component of a path.
#[derive(Debug, PartialEq, Eq)]
pub enum Component {
    /// A drive, a share or the like, in one spelling for all that are equal.
    Prefix(String),
    Root,
    /// A leading `.`.
    Cur,
    Parent,
    Normal(String),
}

/// A component, as what it says.
#[verifier::ext_equal]
pub enum Part {
    Prefix(Seq<char>),
    Root,
    Cur,
    Parent,
    Normal(Seq<char>),
}

impl View for Component {
    type V = Part;

    open spec fn view(&self) -> Part {
        match *self {
            Component::Prefix(s) => Part::Prefix(s@),
            Component::Root => Part::Root,
            Component::Cur => Part::Cur,
            Component::Parent => Part::Parent,
            Component::Normal(s) => Part::Normal(s@),
        }
    }
}

/// A component and where it ends in the text.
#[derive(Debug, PartialEq, Eq)]
pub struct Step {
    pub part: Component,
    pub end: usize,
}

pub open spec fn step_views(v: Seq<Step>) -> Seq<(Part, int)> {
    v.map_values(|s: Step| (s.part@, s.end as int))
}

/// What separates the components of a path.
#[derive(Clone, Copy, Debug, PartialEq, Eq, Structural)]
pub enum Style {
    Slash,
    Backslash,
    Both,
}

/// Whether a text starts as the verbatim paths of Windows do.
pub open spec fn marked_verbatim(s: Seq<char>) -> bool {
    s.len() >= 4 && s[0] == '\\' && s[1] == '\\' && s[2] == '?' && s[3] == '\\'
}

fn is_marked_verbatim(s: &Vec<char>) -> (r: bool)
    ensures
        r == marked_verbatim(s@),
{
    s.len() >= 4 && s[0] == '\\' && s[1] == '\\' && s[2] == '?' && s[3] == '\\'
}

/// Whether a path is to be taken word for word: no slash separates in it, and no `.`
/// is passed over.
pub open spec fn verbatim(s: Seq<char>, platform: Platform) -> bool {
    platform == Platform::Windows && marked_verbatim(s)
}

/// What separates the components of this path.
pub open spec fn style(s: Seq<char>, platform: Platform) -> Style {
    if platform != Platform::Windows {
        Style::Slash
    } else if marked_verbatim(s) {
        Style::Backslash
    } else {
        Style::Both
    }
}

fn style_of(s: &Vec<char>, platform: Platform) -> (r: Style)
    ensures
        r == style(s@, platform),
{
    if !matches!(platform, Platform::Windows) {
        Style::Slash
    } else if is_marked_verbatim(s) {
        Style::Backslash
    } else {
        Style::Both
    }
}

pub open spec fn separates(c: char, style: Style) -> bool {
    match style {
        Style::Slash => c == '/',
        Style::Backslash => c == '\\',
        Style::Both => c == '/' || c == '\\',
    }
}

pub fn is_separator(c: char, style: Style) -> (r: bool)
    ensures
        r == separates(c, style),
{
    match style {
        Style::Slash => c == '/',
        Style::Backslash => c == '\\',
        Style::Both => c == '/' || c == '\\',
    }
}

/// The separator that joining puts between two paths.
pub open spec fn main_separator(platform: Platform) -> char {
    if platform == Platform::Windows {
        '\\'
    } else {
        '/'
    }
}

pub open spec fn is_letter(c: char) -> bool {
    'a' <= c <= 'z' || 'A' <= c <= 'Z'
}

/// Whether a text starts with a drive, as Windows spells them.
pub open spec fn drive(s: Seq<char>) -> bool {
    s.len() >= 2 && is_letter(s[0]) && s[1] == ':'
}

pub fn starts_with_drive(s: &str) -> (r: bool)
    ensures
        r == drive(s@),
{
    let chars = text::chars_of(s);
    has_drive(&chars)
}

fn has_drive(s: &Vec<char>) -> (r: bool)
    ensures
        r == drive(s@),
{
    s.len() >= 2 && (('a' <= s[0] && s[0] <= 'z') || ('A' <= s[0] && s[0] <= 'Z')) && s[1] == ':'
}

/// The end of the run of characters from `from` on that do not separate.
pub open spec fn run_end(s: Seq<char>, from: int, style: Style) -> int
    decreases s.len() - from,
{
    if 0 <= from < s.len() && !separates(s[from], style) {
        run_end(s, from + 1, style)
    } else {
        from
    }
}

fn run_end_of(s: &Vec<char>, from: usize, style: Style) -> (r: usize)
    requires
        from <= s.len(),
    ensures
        r == run_end(s@, from as int, style),
        from <= r <= s.len(),
{
    let mut i: usize = from;
    while i < s.len() && !is_separator(s[i], style)
        invariant
            from <= i <= s.len(),
            run_end(s@, from as int, style) == run_end(s@, i as int, style),
        decreases s.len() - i,
    {
        i = i + 1;
    }
    i
}

/// The length of a share at the front: two separators, a server, a separator
/// and a name. Zero where there is none.
pub open spec fn share_len(s: Seq<char>) -> int {
    let server = run_end(s, 2, Style::Both);
    let share = run_end(s, server + 1, Style::Both);
    if s.len() > 2 && separates(s[0], Style::Both) && separates(s[1], Style::Both) && server > 2
        && server + 1 < s.len() && share > server + 1 {
        share
    } else {
        0
    }
}

/// Whether a text starts with a device.
pub open spec fn device(s: Seq<char>) -> bool {
    s.len() >= 4 && separates(s[0], Style::Both) && separates(s[1], Style::Both) && s[2] == '.'
        && separates(s[3], Style::Both)
}

/// Whether a verbatim path starts with a share.
pub open spec fn verbatim_share(s: Seq<char>) -> bool {
    s.len() >= 8 && s[4] == 'U' && s[5] == 'N' && s[6] == 'C' && separates(s[7], Style::Both)
}

/// Whether a verbatim path starts with a drive, and nothing more before the next
/// separator.
pub open spec fn verbatim_drive(s: Seq<char>) -> bool {
    s.len() >= 6 && is_letter(s[4]) && s[5] == ':' && (s.len() == 6 || separates(s[6], Style::Both))
}

/// The length of what a verbatim path starts with: the mark, and a share, a drive or
/// any one name.
pub open spec fn verbatim_len(s: Seq<char>) -> int {
    if verbatim_share(s) {
        let server = run_end(s, 8, Style::Backslash);
        let share = run_end(s, server + 1, Style::Backslash);
        if server < s.len() && share > server + 1 {
            share
        } else {
            server
        }
    } else if verbatim_drive(s) {
        6
    } else {
        run_end(s, 4, Style::Backslash)
    }
}

/// The length of the drive, share or the like that a path starts with.
pub open spec fn prefix_len(s: Seq<char>, platform: Platform) -> int {
    if platform != Platform::Windows {
        0
    } else if marked_verbatim(s) {
        verbatim_len(s)
    } else if device(s) {
        run_end(s, 4, Style::Both)
    } else if drive(s) {
        2
    } else {
        share_len(s)
    }
}

fn share_len_of(s: &Vec<char>) -> (r: usize)
    ensures
        r == share_len(s@),
        r <= s.len(),
{
    if s.len() <= 2 || !is_separator(s[0], Style::Both) || !is_separator(s[1], Style::Both) {
        return 0;
    }
    let server: usize = run_end_of(s, 2, Style::Both);
    if server <= 2 || server >= s.len() - 1 {
        return 0;
    }
    let share: usize = run_end_of(s, server + 1, Style::Both);
    if share <= server + 1 {
        return 0;
    }
    share
}

fn has_verbatim_share(s: &Vec<char>) -> (r: bool)
    ensures
        r == verbatim_share(s@),
{
    s.len() >= 8 && s[4] == 'U' && s[5] == 'N' && s[6] == 'C' && is_separator(s[7], Style::Both)
}

fn has_verbatim_drive(s: &Vec<char>) -> (r: bool)
    ensures
        r == verbatim_drive(s@),
{
    s.len() >= 6 && (('a' <= s[4] && s[4] <= 'z') || ('A' <= s[4] && s[4] <= 'Z')) && s[5] == ':'
        && (s.len() == 6 || is_separator(s[6], Style::Both))
}

fn verbatim_len_of(s: &Vec<char>) -> (r: usize)
    requires
        marked_verbatim(s@),
    ensures
        r == verbatim_len(s@),
        r <= s.len(),
{
    if has_verbatim_share(s) {
        let server: usize = run_end_of(s, 8, Style::Backslash);
        if server < s.len() {
            let share: usize = run_end_of(s, server + 1, Style::Backslash);
            if share > server + 1 {
                return share;
            }
        }
        server
    } else if has_verbatim_drive(s) {
        6
    } else {
        run_end_of(s, 4, Style::Backslash)
    }
}

fn prefix_len_of(s: &Vec<char>, platform: Platform) -> (r: usize)
    ensures
        r == prefix_len(s@, platform),
        r <= s.len(),
{
    if !matches!(platform, Platform::Windows) {
        return 0;
    }
    if is_marked_verbatim(s) {
        return verbatim_len_of(s);
    }
    if s.len() >= 4 && is_separator(s[0], Style::Both) && is_separator(s[1], Style::Both) && s[2]
        == '.' && is_separator(s[3], Style::Both) {
        return run_end_of(s, 4, Style::Both);
    }
    if has_drive(s) {
        return 2;
    }
    share_len_of(s)
}

/// A text with slashes in place of its backslashes.
pub open spec fn slashed(s: Seq<char>) -> Seq<char> {
    s.map_values(
        |c: char|
            if c == '\\' {
                '/'
            } else {
                c
            },
    )
}

/// What a path starts with, in one spelling for all that are equal: a drive in lower
/// case, a share or a device with slashes. One of a verbatim path has its mark.
pub open spec fn prefix_text(s: Seq<char>, platform: Platform) -> Seq<char> {
    let given = s.take(prefix_len(s, platform));
    if marked_verbatim(s) {
        if verbatim_share(s) {
            given.update(7, '\\')
        } else if verbatim_drive(s) {
            given.update(4, text::ascii_lower(s[4]))
        } else {
            given
        }
    } else if drive(s) {
        seq![text::ascii_lower(s[0]), ':']
    } else {
        slashed(given)
    }
}

fn prefix_text_of(s: &Vec<char>, platform: Platform) -> (r: String)
    requires
        prefix_len(s@, platform) > 0,
    ensures
        r@ == prefix_text(s@, platform),
{
    let n: usize = prefix_len_of(s, platform);
    let own: bool = is_marked_verbatim(s);
    let share: bool = own && has_verbatim_share(s);
    let letter: bool = own && !share && has_verbatim_drive(s);
    if !own && has_drive(s) {
        let mut name: String = String::new();
        name.push(text::to_ascii_lower(s[0]));
        name.push(':');
        assert(name@ =~= prefix_text(s@, platform));
        return name;
    }
    let mut out: String = String::new();
    let mut i: usize = 0;
    while i < n
        invariant
            i <= n <= s.len(),
            n == prefix_len(s@, platform),
            own == marked_verbatim(s@),
            share == (own && verbatim_share(s@)),
            letter == (own && !share && verbatim_drive(s@)),
            own || !drive(s@),
            out@.len() == i,
            forall|k: int|
                0 <= k < i ==> #[trigger] out@[k] == (if share && k == 7 {
                    '\\'
                } else if letter && k == 4 {
                    text::ascii_lower(s@[4])
                } else if !own && s@[k] == '\\' {
                    '/'
                } else {
                    s@[k]
                }),
        decreases n - i,
    {
        let c: char = s[i];
        out.push(
            if share && i == 7 {
                '\\'
            } else if letter && i == 4 {
                text::to_ascii_lower(c)
            } else if !own && c == '\\' {
                '/'
            } else {
                c
            },
        );
        i = i + 1;
    }
    proof {
        if share {
            run_end_bounds(s@, 8, Style::Backslash);
        }
        assert(out@ =~= prefix_text(s@, platform));
    }
    out
}

/// Whether a separator follows what a path starts with.
pub open spec fn separated(s: Seq<char>, platform: Platform) -> bool {
    let n = prefix_len(s, platform);
    n < s.len() && separates(s[n], style(s, platform))
}

fn is_separated(s: &Vec<char>, platform: Platform) -> (r: bool)
    ensures
        r == separated(s@, platform),
{
    let n: usize = prefix_len_of(s, platform);
    n < s.len() && is_separator(s[n], style_of(s, platform))
}

/// Whether a path starts at a root. Anything but a drive is one by itself.
pub open spec fn rooted(s: Seq<char>, platform: Platform) -> bool {
    separated(s, platform) || (prefix_len(s, platform) > 0 && !drive(s))
}

fn is_rooted(s: &Vec<char>, platform: Platform) -> (r: bool)
    ensures
        r == rooted(s@, platform),
{
    is_separated(s, platform) || (prefix_len_of(s, platform) > 0 && !has_drive(s))
}

/// The pieces between separators, each with where it ends.
pub open spec fn cut(s: Seq<char>, style: Style) -> Seq<(Seq<char>, int)>
    decreases s.len(),
{
    if s.len() == 0 {
        seq![(seq![], 0)]
    } else {
        let before = cut(s.drop_last(), style);
        if separates(s.last(), style) {
            before.push((seq![], s.len() as int))
        } else {
            before.update(before.len() - 1, (before.last().0.push(s.last()), s.len() as int))
        }
    }
}

proof fn cut_is_some(s: Seq<char>, style: Style)
    ensures
        cut(s, style).len() > 0,
        cut(s, style).len() <= s.len() + 1,
    decreases s.len(),
{
    if s.len() > 0 {
        cut_is_some(s.drop_last(), style);
    }
}

/// What a piece between separators says.
pub open spec fn part_of(piece: Seq<char>) -> Part {
    if piece == seq!['.'] {
        Part::Cur
    } else if piece == seq!['.', '.'] {
        Part::Parent
    } else {
        Part::Normal(piece)
    }
}

/// Whether a piece counts: not where it is empty, and a `.` only where the path
/// starts with it or is verbatim.
pub open spec fn counts(piece: Seq<char>, dot: bool) -> bool {
    piece.len() > 0 && (piece != seq!['.'] || dot)
}

/// The components that the first `n` pieces stand for.
pub open spec fn named(
    pieces: Seq<(Seq<char>, int)>,
    n: int,
    rooted: bool,
    dots: bool,
    offset: int,
) -> Seq<(Part, int)>
    decreases n,
{
    if n <= 0 {
        seq![]
    } else {
        let before = named(pieces, n - 1, rooted, dots, offset);
        let piece = pieces[n - 1];
        if counts(piece.0, dots || (n == 1 && !rooted)) {
            before.push((part_of(piece.0), piece.1 + offset))
        } else {
            before
        }
    }
}

/// The drive, share or the like and the root, where there are such. A verbatim path
/// shows its root only where it is written out.
pub open spec fn anchor(s: Seq<char>, platform: Platform) -> Seq<(Part, int)> {
    let n = prefix_len(s, platform);
    let prefix = if n == 0 {
        seq![]
    } else {
        seq![(Part::Prefix(prefix_text(s, platform)), n)]
    };
    if separated(s, platform) || (rooted(s, platform) && !verbatim(s, platform)) {
        prefix.push(
            (
                Part::Root,
                if n < s.len() {
                    n + 1
                } else {
                    n
                },
            ),
        )
    } else {
        prefix
    }
}

/// The components of a path, each with where it ends in the text.
pub open spec fn steps(s: Seq<char>, platform: Platform) -> Seq<(Part, int)> {
    let n = prefix_len(s, platform);
    let pieces = cut(s.skip(n), style(s, platform));
    anchor(s, platform) + named(
        pieces,
        pieces.len() as int,
        rooted(s, platform),
        verbatim(s, platform),
        n,
    )
}

/// The components of a path.
pub open spec fn parts(s: Seq<char>, platform: Platform) -> Seq<Part> {
    steps(s, platform).map_values(|step: (Part, int)| step.0)
}

fn anchor_of(s: &Vec<char>, platform: Platform) -> (r: Vec<Step>)
    ensures
        step_views(r@) == anchor(s@, platform),
{
    let mut out: Vec<Step> = Vec::new();
    let n: usize = prefix_len_of(s, platform);
    if n > 0 {
        out.push(Step { part: Component::Prefix(prefix_text_of(s, platform)), end: n });
    }
    let windows: bool = matches!(platform, Platform::Windows);
    let own: bool = windows && is_marked_verbatim(s);
    if is_separated(s, platform) || (is_rooted(s, platform) && !own) {
        out.push(
            Step {
                part: Component::Root,
                end: if n < s.len() {
                    n + 1
                } else {
                    n
                },
            },
        );
        assert(step_views(out@) =~= anchor(s@, platform));
    }
    assert(step_views(out@) =~= anchor(s@, platform));
    out
}

fn component_of(piece: &Vec<char>) -> (r: Component)
    ensures
        r@ == part_of(piece@),
{
    if piece.len() == 1 && piece[0] == '.' {
        assert(piece@ =~= seq!['.']);
        Component::Cur
    } else if piece.len() == 2 && piece[0] == '.' && piece[1] == '.' {
        assert(piece@ =~= seq!['.', '.']);
        Component::Parent
    } else {
        Component::Normal(text::string_of(piece))
    }
}

/// Reads a path.
pub fn read(path: &str, platform: Platform) -> (r: Vec<Step>)
    ensures
        step_views(r@) == steps(path@, platform),
{
    let s = text::chars_of(path);
    let n: usize = prefix_len_of(&s, platform);
    let root: bool = is_rooted(&s, platform);
    let sep: Style = style_of(&s, platform);
    let dots: bool = matches!(platform, Platform::Windows) && is_marked_verbatim(&s);
    let mut out: Vec<Step> = anchor_of(&s, platform);
    let ghost front = anchor(s@, platform);
    let ghost body = s@.skip(n as int);
    let ghost whole = cut(body, sep);
    let mut piece: Vec<char> = Vec::new();
    let mut first: bool = true;
    let mut i: usize = n;
    proof {
        assert(body.take(0) =~= seq![]);
        assert(named(cut(body.take(0), sep), 0, root, dots, n as int) =~= seq![]);
        assert(front + Seq::<(Part, int)>::empty() =~= front);
        assert(piece@ =~= seq![]);
    }
    while i < s.len()
        invariant
            n <= i <= s.len(),
            s@ == path@,
            n == prefix_len(s@, platform),
            root == rooted(s@, platform),
            sep == style(s@, platform),
            dots == verbatim(s@, platform),
            front == anchor(s@, platform),
            body == s@.skip(n as int),
            ({
                let so_far = cut(body.take(i - n), sep);
                let k = so_far.len() - 1;
                &&& k >= 0
                &&& first == (k == 0)
                &&& so_far.last() == (piece@, i - n)
                &&& step_views(out@) == front + named(so_far, k, root, dots, n as int)
            }),
        decreases s.len() - i,
    {
        let ghost so_far = cut(body.take(i - n), sep);
        let ghost k = so_far.len() - 1;
        let c: char = s[i];
        assert(body.take(i - n + 1).drop_last() =~= body.take(i - n));
        assert(body.take(i - n + 1).last() == c);
        let ghost next = cut(body.take(i - n + 1), sep);
        if is_separator(c, sep) {
            let dot: bool = piece.len() == 1 && piece[0] == '.';
            assert(dot == (piece@ =~= seq!['.']));
            let ghost before = step_views(out@);
            if piece.len() > 0 && (!dot || dots || (first && !root)) {
                out.push(Step { part: component_of(&piece), end: i });
                assert(step_views(out@) =~= before.push((part_of(piece@), i as int)));
            }
            proof {
                named_extends(so_far, next, k + 1, root, dots, n as int);
                named_extends(so_far, next, k, root, dots, n as int);
                assert(next[k] == so_far[k]);
                assert(step_views(out@) =~= front + named(next, k + 1, root, dots, n as int));
            }
            piece = Vec::new();
            assert(piece@ =~= seq![]);
            first = false;
        } else {
            piece.push(c);
            proof {
                named_extends(so_far, next, k, root, dots, n as int);
            }
        }
        i = i + 1;
    }
    proof {
        assert(body.take(i - n) =~= body);
    }
    let ghost k = whole.len() - 1;
    let dot: bool = piece.len() == 1 && piece[0] == '.';
    assert(dot == (piece@ =~= seq!['.']));
    let ghost before = step_views(out@);
    if piece.len() > 0 && (!dot || dots || (first && !root)) {
        out.push(Step { part: component_of(&piece), end: i });
        assert(step_views(out@) =~= before.push((part_of(piece@), i as int)));
    }
    proof {
        assert(whole[k] == (piece@, i - n));
        assert(named(whole, k + 1, root, dots, n as int) == if counts(piece@, dots || (k == 0 && !root)) {
            named(whole, k, root, dots, n as int).push((part_of(piece@), i as int))
        } else {
            named(whole, k, root, dots, n as int)
        });
        assert(step_views(out@) =~= steps(path@, platform));
    }
    out
}

proof fn named_extends(
    a: Seq<(Seq<char>, int)>,
    b: Seq<(Seq<char>, int)>,
    n: int,
    rooted: bool,
    dots: bool,
    offset: int,
)
    requires
        n <= a.len(),
        n <= b.len(),
        forall|i: int| 0 <= i < n ==> a[i] == b[i],
    ensures
        named(a, n, rooted, dots, offset) == named(b, n, rooted, dots, offset),
    decreases n,
{
    if n > 0 {
        named_extends(a, b, n - 1, rooted, dots, offset);
    }
}

// ---- questions ---------------------------------------------------------------------

/// Whether two components are the same.
pub fn same_part(a: &Component, b: &Component) -> (r: bool)
    ensures
        r == (a@ == b@),
{
    match (a, b) {
        (Component::Prefix(x), Component::Prefix(y)) => text::same(x, y),
        (Component::Root, Component::Root) => true,
        (Component::Cur, Component::Cur) => true,
        (Component::Parent, Component::Parent) => true,
        (Component::Normal(x), Component::Normal(y)) => text::same(x, y),
        _ => false,
    }
}

/// Whether some component is `..`.
pub open spec fn climbs(s: Seq<char>, platform: Platform) -> bool {
    exists|i: int| 0 <= i < parts(s, platform).len() && #[trigger] parts(s, platform)[i] is Parent
}

pub fn has_parent(path: &str, platform: Platform) -> (r: bool)
    ensures
        r == climbs(path@, platform),
{
    let found = read(path, platform);
    let ghost all = parts(path@, platform);
    let mut i: usize = 0;
    while i < found.len()
        invariant
            i <= found.len(),
            all == parts(path@, platform),
            step_views(found@) == steps(path@, platform),
            forall|k: int| 0 <= k < i ==> !(#[trigger] all[k] is Parent),
        decreases found.len() - i,
    {
        assert(all[i as int] == step_views(found@)[i as int].0);
        if matches!(found[i].part, Component::Parent) {
            return true;
        }
        i = i + 1;
    }
    assert(all.len() == found@.len());
    false
}

/// Whether a path says where it is without regard to any other.
pub open spec fn absolute(s: Seq<char>, platform: Platform) -> bool {
    rooted(s, platform) && (platform == Platform::Windows ==> prefix_len(s, platform) > 0)
}

pub fn is_absolute(path: &str, platform: Platform) -> (r: bool)
    ensures
        r == absolute(path@, platform),
{
    let s = text::chars_of(path);
    is_rooted(&s, platform) && (!matches!(platform, Platform::Windows) || prefix_len_of(
        &s,
        platform,
    ) > 0)
}

/// Whether the components of `base` are the first of `path`.
pub open spec fn below(path: Seq<char>, base: Seq<char>, platform: Platform) -> bool {
    parts(base, platform).is_prefix_of(parts(path, platform))
}

/// Whether `path` is `base` or lies below it.
pub fn starts_with(path: &str, base: &str, platform: Platform) -> (r: bool)
    ensures
        r == below(path@, base@, platform),
{
    let p = read(path, platform);
    let b = read(base, platform);
    let ghost ps = parts(path@, platform);
    let ghost bs = parts(base@, platform);
    if b.len() > p.len() {
        assert(bs.len() > ps.len());
        return false;
    }
    let mut i: usize = 0;
    while i < b.len()
        invariant
            i <= b.len() <= p.len(),
            ps == parts(path@, platform),
            bs == parts(base@, platform),
            step_views(p@) == steps(path@, platform),
            step_views(b@) == steps(base@, platform),
            forall|k: int| 0 <= k < i ==> bs[k] == ps[k],
        decreases b.len() - i,
    {
        assert(bs[i as int] == step_views(b@)[i as int].0);
        assert(ps[i as int] == step_views(p@)[i as int].0);
        if !same_part(&p[i].part, &b[i].part) {
            assert(bs[i as int] != ps.subrange(0, bs.len() as int)[i as int]);
            return false;
        }
        i = i + 1;
    }
    assert(bs =~= ps.subrange(0, bs.len() as int));
    true
}

/// Whether two texts name the same path, component by component.
pub fn same_path(a: &str, b: &str, platform: Platform) -> (r: bool)
    ensures
        r == (parts(a@, platform) == parts(b@, platform)),
{
    let x = starts_with(a, b, platform);
    let y = starts_with(b, a, platform);
    proof {
        let pa = parts(a@, platform);
        let pb = parts(b@, platform);
        if x && y {
            assert(pa =~= pb);
        }
        if pa == pb {
            assert(pa.subrange(0, pa.len() as int) =~= pa);
        }
    }
    x && y
}

/// The last component, where it is a name.
pub open spec fn name_of(s: Seq<char>, platform: Platform) -> Option<Seq<char>> {
    let all = parts(s, platform);
    if all.len() > 0 && all.last() is Normal {
        Some(all.last()->Normal_0)
    } else {
        None
    }
}

pub fn file_name(path: &str, platform: Platform) -> (r: Option<String>)
    ensures
        match r {
            Some(name) => name_of(path@, platform) == Some(name@),
            None => name_of(path@, platform) is None,
        },
{
    let found = read(path, platform);
    let ghost all = parts(path@, platform);
    assert(all.len() == found@.len());
    if found.len() == 0 {
        return None;
    }
    assert(all.last() == step_views(found@).last().0);
    match &found[found.len() - 1].part {
        Component::Normal(name) => Some(name.clone()),
        _ => None,
    }
}

/// The path without its last component; none for a root or a drive.
pub open spec fn parent_of(s: Seq<char>, platform: Platform) -> Option<Seq<char>> {
    let all = steps(s, platform);
    if all.len() == 0 || all.last().0 is Root || all.last().0 is Prefix {
        None
    } else if all.len() == 1 {
        Some(s.take(0))
    } else {
        Some(s.take(all[all.len() - 2].1))
    }
}

proof fn steps_end_in_the_text(s: Seq<char>, platform: Platform)
    ensures
        forall|i: int|
            0 <= i < steps(s, platform).len() ==> 0 <= (#[trigger] steps(s, platform)[i]).1
                <= s.len(),
{
    let n = prefix_len(s, platform);
    prefix_is_in_the_text(s, platform);
    let pieces = cut(s.skip(n), style(s, platform));
    cut_ends_in_the_text(s.skip(n), style(s, platform));
    named_ends_in_the_text(
        pieces,
        pieces.len() as int,
        rooted(s, platform),
        verbatim(s, platform),
        n,
        s.len() - n,
    );
    assert forall|i: int| 0 <= i < steps(s, platform).len() implies 0 <= (
    #[trigger] steps(s, platform)[i]).1 <= s.len() by {
        let a = anchor(s, platform);
        if i >= a.len() {
            assert(steps(s, platform)[i] == named(
                pieces,
                pieces.len() as int,
                rooted(s, platform),
                verbatim(s, platform),
                n,
            )[i - a.len()]);
        }
    }
}

proof fn run_end_bounds(s: Seq<char>, from: int, style: Style)
    requires
        0 <= from <= s.len(),
    ensures
        from <= run_end(s, from, style) <= s.len(),
    decreases s.len() - from,
{
    if from < s.len() && !separates(s[from], style) {
        run_end_bounds(s, from + 1, style);
    }
}

proof fn prefix_is_in_the_text(s: Seq<char>, platform: Platform)
    ensures
        0 <= prefix_len(s, platform) <= s.len(),
{
    let server = run_end(s, 2, Style::Both);
    if s.len() > 2 {
        run_end_bounds(s, 2, Style::Both);
        if server + 1 <= s.len() {
            run_end_bounds(s, server + 1, Style::Both);
        }
    }
    if s.len() >= 4 {
        run_end_bounds(s, 4, Style::Both);
        run_end_bounds(s, 4, Style::Backslash);
    }
    if s.len() >= 8 {
        run_end_bounds(s, 8, Style::Backslash);
        let server = run_end(s, 8, Style::Backslash);
        if server < s.len() {
            run_end_bounds(s, server + 1, Style::Backslash);
        }
    }
}

proof fn cut_ends_in_the_text(s: Seq<char>, style: Style)
    ensures
        forall|i: int|
            0 <= i < cut(s, style).len() ==> 0 <= (#[trigger] cut(s, style)[i]).1
                <= s.len(),
    decreases s.len(),
{
    if s.len() > 0 {
        cut_ends_in_the_text(s.drop_last(), style);
        cut_is_some(s.drop_last(), style);
        let before = cut(s.drop_last(), style);
        assert forall|i: int| 0 <= i < cut(s, style).len() implies 0 <= (
        #[trigger] cut(s, style)[i]).1 <= s.len() by {
            if i < before.len() {
                assert(0 <= before[i].1 <= s.len());
            }
        }
    }
}

proof fn named_ends_in_the_text(
    pieces: Seq<(Seq<char>, int)>,
    n: int,
    rooted: bool,
    dots: bool,
    offset: int,
    len: int,
)
    requires
        n <= pieces.len(),
        forall|i: int| 0 <= i < pieces.len() ==> 0 <= (#[trigger] pieces[i]).1 <= len,
    ensures
        forall|i: int|
            0 <= i < named(pieces, n, rooted, dots, offset).len() ==> offset <= (#[trigger] named(
                pieces,
                n,
                rooted,
                dots,
                offset,
            )[i]).1 <= offset + len,
    decreases n,
{
    if n > 0 {
        named_ends_in_the_text(pieces, n - 1, rooted, dots, offset, len);
        assert(0 <= pieces[n - 1].1 <= len);
        let before = named(pieces, n - 1, rooted, dots, offset);
        assert forall|i: int| 0 <= i < named(pieces, n, rooted, dots, offset).len() implies offset <= (
        #[trigger] named(pieces, n, rooted, dots, offset)[i]).1 <= offset + len by {
            if i < before.len() {
                assert(offset <= before[i].1 <= offset + len);
            }
        }
    }
}

pub fn parent(path: &str, platform: Platform) -> (r: Option<String>)
    ensures
        match r {
            Some(up) => parent_of(path@, platform) == Some(up@),
            None => parent_of(path@, platform) is None,
        },
{
    let s = text::chars_of(path);
    let found = read(path, platform);
    let ghost all = steps(path@, platform);
    assert(all.len() == found@.len());
    if found.len() == 0 {
        return None;
    }
    assert(all.last() == step_views(found@).last());
    match &found[found.len() - 1].part {
        Component::Root => {
            return None;
        },
        Component::Prefix(_) => {
            return None;
        },
        _ => {},
    }
    let end: usize = if found.len() == 1 {
        0
    } else {
        found[found.len() - 2].end
    };
    proof {
        steps_end_in_the_text(path@, platform);
        if found@.len() > 1 {
            assert(all[all.len() - 2] == step_views(found@)[all.len() - 2]);
        }
    }
    let up: String = text::string_of(&s[0..end]);
    assert(up@ =~= path@.take(end as int));
    Some(up)
}

/// The components of a verbatim path once the first `n` of another are followed from
/// it: a verbatim path has no `.` and no `..` that anything else would resolve.
pub open spec fn followed(base: Seq<Part>, rel: Seq<Part>, n: int) -> Seq<Part>
    decreases n,
{
    if n <= 0 {
        base
    } else {
        let before = followed(base, rel, n - 1);
        match rel[n - 1] {
            Part::Root => if before.len() > 1 {
                before.take(1).push(Part::Root)
            } else {
                before.push(Part::Root)
            },
            Part::Cur => before,
            Part::Parent => if before.len() > 0 && before.last() is Normal {
                before.drop_last()
            } else {
                before
            },
            part => before.push(part),
        }
    }
}

/// A component as it is written, what the path starts with being given.
pub open spec fn written(part: Part, start: Seq<char>) -> Seq<char> {
    match part {
        Part::Prefix(_) => start,
        Part::Root => seq!['\\'],
        Part::Cur => seq!['.'],
        Part::Parent => seq!['.', '.'],
        Part::Normal(name) => name,
    }
}

/// The first `n` components, written with backslashes between them.
pub open spec fn spelled(parts: Seq<Part>, n: int, start: Seq<char>) -> Seq<char>
    decreases n,
{
    if n <= 0 {
        seq![]
    } else {
        let before = spelled(parts, n - 1, start);
        let apart = n > 1 && !(parts[n - 1] is Root) && !(parts[n - 2] is Root);
        (if apart {
            before.push('\\')
        } else {
            before
        }) + written(parts[n - 1], start)
    }
}

/// A verbatim path followed by another that does not stand for itself.
pub open spec fn joined_verbatim(base: Seq<char>, rel: Seq<char>) -> Seq<char> {
    let p = Platform::Windows;
    let all = followed(parts(base, p), parts(rel, p), parts(rel, p).len() as int);
    spelled(all, all.len() as int, base.take(prefix_len(base, p)))
}

pub open spec fn part_views(v: Seq<Component>) -> Seq<Part> {
    v.map_values(|c: Component| c@)
}

fn components(path: &str, platform: Platform) -> (r: Vec<Component>)
    ensures
        part_views(r@) == parts(path@, platform),
{
    let found = read(path, platform);
    let ghost all = parts(path@, platform);
    let mut out: Vec<Component> = Vec::new();
    let mut i: usize = 0;
    while i < found.len()
        invariant
            i <= found.len(),
            step_views(found@) == steps(path@, platform),
            all == parts(path@, platform),
            out@.len() == i,
            forall|k: int| 0 <= k < i ==> (#[trigger] out@[k])@ == all[k],
        decreases found.len() - i,
    {
        assert(all[i as int] == step_views(found@)[i as int].0);
        let part: Component = match &found[i].part {
            Component::Prefix(s) => Component::Prefix(s.clone()),
            Component::Root => Component::Root,
            Component::Cur => Component::Cur,
            Component::Parent => Component::Parent,
            Component::Normal(s) => Component::Normal(s.clone()),
        };
        out.push(part);
        i = i + 1;
    }
    assert(part_views(out@) =~= all);
    out
}

fn join_verbatim(base: &str, rel: &str) -> (r: String)
    ensures
        r@ == joined_verbatim(base@, rel@),
{
    let platform: Platform = Platform::Windows;
    let chars = text::chars_of(base);
    let n: usize = prefix_len_of(&chars, platform);
    let start: String = text::string_of(&chars[0..n]);
    assert(start@ =~= base@.take(n as int));
    let ghost from = parts(base@, platform);
    let ghost to = parts(rel@, platform);
    let mut all: Vec<Component> = components(base, platform);
    let more = components(rel, platform);
    let mut i: usize = 0;
    while i < more.len()
        invariant
            i <= more.len(),
            part_views(more@) == to,
            part_views(all@) == followed(from, to, i as int),
        decreases more.len() - i,
    {
        let ghost before = part_views(all@);
        assert(to[i as int] == more@[i as int]@);
        match &more[i] {
            Component::Root => {
                if all.len() > 1 {
                    all.truncate(1);
                }
                all.push(Component::Root);
                assert(part_views(all@) =~= followed(from, to, i + 1));
            },
            Component::Cur => {},
            Component::Parent => {
                let up: bool = all.len() > 0 && matches!(all[all.len() - 1], Component::Normal(_));
                assert(up == (before.len() > 0 && before.last() is Normal));
                if up {
                    let _ = all.pop();
                    assert(part_views(all@) =~= before.drop_last());
                }
            },
            Component::Prefix(s) => {
                all.push(Component::Prefix(s.clone()));
                assert(part_views(all@) =~= before.push(to[i as int]));
            },
            Component::Normal(s) => {
                all.push(Component::Normal(s.clone()));
                assert(part_views(all@) =~= before.push(to[i as int]));
            },
        }
        i = i + 1;
    }
    let ghost whole = part_views(all@);
    let mut out: String = String::new();
    let mut k: usize = 0;
    assert(out@ =~= seq![]);
    while k < all.len()
        invariant
            k <= all.len(),
            whole == part_views(all@),
            out@ == spelled(whole, k as int, start@),
        decreases all.len() - k,
    {
        assert(whole[k as int] == all@[k as int]@);
        if k > 0 {
            assert(whole[k - 1] == all@[k - 1]@);
            if !matches!(all[k], Component::Root) && !matches!(all[k - 1], Component::Root) {
                out.push('\\');
            }
        }
        let ghost before = out@;
        match &all[k] {
            Component::Prefix(_) => out.append(&start),
            Component::Root => {
                out.push('\\');
                assert(out@ =~= before + seq!['\\']);
            },
            Component::Cur => {
                out.push('.');
                assert(out@ =~= before + seq!['.']);
            },
            Component::Parent => {
                out.push('.');
                out.push('.');
                assert(out@ =~= before + seq!['.', '.']);
            },
            Component::Normal(name) => out.append(name),
        }
        k = k + 1;
    }
    out
}

/// `base` followed by `rel`, unless `rel` stands for itself.
pub open spec fn joined(base: Seq<char>, rel: Seq<char>, platform: Platform) -> Seq<char> {
    if absolute(rel, platform) || prefix_len(rel, platform) > 0 {
        rel
    } else if verbatim(base, platform) && rel.len() > 0 {
        joined_verbatim(base, rel)
    } else if rooted(rel, platform) {
        base.take(prefix_len(base, platform)) + rel
    } else if base.len() == 0 || separates(
        base.last(),
        if platform == Platform::Windows {
            Style::Both
        } else {
            Style::Slash
        },
    ) || (drive(base) && platform
        == Platform::Windows && base.len() == 2) {
        base + rel
    } else {
        base.push(main_separator(platform)) + rel
    }
}

proof fn unseparated_is_one_piece(s: Seq<char>, style: Style)
    requires
        forall|i: int| 0 <= i < s.len() ==> !separates(#[trigger] s[i], style),
    ensures
        cut(s, style) == seq![(s, s.len() as int)],
    decreases s.len(),
{
    if s.len() > 0 {
        let front = s.drop_last();
        assert forall|i: int| 0 <= i < front.len() implies !separates(#[trigger] front[i], style) by {
            assert(front[i] == s[i]);
        }
        unseparated_is_one_piece(front, style);
        assert(!separates(s[s.len() - 1], style));
        assert(front.push(s.last()) =~= s);
        assert(cut(s, style) =~= seq![(s, s.len() as int)]);
    } else {
        assert(s =~= seq![]);
        assert(cut(s, style) =~= seq![(s, 0)]);
    }
}

/// A plain name joined to a path stands at the end of it.
pub proof fn plain_names_come_last(base: Seq<char>, name: Seq<char>, platform: Platform)
    requires
        name.len() > 2,
        forall|i: int|
            0 <= i < name.len() ==> (#[trigger] name[i]) != '/' && name[i] != '\\' && name[i] != ':',
    ensures
        joined(base, name, platform).len() >= name.len(),
        joined(base, name, platform).skip(
            joined(base, name, platform).len() - name.len(),
        ) == name,
{
    let r = joined(base, name, platform);
    assert(name[0] != '/' && name[1] != ':');
    assert(prefix_len(name, platform) == 0);
    assert(!rooted(name, platform));
    if verbatim(base, platform) {
        let p = Platform::Windows;
        unseparated_is_one_piece(name, Style::Both);
        assert(name.skip(0) =~= name);
        let pieces = cut(name, Style::Both);
        assert(named(pieces, 1, false, false, 0) =~= seq![(part_of(name), name.len() as int)]) by {
            assert(named(pieces, 0, false, false, 0) =~= seq![]);
        }
        assert(steps(name, p) =~= seq![(Part::Normal(name), name.len() as int)]);
        assert(parts(name, p) =~= seq![Part::Normal(name)]);
        let all = followed(parts(base, p), parts(name, p), 1);
        assert(followed(parts(base, p), parts(name, p), 0) == parts(base, p));
        assert(all =~= parts(base, p).push(Part::Normal(name)));
    }
    assert(r.skip(r.len() - name.len()) =~= name);
}

pub fn join(base: &str, rel: &str, platform: Platform) -> (r: String)
    ensures
        r@ == joined(base@, rel@, platform),
{
    let b = text::chars_of(base);
    let c = text::chars_of(rel);
    if is_absolute(rel, platform) || prefix_len_of(&c, platform) > 0 {
        return rel.to_string();
    }
    if matches!(platform, Platform::Windows) && is_marked_verbatim(&b) && c.len() > 0 {
        return join_verbatim(base, rel);
    }
    if is_rooted(&c, platform) {
        let n: usize = prefix_len_of(&b, platform);
        let front: String = text::string_of(&b[0..n]);
        assert(front@ =~= base@.take(n as int));
        return text::cat2(&front, rel);
    }
    let windows: bool = matches!(platform, Platform::Windows);
    let either: Style = if windows {
        Style::Both
    } else {
        Style::Slash
    };
    if b.len() == 0 || is_separator(b[b.len() - 1], either) || (has_drive(&b) && windows
        && b.len() == 2) {
        return text::cat2(base, rel);
    }
    let mut out: String = base.to_string();
    out.push(
        if windows {
            '\\'
        } else {
            '/'
        },
    );
    out.append(rel);
    assert(out@ =~= base@.push(main_separator(platform)) + rel@);
    out
}

/// Where the last `.` of a name stands; -1 where there is none.
pub open spec fn last_dot(name: Seq<char>) -> int
    decreases name.len(),
{
    if name.len() == 0 {
        -1
    } else if name.last() == '.' {
        name.len() - 1
    } else {
        last_dot(name.drop_last())
    }
}

/// How long a name is without its extension. A name that only begins with a `.`
/// has none.
pub open spec fn stem_len(name: Seq<char>) -> int {
    if last_dot(name) > 0 {
        last_dot(name)
    } else {
        name.len() as int
    }
}

/// The path with its last name's extension exchanged, or given one. A path that
/// does not end in a name stays as it is.
pub open spec fn extended(s: Seq<char>, ext: Seq<char>, platform: Platform) -> Seq<char> {
    match name_of(s, platform) {
        None => s,
        Some(name) => s.take(steps(s, platform).last().1 - name.len() + stem_len(name)).push('.')
            + ext,
    }
}

/// The path with an ending added to its last name; added to the whole where it does
/// not end in a name.
pub open spec fn suffixed(s: Seq<char>, ending: Seq<char>, platform: Platform) -> Seq<char> {
    match name_of(s, platform) {
        None => s + ending,
        Some(_) => s.take(steps(s, platform).last().1) + ending,
    }
}

proof fn cuts_end_at_separators(s: Seq<char>, style: Style)
    ensures
        cut(s, style).len() > 0,
        cut(s, style).last().1 == s.len(),
        forall|i: int|
            0 <= i < cut(s, style).len() - 1 ==> 0 <= (#[trigger] cut(s, style)[i]).1 < s.len()
                && separates(s[cut(s, style)[i].1], style),
    decreases s.len(),
{
    if s.len() > 0 {
        cuts_end_at_separators(s.drop_last(), style);
        let before = cut(s.drop_last(), style);
        assert forall|i: int| 0 <= i < cut(s, style).len() - 1 implies 0 <= (
        #[trigger] cut(s, style)[i]).1 < s.len() && separates(s[cut(s, style)[i].1], style) by {
            assert(cut(s, style)[i] == before[i]);
        }
    }
}

proof fn names_end_where_pieces_do(
    pieces: Seq<(Seq<char>, int)>,
    n: int,
    rooted: bool,
    dots: bool,
    offset: int,
)
    requires
        n <= pieces.len(),
    ensures
        forall|i: int|
            0 <= i < named(pieces, n, rooted, dots, offset).len() ==> exists|k: int|
                0 <= k < n && #[trigger] pieces[k].1 + offset == (#[trigger] named(
                    pieces,
                    n,
                    rooted,
                    dots,
                    offset,
                )[i]).1,
    decreases n,
{
    if n > 0 {
        names_end_where_pieces_do(pieces, n - 1, rooted, dots, offset);
        let before = named(pieces, n - 1, rooted, dots, offset);
        let all = named(pieces, n, rooted, dots, offset);
        assert forall|i: int| 0 <= i < all.len() implies exists|k: int|
            0 <= k < n && #[trigger] pieces[k].1 + offset == (#[trigger] all[i]).1 by {
            if i < before.len() {
                assert(all[i] == before[i]);
                let k = choose|k: int|
                    0 <= k < n - 1 && #[trigger] pieces[k].1 + offset == before[i].1;
                assert(pieces[k].1 + offset == all[i].1);
            } else {
                assert(pieces[n - 1].1 + offset == all[i].1);
            }
        }
    }
}

/// A path with an ending that does not start with a separator is another path.
pub proof fn suffixed_is_another(s: Seq<char>, ending: Seq<char>, platform: Platform)
    requires
        ending.len() > 0,
        ending[0] != '/',
        ending[0] != '\\',
    ensures
        suffixed(s, ending, platform) != s,
{
    if name_of(s, platform) is Some {
        let n = prefix_len(s, platform);
        let sep = style(s, platform);
        let body = s.skip(n);
        let pieces = cut(body, sep);
        let all = steps(s, platform);
        the_name_fits(s, platform);
        prefix_is_in_the_text(s, platform);
        cuts_end_at_separators(body, sep);
        names_end_where_pieces_do(
            pieces,
            pieces.len() as int,
            rooted(s, platform),
            verbatim(s, platform),
            n,
        );
        let back = named(
            pieces,
            pieces.len() as int,
            rooted(s, platform),
            verbatim(s, platform),
            n,
        );
        assert(parts(s, platform).last() == all.last().0);
        assert(back.len() > 0);
        assert(all.last() == back[back.len() - 1]);
        let k = choose|k: int|
            0 <= k < pieces.len() && #[trigger] pieces[k].1 + n == back[back.len() - 1].1;
        let end = all.last().1;
        let r = suffixed(s, ending, platform);
        assert(r[end] == ending[0]);
        if r == s {
            assert(r.len() == end + ending.len());
            assert(end < s.len());
            assert(k < pieces.len() - 1);
            assert(s[end] == body[pieces[k].1]);
        }
    } else {
        assert(suffixed(s, ending, platform).len() > s.len());
    }
}

/// A path beside the given one: with the extension exchanged, or, where that is the
/// same path, with the extension added.
pub open spec fn beside(s: Seq<char>, ext: Seq<char>, platform: Platform) -> Seq<char> {
    let other = extended(s, ext, platform);
    if parts(other, platform) != parts(s, platform) {
        other
    } else {
        suffixed(s, seq!['.'] + ext, platform)
    }
}

/// A path beside another is another.
pub proof fn beside_is_another(s: Seq<char>, ext: Seq<char>, platform: Platform)
    ensures
        beside(s, ext, platform) != s,
{
    suffixed_is_another(s, seq!['.'] + ext, platform);
}

pub fn place_beside(path: &str, ext: &str, platform: Platform) -> (r: String)
    ensures
        r@ == beside(path@, ext@, platform),
        r@ != path@,
{
    proof {
        beside_is_another(path@, ext@, platform);
    }
    let other: String = with_extension(path, ext, platform);
    if !same_path(&other, path, platform) {
        return other;
    }
    let mut ending: String = String::new();
    ending.push('.');
    ending.append(ext);
    assert(ending@ =~= seq!['.'] + ext@);
    with_suffix(path, &ending, platform)
}

pub fn with_suffix(path: &str, ending: &str, platform: Platform) -> (r: String)
    ensures
        r@ == suffixed(path@, ending@, platform),
{
    let found = read(path, platform);
    if file_name(path, platform).is_none() {
        return text::cat2(path, ending);
    }
    proof {
        the_name_fits(path@, platform);
        assert(parts(path@, platform).len() == found@.len());
        assert(steps(path@, platform).last() == step_views(found@).last());
    }
    let s = text::chars_of(path);
    let end: usize = found[found.len() - 1].end;
    let mut out: String = text::string_of(&s[0..end]);
    assert(out@ =~= path@.take(end as int));
    out.append(ending);
    out
}

proof fn pieces_fit_before_their_end(s: Seq<char>, style: Style)
    ensures
        forall|i: int|
            0 <= i < cut(s, style).len() ==> (#[trigger] cut(s, style)[i]).0.len() <= cut(
                s,
                style,
            )[i].1,
    decreases s.len(),
{
    if s.len() > 0 {
        pieces_fit_before_their_end(s.drop_last(), style);
        cut_is_some(s.drop_last(), style);
        cut_ends_in_the_text(s.drop_last(), style);
        let before = cut(s.drop_last(), style);
        assert forall|i: int| 0 <= i < cut(s, style).len() implies (
        #[trigger] cut(s, style)[i]).0.len() <= cut(s, style)[i].1 by {
            if i < before.len() {
                assert(before[i].0.len() <= before[i].1);
                assert(0 <= before[i].1 <= s.len() - 1);
            }
        }
    }
}

proof fn names_fit_before_their_end(
    pieces: Seq<(Seq<char>, int)>,
    n: int,
    rooted: bool,
    dots: bool,
    offset: int,
)
    requires
        n <= pieces.len(),
        forall|i: int| 0 <= i < pieces.len() ==> (#[trigger] pieces[i]).0.len() <= pieces[i].1,
    ensures
        forall|i: int|
            0 <= i < named(pieces, n, rooted, dots, offset).len() ==> ((#[trigger] named(
                pieces,
                n,
                rooted,
                dots,
                offset,
            )[i]).0 matches Part::Normal(name) ==> offset + name.len() <= named(
                pieces,
                n,
                rooted,
                dots,
                offset,
            )[i].1),
    decreases n,
{
    if n > 0 {
        names_fit_before_their_end(pieces, n - 1, rooted, dots, offset);
        assert(pieces[n - 1].0.len() <= pieces[n - 1].1);
    }
}

/// The last name stands in the text, before the end of the last component.
proof fn the_name_fits(s: Seq<char>, platform: Platform)
    requires
        name_of(s, platform) is Some,
    ensures
        0 <= name_of(s, platform)->0.len() <= steps(s, platform).last().1 <= s.len(),
{
    let n = prefix_len(s, platform);
    let pieces = cut(s.skip(n), style(s, platform));
    let all = steps(s, platform);
    prefix_is_in_the_text(s, platform);
    pieces_fit_before_their_end(s.skip(n), style(s, platform));
    names_fit_before_their_end(pieces, pieces.len() as int, rooted(s, platform), verbatim(s, platform), n);
    steps_end_in_the_text(s, platform);
    assert(parts(s, platform).last() == all.last().0);
    assert(0 <= all[all.len() - 1].1 <= s.len());
    let back = named(pieces, pieces.len() as int, rooted(s, platform), verbatim(s, platform), n);
    assert(back.len() > 0);
    assert(all.last() == back[back.len() - 1]);
}

proof fn last_dot_is_in_the_name(name: Seq<char>)
    ensures
        -1 <= last_dot(name) < name.len(),
    decreases name.len(),
{
    if name.len() > 0 && name.last() != '.' {
        last_dot_is_in_the_name(name.drop_last());
    }
}

pub fn with_extension(path: &str, ext: &str, platform: Platform) -> (r: String)
    ensures
        r@ == extended(path@, ext@, platform),
{
    let found = read(path, platform);
    let name: String = match file_name(path, platform) {
        None => {
            return path.to_string();
        },
        Some(name) => name,
    };
    proof {
        the_name_fits(path@, platform);
        assert(parts(path@, platform).len() == found@.len());
        assert(steps(path@, platform).last() == step_views(found@).last());
        last_dot_is_in_the_name(name@);
    }
    let s = text::chars_of(path);
    let n = text::chars_of(&name);
    let mut dot: usize = n.len();
    assert(n@.take(n.len() as int) =~= n@);
    while dot > 0 && n[dot - 1] != '.'
        invariant
            n@ == name@,
            dot <= n.len(),
            last_dot(n@.take(dot as int)) == last_dot(name@),
        decreases dot,
    {
        assert(n@.take(dot as int).drop_last() =~= n@.take(dot - 1));
        dot = dot - 1;
    }
    assert(dot > 0 ==> last_dot(n@.take(dot as int)) == dot - 1);
    // `dot` counts the last `.` in: a name is cut where something stands before it.
    let stem: usize = if dot > 1 {
        dot - 1
    } else {
        n.len()
    };
    let end: usize = found[found.len() - 1].end - (n.len() - stem);
    let mut out: String = text::string_of(&s[0..end]);
    assert(out@ =~= path@.take(end as int));
    out.push('.');
    out.append(ext);
    out
}

} // verus!
