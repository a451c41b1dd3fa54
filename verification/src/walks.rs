//! How paths are put together and taken apart again: what joining, naming, climbing and
//! changing an extension have to do with one another.
use vstd::prelude::*;

use crate::path;
use crate::path::{Part, Platform, Style};

verus! {

/// Whether a text is a path that a name can be put behind: on Unix any that is not empty,
/// on Windows one that starts with a drive and says more than that.
pub open spec fn walkable(s: Seq<char>, platform: Platform) -> bool {
    if platform == Platform::Windows {
        s.len() > 2 && ('a' <= s[0] <= 'z' || 'A' <= s[0] <= 'Z') && s[1] == ':'
    } else {
        s.len() > 0
    }
}

/// Whether a character parts names.
pub open spec fn parting(c: char, platform: Platform) -> bool {
    c == '/' || (c == '\\' && platform == Platform::Windows)
}

/// Whether a text is one name: not empty, nothing in it that parts names, and neither `.`
/// nor `..`.
pub open spec fn plain(name: Seq<char>, platform: Platform) -> bool {
    &&& unparted(name, platform)
    &&& name != seq!['.']
    &&& name != seq!['.', '.']
}

/// Whether a text is not empty, with nothing in it that parts names.
pub open spec fn unparted(name: Seq<char>, platform: Platform) -> bool {
    &&& name.len() > 0
    &&& forall|i: int| 0 <= i < name.len() ==> !parting(#[trigger] name[i], platform)
}

/// A path, something that parts names, and a text.
pub open spec fn behind(s: Seq<char>, sep: char, name: Seq<char>) -> Seq<char> {
    s.push(sep) + name
}

proof fn cut_behind(s: Seq<char>, sep: char, name: Seq<char>, style: Style)
    requires
        path::separates(sep, style),
        forall|i: int| 0 <= i < name.len() ==> !path::separates(#[trigger] name[i], style),
    ensures
        path::cut(behind(s, sep, name), style) == path::cut(s, style).push(
            (name, behind(s, sep, name).len() as int),
        ),
    decreases name.len(),
{
    let t = behind(s, sep, name);
    if name.len() == 0 {
        assert(t.drop_last() =~= s);
        assert(name =~= seq![]);
    } else {
        let front = name.drop_last();
        assert forall|i: int| 0 <= i < front.len() implies !path::separates(
            #[trigger] front[i],
            style,
        ) by {
            assert(front[i] == name[i]);
        }
        cut_behind(s, sep, front, style);
        assert(t.drop_last() =~= behind(s, sep, front));
        assert(front.push(name.last()) =~= name);
        assert(t.last() == name[name.len() - 1]);
        let before = path::cut(t.drop_last(), style);
        assert(before.update(before.len() - 1, (name, t.len() as int)) =~= path::cut(s, style).push(
            (name, t.len() as int),
        ));
    }
}

proof fn named_looks_no_further(
    pieces: Seq<(Seq<char>, int)>,
    more: (Seq<char>, int),
    n: int,
    rooted: bool,
    dots: bool,
    offset: int,
)
    requires
        n <= pieces.len(),
    ensures
        path::named(pieces.push(more), n, rooted, dots, offset) == path::named(
            pieces,
            n,
            rooted,
            dots,
            offset,
        ),
    decreases n,
{
    if n > 0 {
        named_looks_no_further(pieces, more, n - 1, rooted, dots, offset);
    }
}

proof fn cut_has_some(s: Seq<char>, style: Style)
    ensures
        path::cut(s, style).len() > 0,
    decreases s.len(),
{
    if s.len() > 0 {
        cut_has_some(s.drop_last(), style);
    }
}

proof fn steps_behind(s: Seq<char>, sep: char, name: Seq<char>, platform: Platform)
    requires
        walkable(s, platform),
        parting(sep, platform),
        unparted(name, platform),
    ensures
        path::steps(behind(s, sep, name), platform) == if name == seq!['.'] {
            path::steps(s, platform)
        } else {
            path::steps(s, platform).push(
                (path::part_of(name), behind(s, sep, name).len() as int),
            )
        },
{
    let t = behind(s, sep, name);
    let n = path::prefix_len(s, platform);
    let style = path::style(s, platform);
    assert(t[0] == s[0]);
    if platform == Platform::Windows {
        assert(t[1] == s[1] && t[2] == s[2]);
        assert(path::drive(s) && path::drive(t));
    }
    assert(path::prefix_len(t, platform) == n);
    assert(path::style(t, platform) == style);
    assert(t[n] == s[n]);
    let a = s.skip(n);
    assert(t.skip(n) =~= behind(a, sep, name));
    assert forall|i: int| 0 <= i < name.len() implies !path::separates(
        #[trigger] name[i],
        style,
    ) by {
        assert(!parting(name[i], platform));
    }
    cut_behind(a, sep, name, style);
    cut_has_some(a, style);
    let pieces = path::cut(a, style);
    let last = (name, behind(a, sep, name).len() as int);
    named_looks_no_further(
        pieces,
        last,
        pieces.len() as int,
        path::rooted(s, platform),
        path::verbatim(s, platform),
        n,
    );
    assert(path::anchor(t, platform) =~= path::anchor(s, platform));
    let back = path::named(
        pieces,
        pieces.len() as int,
        path::rooted(s, platform),
        path::verbatim(s, platform),
        n,
    );
    assert(pieces.push(last)[pieces.len() as int] == last);
    if name != seq!['.'] {
        assert(path::steps(t, platform) =~= path::steps(s, platform).push(
            (path::part_of(name), t.len() as int),
        ));
    }
}

proof fn dots_are_told(name: Seq<char>)
    ensures
        seq!['.', '.'] != seq!['.'],
        name == seq!['.', '.'] ==> path::part_of(name) == Part::Parent,
        name != seq!['.'] && name != seq!['.', '.'] ==> path::part_of(name) == Part::Normal(name),
{
    assert(seq!['.', '.'].len() == 2 && seq!['.'].len() == 1);
}

/// Putting a name behind a path takes it one component further in: a plain name is that
/// name, `..` climbs, and `.` is passed over. Every component before it stays.
pub proof fn names_lead_further_in(s: Seq<char>, sep: char, name: Seq<char>, platform: Platform)
    requires
        walkable(s, platform),
        parting(sep, platform),
        unparted(name, platform),
    ensures
        ({
            let t = path::parts(behind(s, sep, name), platform);
            &&& plain(name, platform) ==> t == path::parts(s, platform).push(Part::Normal(name))
            &&& name == seq!['.', '.'] ==> t == path::parts(s, platform).push(Part::Parent)
            &&& name == seq!['.'] ==> t == path::parts(s, platform)
        }),
{
    steps_behind(s, sep, name, platform);
    dots_are_told(name);
    let t = path::parts(behind(s, sep, name), platform);
    if name != seq!['.'] {
        assert(t =~= path::parts(s, platform).push(path::part_of(name)));
    }
}

/// What lies behind a path is below it, and the name put there is the name of the whole.
pub proof fn what_is_behind_is_below(s: Seq<char>, sep: char, name: Seq<char>, platform: Platform)
    requires
        walkable(s, platform),
        parting(sep, platform),
        plain(name, platform),
    ensures
        path::below(behind(s, sep, name), s, platform),
        !path::below(s, behind(s, sep, name), platform),
        path::name_of(behind(s, sep, name), platform) == Some(name),
        path::climbs(behind(s, sep, name), platform) <==> path::climbs(s, platform),
        path::climbs(behind(s, sep, seq!['.', '.']), platform),
{
    names_lead_further_in(s, sep, name, platform);
    let p = path::parts(s, platform);
    let t = path::parts(behind(s, sep, name), platform);
    assert(p =~= t.subrange(0, p.len() as int));
    assert(t[p.len() as int] == Part::Normal(name));
    if path::climbs(s, platform) {
        let i = choose|i: int| 0 <= i < p.len() && #[trigger] p[i] is Parent;
        assert(t[i] is Parent);
    }
    if path::climbs(behind(s, sep, name), platform) {
        let i = choose|i: int| 0 <= i < t.len() && #[trigger] t[i] is Parent;
        assert(i < p.len());
        assert(p[i] is Parent);
    }
    let dots = seq!['.', '.'];
    assert(unparted(dots, platform));
    names_lead_further_in(s, sep, dots, platform);
    let u = path::parts(behind(s, sep, dots), platform);
    assert(u[p.len() as int] is Parent);
}

/// Going up undoes going in: the parent of a path to a name behind another name is the path
/// to that other name.
pub proof fn going_up_undoes_going_in(
    s: Seq<char>,
    first: char,
    inner: Seq<char>,
    second: char,
    name: Seq<char>,
    platform: Platform,
)
    requires
        walkable(s, platform),
        parting(first, platform),
        parting(second, platform),
        plain(inner, platform),
        plain(name, platform),
    ensures
        path::parent_of(behind(behind(s, first, inner), second, name), platform) == Some(
            behind(s, first, inner),
        ),
{
    let b = behind(s, first, inner);
    let t = behind(b, second, name);
    assert(b[0] == s[0]);
    if platform == Platform::Windows {
        assert(b[1] == s[1]);
    }
    steps_behind(s, first, inner, platform);
    steps_behind(b, second, name, platform);
    dots_are_told(name);
    let all = path::steps(t, platform);
    assert(all[all.len() - 2] == path::steps(b, platform).last());
    assert(t.take(b.len() as int) =~= b);
}

/// Nothing is above a root, and what lies at a root, or nowhere, has that above it.
pub proof fn roots_have_nothing_above(name: Seq<char>, platform: Platform)
    requires
        platform != Platform::Windows,
        plain(name, platform),
    ensures
        path::parts(seq!['/'], platform) == seq![Part::Root],
        path::parent_of(seq!['/'], platform) is None,
        path::parts(Seq::<char>::empty(), platform) == Seq::<Part>::empty(),
        path::parent_of(Seq::<char>::empty(), platform) is None,
        path::parts(seq!['/'] + name, platform) == seq![Part::Root, Part::Normal(name)],
        path::parent_of(seq!['/'] + name, platform) == Some(seq!['/']),
        path::name_of(seq!['/'] + name, platform) == Some(name),
        path::parts(name, platform) == seq![Part::Normal(name)],
        path::parent_of(name, platform) == Some(Seq::<char>::empty()),
        path::name_of(name, platform) == Some(name),
        path::name_of(seq!['/'], platform) is None,
{
    let none = Seq::<char>::empty();
    let root = seq!['/'];
    let style = Style::Slash;
    dots_are_told(name);
    assert forall|i: int| 0 <= i < name.len() implies !path::separates(
        #[trigger] name[i],
        style,
    ) by {
        assert(!parting(name[i], platform));
    }
    // The empty path.
    assert(none.skip(0) =~= none);
    assert(path::cut(none, style) =~= seq![(none, 0int)]);
    reveal_with_fuel(path::named, 4);
    assert(path::steps(none, platform) =~= seq![]);
    assert(path::parts(none, platform) =~= seq![]);
    // The root.
    assert(behind(none, '/', none) =~= root);
    cut_behind(none, '/', none, style);
    assert(root.skip(0) =~= root);
    assert(path::cut(root, style) =~= seq![(none, 0int), (none, 1int)]);
    assert(path::steps(root, platform) =~= seq![(Part::Root, 1int)]);
    assert(path::parts(root, platform) =~= seq![Part::Root]);
    // A name at the root.
    let t = root + name;
    assert(behind(none, '/', name) =~= t);
    cut_behind(none, '/', name, style);
    assert(t.skip(0) =~= t);
    assert(t[0] == '/');
    assert(path::cut(t, style) =~= seq![(none, 0int), (name, t.len() as int)]);
    assert(path::steps(t, platform) =~= seq![
        (Part::Root, 1int),
        (Part::Normal(name), t.len() as int),
    ]);
    assert(path::parts(t, platform) =~= seq![Part::Root, Part::Normal(name)]);
    assert(t.take(1) =~= root);
    // A name alone.
    cut_alone(name, style);
    assert(name.skip(0) =~= name);
    assert(!parting(name[0], platform));
    assert(path::steps(name, platform) =~= seq![(Part::Normal(name), name.len() as int)]);
    assert(path::parts(name, platform) =~= seq![Part::Normal(name)]);
    assert(name.take(0) =~= none);
}

proof fn cut_alone(s: Seq<char>, style: Style)
    requires
        forall|i: int| 0 <= i < s.len() ==> !path::separates(#[trigger] s[i], style),
    ensures
        path::cut(s, style) == seq![(s, s.len() as int)],
    decreases s.len(),
{
    if s.len() > 0 {
        let front = s.drop_last();
        assert forall|i: int| 0 <= i < front.len() implies !path::separates(
            #[trigger] front[i],
            style,
        ) by {
            assert(front[i] == s[i]);
        }
        cut_alone(front, style);
        assert(front.push(s.last()) =~= s);
        assert(path::cut(s, style) =~= seq![(s, s.len() as int)]);
    } else {
        assert(s =~= seq![]);
    }
}

/// On Unix a path is absolute where it starts with a slash. On Windows a drive must be
/// named, or a share, and after a drive the path must start at its root.
pub proof fn absolute_paths_say_where_they_start(s: Seq<char>, platform: Platform)
    ensures
        platform != Platform::Windows ==> (path::absolute(s, platform) <==> s.len() > 0 && s[0]
            == '/'),
        platform == Platform::Windows && s.len() > 0 && ('a' <= s[0] <= 'z' || 'A' <= s[0] <= 'Z')
            ==> (path::absolute(s, platform) <==> s.len() > 2 && s[1] == ':' && (s[2] == '/' || s[2]
            == '\\')),
        platform == Platform::Windows && (s.len() < 2 || !(s[0] == '/' || s[0] == '\\')) && !(
        s.len() >= 2 && s[1] == ':') ==> !path::absolute(s, platform),
{
}

/// Joining keeps an absolute path as it is. Any other is put behind the base, with one
/// separator between the two where the base does not end with one.
pub proof fn joining_puts_behind(base: Seq<char>, rel: Seq<char>, platform: Platform)
    ensures
        path::absolute(rel, platform) ==> path::joined(base, rel, platform) == rel,
        platform != Platform::Windows && !(rel.len() > 0 && rel[0] == '/') ==> path::joined(
            base,
            rel,
            platform,
        ) == if base.len() == 0 || base.last() == '/' {
            base + rel
        } else {
            behind(base, '/', rel)
        },
        platform == Platform::Windows && walkable(base, platform) && unparted(rel, platform) && !(
        rel.len() > 1 && rel[1] == ':') ==> path::joined(base, rel, platform) == if base.last()
            == '/' || base.last() == '\\' {
            base + rel
        } else {
            behind(base, '\\', rel)
        },
{
    if platform == Platform::Windows && unparted(rel, platform) {
        assert(!parting(rel[0], platform));
    }
}

/// A plain name that is joined to a path is the name of the result, and one component more.
pub proof fn joined_names_lead_further_in(base: Seq<char>, name: Seq<char>, platform: Platform)
    requires
        walkable(base, platform),
        !parting(base.last(), platform),
        plain(name, platform),
        platform == Platform::Windows ==> !(name.len() > 1 && name[1] == ':'),
    ensures
        path::parts(path::joined(base, name, platform), platform) == path::parts(
            base,
            platform,
        ).push(Part::Normal(name)),
        path::name_of(path::joined(base, name, platform), platform) == Some(name),
        path::below(path::joined(base, name, platform), base, platform),
{
    assert(!parting(name[0], platform));
    joining_puts_behind(base, name, platform);
    let sep = if platform == Platform::Windows {
        '\\'
    } else {
        '/'
    };
    names_lead_further_in(base, sep, name, platform);
    what_is_behind_is_below(base, sep, name, platform);
}

/// The case of a drive's letter does not matter.
pub proof fn drives_are_the_same_in_either_case(rest: Seq<char>)
    ensures
        path::parts(seq!['C', ':'] + rest, Platform::Windows) == path::parts(
            seq!['c', ':'] + rest,
            Platform::Windows,
        ),
{
    let a = seq!['C', ':'] + rest;
    let b = seq!['c', ':'] + rest;
    assert(a[0] == 'C' && a[1] == ':' && b[0] == 'c' && b[1] == ':');
    assert(a.skip(2) =~= rest);
    assert(b.skip(2) =~= rest);
    assert(path::drive(a) && path::drive(b));
    assert(('C' as u32 + 32) as char == 'c');
    assert(path::anchor(a, Platform::Windows) =~= path::anchor(b, Platform::Windows)) by {
        if rest.len() > 0 {
            assert(a[2] == rest[0] && b[2] == rest[0]);
        }
    }
}

proof fn the_last_dot_is_found(stem: Seq<char>, old: Seq<char>)
    requires
        forall|i: int| 0 <= i < old.len() ==> #[trigger] old[i] != '.',
    ensures
        path::last_dot(stem.push('.') + old) == stem.len(),
    decreases old.len(),
{
    let name = stem.push('.') + old;
    if old.len() == 0 {
        assert(name.last() == '.');
    } else {
        let front = old.drop_last();
        assert forall|i: int| 0 <= i < front.len() implies #[trigger] front[i] != '.' by {
            assert(front[i] == old[i]);
        }
        the_last_dot_is_found(stem, front);
        assert(name.drop_last() =~= stem.push('.') + front);
        assert(name.last() == old[old.len() - 1]);
    }
}

proof fn no_dot_is_found(name: Seq<char>)
    requires
        forall|i: int| 0 <= i < name.len() ==> #[trigger] name[i] != '.',
    ensures
        path::last_dot(name) == -1,
    decreases name.len(),
{
    if name.len() > 0 {
        let front = name.drop_last();
        assert forall|i: int| 0 <= i < front.len() implies #[trigger] front[i] != '.' by {
            assert(front[i] == name[i]);
        }
        assert(name.last() == name[name.len() - 1]);
        no_dot_is_found(front);
    }
}

/// An extension takes the place of the one that is there, and of nothing more: the path
/// before the name and the name up to its last dot stay.
pub proof fn extensions_are_exchanged(
    s: Seq<char>,
    sep: char,
    stem: Seq<char>,
    old: Seq<char>,
    ext: Seq<char>,
    platform: Platform,
)
    requires
        walkable(s, platform),
        parting(sep, platform),
        stem.len() > 0,
        plain(stem.push('.') + old, platform),
        forall|i: int| 0 <= i < old.len() ==> #[trigger] old[i] != '.',
    ensures
        path::extended(behind(s, sep, stem.push('.') + old), ext, platform) == behind(
            s,
            sep,
            stem.push('.') + ext,
        ),
{
    let name = stem.push('.') + old;
    let t = behind(s, sep, name);
    steps_behind(s, sep, name, platform);
    names_lead_further_in(s, sep, name, platform);
    dots_are_told(name);
    the_last_dot_is_found(stem, old);
    assert(t.take(t.len() - name.len() + stem.len()).push('.') + ext =~= behind(
        s,
        sep,
        stem.push('.') + ext,
    ));
}

/// A name without an extension is given one, and an ending is put behind the name whatever
/// it ends with.
pub proof fn extensions_and_endings_are_added(
    s: Seq<char>,
    sep: char,
    name: Seq<char>,
    ext: Seq<char>,
    platform: Platform,
)
    requires
        walkable(s, platform),
        parting(sep, platform),
        plain(name, platform),
    ensures
        (forall|i: int| 0 <= i < name.len() ==> #[trigger] name[i] != '.') ==> path::extended(
            behind(s, sep, name),
            ext,
            platform,
        ) == behind(s, sep, name).push('.') + ext,
        path::suffixed(behind(s, sep, name), ext, platform) == behind(s, sep, name) + ext,
{
    let t = behind(s, sep, name);
    steps_behind(s, sep, name, platform);
    names_lead_further_in(s, sep, name, platform);
    dots_are_told(name);
    assert(t.take(t.len() as int) =~= t);
    if forall|i: int| 0 <= i < name.len() ==> #[trigger] name[i] != '.' {
        no_dot_is_found(name);
    }
}

/// A path beside another is in the same directory: only the name differs, by the extension.
pub proof fn beside_is_in_the_same_directory(
    s: Seq<char>,
    sep: char,
    stem: Seq<char>,
    old: Seq<char>,
    ext: Seq<char>,
    platform: Platform,
)
    requires
        walkable(s, platform),
        parting(sep, platform),
        stem.len() > 0,
        plain(stem.push('.') + old, platform),
        plain(stem.push('.') + ext, platform),
        forall|i: int| 0 <= i < old.len() ==> #[trigger] old[i] != '.',
    ensures
        path::beside(behind(s, sep, stem.push('.') + old), ext, platform) == if old == ext {
            behind(s, sep, stem.push('.') + old).push('.') + ext
        } else {
            behind(s, sep, stem.push('.') + ext)
        },
{
    let name = stem.push('.') + old;
    let other = stem.push('.') + ext;
    let t = behind(s, sep, name);
    extensions_are_exchanged(s, sep, stem, old, ext, platform);
    names_lead_further_in(s, sep, name, platform);
    names_lead_further_in(s, sep, other, platform);
    extensions_and_endings_are_added(s, sep, name, seq!['.'] + ext, platform);
    assert(t + (seq!['.'] + ext) =~= t.push('.') + ext);
    if old != ext {
        if name == other {
            assert(old =~= name.skip(stem.len() as int + 1));
            assert(ext =~= other.skip(stem.len() as int + 1));
        }
        let p = path::parts(s, platform);
        assert(p.push(Part::Normal(name))[p.len() as int] != p.push(Part::Normal(other))[p.len() as int]);
    }
}

} // verus!
