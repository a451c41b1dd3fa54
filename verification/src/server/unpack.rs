//! What may come out of an archive. Archives are not to be trusted: a link in one
//! must not lead out of the directory that it is unpacked into.
use vstd::prelude::*;

use crate::path::{Component, Part, Platform};
use crate::{path, text};

verus! {

/// How deep the first `n` components lead: names in, `..` out.
pub open spec fn depth(parts: Seq<Part>, n: int) -> int
    decreases n,
{
    if n <= 0 {
        0
    } else {
        depth(parts, n - 1) + match parts[n - 1] {
            Part::Normal(_) => 1int,
            Part::Parent => -1int,
            _ => 0int,
        }
    }
}

/// Whether a path leaves the directory that it is relative to on the way: by more
/// `..` than names before them, or by starting elsewhere.
pub open spec fn leaves(parts: Seq<Part>, n: int) -> bool {
    exists|i: int|
        0 < i <= n && (depth(parts, i) < 0 || (#[trigger] parts[i - 1]) is Root || parts[i - 1]
            is Prefix)
}

/// Whether a path climbs out of the directory that it is relative to. Only the text
/// is looked at, so this holds of paths that do not exist yet too.
pub fn escapes(path: &str, platform: Platform) -> (r: bool)
    ensures
        r == leaves(path::parts(path@, platform), path::parts(path@, platform).len() as int),
{
    let found = path::read(path, platform);
    let ghost parts = path::parts(path@, platform);
    assert(parts.len() == found@.len());
    let mut inside: usize = 0;
    let mut i: usize = 0;
    while i < found.len()
        invariant
            i <= found.len(),
            parts == path::parts(path@, platform),
            parts.len() == found@.len(),
            path::step_views(found@) == path::steps(path@, platform),
            inside == depth(parts, i as int),
            inside <= i,
            !leaves(parts, i as int),
        decreases found.len() - i,
    {
        assert(parts[i as int] == path::step_views(found@)[i as int].0);
        assert(parts[i + 1 - 1] == parts[i as int]);
        assert(depth(parts, i + 1) == depth(parts, i as int) + match parts[i as int] {
            Part::Normal(_) => 1int,
            Part::Parent => -1int,
            _ => 0int,
        });
        match &found[i].part {
            Component::Parent => {
                if inside == 0 {
                    return true;
                }
                inside = inside - 1;
            },
            Component::Normal(_) => {
                inside = inside + 1;
            },
            Component::Cur => {},
            Component::Root => {
                return true;
            },
            Component::Prefix(_) => {
                return true;
            },
        }
        i = i + 1;
        proof {
            assert(!leaves(parts, i as int)) by {
                if leaves(parts, i as int) {
                    let k = choose|k: int|
                        0 < k <= i && (depth(parts, k) < 0 || (#[trigger] parts[k - 1]) is Root
                            || parts[k - 1] is Prefix);
                    if k < i {
                        assert(leaves(parts, i - 1));
                    }
                }
            }
        }
    }
    false
}

/// Where a link leads: its target, seen from the directory of the link.
pub open spec fn link_path(member: Seq<char>, target: Seq<char>, platform: Platform) -> Seq<char> {
    path::joined(
        match path::parent_of(member, platform) {
            Some(dir) => dir,
            None => seq![],
        },
        target,
        platform,
    )
}

/// Whether a text is an absolute path on a drive, as Windows spells it. It is one
/// nowhere else, and yet no link in an archive has any business there.
pub open spec fn on_a_drive(s: Seq<char>) -> bool {
    path::drive(s) && s.len() > 2 && s[2] == '\\'
}

fn is_on_a_drive(s: &str) -> (r: bool)
    ensures
        r == on_a_drive(s@),
{
    let chars = text::chars_of(s);
    path::starts_with_drive(s) && chars.len() > 2 && chars[2] == '\\'
}

/// Whether a link leads out of the archive: from its own directory, or to a drive.
pub open spec fn link_leaves(member: Seq<char>, target: Seq<char>, platform: Platform) -> bool {
    let parts = path::parts(link_path(member, target, platform), platform);
    on_a_drive(target) || leaves(parts, parts.len() as int)
}

pub fn link_escapes(member: &str, target: &str, platform: Platform) -> (r: bool)
    ensures
        r == link_leaves(member@, target@, platform),
{
    let dir: String = match path::parent(member, platform) {
        Some(dir) => dir,
        None => String::new(),
    };
    assert(path::parent_of(member@, platform) is None ==> dir@ =~= seq![]);
    is_on_a_drive(target) || escapes(&path::join(&dir, target, platform), platform)
}

/// Whether an entry of an archive may be unpacked; a link must not lead out of it.
pub fn check_entry(member: &str, link: Option<&str>, platform: Platform) -> (r: Result<
    (),
    String,
>)
    ensures
        match link {
            Some(target) => if link_leaves(member@, target@, platform) {
                r matches Err(e) && e@ == "link '"@ + member@ + "' -> '"@ + target@
                    + "' points outside the archive"@
            } else {
                r is Ok
            },
            None => r is Ok,
        },
{
    if let Some(target) = link {
        if link_escapes(member, target, platform) {
            return Err(
                text::cat5("link '", member, "' -> '", target, "' points outside the archive"),
            );
        }
    }
    Ok(())
}

/// What is said of an entry that the unpacking itself refused to place.
pub fn check_placed(member: &str, placed: bool) -> (r: Result<(), String>)
    ensures
        placed ==> r is Ok,
        !placed ==> (r matches Err(e) && e@ == "entry '"@ + member@
            + "' escapes the destination"@),
{
    if placed {
        Ok(())
    } else {
        Err(text::cat3("entry '", member, "' escapes the destination"))
    }
}

/// What is said of an entry of a zip archive whose name leads out of it.
pub fn check_enclosed(name: &str, enclosed: bool) -> (r: Result<(), String>)
    ensures
        enclosed ==> r is Ok,
        !enclosed ==> (r matches Err(e) && e@ == "zip entry '"@ + name@
            + "' escapes the destination"@),
{
    if enclosed {
        Ok(())
    } else {
        Err(text::cat3("zip entry '", name, "' escapes the destination"))
    }
}

/// Where one ends up from a directory by following the first `n` components, each
/// of them a directory's name.
pub open spec fn followed(base: Seq<Seq<char>>, parts: Seq<Part>, n: int) -> Seq<Seq<char>>
    decreases n,
{
    if n <= 0 {
        base
    } else {
        let at = followed(base, parts, n - 1);
        match parts[n - 1] {
            Part::Normal(name) => at.push(name),
            Part::Parent => if at.len() == 0 {
                at
            } else {
                at.drop_last()
            },
            Part::Cur => at,
            Part::Root => seq![],
            Part::Prefix(_) => seq![],
        }
    }
}

/// A path that does not climb out stays in: from whatever directory it is followed,
/// and however far, one is still below that directory.
pub proof fn what_does_not_escape_stays_inside(base: Seq<Seq<char>>, parts: Seq<Part>, n: int)
    requires
        0 <= n <= parts.len(),
        !leaves(parts, parts.len() as int),
    ensures
        base.is_prefix_of(followed(base, parts, n)),
        followed(base, parts, n).len() == base.len() + depth(parts, n),
        depth(parts, n) >= 0,
    decreases n,
{
    if n > 0 {
        what_does_not_escape_stays_inside(base, parts, n - 1);
        assert(!(parts[n - 1] is Root) && !(parts[n - 1] is Prefix) && depth(parts, n) >= 0) by {
            if parts[n - 1] is Root || parts[n - 1] is Prefix || depth(parts, n) < 0 {
                assert(leaves(parts, parts.len() as int));
            }
        }
        let at = followed(base, parts, n - 1);
        let now = followed(base, parts, n);
        assert(base =~= now.subrange(0, base.len() as int)) by {
            assert(base == at.subrange(0, base.len() as int));
            assert forall|i: int| 0 <= i < base.len() implies base[i] == now[i] by {
                assert(at.subrange(0, base.len() as int)[i] == at[i]);
            }
        }
    }
}

/// A path that starts at a root, or climbs at once, leaves; one of names only stays, and so
/// does one that climbs no further than it went in.
pub proof fn climbing_out_is_noticed(parts: Seq<Part>, name: Seq<char>)
    ensures
        parts.len() > 0 && (parts[0] is Root || parts[0] is Prefix || parts[0] is Parent) ==> leaves(
            parts,
            parts.len() as int,
        ),
        (forall|i: int| 0 <= i < parts.len() ==> (#[trigger] parts[i]) is Normal) ==> !leaves(
            parts,
            parts.len() as int,
        ),
        !leaves(seq![Part::Normal(name), Part::Parent], 2),
        leaves(seq![Part::Normal(name), Part::Parent, Part::Parent], 3),
        !leaves(seq![], 0),
{
    if parts.len() > 0 && (parts[0] is Root || parts[0] is Prefix || parts[0] is Parent) {
        assert(depth(parts, 0) == 0);
        assert(parts[1 - 1] == parts[0]);
        assert(depth(parts, 1) == depth(parts, 0) + match parts[0] {
            Part::Normal(_) => 1int,
            Part::Parent => -1int,
            _ => 0int,
        });
    }
    if forall|i: int| 0 <= i < parts.len() ==> (#[trigger] parts[i]) is Normal {
        assert forall|i: int| 0 < i <= parts.len() implies depth(parts, i) >= 0 && (
        #[trigger] parts[i - 1]) is Normal by {
            names_lead_in(parts, i);
        }
    }
    let back = seq![Part::Normal(name), Part::Parent];
    reveal_with_fuel(depth, 4);
    assert(depth(back, 1) == 1 && depth(back, 2) == 0);
    let out = seq![Part::Normal(name), Part::Parent, Part::Parent];
    assert(depth(out, 3) == -1);
    assert(out[3 - 1] is Parent);
}

proof fn names_lead_in(parts: Seq<Part>, n: int)
    requires
        0 <= n <= parts.len(),
        forall|i: int| 0 <= i < parts.len() ==> (#[trigger] parts[i]) is Normal,
    ensures
        depth(parts, n) == n,
    decreases n,
{
    if n > 0 {
        names_lead_in(parts, n - 1);
    }
}

/// A link is refused where its target, seen from the directory that the link is in, leaves
/// the archive; and a path on a drive is refused on every platform.
pub proof fn links_are_seen_from_their_place(
    member: Seq<char>,
    target: Seq<char>,
    platform: Platform,
)
    ensures
        target.len() > 2 && path::is_letter(target[0]) && target[1] == ':' && target[2] == '\\'
            ==> link_leaves(member, target, platform),
        path::parent_of(member, platform) matches Some(dir) ==> link_path(member, target, platform)
            == path::joined(dir, target, platform),
        path::parent_of(member, platform) is None ==> link_path(member, target, platform)
            == path::joined(Seq::empty(), target, platform),
        ({
            let parts = path::parts(link_path(member, target, platform), platform);
            leaves(parts, parts.len() as int) ==> link_leaves(member, target, platform)
        }),
        !on_a_drive(target) && link_leaves(member, target, platform) ==> leaves(
            path::parts(link_path(member, target, platform), platform),
            path::parts(link_path(member, target, platform), platform).len() as int,
        ),
{
}

} // verus!
