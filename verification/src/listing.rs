//! The order in which directories and instances are listed.
use vstd::prelude::*;

use crate::order;
use crate::order::Rank;
use crate::protocol::api::DirEntry;
use crate::protocol::instance::InstanceStatResponse;
use crate::text;

verus! {

/// Whether one name comes before another, whatever their case.
pub open spec fn name_before(a: Seq<char>, b: Seq<char>) -> bool {
    text::precedes(text::lowercase(a), text::lowercase(b))
}

fn name_comes_before(a: &str, b: &str) -> (r: bool)
    ensures
        r == name_before(a@, b@),
{
    text::comes_before(&text::to_lowercase(a), &text::to_lowercase(b))
}

/// Directories before files, and within each kind by name, whatever its case.
impl Rank for DirEntry {
    open spec fn before(&self, other: &DirEntry) -> bool {
        (self.is_dir && !other.is_dir) || (self.is_dir == other.is_dir && name_before(
            self.name@,
            other.name@,
        ))
    }

    fn comes_before(&self, other: &DirEntry) -> (r: bool) {
        (self.is_dir && !other.is_dir) || (self.is_dir == other.is_dir && name_comes_before(
            &self.name,
            &other.name,
        ))
    }
}

/// By name, whatever its case.
impl Rank for InstanceStatResponse {
    open spec fn before(&self, other: &InstanceStatResponse) -> bool {
        name_before(self.name@, other.name@)
    }

    fn comes_before(&self, other: &InstanceStatResponse) -> (r: bool) {
        name_comes_before(&self.name, &other.name)
    }
}

/// A directory listing in the order in which it is shown.
pub fn sort_entries(entries: Vec<DirEntry>) -> (r: Vec<DirEntry>)
    ensures
        r@ == order::sorted(entries@),
{
    order::sort(entries)
}

/// Instances in the order in which they are shown.
pub fn sort_instances(list: Vec<InstanceStatResponse>) -> (r: Vec<InstanceStatResponse>)
    ensures
        r@ == order::sorted(list@),
{
    order::sort(list)
}

proof fn names_chain(a: Seq<char>, b: Seq<char>, c: Seq<char>)
    ensures
        name_before(a, b) ==> !name_before(b, a),
        !name_before(a, b) && !name_before(b, c) ==> !name_before(a, c),
{
    let x = text::lowercase(a);
    let y = text::lowercase(b);
    let z = text::lowercase(c);
    text::precedes_is_total(x, y);
    text::precedes_is_total(y, z);
    text::precedes_is_total(x, z);
    text::precedes_is_total(z, y);
    if text::precedes(x, z) && !text::precedes(x, y) && !text::precedes(y, z) {
        if x != y {
            text::precedes_chains(y, x, z);
        }
    }
}

/// A listing shows every directory before every file, names in order within
/// each, and holds exactly the entries it was made from.
pub proof fn listings_are_in_order(entries: Seq<DirEntry>)
    ensures
        order::in_order(order::sorted(entries)),
        order::sorted(entries).to_multiset() == entries.to_multiset(),
        forall|i: int, j: int|
            #![trigger order::sorted(entries)[i], order::sorted(entries)[j]]
            0 <= i < j < entries.len() && order::sorted(entries)[j].is_dir ==> order::sorted(
                entries,
            )[i].is_dir,
{
    assert(order::is_order::<DirEntry>()) by {
        assert forall|a: DirEntry, b: DirEntry| #[trigger] a.before(&b) implies !b.before(&a) by {
            names_chain(a.name@, b.name@, a.name@);
        }
        assert forall|a: DirEntry, b: DirEntry, c: DirEntry|
            #![trigger a.before(&b), c.before(&b)]
            #![trigger a.before(&c), b.before(&c)]
            !a.before(&b) && !b.before(&c) implies !a.before(&c) by {
            names_chain(a.name@, b.name@, c.name@);
        }
    }
    order::sorting_puts_in_order(entries);
    order::sorting_keeps_the_items(entries);
}

/// Instances are listed by name, and none is lost.
pub proof fn instances_are_in_order(list: Seq<InstanceStatResponse>)
    ensures
        order::in_order(order::sorted(list)),
        order::sorted(list).to_multiset() == list.to_multiset(),
{
    assert(order::is_order::<InstanceStatResponse>()) by {
        assert forall|a: InstanceStatResponse, b: InstanceStatResponse| #[trigger]
            a.before(&b) implies !b.before(&a) by {
            names_chain(a.name@, b.name@, a.name@);
        }
        assert forall|a: InstanceStatResponse, b: InstanceStatResponse, c: InstanceStatResponse|
            #![trigger a.before(&b), c.before(&b)]
            #![trigger a.before(&c), b.before(&c)]
            !a.before(&b) && !b.before(&c) implies !a.before(&c) by {
            names_chain(a.name@, b.name@, c.name@);
        }
    }
    order::sorting_puts_in_order(list);
    order::sorting_keeps_the_items(list);
}

/// In a listing, names of one kind go up without regard to case: none stands behind one
/// that comes after it.
pub proof fn names_go_up(entries: Seq<DirEntry>, list: Seq<InstanceStatResponse>)
    ensures
        forall|i: int, j: int|
            #![trigger order::sorted(entries)[i], order::sorted(entries)[j]]
            0 <= i < j < entries.len() && order::sorted(entries)[i].is_dir == order::sorted(
                entries,
            )[j].is_dir ==> !text::precedes(
                text::lowercase(order::sorted(entries)[j].name@),
                text::lowercase(order::sorted(entries)[i].name@),
            ),
        forall|i: int, j: int|
            #![trigger order::sorted(list)[i], order::sorted(list)[j]]
            0 <= i < j < list.len() ==> !text::precedes(
                text::lowercase(order::sorted(list)[j].name@),
                text::lowercase(order::sorted(list)[i].name@),
            ),
{
    listings_are_in_order(entries);
    instances_are_in_order(list);
    order::sorting_keeps_the_items(entries);
    order::sorting_keeps_the_items(list);
    let s = order::sorted(entries);
    assert forall|i: int, j: int|
        #![trigger s[i], s[j]]
        0 <= i < j < entries.len() && s[i].is_dir == s[j].is_dir implies !text::precedes(
        text::lowercase(s[j].name@),
        text::lowercase(s[i].name@),
    ) by {
        assert(!s[j].before(&s[i]));
    }
    let t = order::sorted(list);
    assert forall|i: int, j: int|
        #![trigger t[i], t[j]]
        0 <= i < j < list.len() implies !text::precedes(
        text::lowercase(t[j].name@),
        text::lowercase(t[i].name@),
    ) by {
        assert(!t[j].before(&t[i]));
    }
}

} // verus!
