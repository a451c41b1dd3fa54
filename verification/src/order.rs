//! Sorting that keeps equal items in the order in which they came.
use vstd::prelude::*;

verus! {

/// Items that have an order.
pub trait Rank: Sized {
    /// Whether this item comes strictly before the other.
    spec fn before(&self, other: &Self) -> bool;

    fn comes_before(&self, other: &Self) -> (r: bool)
        ensures
            r == self.before(other),
    ;
}

/// `x` put into a sorted list, after everything that does not come after it.
pub open spec fn placed<T: Rank>(s: Seq<T>, x: T) -> Seq<T>
    decreases s.len(),
{
    if s.len() > 0 && x.before(&s.last()) {
        placed(s.drop_last(), x).push(s.last())
    } else {
        s.push(x)
    }
}

/// The items in order; of two that neither precedes, the one that came first.
pub open spec fn sorted<T: Rank>(s: Seq<T>) -> Seq<T>
    decreases s.len(),
{
    if s.len() == 0 {
        seq![]
    } else {
        placed(sorted(s.drop_last()), s.last())
    }
}

proof fn placed_at<T: Rank>(s: Seq<T>, x: T, at: int)
    requires
        0 <= at <= s.len(),
        forall|i: int| at <= i < s.len() ==> x.before(#[trigger] &s[i]),
        at > 0 ==> !x.before(&s[at - 1]),
    ensures
        placed(s, x) == s.insert(at, x),
    decreases s.len(),
{
    if at < s.len() {
        assert(x.before(&s[s.len() - 1]));
        let shorter = s.drop_last();
        assert forall|i: int| at <= i < shorter.len() implies x.before(#[trigger] &shorter[i]) by {
            assert(shorter[i] == s[i]);
        }
        placed_at(shorter, x, at);
        assert(shorter.insert(at, x).push(s.last()) =~= s.insert(at, x));
    } else {
        assert(s.insert(at, x) =~= s.push(x));
    }
}

/// Sorts a list.
pub fn sort<T: Rank>(items: Vec<T>) -> (r: Vec<T>)
    ensures
        r@ == sorted(items@),
{
    let mut rest: Vec<T> = items;
    let mut queue: Vec<T> = Vec::new();
    while rest.len() > 0
        invariant
            rest@.len() + queue@.len() == items@.len(),
            rest@ == items@.take(rest@.len() as int),
            forall|i: int| 0 <= i < queue@.len() ==> queue@[i] == items@[items@.len() - 1 - i],
        decreases rest.len(),
    {
        let last = rest.pop();
        match last {
            Some(x) => {
                queue.push(x);
                assert(rest@ =~= items@.take(rest@.len() as int));
            },
            None => {},
        }
    }
    let mut out: Vec<T> = Vec::new();
    assert(items@.take(0) =~= seq![]);
    assert(out@ =~= seq![]);
    while queue.len() > 0
        invariant
            queue@.len() <= items@.len(),
            out@ == sorted(items@.take(items@.len() - queue@.len())),
            forall|i: int| 0 <= i < queue@.len() ==> queue@[i] == items@[items@.len() - 1 - i],
        decreases queue.len(),
    {
        let next = queue.pop();
        match next {
            Some(x) => {
                let ghost done = items@.len() - queue@.len();
                let ghost before = out@;
                assert(items@.take(done).drop_last() =~= items@.take(done - 1));
                assert(items@.take(done).last() == x);
                let mut at: usize = out.len();
                while at > 0 && x.comes_before(&out[at - 1])
                    invariant
                        at <= out@.len(),
                        out@ == before,
                        forall|i: int| at <= i < out@.len() ==> x.before(#[trigger] &out@[i]),
                    decreases at,
                {
                    at = at - 1;
                }
                proof {
                    placed_at(out@, x, at as int);
                }
                out.insert(at, x);
            },
            None => {},
        }
    }
    assert(items@.take(items@.len() as int) =~= items@);
    out
}

/// Nothing comes before something that stands in front of it.
pub open spec fn in_order<T: Rank>(s: Seq<T>) -> bool {
    forall|i: int, j: int|
        #![trigger s[i], s[j]]
        0 <= i < j < s.len() ==> !s[j].before(&s[i])
}

/// What an order must satisfy for sorting to put things in order.
pub open spec fn is_order<T: Rank>() -> bool {
    &&& forall|a: T, b: T| #[trigger] a.before(&b) ==> !b.before(&a)
    &&& forall|a: T, b: T, c: T|
        #![trigger a.before(&b), c.before(&b)]
        #![trigger a.before(&c), b.before(&c)]
        !a.before(&b) && !b.before(&c) ==> !a.before(&c)
}

/// Sorting loses nothing and adds nothing.
pub proof fn sorting_keeps_the_items<T: Rank>(s: Seq<T>)
    ensures
        sorted(s).to_multiset() == s.to_multiset(),
        sorted(s).len() == s.len(),
    decreases s.len(),
{
    broadcast use vstd::seq_lib::group_to_multiset_ensures;

    if s.len() > 0 {
        sorting_keeps_the_items(s.drop_last());
        placing_adds_one(sorted(s.drop_last()), s.last());
        assert(s.drop_last().push(s.last()) =~= s);
    }
}

proof fn placing_adds_one<T: Rank>(s: Seq<T>, x: T)
    ensures
        placed(s, x).to_multiset() == s.to_multiset().insert(x),
        placed(s, x).len() == s.len() + 1,
    decreases s.len(),
{
    broadcast use vstd::seq_lib::group_to_multiset_ensures;

    if s.len() > 0 && x.before(&s.last()) {
        placing_adds_one(s.drop_last(), x);
        assert(s.drop_last().push(s.last()) =~= s);
        assert(s.drop_last().to_multiset().insert(s.last()).insert(x)
            =~= s.drop_last().to_multiset().insert(x).insert(s.last()));
    }
}

/// Sorting puts things in order.
pub proof fn sorting_puts_in_order<T: Rank>(s: Seq<T>)
    requires
        is_order::<T>(),
    ensures
        in_order(sorted(s)),
    decreases s.len(),
{
    if s.len() > 0 {
        sorting_puts_in_order(s.drop_last());
        placing_keeps_order(sorted(s.drop_last()), s.last());
    }
}

proof fn placing_keeps_order<T: Rank>(s: Seq<T>, x: T)
    requires
        is_order::<T>(),
        in_order(s),
    ensures
        in_order(placed(s, x)),
        forall|i: int|
            0 <= i < placed(s, x).len() ==> (#[trigger] placed(s, x)[i] == x || exists|j: int|
                0 <= j < s.len() && s[j] == placed(s, x)[i]),
    decreases s.len(),
{
    let r = placed(s, x);
    if s.len() > 0 && x.before(&s.last()) {
        let shorter = s.drop_last();
        assert(in_order(shorter)) by {
            assert forall|i: int, j: int|
                #![trigger shorter[i], shorter[j]]
                0 <= i < j < shorter.len() implies !shorter[j].before(&shorter[i]) by {
                assert(shorter[i] == s[i] && shorter[j] == s[j]);
            }
        }
        placing_keeps_order(shorter, x);
        let front = placed(shorter, x);
        assert forall|i: int, j: int|
            #![trigger r[i], r[j]]
            0 <= i < j < r.len() implies !r[j].before(&r[i]) by {
            if j < front.len() {
                assert(r[j] == front[j] && r[i] == front[i]);
            } else {
                assert(r[j] == s.last());
                assert(r[i] == front[i]);
                if front[i] == x {
                    assert(x.before(&s.last()));
                } else {
                    let k = choose|k: int| 0 <= k < shorter.len() && shorter[k] == front[i];
                    assert(s[k] == front[i]);
                    assert(!s[s.len() - 1].before(&s[k]));
                }
            }
        }
        assert forall|i: int| 0 <= i < r.len() implies (#[trigger] r[i] == x || exists|j: int|
            0 <= j < s.len() && s[j] == r[i]) by {
            if i < front.len() {
                assert(r[i] == front[i]);
                if front[i] != x {
                    let k = choose|k: int| 0 <= k < shorter.len() && shorter[k] == front[i];
                    assert(s[k] == r[i]);
                }
            } else {
                assert(s[s.len() - 1] == r[i]);
            }
        }
    } else {
        assert forall|i: int, j: int|
            #![trigger r[i], r[j]]
            0 <= i < j < r.len() implies !r[j].before(&r[i]) by {
            if j < s.len() {
                assert(r[j] == s[j] && r[i] == s[i]);
            } else {
                assert(r[j] == x && r[i] == s[i]);
                if i < s.len() - 1 {
                    assert(!s[s.len() - 1].before(&s[i]));
                    assert(!x.before(&s.last()));
                }
            }
        }
        assert forall|i: int| 0 <= i < r.len() implies (#[trigger] r[i] == x || exists|j: int|
            0 <= j < s.len() && s[j] == r[i]) by {
            if i < s.len() {
                assert(s[i] == r[i]);
            }
        }
    }
}

/// What comes last and belongs before nothing stays last, and what belongs before all goes
/// first: of equal items the one that came first stays first.
pub proof fn equal_items_keep_their_order<T: Rank>(s: Seq<T>, x: T)
    ensures
        sorted(s).len() == 0 || !x.before(&sorted(s).last()) ==> sorted(s.push(x)) == sorted(
            s,
        ).push(x),
        (forall|i: int| 0 <= i < sorted(s).len() ==> x.before(#[trigger] &sorted(s)[i])) ==> sorted(
            s.push(x),
        ) == seq![x] + sorted(s),
{
    assert(s.push(x).drop_last() =~= s);
    let t = sorted(s);
    if forall|i: int| 0 <= i < t.len() ==> x.before(#[trigger] &t[i]) {
        placed_at(t, x, 0);
        assert(t.insert(0, x) =~= seq![x] + t);
    }
}

} // verus!
