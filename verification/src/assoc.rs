//! Lists of pairs that stand for maps: each key once.
use vstd::prelude::*;

verus! {

/// The map that a list of pairs stands for; a later pair wins.
pub open spec fn as_map<K, V>(pairs: Seq<(K, V)>) -> Map<K, V>
    decreases pairs.len(),
{
    if pairs.len() == 0 {
        Map::empty()
    } else {
        as_map(pairs.drop_last()).insert(pairs.last().0, pairs.last().1)
    }
}

/// No key stands twice.
pub open spec fn distinct<K, V>(pairs: Seq<(K, V)>) -> bool {
    forall|i: int, j: int|
        0 <= i < j < pairs.len() ==> (#[trigger] pairs[i]).0 != (#[trigger] pairs[j]).0
}

/// Whether a key stands somewhere in the list.
pub open spec fn has_key<K, V>(pairs: Seq<(K, V)>, key: K) -> bool {
    exists|i: int| 0 <= i < pairs.len() && (#[trigger] pairs[i]).0 == key
}

/// The map of distinct pairs has exactly their keys, with their values.
pub proof fn as_map_holds<K, V>(pairs: Seq<(K, V)>)
    requires
        distinct(pairs),
    ensures
        forall|i: int|
            0 <= i < pairs.len() ==> as_map(pairs).contains_key((#[trigger] pairs[i]).0)
                && as_map(pairs)[pairs[i].0] == pairs[i].1,
        forall|key: K| #[trigger] as_map(pairs).contains_key(key) ==> has_key(pairs, key),
    decreases pairs.len(),
{
    if pairs.len() > 0 {
        let shorter = pairs.drop_last();
        assert(distinct(shorter)) by {
            assert forall|i: int, j: int| 0 <= i < j < shorter.len() implies (
            #[trigger] shorter[i]).0 != (#[trigger] shorter[j]).0 by {
                assert(shorter[i] == pairs[i] && shorter[j] == pairs[j]);
            }
        }
        as_map_holds(shorter);
        assert forall|i: int| 0 <= i < pairs.len() implies as_map(pairs).contains_key(
            (#[trigger] pairs[i]).0,
        ) && as_map(pairs)[pairs[i].0] == pairs[i].1 by {
            if i < pairs.len() - 1 {
                assert(shorter[i] == pairs[i]);
                assert(pairs[i].0 != pairs[pairs.len() - 1].0);
            }
        }
        assert forall|key: K| #[trigger] as_map(pairs).contains_key(key) implies has_key(
            pairs,
            key,
        ) by {
            if key == pairs.last().0 {
                assert(pairs[pairs.len() - 1].0 == key);
            } else {
                assert(as_map(shorter).contains_key(key));
                let i = choose|i: int| 0 <= i < shorter.len() && (#[trigger] shorter[i]).0 == key;
                assert(pairs[i].0 == key);
            }
        }
    }
}

/// A pair with a new key, at the end, adds that key.
pub proof fn push_inserts<K, V>(pairs: Seq<(K, V)>, key: K, value: V)
    requires
        distinct(pairs),
        forall|i: int| 0 <= i < pairs.len() ==> (#[trigger] pairs[i]).0 != key,
    ensures
        distinct(pairs.push((key, value))),
        !as_map(pairs).contains_key(key),
        as_map(pairs.push((key, value))) == as_map(pairs).insert(key, value),
{
    let after = pairs.push((key, value));
    assert(after.drop_last() =~= pairs);
    as_map_holds(pairs);
    assert forall|a: int, b: int| 0 <= a < b < after.len() implies (#[trigger] after[a]).0 != (
    #[trigger] after[b]).0 by {
        assert(after[a] == pairs[a]);
        if b < pairs.len() {
            assert(after[b] == pairs[b]);
        }
    }
}

/// A new value under a key that stands in the list replaces the old one.
pub proof fn update_inserts<K, V>(pairs: Seq<(K, V)>, at: int, value: V)
    requires
        distinct(pairs),
        0 <= at < pairs.len(),
    ensures
        distinct(pairs.update(at, (pairs[at].0, value))),
        as_map(pairs).contains_key(pairs[at].0),
        as_map(pairs.update(at, (pairs[at].0, value))) == as_map(pairs).insert(pairs[at].0, value),
{
    let key = pairs[at].0;
    let after = pairs.update(at, (key, value));
    assert forall|a: int, b: int| 0 <= a < b < after.len() implies (#[trigger] after[a]).0 != (
    #[trigger] after[b]).0 by {
        assert(after[a].0 == pairs[a].0);
        assert(after[b].0 == pairs[b].0);
    }
    as_map_holds(pairs);
    as_map_holds(after);
    let wanted = as_map(pairs).insert(key, value);
    assert forall|k: K| as_map(after).contains_key(k) == wanted.contains_key(k) by {
        if as_map(after).contains_key(k) {
            let i = choose|i: int| 0 <= i < after.len() && (#[trigger] after[i]).0 == k;
            assert(pairs[i].0 == k);
        }
        if as_map(pairs).contains_key(k) {
            let i = choose|i: int| 0 <= i < pairs.len() && (#[trigger] pairs[i]).0 == k;
            assert(after[i].0 == k);
        }
        assert(after[at].0 == key);
    }
    assert forall|k: K| #[trigger] as_map(after).contains_key(k) implies as_map(after)[k]
        == wanted[k] by {
        let i = choose|i: int| 0 <= i < after.len() && (#[trigger] after[i]).0 == k;
        assert(pairs[i].0 == k);
        if i != at {
            assert(after[i] == pairs[i]);
            assert(k != key) by {
                if i < at {
                    assert(pairs[i].0 != pairs[at].0);
                } else {
                    assert(pairs[at].0 != pairs[i].0);
                }
            }
        }
    }
    assert(as_map(after) =~= wanted);
}

/// Taking a pair out of the list takes its key out of the map.
pub proof fn remove_removes<K, V>(pairs: Seq<(K, V)>, at: int)
    requires
        distinct(pairs),
        0 <= at < pairs.len(),
    ensures
        distinct(pairs.remove(at)),
        as_map(pairs.remove(at)) == as_map(pairs).remove(pairs[at].0),
{
    let key = pairs[at].0;
    let after = pairs.remove(at);
    assert forall|a: int, b: int| 0 <= a < b < after.len() implies (#[trigger] after[a]).0 != (
    #[trigger] after[b]).0 by {
        assert(after[a] == pairs[if a < at { a } else { a + 1 }]);
        assert(after[b] == pairs[if b < at { b } else { b + 1 }]);
    }
    as_map_holds(pairs);
    as_map_holds(after);
    let wanted = as_map(pairs).remove(key);
    assert forall|k: K| as_map(after).contains_key(k) implies #[trigger] wanted.contains_key(k)
        && as_map(after)[k] == wanted[k] by {
        let i = choose|i: int| 0 <= i < after.len() && (#[trigger] after[i]).0 == k;
        let j = if i < at {
            i
        } else {
            i + 1
        };
        assert(after[i] == pairs[j]);
        assert(pairs[j].0 == k);
        assert(k != key) by {
            if j < at {
                assert(pairs[j].0 != pairs[at].0);
            } else {
                assert(pairs[at].0 != pairs[j].0);
            }
        }
    }
    assert forall|k: K| #[trigger] wanted.contains_key(k) implies as_map(after).contains_key(k) by {
        let i = choose|i: int| 0 <= i < pairs.len() && (#[trigger] pairs[i]).0 == k;
        let j = if i < at {
            i
        } else {
            i - 1
        };
        assert(i != at);
        assert(after[j] == pairs[i]);
        assert(after[j].0 == k);
    }
    assert(as_map(after) =~= wanted);
}

} // verus!
