//! The figures of a machine.
use vstd::prelude::*;

verus! {

/// What was measured of a machine. The processor load is in percent, as the bits of
/// a double.
#[derive(Debug, PartialEq, Eq)]
pub struct Sample {
    /// The size of each disk, and what is free of it.
    pub disks: Vec<(u64, u64)>,
    pub total_ram: u64,
    pub free_ram: u64,
    /// What came in through each network interface, and what went out.
    pub networks: Vec<(u64, u64)>,
    pub cpu_usage_bits: u64,
}

/// The sum of the first figures of the first `n` pairs.
pub open spec fn first_sum(pairs: Seq<(u64, u64)>, n: int) -> int
    decreases n,
{
    if n <= 0 {
        0
    } else {
        first_sum(pairs, n - 1) + pairs[n - 1].0
    }
}

/// The sum of the second figures of the first `n` pairs.
pub open spec fn second_sum(pairs: Seq<(u64, u64)>, n: int) -> int
    decreases n,
{
    if n <= 0 {
        0
    } else {
        second_sum(pairs, n - 1) + pairs[n - 1].1
    }
}

/// Both sums can be counted.
pub open spec fn summable(pairs: Seq<(u64, u64)>) -> bool {
    first_sum(pairs, pairs.len() as int) <= u64::MAX && second_sum(pairs, pairs.len() as int)
        <= u64::MAX
}

proof fn sums_grow(pairs: Seq<(u64, u64)>, n: int, m: int)
    requires
        0 <= n <= m,
    ensures
        first_sum(pairs, n) <= first_sum(pairs, m),
        second_sum(pairs, n) <= second_sum(pairs, m),
    decreases m,
{
    if n < m {
        sums_grow(pairs, n, m - 1);
    }
}

/// The sums of the first and of the second figures.
pub fn totals(pairs: &Vec<(u64, u64)>) -> (r: (u64, u64))
    requires
        summable(pairs@),
    ensures
        r.0 == first_sum(pairs@, pairs@.len() as int),
        r.1 == second_sum(pairs@, pairs@.len() as int),
{
    let mut a: u64 = 0;
    let mut b: u64 = 0;
    let mut i: usize = 0;
    while i < pairs.len()
        invariant
            i <= pairs.len(),
            summable(pairs@),
            a == first_sum(pairs@, i as int),
            b == second_sum(pairs@, i as int),
        decreases pairs.len() - i,
    {
        proof {
            sums_grow(pairs@, i + 1, pairs@.len() as int);
        }
        a = a + pairs[i].0;
        b = b + pairs[i].1;
        i = i + 1;
    }
    (a, b)
}

/// Each disk and each interface is counted once, in both figures.
pub proof fn everything_is_counted_once(pairs: Seq<(u64, u64)>, more: (u64, u64))
    ensures
        first_sum(pairs.push(more), pairs.len() as int + 1) == first_sum(pairs, pairs.len() as int)
            + more.0,
        second_sum(pairs.push(more), pairs.len() as int + 1) == second_sum(
            pairs,
            pairs.len() as int,
        ) + more.1,
        first_sum(pairs, 0) == 0,
        second_sum(pairs, 0) == 0,
{
    sums_agree(pairs, pairs.push(more), pairs.len() as int);
}

proof fn sums_agree(a: Seq<(u64, u64)>, b: Seq<(u64, u64)>, n: int)
    requires
        n <= a.len(),
        n <= b.len(),
        forall|i: int| 0 <= i < n ==> a[i] == b[i],
    ensures
        first_sum(a, n) == first_sum(b, n),
        second_sum(a, n) == second_sum(b, n),
    decreases n,
{
    if n > 0 {
        sums_agree(a, b, n - 1);
    }
}

} // verus!
