//! Byte strings.
use vstd::prelude::*;

verus! {

/// The eight bytes of a number, the high one first.
pub open spec fn be64(n: u64) -> Seq<u8> {
    seq![
        (n / 0x100_0000_0000_0000) as u8,
        (n / 0x1_0000_0000_0000 % 256) as u8,
        (n / 0x100_0000_0000 % 256) as u8,
        (n / 0x1_0000_0000 % 256) as u8,
        (n / 0x100_0000 % 256) as u8,
        (n / 0x1_0000 % 256) as u8,
        (n / 0x100 % 256) as u8,
        (n % 256) as u8,
    ]
}

pub fn push_be64(out: &mut Vec<u8>, n: u64)
    ensures
        final(out)@ == old(out)@ + be64(n),
{
    out.push((n / 0x100_0000_0000_0000) as u8);
    out.push((n / 0x1_0000_0000_0000 % 256) as u8);
    out.push((n / 0x100_0000_0000 % 256) as u8);
    out.push((n / 0x1_0000_0000 % 256) as u8);
    out.push((n / 0x100_0000 % 256) as u8);
    out.push((n / 0x1_0000 % 256) as u8);
    out.push((n / 0x100 % 256) as u8);
    out.push((n % 256) as u8);
    assert(out@ =~= old(out)@ + be64(n));
}

/// The number that eight bytes stand for.
pub open spec fn from_be64(s: Seq<u8>) -> int {
    s[0] * 0x100_0000_0000_0000 + s[1] * 0x1_0000_0000_0000 + s[2] * 0x100_0000_0000 + s[3]
        * 0x1_0000_0000 + s[4] * 0x100_0000 + s[5] * 0x1_0000 + s[6] * 0x100 + s[7]
}

pub proof fn be64_round_trips(n: u64)
    ensures
        be64(n).len() == 8,
        from_be64(be64(n)) == n,
{
    let m = n as int;
    let n1 = m / 256;
    let n2 = n1 / 256;
    let n3 = n2 / 256;
    let n4 = n3 / 256;
    let n5 = n4 / 256;
    let n6 = n5 / 256;
    let n7 = n6 / 256;
    assert(m / 0x1_0000 == n2);
    assert(m / 0x100_0000 == n3);
    assert(m / 0x1_0000_0000 == n4);
    assert(m / 0x100_0000_0000 == n5);
    assert(m / 0x1_0000_0000_0000 == n6);
    assert(m / 0x100_0000_0000_0000 == n7);
    let s = be64(n);
    assert(s[0] == n7 && s[1] == n6 % 256 && s[2] == n5 % 256 && s[3] == n4 % 256);
    assert(s[4] == n3 % 256 && s[5] == n2 % 256 && s[6] == n1 % 256 && s[7] == m % 256);
    assert(n6 == 256 * n7 + n6 % 256);
    assert(n5 == 256 * n6 + n5 % 256);
    assert(n4 == 256 * n5 + n4 % 256);
    assert(n3 == 256 * n4 + n3 % 256);
    assert(n2 == 256 * n3 + n2 % 256);
    assert(n1 == 256 * n2 + n1 % 256);
    assert(m == 256 * n1 + m % 256);
}

/// Reads eight bytes as a number, the high one first.
pub fn read_be64(b: &[u8]) -> (r: u64)
    requires
        b@.len() == 8,
    ensures
        r == from_be64(b@),
{
    let high: u64 = b[0] as u64 * 0x100_0000 + b[1] as u64 * 0x1_0000 + b[2] as u64 * 0x100
        + b[3] as u64;
    let low: u64 = b[4] as u64 * 0x100_0000 + b[5] as u64 * 0x1_0000 + b[6] as u64 * 0x100
        + b[7] as u64;
    high * 0x1_0000_0000 + low
}

/// The same bytes, once more.
pub fn copy_of(bytes: &[u8]) -> (r: Vec<u8>)
    ensures
        r@ == bytes@,
{
    let mut out: Vec<u8> = Vec::new();
    out.extend_from_slice(bytes);
    assert(out@ =~= bytes@);
    out
}

/// Whether two byte strings are the same.
pub fn same_bytes(a: &[u8], b: &[u8]) -> (r: bool)
    ensures
        r == (a@ == b@),
{
    if a.len() != b.len() {
        return false;
    }
    let mut i: usize = 0;
    while i < a.len()
        invariant
            a@.len() == b@.len(),
            i <= a.len(),
            forall|k: int| 0 <= k < i ==> a@[k] == b@[k],
        decreases a.len() - i,
    {
        if a[i] != b[i] {
            return false;
        }
        i = i + 1;
    }
    assert(a@ =~= b@);
    true
}

} // verus!
