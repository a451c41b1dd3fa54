//! Numbers as they are shown: sizes, times, short texts.
use vstd::prelude::*;

use crate::text;

verus! {

// ---- sizes -------------------------------------------------------------------------

/// The nearest whole number to `n / d`; of two, the even one.
pub open spec fn nearest(n: nat, d: nat) -> nat {
    let q = n / d;
    let r = n % d;
    if 2 * r < d || (2 * r == d && q % 2 == 0) {
        q
    } else {
        q + 1
    }
}

fn nearest_of(n: u128, d: u128) -> (r: u128)
    requires
        0 < d <= 0x8000_0000_0000_0000,
        n <= 0x1_0000_0000_0000_0000_0000,
    ensures
        r == nearest(n as nat, d as nat),
        r <= n / d + 1,
{
    let q: u128 = n / d;
    let rest: u128 = n % d;
    proof {
        vstd::arithmetic::div_mod::lemma_div_is_ordered_by_denominator(n as int, 1, d as int);
        vstd::arithmetic::div_mod::lemma_div_by_self(1);
        assert(n as int / 1 == n) by {
            vstd::arithmetic::div_mod::lemma_div_basics_2(n as int);
        }
        assert(q <= n);
        vstd::arithmetic::div_mod::lemma_mod_bound(n as int, d as int);
    }
    if 2 * rest < d || (2 * rest == d && q % 2 == 0) {
        q
    } else {
        q + 1
    }
}

/// The step of a double of the given size: one below 2^53, and doubling with
/// each power of two from there.
pub open spec fn double_step(n: nat) -> nat {
    if n < 0x20_0000_0000_0000 {
        1
    } else if n < 0x40_0000_0000_0000 {
        2
    } else if n < 0x80_0000_0000_0000 {
        4
    } else if n < 0x100_0000_0000_0000 {
        8
    } else if n < 0x200_0000_0000_0000 {
        16
    } else if n < 0x400_0000_0000_0000 {
        32
    } else if n < 0x800_0000_0000_0000 {
        64
    } else if n < 0x1000_0000_0000_0000 {
        128
    } else if n < 0x2000_0000_0000_0000 {
        256
    } else if n < 0x4000_0000_0000_0000 {
        512
    } else if n < 0x8000_0000_0000_0000 {
        1024
    } else {
        2048
    }
}

fn double_step_of(n: u64) -> (r: u64)
    ensures
        r == double_step(n as nat),
        1 <= r <= 2048,
{
    if n < 0x20_0000_0000_0000 {
        1
    } else if n < 0x40_0000_0000_0000 {
        2
    } else if n < 0x80_0000_0000_0000 {
        4
    } else if n < 0x100_0000_0000_0000 {
        8
    } else if n < 0x200_0000_0000_0000 {
        16
    } else if n < 0x400_0000_0000_0000 {
        32
    } else if n < 0x800_0000_0000_0000 {
        64
    } else if n < 0x1000_0000_0000_0000 {
        128
    } else if n < 0x2000_0000_0000_0000 {
        256
    } else if n < 0x4000_0000_0000_0000 {
        512
    } else if n < 0x8000_0000_0000_0000 {
        1024
    } else {
        2048
    }
}

/// The double nearest to a whole number, which is a whole number again.
pub open spec fn as_double(n: nat) -> nat {
    nearest(n, double_step(n)) * double_step(n)
}

fn as_double_of(n: u64) -> (r: u128)
    ensures
        r == as_double(n as nat),
        r <= 0x1_0000_0000_0000_0800,
        n < 0x20_0000_0000_0000 ==> r == n,
{
    let step: u64 = double_step_of(n);
    let k: u128 = nearest_of(n as u128, step as u128);
    proof {
        let s = step as int;
        let m = n as int;
        vstd::arithmetic::div_mod::lemma_fundamental_div_mod(m, s);
        assert(s * (m / s) <= m) by {
            vstd::arithmetic::div_mod::lemma_mod_bound(m, s);
        }
        assert((m / s + 1) * s == s * (m / s) + s) by (nonlinear_arith);
        assert(k * s <= (m / s + 1) * s) by (nonlinear_arith)
            requires
                k <= m / s + 1,
                s > 0,
        ;
        assert(k * s <= m + 2048);
        if s == 1 {
            vstd::arithmetic::div_mod::lemma_div_basics_2(m);
            assert(m % 1 == 0);
            assert(k == n);
        }
    }
    k * (step as u128)
}

/// The unit of a size: how often it can be divided by 1024, at most four times.
pub open spec fn unit_of(b: nat) -> int {
    if b < 0x400 {
        0
    } else if b < 0x10_0000 {
        1
    } else if b < 0x4000_0000 {
        2
    } else if b < 0x100_0000_0000 {
        3
    } else {
        4
    }
}

pub open spec fn unit_size(unit: int) -> nat {
    if unit == 0 {
        1
    } else if unit == 1 {
        0x400
    } else if unit == 2 {
        0x10_0000
    } else if unit == 3 {
        0x4000_0000
    } else {
        0x100_0000_0000
    }
}

pub open spec fn unit_letter(unit: int) -> Seq<char> {
    if unit == 0 {
        "B"@
    } else if unit == 1 {
        "K"@
    } else if unit == 2 {
        "M"@
    } else if unit == 3 {
        "G"@
    } else {
        "T"@
    }
}

/// A size as it is shown: whole bytes, or a figure with one decimal under ten
/// units and none from there.
pub open spec fn size_text(bytes: u64) -> Seq<char> {
    let b = as_double(bytes as nat);
    let unit = unit_of(b);
    let size = unit_size(unit);
    if unit == 0 {
        text::decimal(bytes as nat) + "B"@
    } else if b < 10 * size {
        let tenths = nearest(10 * b, size);
        text::decimal(tenths / 10) + "."@ + text::decimal(tenths % 10) + unit_letter(unit)
    } else {
        text::decimal(nearest(b, size)) + unit_letter(unit)
    }
}

pub fn fmt_bytes(bytes: u64) -> (r: String)
    ensures
        r@ == size_text(bytes),
{
    let b: u128 = as_double_of(bytes);
    let (size, letter): (u128, &str) = if b < 0x400 {
        (1, "B")
    } else if b < 0x10_0000 {
        (0x400, "K")
    } else if b < 0x4000_0000 {
        (0x10_0000, "M")
    } else if b < 0x100_0000_0000 {
        (0x4000_0000, "G")
    } else {
        (0x100_0000_0000, "T")
    };
    if size == 1 {
        text::cat2(&text::decimal_of(bytes as u128), letter)
    } else if b < 10 * size {
        let tenths: u128 = nearest_of(10 * b, size);
        text::cat4(
            &text::decimal_of(tenths / 10),
            ".",
            &text::decimal_of(tenths % 10),
            letter,
        )
    } else {
        text::cat2(&text::decimal_of(nearest_of(b, size)), letter)
    }
}

// ---- times -------------------------------------------------------------------------

/// The time of day of a stamp in milliseconds, `hh:mm:ss` in UTC.
pub open spec fn clock_text(at_ms: u64) -> Seq<char> {
    let secs = at_ms as int / 1000 % 86_400;
    text::two_digits(secs / 3600) + ":"@ + text::two_digits(secs % 3600 / 60) + ":"@
        + text::two_digits(secs % 60)
}

pub fn fmt_clock(at_ms: u64) -> (r: String)
    ensures
        r@ == clock_text(at_ms),
{
    let secs: u64 = at_ms / 1000 % 86_400;
    text::cat5(
        &text::two_digits_of((secs / 3600) as u8),
        ":",
        &text::two_digits_of((secs % 3600 / 60) as u8),
        ":",
        &text::two_digits_of((secs % 60) as u8),
    )
}

/// How long ago something was, in whole seconds, minutes or hours.
pub open spec fn ago_text(secs: u64) -> Seq<char> {
    if secs < 60 {
        text::decimal(secs as nat) + "s"@
    } else if secs < 3600 {
        text::decimal((secs / 60) as nat) + "m"@
    } else {
        text::decimal((secs / 3600) as nat) + "h"@
    }
}

pub fn fmt_ago(secs: u64) -> (r: String)
    ensures
        r@ == ago_text(secs),
{
    if secs < 60 {
        text::cat2(&text::decimal_of(secs as u128), "s")
    } else if secs < 3600 {
        text::cat2(&text::decimal_of((secs / 60) as u128), "m")
    } else {
        text::cat2(&text::decimal_of((secs / 3600) as u128), "h")
    }
}

// ---- texts -------------------------------------------------------------------------

/// The first line of a text, trimmed, and cut where it is too long.
pub open spec fn headline(s: Seq<char>) -> Seq<char> {
    let line = text::trimmed(text::first_of_lines(s));
    if line.len() > 60 {
        line.take(59) + "…"@
    } else {
        line
    }
}

pub fn first_line(s: &str) -> (r: String)
    ensures
        r@ == headline(s@),
{
    let line: String = text::trim(&text::first_line_of(s));
    let chars: Vec<char> = text::chars_of(&line);
    if chars.len() > 60 {
        let front: String = text::string_of(&chars[0..59]);
        assert(front@ =~= line@.take(59));
        text::cat2(&front, "…")
    } else {
        line
    }
}

/// A path in at most `max` characters, or eight where that is less: the end of
/// it is kept, for the beginning says least.
pub open spec fn shortened(p: Seq<char>, max: nat) -> Seq<char> {
    let room = if max < 8 {
        8
    } else {
        max
    };
    if p.len() <= room {
        p
    } else {
        "…"@ + p.skip(p.len() - (room - 1))
    }
}

pub fn shorten_path(p: &str, max: usize) -> (r: String)
    ensures
        r@ == shortened(p@, max as nat),
{
    let room: usize = if max < 8 {
        8
    } else {
        max
    };
    let chars: Vec<char> = text::chars_of(p);
    if chars.len() <= room {
        return p.to_string();
    }
    let from: usize = chars.len() - (room - 1);
    let tail: String = text::string_of(&chars[from..chars.len()]);
    assert(tail@ =~= p@.skip(from as int));
    text::cat2("…", &tail)
}

/// What is shortened fits.
pub proof fn shortened_fits(p: Seq<char>, max: nat)
    requires
        max >= 8,
    ensures
        shortened(p, max).len() <= max,
{
    reveal_strlit("…");
}

/// Sizes below a kilobyte are told to the byte. Above, they are told in the largest unit
/// of which there is one, with a tenth where there are fewer than ten: as near to the
/// truth as that allows.
pub proof fn sizes_are_told_in_their_unit(bytes: u64)
    ensures
        bytes < 1024 ==> size_text(bytes) == text::decimal(bytes as nat) + "B"@,
        1024 <= bytes < 10 * 1024 ==> exists|tenths: nat|
            size_text(bytes) == #[trigger] text::decimal(tenths / 10) + "."@ + text::decimal(
                tenths % 10,
            ) + "K"@ && 2 * tenths * 1024 <= 20 * bytes + 1024 && 20 * bytes <= 2 * tenths * 1024
                + 1024,
        10 * 1024 <= bytes < 1024 * 1024 ==> exists|n: nat|
            size_text(bytes) == #[trigger] text::decimal(n) + "K"@ && 2 * n * 1024 <= 2 * bytes
                + 1024 && 2 * bytes <= 2 * n * 1024 + 1024,
        10 * 1024 * 1024 <= bytes < 1024 * 1024 * 1024 ==> exists|n: nat|
            size_text(bytes) == #[trigger] text::decimal(n) + "M"@ && 2 * n * 0x10_0000 <= 2 * bytes
                + 0x10_0000 && 2 * bytes <= 2 * n * 0x10_0000 + 0x10_0000,
        10 * 0x4000_0000 <= bytes < 0x100_0000_0000 ==> exists|n: nat|
            size_text(bytes) == #[trigger] text::decimal(n) + "G"@ && 2 * n * 0x4000_0000 <= 2
                * bytes + 0x4000_0000 && 2 * bytes <= 2 * n * 0x4000_0000 + 0x4000_0000,
{
    let b = bytes as nat;
    if b < 0x20_0000_0000_0000 {
        nearest_is_near(b, 1);
        assert(as_double(b) == b);
    }
    if 1024 <= b < 10 * 1024 {
        nearest_is_near(10 * b, 1024);
        let t = nearest(10 * b, 1024);
        assert(size_text(bytes) == text::decimal(t / 10) + "."@ + text::decimal(t % 10) + "K"@);
    }
    if 10 * 1024 <= b < 1024 * 1024 {
        nearest_is_near(b, 1024);
        let n = nearest(b, 1024);
        assert(size_text(bytes) == text::decimal(n) + "K"@);
    }
    if 10 * 1024 * 1024 <= b < 1024 * 1024 * 1024 {
        nearest_is_near(b, 0x10_0000);
        let n = nearest(b, 0x10_0000);
        assert(size_text(bytes) == text::decimal(n) + "M"@);
    }
    if 10 * 0x4000_0000 <= b < 0x100_0000_0000 {
        nearest_is_near(b, 0x4000_0000);
        let n = nearest(b, 0x4000_0000);
        assert(size_text(bytes) == text::decimal(n) + "G"@);
    }
}

proof fn nearest_is_near(n: nat, d: nat)
    requires
        d > 0,
    ensures
        2 * (nearest(n, d) * d) <= 2 * n + d,
        2 * n <= 2 * (nearest(n, d) * d) + d,
        d == 1 ==> nearest(n, d) == n,
{
    vstd::arithmetic::div_mod::lemma_fundamental_div_mod(n as int, d as int);
    let q = n / d;
    let r = n % d;
    assert(q * d == d * q) by (nonlinear_arith);
    assert((q + 1) * d == q * d + d) by (nonlinear_arith);
    if d == 1 {
        assert(n / 1 == n && n % 1 == 0);
    }
}

/// How long ago something was is told in seconds below a minute, in minutes below an hour,
/// and in hours from there on, without what is begun.
pub proof fn times_ago_are_told(secs: u64)
    ensures
        secs < 60 ==> ago_text(secs) == text::decimal(secs as nat) + "s"@,
        60 <= secs < 3600 ==> ago_text(secs) == text::decimal((secs / 60) as nat) + "m"@,
        3600 <= secs ==> ago_text(secs) == text::decimal((secs / 3600) as nat) + "h"@,
{
}

/// The time of day is told in hours, minutes and seconds, whatever the day.
pub proof fn clocks_tell_the_time(day: nat, h: nat, m: nat, s: nat, ms: nat)
    requires
        h < 24,
        m < 60,
        s < 60,
        ms < 1000,
        day * 86_400_000 + h * 3_600_000 + m * 60_000 + s * 1000 + ms <= u64::MAX,
    ensures
        clock_text((day * 86_400_000 + h * 3_600_000 + m * 60_000 + s * 1000 + ms) as u64)
            == text::two_digits(h as int) + ":"@ + text::two_digits(m as int) + ":"@
            + text::two_digits(s as int),
{
    let at: int = (day * 86_400_000 + h * 3_600_000 + m * 60_000 + s * 1000 + ms) as int;
    let of_day: int = (h * 3600 + m * 60 + s) as int;
    assert(at / 1000 == day * 86_400 + of_day);
    assert((day * 86_400 + of_day) % 86_400 == of_day) by {
        vstd::arithmetic::div_mod::lemma_mod_multiples_vanish(day as int, of_day, 86_400);
        vstd::arithmetic::div_mod::lemma_small_mod(of_day as nat, 86_400);
    }
    assert(of_day / 3600 == h);
    assert(of_day % 3600 == m * 60 + s);
    assert((m * 60 + s) / 60 == m);
    assert(of_day % 60 == s);
}

/// The first line of a text is told whole up to sixty characters, and its first
/// fifty-nine, with a mark, beyond that.
pub proof fn headlines_are_short(s: Seq<char>)
    ensures
        headline(s).len() <= 60,
        text::trimmed(text::first_of_lines(s)).len() <= 60 ==> headline(s) == text::trimmed(
            text::first_of_lines(s),
        ),
        text::trimmed(text::first_of_lines(s)).len() > 60 ==> headline(s).take(59) == text::trimmed(
            text::first_of_lines(s),
        ).take(59) && headline(s).last() == '…',
{
    reveal_strlit("…");
    let line = text::trimmed(text::first_of_lines(s));
    if line.len() > 60 {
        assert(headline(s).take(59) =~= line.take(59));
    }
}

/// A path that is too long keeps its end, behind a mark; one that fits is kept whole.
pub proof fn long_paths_keep_their_end(p: Seq<char>, max: nat)
    requires
        max >= 8,
    ensures
        p.len() <= max ==> shortened(p, max) == p,
        p.len() > max ==> shortened(p, max).len() == max && shortened(p, max)[0] == '…'
            && shortened(p, max).skip(1) == p.skip(p.len() - max + 1),
{
    reveal_strlit("…");
    if p.len() > max {
        assert(shortened(p, max).skip(1) =~= p.skip(p.len() - max + 1));
    }
}

/// In the larger units, too, sizes below ten of them are told with a tenth, as near to the
/// truth as that allows; the largest unit is used for everything above.
pub proof fn larger_sizes_are_told_in_tenths(bytes: u64)
    ensures
        0x10_0000 <= bytes < 10 * 0x10_0000 ==> exists|tenths: nat|
            size_text(bytes) == #[trigger] text::decimal(tenths / 10) + "."@ + text::decimal(
                tenths % 10,
            ) + "M"@ && 2 * tenths * 0x10_0000 <= 20 * bytes + 0x10_0000 && 20 * bytes <= 2 * tenths
                * 0x10_0000 + 0x10_0000,
        0x4000_0000 <= bytes < 10 * 0x4000_0000 ==> exists|tenths: nat|
            size_text(bytes) == #[trigger] text::decimal(tenths / 10) + "."@ + text::decimal(
                tenths % 10,
            ) + "G"@ && 2 * tenths * 0x4000_0000 <= 20 * bytes + 0x4000_0000 && 20 * bytes <= 2
                * tenths * 0x4000_0000 + 0x4000_0000,
        0x100_0000_0000 <= bytes < 10 * 0x100_0000_0000 ==> exists|tenths: nat|
            size_text(bytes) == #[trigger] text::decimal(tenths / 10) + "."@ + text::decimal(
                tenths % 10,
            ) + "T"@ && 2 * tenths * 0x100_0000_0000 <= 20 * bytes + 0x100_0000_0000 && 20 * bytes
                <= 2 * tenths * 0x100_0000_0000 + 0x100_0000_0000,
        10 * 0x100_0000_0000 <= bytes < 0x20_0000_0000_0000 ==> exists|n: nat|
            size_text(bytes) == #[trigger] text::decimal(n) + "T"@ && 2 * n * 0x100_0000_0000 <= 2
                * bytes + 0x100_0000_0000 && 2 * bytes <= 2 * n * 0x100_0000_0000 + 0x100_0000_0000,
{
    let b = bytes as nat;
    if b < 0x20_0000_0000_0000 {
        nearest_is_near(b, 1);
        assert(as_double(b) == b);
    }
    if 0x10_0000 <= b < 10 * 0x10_0000 {
        nearest_is_near(10 * b, 0x10_0000);
        let t = nearest(10 * b, 0x10_0000);
        assert(size_text(bytes) == text::decimal(t / 10) + "."@ + text::decimal(t % 10) + "M"@);
    }
    if 0x4000_0000 <= b < 10 * 0x4000_0000 {
        nearest_is_near(10 * b, 0x4000_0000);
        let t = nearest(10 * b, 0x4000_0000);
        assert(size_text(bytes) == text::decimal(t / 10) + "."@ + text::decimal(t % 10) + "G"@);
    }
    if 0x100_0000_0000 <= b < 10 * 0x100_0000_0000 {
        nearest_is_near(10 * b, 0x100_0000_0000);
        let t = nearest(10 * b, 0x100_0000_0000);
        assert(size_text(bytes) == text::decimal(t / 10) + "."@ + text::decimal(t % 10) + "T"@);
    }
    if 10 * 0x100_0000_0000 <= b < 0x20_0000_0000_0000 {
        nearest_is_near(b, 0x100_0000_0000);
        let n = nearest(b, 0x100_0000_0000);
        assert(size_text(bytes) == text::decimal(n) + "T"@);
    }
}

/// Of the whole numbers the nearest is taken, and of two that are as near the even one.
pub proof fn the_nearest_is_taken(n: nat, d: nat, k: nat)
    requires
        d > 0,
    ensures
        2 * n < 2 * (k * d) + d && 2 * (k * d) < 2 * n + d ==> nearest(n, d) == k,
        2 * n == 2 * (k * d) + d ==> nearest(n, d) == if k % 2 == 0 {
            k
        } else {
            k + 1
        },
{
    let q = n / d;
    let r = n % d;
    vstd::arithmetic::div_mod::lemma_fundamental_div_mod(n as int, d as int);
    assert(q * d == d * q) by (nonlinear_arith);
    assert((q + 1) * d == q * d + d) by (nonlinear_arith);
    if k < q {
        assert(k * d + d <= q * d) by (nonlinear_arith)
            requires
                k + 1 <= q,
                d > 0,
        ;
    }
    if k > q {
        assert(q * d + d <= k * d) by (nonlinear_arith)
            requires
                q + 1 <= k,
                d > 0,
        ;
        if k > q + 1 {
            assert(q * d + 2 * d <= k * d) by (nonlinear_arith)
                requires
                    q + 2 <= k,
                    d > 0,
            ;
        }
    }
}

/// Doubles hold fifty-three binary digits: whole numbers below that all, larger ones in
/// steps that leave so many.
pub proof fn doubles_hold_so_many_digits(n: u64)
    ensures
        n < 0x20_0000_0000_0000 ==> double_step(n as nat) == 1,
        n >= 0x20_0000_0000_0000 ==> double_step(n as nat) * 0x10_0000_0000_0000 <= n < double_step(
            n as nat,
        ) * 0x20_0000_0000_0000,
{
}

} // verus!
