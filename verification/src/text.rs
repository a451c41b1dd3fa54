//! Text as sequences of characters: trimming, splitting, joining, numbers in
//! decimal and hexadecimal, and the order in which names are listed.
use vstd::prelude::*;

verus! {

/// `String::push` appends the given character to the end of the string.
pub assume_specification[ String::push ](s: &mut String, c: char)
    ensures
        final(s)@ == old(s)@.push(c),
;

/// What `str::to_lowercase` makes of a text.
pub uninterp spec fn lowercase(s: Seq<char>) -> Seq<char>;

/// `str::to_lowercase`: the Unicode lower case of the text, a function of its
/// characters alone. What that mapping is on a given text is left unsaid.
#[verifier::external_body]
pub(crate) fn to_lowercase(s: &str) -> (r: String)
    ensures
        r@ == lowercase(s@),
{
    s.to_lowercase()
}

/// The characters of a string, in order.
pub fn chars_of(s: &str) -> (r: Vec<char>)
    ensures
        r@ == s@,
{
    let mut out: Vec<char> = Vec::new();
    for c in it: s.chars()
        invariant
            it.seq() == s@,
            out@ == s@.take(it.index() as int),
    {
        out.push(c);
        assert(s@.take(it.index() as int + 1) =~= s@.take(it.index() as int).push(c));
    }
    assert(s@.take(s@.len() as int) =~= s@);
    out
}

/// The string made of the given characters.
pub fn string_of(chars: &[char]) -> (r: String)
    ensures
        r@ == chars@,
{
    let mut out: String = String::new();
    let mut i: usize = 0;
    while i < chars.len()
        invariant
            i <= chars.len(),
            out@ == chars@.take(i as int),
        decreases chars.len() - i,
    {
        out.push(chars[i]);
        i = i + 1;
        assert(chars@.take(i as int) =~= chars@.take(i - 1).push(chars@[i - 1]));
    }
    assert(chars@.take(i as int) =~= chars@);
    out
}

/// Whether two texts hold the same characters.
pub fn same(a: &str, b: &str) -> (r: bool)
    ensures
        r == (a@ == b@),
{
    let x = chars_of(a);
    let y = chars_of(b);
    if x.len() != y.len() {
        return false;
    }
    let mut i: usize = 0;
    while i < x.len()
        invariant
            x@ == a@,
            y@ == b@,
            x.len() == y.len(),
            i <= x.len(),
            forall|k: int| 0 <= k < i ==> a@[k] == b@[k],
        decreases x.len() - i,
    {
        if x[i] != y[i] {
            return false;
        }
        i = i + 1;
    }
    assert(a@ =~= b@);
    true
}

pub fn cat2(a: &str, b: &str) -> (r: String)
    ensures
        r@ == a@ + b@,
{
    let mut out: String = a.to_string();
    out.append(b);
    out
}

pub fn cat3(a: &str, b: &str, c: &str) -> (r: String)
    ensures
        r@ == a@ + b@ + c@,
{
    let mut out: String = a.to_string();
    out.append(b);
    out.append(c);
    out
}

pub fn cat4(a: &str, b: &str, c: &str, d: &str) -> (r: String)
    ensures
        r@ == a@ + b@ + c@ + d@,
{
    let mut out: String = cat3(a, b, c);
    out.append(d);
    out
}

pub fn cat5(a: &str, b: &str, c: &str, d: &str, e: &str) -> (r: String)
    ensures
        r@ == a@ + b@ + c@ + d@ + e@,
{
    let mut out: String = cat4(a, b, c, d);
    out.append(e);
    out
}

// ---- white space -------------------------------------------------------------

/// The characters with Unicode's `White_Space` property.
pub open spec fn white_space(c: char) -> bool {
    let n = c as u32;
    ||| 0x09 <= n <= 0x0d
    ||| n == 0x20
    ||| n == 0x85
    ||| n == 0xa0
    ||| n == 0x1680
    ||| 0x2000 <= n <= 0x200a
    ||| n == 0x2028
    ||| n == 0x2029
    ||| n == 0x202f
    ||| n == 0x205f
    ||| n == 0x3000
}

pub fn is_white_space(c: char) -> (r: bool)
    ensures
        r == white_space(c),
{
    let n: u32 = c as u32;
    (0x09 <= n && n <= 0x0d) || n == 0x20 || n == 0x85 || n == 0xa0 || n == 0x1680 || (0x2000 <= n
        && n <= 0x200a) || n == 0x2028 || n == 0x2029 || n == 0x202f || n == 0x205f || n == 0x3000
}

/// The text without the white space it starts with.
pub open spec fn trimmed_start(s: Seq<char>) -> Seq<char>
    decreases s.len(),
{
    if s.len() > 0 && white_space(s[0]) {
        trimmed_start(s.skip(1))
    } else {
        s
    }
}

/// The text without the white space it ends with.
pub open spec fn trimmed_end(s: Seq<char>) -> Seq<char>
    decreases s.len(),
{
    if s.len() > 0 && white_space(s.last()) {
        trimmed_end(s.drop_last())
    } else {
        s
    }
}

/// The text without white space at either end.
pub open spec fn trimmed(s: Seq<char>) -> Seq<char> {
    trimmed_end(trimmed_start(s))
}

pub fn trim_chars(s: &[char]) -> (r: Vec<char>)
    ensures
        r@ == trimmed(s@),
{
    let mut i: usize = 0;
    assert(s@.skip(0) =~= s@);
    while i < s.len() && is_white_space(s[i])
        invariant
            i <= s.len(),
            trimmed_start(s@) == trimmed_start(s@.skip(i as int)),
        decreases s.len() - i,
    {
        i = i + 1;
        assert(s@.skip(i - 1).skip(1) =~= s@.skip(i as int));
    }
    let ghost rest = s@.skip(i as int);
    assert(trimmed_start(s@) == rest);
    let mut j: usize = s.len();
    assert(s@.subrange(i as int, j as int) =~= rest);
    while j > i && is_white_space(s[j - 1])
        invariant
            i <= j <= s.len(),
            trimmed_end(rest) == trimmed_end(s@.subrange(i as int, j as int)),
        decreases j,
    {
        j = j - 1;
        assert(s@.subrange(i as int, j + 1).drop_last() =~= s@.subrange(i as int, j as int));
    }
    let mut out: Vec<char> = Vec::new();
    out.extend_from_slice(&s[i..j]);
    assert(out@ =~= s@.subrange(i as int, j as int));
    out
}

/// The text without white space at either end, as a new string.
pub fn trim(s: &str) -> (r: String)
    ensures
        r@ == trimmed(s@),
{
    let chars = chars_of(s);
    string_of(&trim_chars(&chars))
}

/// Text with no white space at its ends is left as it is.
pub proof fn trimmed_keeps(s: Seq<char>)
    requires
        s.len() == 0 || (!white_space(s[0]) && !white_space(s.last())),
    ensures
        trimmed(s) == s,
{
}

// ---- numbers -------------------------------------------------------------------

/// The digit that stands for a value under sixteen.
pub open spec fn digit(n: int) -> char {
    if n < 10 {
        (48 + n) as char
    } else {
        (87 + n) as char
    }
}

pub fn digit_of(n: u8) -> (r: char)
    requires
        n < 16,
    ensures
        r == digit(n as int),
{
    if n < 10 {
        (48 + n) as char
    } else {
        (87 + n) as char
    }
}

/// A natural number in decimal, without leading zeros.
pub open spec fn decimal(n: nat) -> Seq<char>
    decreases n,
{
    if n < 10 {
        seq![digit(n as int)]
    } else {
        decimal(n / 10).push(digit((n % 10) as int))
    }
}

pub fn decimal_of(n: u128) -> (r: String)
    ensures
        r@ == decimal(n as nat),
    decreases n,
{
    let last: char = digit_of((n % 10) as u8);
    let mut out: String = if n < 10 {
        String::new()
    } else {
        decimal_of(n / 10)
    };
    out.push(last);
    assert(Seq::<char>::empty().push(last) =~= seq![last]);
    out
}

/// An integer in decimal, with a minus sign where it is negative.
pub open spec fn decimal_int(n: int) -> Seq<char> {
    if n < 0 {
        seq!['-'] + decimal((-n) as nat)
    } else {
        decimal(n as nat)
    }
}

pub fn decimal_of_i32(n: i32) -> (r: String)
    ensures
        r@ == decimal_int(n as int),
{
    if n < 0 {
        let m: i64 = -(n as i64);
        let mut out: String = String::new();
        out.push('-');
        out.append(&decimal_of(m as u128));
        assert(out@ =~= seq!['-'] + decimal((-n) as nat));
        out
    } else {
        decimal_of(n as u128)
    }
}

/// A number in lower-case hexadecimal, in at least `width` digits.
pub open spec fn hex(n: nat, width: nat) -> Seq<char>
    decreases n + width,
{
    if n == 0 && width == 0 {
        seq![]
    } else {
        hex(n / 16, if width == 0 { 0 } else { (width - 1) as nat }).push(digit((n % 16) as int))
    }
}

pub fn hex_of(n: u128, width: u8) -> (r: String)
    ensures
        r@ == hex(n as nat, width as nat),
    decreases n + width,
{
    if n == 0 && width == 0 {
        String::new()
    } else {
        let mut out: String = hex_of(n / 16, if width == 0 { 0 } else { width - 1 });
        out.push(digit_of((n % 16) as u8));
        out
    }
}

/// The value of a decimal digit.
pub open spec fn is_digit(c: char) -> bool {
    '0' <= c <= '9'
}

/// The number that a run of decimal digits stands for.
pub open spec fn digits_value(s: Seq<char>) -> nat
    decreases s.len(),
{
    if s.len() == 0 {
        0
    } else {
        digits_value(s.drop_last()) * 10 + (s.last() as nat - '0' as nat) as nat
    }
}

/// The digits of a number: an optional plus sign may stand before them.
pub open spec fn number_digits(s: Seq<char>) -> Seq<char> {
    if s.len() > 0 && s[0] == '+' {
        s.skip(1)
    } else {
        s
    }
}

pub open spec fn all_digits(s: Seq<char>) -> bool {
    forall|i: int| 0 <= i < s.len() ==> is_digit(#[trigger] s[i])
}

/// An unsigned number as text reads: at least one digit and nothing but
/// digits after an optional plus sign, and at most `max`.
pub open spec fn parsed_number(s: Seq<char>, max: nat) -> Option<nat> {
    let d = number_digits(s);
    if d.len() > 0 && all_digits(d) && digits_value(d) <= max {
        Some(digits_value(d))
    } else {
        None
    }
}

proof fn digits_value_grows(s: Seq<char>, i: int)
    requires
        0 <= i <= s.len(),
        all_digits(s),
    ensures
        digits_value(s.take(i)) <= digits_value(s),
    decreases s.len(),
{
    if i < s.len() {
        assert(s.drop_last().take(i) =~= s.take(i));
        assert(all_digits(s.drop_last()));
        digits_value_grows(s.drop_last(), i);
    } else {
        assert(s.take(i) =~= s);
    }
}

/// Reads an unsigned 32-bit number.
pub fn parse_u32(s: &str) -> (r: Option<u32>)
    ensures
        r matches Some(n) ==> parsed_number(s@, u32::MAX as nat) == Some(n as nat),
        r is None ==> parsed_number(s@, u32::MAX as nat) is None,
{
    let chars = chars_of(s);
    let start: usize = if chars.len() > 0 && chars[0] == '+' {
        1
    } else {
        0
    };
    let ghost d = number_digits(s@);
    assert(d =~= s@.skip(start as int));
    if start == chars.len() {
        return None;
    }
    let mut value: u64 = 0;
    let mut i: usize = start;
    while i < chars.len()
        invariant
            start <= i <= chars.len(),
            chars@ == s@,
            d == s@.skip(start as int),
            d == number_digits(s@),
            all_digits(d.take(i - start)),
            value == digits_value(d.take(i - start)),
            value <= u32::MAX,
        decreases chars.len() - i,
    {
        let c: char = chars[i];
        assert(c == d[i - start]);
        if c < '0' || c > '9' {
            return None;
        }
        let n: u64 = (c as u32 - '0' as u32) as u64;
        value = value * 10 + n;
        i = i + 1;
        assert(d.take(i - start).drop_last() =~= d.take(i - start - 1));
        assert(d.take(i - start).last() == c);
        assert forall|k: int| 0 <= k < d.take(i - start).len() implies is_digit(
            #[trigger] d.take(i - start)[k],
        ) by {
            if k < i - start - 1 {
                assert(d.take(i - start)[k] == d.take(i - start - 1)[k]);
            }
        }
        if value > u32::MAX as u64 {
            proof {
                if all_digits(d) {
                    digits_value_grows(d, i - start);
                }
            }
            return None;
        }
    }
    assert(d.take(i - start) =~= d);
    Some(value as u32)
}

/// A number that is written in decimal reads back as it was.
pub proof fn decimal_round_trips(n: nat, max: nat)
    requires
        n <= max,
    ensures
        parsed_number(decimal(n), max) == Some(n),
        trimmed(decimal(n)) == decimal(n),
        decimal(n).len() > 0,
{
    decimal_is_digits(n);
    let s = decimal(n);
    assert(is_digit(s[0]));
    assert(is_digit(s[s.len() - 1]));
    trimmed_keeps(s);
}

proof fn decimal_is_digits(n: nat)
    ensures
        decimal(n).len() > 0,
        all_digits(decimal(n)),
        digits_value(decimal(n)) == n,
    decreases n,
{
    let s = decimal(n);
    if n < 10 {
        assert(s.drop_last() =~= seq![]);
        assert(digits_value(s.drop_last()) == 0);
    } else {
        decimal_is_digits(n / 10);
        assert(s.drop_last() =~= decimal(n / 10));
        assert forall|i: int| 0 <= i < s.len() implies is_digit(#[trigger] s[i]) by {
            if i < s.len() - 1 {
                assert(s[i] == decimal(n / 10)[i]);
            }
        }
    }
}

// ---- comparison ------------------------------------------------------------------

/// An ASCII capital as its small letter; any other character as it is.
pub open spec fn ascii_lower(c: char) -> char {
    if 'A' <= c <= 'Z' {
        ((c as u32) + 32) as char
    } else {
        c
    }
}

pub open spec fn ascii_lowered(s: Seq<char>) -> Seq<char> {
    s.map_values(|c: char| ascii_lower(c))
}

pub fn to_ascii_lower(c: char) -> (r: char)
    ensures
        r == ascii_lower(c),
{
    if 'A' <= c && c <= 'Z' {
        let n: u8 = c as u8;
        (n + 32) as char
    } else {
        c
    }
}

/// Whether two texts are the same up to the case of ASCII letters.
pub fn same_ignoring_case(a: &str, b: &str) -> (r: bool)
    ensures
        r == (ascii_lowered(a@) == ascii_lowered(b@)),
{
    let x = chars_of(a);
    let y = chars_of(b);
    if x.len() != y.len() {
        assert(ascii_lowered(a@).len() != ascii_lowered(b@).len());
        return false;
    }
    let mut i: usize = 0;
    while i < x.len()
        invariant
            x@ == a@,
            y@ == b@,
            x.len() == y.len(),
            i <= x.len(),
            forall|k: int| 0 <= k < i ==> ascii_lower(#[trigger] a@[k]) == ascii_lower(b@[k]),
        decreases x.len() - i,
    {
        if to_ascii_lower(x[i]) != to_ascii_lower(y[i]) {
            assert(ascii_lowered(a@)[i as int] != ascii_lowered(b@)[i as int]);
            return false;
        }
        i = i + 1;
    }
    assert(ascii_lowered(a@) =~= ascii_lowered(b@));
    true
}

/// The order of names: character by character, a prefix before what extends it.
pub open spec fn precedes(a: Seq<char>, b: Seq<char>) -> bool
    decreases a.len(),
{
    if b.len() == 0 {
        false
    } else if a.len() == 0 {
        true
    } else if a[0] != b[0] {
        a[0] < b[0]
    } else {
        precedes(a.skip(1), b.skip(1))
    }
}

/// Whether the first text comes strictly before the second.
pub fn comes_before(a: &str, b: &str) -> (r: bool)
    ensures
        r == precedes(a@, b@),
{
    let x = chars_of(a);
    let y = chars_of(b);
    let mut i: usize = 0;
    assert(a@.skip(0) =~= a@);
    assert(b@.skip(0) =~= b@);
    while i < x.len() && i < y.len() && x[i] == y[i]
        invariant
            x@ == a@,
            y@ == b@,
            i <= x.len(),
            i <= y.len(),
            precedes(a@, b@) == precedes(a@.skip(i as int), b@.skip(i as int)),
        decreases x.len() - i,
    {
        i = i + 1;
        assert(a@.skip(i - 1).skip(1) =~= a@.skip(i as int));
        assert(b@.skip(i - 1).skip(1) =~= b@.skip(i as int));
    }
    if i == y.len() {
        false
    } else if i == x.len() {
        true
    } else {
        x[i] < y[i]
    }
}

/// No text comes before itself, and of two different texts one comes first.
pub proof fn precedes_is_total(a: Seq<char>, b: Seq<char>)
    ensures
        !precedes(a, a),
        !(precedes(a, b) && precedes(b, a)),
        precedes(a, b) || precedes(b, a) || a == b,
    decreases a.len(),
{
    if a.len() > 0 {
        precedes_is_total(a.skip(1), a.skip(1));
    }
    if a.len() > 0 && b.len() > 0 && a[0] == b[0] {
        precedes_is_total(a.skip(1), b.skip(1));
        if a.skip(1) == b.skip(1) {
            assert(a =~= seq![a[0]] + a.skip(1));
            assert(b =~= seq![b[0]] + b.skip(1));
        }
    }
    if a.len() == 0 && b.len() == 0 {
        assert(a =~= b);
    }
}

/// The order of names is transitive.
pub proof fn precedes_chains(a: Seq<char>, b: Seq<char>, c: Seq<char>)
    requires
        precedes(a, b),
        precedes(b, c),
    ensures
        precedes(a, c),
    decreases a.len(),
{
    if a.len() > 0 && a[0] == b[0] && b[0] == c[0] {
        precedes_chains(a.skip(1), b.skip(1), c.skip(1));
    }
}

// ---- splitting and joining -------------------------------------------------------

/// The pieces between the separators: one more than there are separators.
pub open spec fn pieces(s: Seq<char>, sep: char) -> Seq<Seq<char>>
    decreases s.len(),
{
    if s.len() == 0 {
        seq![seq![]]
    } else {
        let before = pieces(s.drop_last(), sep);
        if s.last() == sep {
            before.push(seq![])
        } else {
            before.update(before.len() - 1, before.last().push(s.last()))
        }
    }
}

pub proof fn pieces_are_some(s: Seq<char>, sep: char)
    ensures
        pieces(s, sep).len() > 0,
    decreases s.len(),
{
    if s.len() > 0 {
        pieces_are_some(s.drop_last(), sep);
    }
}

/// Text without the separator only lengthens the last piece.
pub proof fn pieces_lengthen(a: Seq<char>, b: Seq<char>, sep: char)
    requires
        !b.contains(sep),
    ensures
        pieces(a + b, sep) == pieces(a, sep).update(
            pieces(a, sep).len() - 1,
            pieces(a, sep).last() + b,
        ),
    decreases b.len(),
{
    pieces_are_some(a, sep);
    let p = pieces(a, sep);
    if b.len() == 0 {
        assert(a + b =~= a);
        assert(p.last() + b =~= p.last());
        assert(p.update(p.len() - 1, p.last()) =~= p);
    } else {
        let front = b.drop_last();
        assert(!front.contains(sep)) by {
            if front.contains(sep) {
                let i = choose|i: int| 0 <= i < front.len() && front[i] == sep;
                assert(b[i] == sep);
            }
        }
        assert(b[b.len() - 1] != sep);
        pieces_lengthen(a, front, sep);
        assert((a + b).drop_last() =~= a + front);
        let q = pieces(a + front, sep);
        assert(q.last() == p.last() + front);
        assert((p.last() + front).push(b.last()) =~= p.last() + b);
        assert(q.update(q.len() - 1, p.last() + b) =~= p.update(p.len() - 1, p.last() + b));
    }
}

/// The views of a list of strings.
pub open spec fn views(v: Seq<String>) -> Seq<Seq<char>> {
    v.map_values(|s: String| s@)
}

/// Splits a text at every separator.
pub fn split(s: &str, sep: char) -> (r: Vec<String>)
    ensures
        views(r@) == pieces(s@, sep),
{
    let chars = chars_of(s);
    let mut out: Vec<String> = Vec::new();
    let mut current: String = String::new();
    let mut i: usize = 0;
    assert(views(out@).push(current@) =~= pieces(s@.take(0), sep));
    while i < chars.len()
        invariant
            chars@ == s@,
            i <= chars.len(),
            views(out@).push(current@) == pieces(s@.take(i as int), sep),
        decreases chars.len() - i,
    {
        let c: char = chars[i];
        let ghost before = views(out@).push(current@);
        i = i + 1;
        assert(s@.take(i as int).drop_last() =~= s@.take(i - 1));
        if c == sep {
            out.push(current);
            current = String::new();
            assert(views(out@).push(current@) =~= before.push(seq![]));
        } else {
            current.push(c);
            assert(views(out@).push(current@) =~= before.update(
                before.len() - 1,
                before.last().push(c),
            ));
        }
    }
    out.push(current);
    assert(s@.take(i as int) =~= s@);
    assert(views(out@) =~= pieces(s@, sep));
    out
}

/// The texts one after another, the separator between each two.
pub open spec fn joined(v: Seq<Seq<char>>, sep: Seq<char>) -> Seq<char>
    decreases v.len(),
{
    if v.len() == 0 {
        seq![]
    } else if v.len() == 1 {
        v[0]
    } else {
        joined(v.drop_last(), sep) + sep + v.last()
    }
}

pub fn join(v: &Vec<String>, sep: &str) -> (r: String)
    ensures
        r@ == joined(views(v@), sep@),
{
    let mut out: String = String::new();
    let mut i: usize = 0;
    while i < v.len()
        invariant
            i <= v.len(),
            out@ == joined(views(v@).take(i as int), sep@),
        decreases v.len() - i,
    {
        if i > 0 {
            out.append(sep);
        }
        out.append(&v[i]);
        i = i + 1;
        assert(views(v@).take(i as int).drop_last() =~= views(v@).take(i - 1));
        assert(Seq::<char>::empty() + v@[i - 1]@ =~= v@[i - 1]@);
    }
    assert(views(v@).take(i as int) =~= views(v@));
    out
}

// ---- lines and words ----------------------------------------------------------------

/// The text up to its first line break; all of it where there is none.
pub open spec fn up_to_break(s: Seq<char>) -> Seq<char>
    decreases s.len(),
{
    if s.len() == 0 || s[0] == '\n' {
        seq![]
    } else {
        seq![s[0]] + up_to_break(s.skip(1))
    }
}

/// The first line: the text up to a line break, whether `\n` or `\r\n`.
pub open spec fn first_of_lines(s: Seq<char>) -> Seq<char> {
    let line = up_to_break(s);
    if line.len() < s.len() && line.len() > 0 && line.last() == '\r' {
        line.drop_last()
    } else {
        line
    }
}

fn break_at(chars: &Vec<char>) -> (r: usize)
    ensures
        r <= chars.len(),
        up_to_break(chars@) == chars@.take(r as int),
        r < chars.len() ==> chars@[r as int] == '\n',
{
    let mut i: usize = 0;
    let ghost s = chars@;
    assert(s.skip(0) =~= s);
    assert(up_to_break(s) =~= s.take(0) + up_to_break(s.skip(0)));
    while i < chars.len() && chars[i] != '\n'
        invariant
            s == chars@,
            i <= chars.len(),
            up_to_break(s) == s.take(i as int) + up_to_break(s.skip(i as int)),
        decreases chars.len() - i,
    {
        i = i + 1;
        assert(s.skip(i - 1).skip(1) =~= s.skip(i as int));
        assert(s.take(i - 1) + (seq![s[i - 1]] + up_to_break(s.skip(i as int))) =~= s.take(
            i as int,
        ) + up_to_break(s.skip(i as int)));
    }
    assert(up_to_break(s) =~= s.take(i as int));
    i
}

/// The first line of a text, empty where the text is.
pub fn first_line_of(s: &str) -> (r: String)
    ensures
        r@ == first_of_lines(s@),
{
    let chars = chars_of(s);
    let end: usize = break_at(&chars);
    let mut stop: usize = end;
    if end < chars.len() && end > 0 && chars[end - 1] == '\r' {
        stop = end - 1;
        assert(s@.take(end as int).drop_last() =~= s@.take(stop as int));
    }
    let out = string_of(&chars[0..stop]);
    assert(s@.subrange(0, stop as int) =~= s@.take(stop as int));
    out
}

/// A line without the carriage return it ends with.
pub open spec fn without_return(s: Seq<char>) -> Seq<char> {
    if s.len() > 0 && s.last() == '\r' {
        s.drop_last()
    } else {
        s
    }
}

/// The lines of a text. A line break at its end does not start another line.
pub open spec fn lines_of(s: Seq<char>) -> Seq<Seq<char>> {
    let p = pieces(s, '\n');
    let whole = Seq::new((p.len() - 1) as nat, |i: int| without_return(p[i]));
    if p.last().len() == 0 {
        whole
    } else {
        whole.push(p.last())
    }
}

/// The lines of a text, one string each.
pub fn lines(s: &str) -> (r: Vec<String>)
    ensures
        views(r@) == lines_of(s@),
{
    let found: Vec<String> = split(s, '\n');
    let ghost p = pieces(s@, '\n');
    proof {
        pieces_are_some(s@, '\n');
        assert(p.len() == found@.len());
    }
    let n: usize = found.len() - 1;
    let mut out: Vec<String> = Vec::new();
    let mut i: usize = 0;
    while i < n
        invariant
            i <= n,
            n == found@.len() - 1,
            p == views(found@),
            out@.len() == i,
            forall|k: int| 0 <= k < i ==> (#[trigger] out@[k])@ == without_return(p[k]),
        decreases n - i,
    {
        assert(p[i as int] == found@[i as int]@);
        let chars: Vec<char> = chars_of(&found[i]);
        let m: usize = chars.len();
        if m > 0 && chars[m - 1] == '\r' {
            let line: String = string_of(&chars[0..m - 1]);
            assert(line@ =~= p[i as int].drop_last());
            out.push(line);
        } else {
            out.push(found[i].clone());
        }
        i = i + 1;
    }
    let ghost whole = Seq::new((p.len() - 1) as nat, |k: int| without_return(p[k]));
    assert(views(out@) =~= whole);
    assert(p.last() == found@[n as int]@);
    if !found[n].as_str().is_empty() {
        let ghost last = found@[n as int]@;
        out.push(found[n].clone());
        assert(views(out@) =~= whole.push(last));
    }
    out
}

/// Words, as far as they have been read: whole ones and the one begun.
#[verifier::ext_equal]
pub struct WordScan {
    pub words: Seq<Seq<char>>,
    pub current: Seq<char>,
}

pub open spec fn word_scan(s: Seq<char>) -> WordScan
    decreases s.len(),
{
    if s.len() == 0 {
        WordScan { words: seq![], current: seq![] }
    } else {
        let before = word_scan(s.drop_last());
        if !white_space(s.last()) {
            WordScan { current: before.current.push(s.last()), ..before }
        } else if before.current.len() > 0 {
            WordScan { words: before.words.push(before.current), current: seq![] }
        } else {
            before
        }
    }
}

/// The words of a text: what stands between white space.
pub open spec fn words_of(s: Seq<char>) -> Seq<Seq<char>> {
    let end = word_scan(s);
    if end.current.len() > 0 {
        end.words.push(end.current)
    } else {
        end.words
    }
}

/// The words of a text, one string each.
pub fn words(s: &str) -> (r: Vec<String>)
    ensures
        views(r@) == words_of(s@),
{
    let chars: Vec<char> = chars_of(s);
    let mut out: Vec<String> = Vec::new();
    let mut current: Vec<char> = Vec::new();
    let mut i: usize = 0;
    assert(chars@.take(0) =~= seq![]);
    assert(views(out@) =~= seq![]);
    assert(current@ =~= seq![]);
    while i < chars.len()
        invariant
            i <= chars.len(),
            chars@ == s@,
            word_scan(chars@.take(i as int)) == (WordScan {
                words: views(out@),
                current: current@,
            }),
        decreases chars.len() - i,
    {
        let c: char = chars[i];
        assert(chars@.take(i as int + 1).drop_last() =~= chars@.take(i as int));
        if !is_white_space(c) {
            current.push(c);
        } else if current.len() > 0 {
            let ghost before = views(out@);
            out.push(string_of(&current));
            assert(views(out@) =~= before.push(current@));
            current = Vec::new();
            assert(current@ =~= seq![]);
        }
        i = i + 1;
    }
    assert(chars@.take(i as int) =~= chars@);
    if current.len() > 0 {
        let ghost before = views(out@);
        out.push(string_of(&current));
        assert(views(out@) =~= before.push(current@));
    }
    out
}

// ---- columns -----------------------------------------------------------------------

/// The same character over and over.
pub open spec fn run(c: char, n: nat) -> Seq<char> {
    Seq::new(n, |i: int| c)
}

pub fn repeat(c: char, n: usize) -> (r: String)
    ensures
        r@ == run(c, n as nat),
{
    let mut out: String = String::new();
    let mut i: usize = 0;
    while i < n
        invariant
            i <= n,
            out@ == run(c, i as nat),
        decreases n - i,
    {
        out.push(c);
        i = i + 1;
        assert(out@ =~= run(c, i as nat));
    }
    assert(out@ =~= run(c, n as nat));
    out
}

/// A text in a column of the given width, flush left; a longer one sticks out.
pub open spec fn column(s: Seq<char>, width: nat) -> Seq<char> {
    if s.len() >= width {
        s
    } else {
        s + run(' ', (width - s.len()) as nat)
    }
}

pub fn in_column(s: &str, width: usize) -> (r: String)
    ensures
        r@ == column(s@, width as nat),
{
    let n: usize = chars_of(s).len();
    if n >= width {
        s.to_string()
    } else {
        cat2(s, &repeat(' ', width - n))
    }
}

/// A text with each line break as a space.
pub open spec fn on_one_line(s: Seq<char>) -> Seq<char> {
    s.map_values(
        |c: char|
            if c == '\n' {
                ' '
            } else {
                c
            },
    )
}

pub fn flatten(s: &str) -> (r: String)
    ensures
        r@ == on_one_line(s@),
{
    let chars: Vec<char> = chars_of(s);
    let mut out: String = String::new();
    let mut i: usize = 0;
    assert(chars@.take(0) =~= seq![]);
    assert(on_one_line(chars@.take(0)) =~= seq![]);
    while i < chars.len()
        invariant
            i <= chars.len(),
            chars@ == s@,
            out@ == on_one_line(chars@.take(i as int)),
        decreases chars.len() - i,
    {
        let c: char = chars[i];
        out.push(
            if c == '\n' {
                ' '
            } else {
                c
            },
        );
        i = i + 1;
        assert(out@ =~= on_one_line(chars@.take(i as int)));
    }
    assert(chars@.take(i as int) =~= chars@);
    out
}

/// A number under a hundred in two digits.
pub open spec fn two_digits(n: int) -> Seq<char> {
    seq![digit(n / 10), digit(n % 10)]
}

pub fn two_digits_of(n: u8) -> (r: String)
    requires
        n < 100,
    ensures
        r@ == two_digits(n as int),
{
    let mut out: String = String::new();
    out.push(digit_of(n / 10));
    out.push(digit_of(n % 10));
    assert(out@ =~= two_digits(n as int));
    out
}

/// Trimming takes white space away at both ends, all of it, and nothing else.
pub proof fn trimming_takes_only_white_space(s: Seq<char>)
    ensures
        trimmed(s).len() > 0 ==> !white_space(trimmed(s)[0]) && !white_space(trimmed(s).last()),
        exists|a: int, b: int| #[trigger] trimmed_between(s, a, b),
{
    start_is_trimmed(s);
    let t = trimmed_start(s);
    end_is_trimmed(t);
    let a = s.len() - t.len();
    let b = a + trimmed_end(t).len();
    assert(s.subrange(a, b) =~= trimmed(s)) by {
        assert(t =~= s.skip(a));
        assert(trimmed_end(t) =~= t.take(trimmed_end(t).len() as int));
    }
    assert forall|i: int| b <= i < s.len() implies white_space(#[trigger] s[i]) by {
        assert(t[i - a] == s[i]);
    }
    assert(trimmed_between(s, a, b));
    if trimmed(s).len() > 0 {
        assert(trimmed(s)[0] == t[0]);
    }
}

/// Whether a trimmed text is what stands between two places, with white space only before
/// and behind.
pub open spec fn trimmed_between(s: Seq<char>, a: int, b: int) -> bool {
    &&& 0 <= a <= b <= s.len()
    &&& trimmed(s) == s.subrange(a, b)
    &&& forall|i: int| 0 <= i < a ==> white_space(#[trigger] s[i])
    &&& forall|i: int| b <= i < s.len() ==> white_space(#[trigger] s[i])
}

proof fn start_is_trimmed(s: Seq<char>)
    ensures
        ({
            let t = trimmed_start(s);
            let a = s.len() - t.len();
            &&& 0 <= a
            &&& t == s.skip(a)
            &&& forall|i: int| 0 <= i < a ==> white_space(#[trigger] s[i])
            &&& t.len() > 0 ==> !white_space(t[0])
        }),
    decreases s.len(),
{
    if s.len() > 0 && white_space(s[0]) {
        let rest = s.skip(1);
        start_is_trimmed(rest);
        let t = trimmed_start(s);
        let a = s.len() - t.len();
        assert(t =~= s.skip(a));
        assert forall|i: int| 0 <= i < a implies white_space(#[trigger] s[i]) by {
            if i > 0 {
                assert(rest[i - 1] == s[i]);
            }
        }
    } else {
        assert(s.skip(0) =~= s);
    }
}

proof fn end_is_trimmed(s: Seq<char>)
    ensures
        ({
            let t = trimmed_end(s);
            &&& t.len() <= s.len()
            &&& t == s.take(t.len() as int)
            &&& forall|i: int| t.len() <= i < s.len() ==> white_space(#[trigger] s[i])
            &&& t.len() > 0 ==> !white_space(t.last())
        }),
    decreases s.len(),
{
    if s.len() > 0 && white_space(s.last()) {
        let front = s.drop_last();
        end_is_trimmed(front);
        let t = trimmed_end(s);
        assert(t =~= s.take(t.len() as int));
        assert forall|i: int| t.len() <= i < s.len() implies white_space(#[trigger] s[i]) by {
            if i < front.len() {
                assert(front[i] == s[i]);
            }
        }
    } else {
        assert(s.take(s.len() as int) =~= s);
    }
}

/// Of two texts the one whose first differing character is the smaller comes first, and a
/// text before what extends it.
pub proof fn the_first_difference_decides(common: Seq<char>, a: char, b: char, x: Seq<char>, y: Seq<char>)
    requires
        a < b,
    ensures
        precedes(common + seq![a] + x, common + seq![b] + y),
        !precedes(common + seq![b] + y, common + seq![a] + x),
        precedes(common, common + seq![a] + x),
        !precedes(common + seq![a] + x, common),
    decreases common.len(),
{
    let p = common + seq![a] + x;
    let q = common + seq![b] + y;
    if common.len() > 0 {
        let rest = common.skip(1);
        the_first_difference_decides(rest, a, b, x, y);
        assert(p.skip(1) =~= rest + seq![a] + x);
        assert(q.skip(1) =~= rest + seq![b] + y);
        assert(p[0] == common[0] && q[0] == common[0]);
    } else {
        assert(p[0] == a && q[0] == b);
    }
}

/// Letters are made small and everything else is kept when case does not count.
pub proof fn case_is_that_of_ascii_letters(c: char)
    ensures
        'A' <= c <= 'Z' ==> ascii_lower(c) as u32 == c as u32 + 32,
        !('A' <= c <= 'Z') ==> ascii_lower(c) == c,
{
}

/// A text is split at each separator: joining the pieces with it gives the text back, and
/// there is one piece more than there are separators in it.
pub proof fn pieces_are_parted_by_the_separator(s: Seq<char>, sep: char, next: char)
    ensures
        next == sep ==> pieces(s.push(next), sep) == pieces(s, sep).push(Seq::empty()),
        next != sep ==> pieces(s.push(next), sep).len() == pieces(s, sep).len() && pieces(
            s.push(next),
            sep,
        ).last() == pieces(s, sep).last().push(next) && pieces(s.push(next), sep).drop_last()
            == pieces(s, sep).drop_last(),
        pieces(Seq::empty(), sep) == seq![Seq::<char>::empty()],
{
    pieces_are_some(s, sep);
    assert(s.push(next).drop_last() =~= s);
    let before = pieces(s, sep);
    if next != sep {
        assert(pieces(s.push(next), sep).drop_last() =~= before.drop_last());
    }
}

/// Splitting a text that has the separator in it gives the pieces of what stands before it
/// and of what stands behind it.
pub proof fn pieces_of_two_are_those_of_both(a: Seq<char>, sep: char, b: Seq<char>)
    ensures
        pieces(a.push(sep) + b, sep) == pieces(a, sep) + pieces(b, sep),
    decreases b.len(),
{
    let s = a.push(sep) + b;
    pieces_are_some(b, sep);
    if b.len() == 0 {
        assert(s.drop_last() =~= a);
        assert(pieces(s, sep) =~= pieces(a, sep) + pieces(b, sep));
    } else {
        let front = b.drop_last();
        pieces_are_some(front, sep);
        pieces_of_two_are_those_of_both(a, sep, front);
        assert(s.drop_last() =~= a.push(sep) + front);
        assert(s.last() == b.last());
        assert(pieces(s, sep) =~= pieces(a, sep) + pieces(b, sep));
    }
}

/// A text without the separator is one piece.
pub proof fn unparted_texts_are_one_piece(s: Seq<char>, sep: char)
    requires
        forall|i: int| 0 <= i < s.len() ==> #[trigger] s[i] != sep,
    ensures
        pieces(s, sep) == seq![s],
    decreases s.len(),
{
    if s.len() > 0 {
        let front = s.drop_last();
        assert forall|i: int| 0 <= i < front.len() implies #[trigger] front[i] != sep by {
            assert(front[i] == s[i]);
        }
        assert(s.last() == s[s.len() - 1]);
        unparted_texts_are_one_piece(front, sep);
        assert(front.push(s.last()) =~= s);
        assert(pieces(s, sep) =~= seq![s]);
    } else {
        assert(s =~= seq![]);
    }
}

/// A line ends at a line break, of which a `\r` before it is a part. What comes behind are
/// further lines, and a text that ends with a break has no line behind it.
pub proof fn lines_end_at_breaks(line: Seq<char>, rest: Seq<char>)
    requires
        forall|i: int| 0 <= i < line.len() ==> #[trigger] line[i] != '\n',
    ensures
        lines_of(line.push('\n') + rest) == seq![
            if line.len() > 0 && line.last() == '\r' {
                line.drop_last()
            } else {
                line
            },
        ] + lines_of(rest),
        line.len() > 0 ==> lines_of(line) == seq![line],
        lines_of(Seq::empty()) == Seq::<Seq<char>>::empty(),
{
    pieces_of_two_are_those_of_both(line, '\n', rest);
    unparted_texts_are_one_piece(line, '\n');
    pieces_are_some(rest, '\n');
    let p = pieces(rest, '\n');
    let q = pieces(line.push('\n') + rest, '\n');
    assert(q =~= seq![line] + p);
    assert(q.last() == p.last());
    assert(lines_of(line.push('\n') + rest) =~= seq![without_return(line)] + lines_of(rest));
    if line.len() > 0 {
        assert(lines_of(line) =~= seq![line]);
    }
    let none = Seq::<char>::empty();
    unparted_texts_are_one_piece(none, '\n');
    assert(lines_of(none) =~= Seq::<Seq<char>>::empty());
}

proof fn up_to_break_stops(line: Seq<char>, rest: Seq<char>)
    requires
        forall|i: int| 0 <= i < line.len() ==> #[trigger] line[i] != '\n',
    ensures
        up_to_break(line.push('\n') + rest) == line,
        up_to_break(line) == line,
    decreases line.len(),
{
    let s = line.push('\n') + rest;
    if line.len() == 0 {
        assert(s[0] == '\n');
        assert(line =~= seq![]);
    } else {
        let behind = line.skip(1);
        assert forall|i: int| 0 <= i < behind.len() implies #[trigger] behind[i] != '\n' by {
            assert(behind[i] == line[i + 1]);
        }
        up_to_break_stops(behind, rest);
        assert(s.skip(1) =~= behind.push('\n') + rest);
        assert(s[0] == line[0]);
        assert(seq![line[0]] + behind =~= line);
    }
}

/// The first line is what stands before the first break, without it.
pub proof fn the_first_line_ends_at_the_first_break(line: Seq<char>, rest: Seq<char>)
    requires
        forall|i: int| 0 <= i < line.len() ==> #[trigger] line[i] != '\n',
    ensures
        first_of_lines(line) == line,
        first_of_lines(line.push('\n') + rest) == if line.len() > 0 && line.last() == '\r' {
            line.drop_last()
        } else {
            line
        },
{
    up_to_break_stops(line, rest);
}

proof fn words_go_on(s: Seq<char>, word: Seq<char>)
    requires
        forall|i: int| 0 <= i < word.len() ==> !white_space(#[trigger] word[i]),
        word_scan(s).current.len() == 0,
    ensures
        word_scan(s + word).words == word_scan(s).words,
        word_scan(s + word).current == word,
    decreases word.len(),
{
    if word.len() == 0 {
        assert(s + word =~= s);
        assert(word_scan(s).current =~= word);
    } else {
        let front = word.drop_last();
        assert forall|i: int| 0 <= i < front.len() implies !white_space(#[trigger] front[i]) by {
            assert(front[i] == word[i]);
        }
        words_go_on(s, front);
        assert((s + word).drop_last() =~= s + front);
        assert((s + word).last() == word[word.len() - 1]);
        assert(front.push(word.last()) =~= word);
    }
}

/// White space ends a word and makes none; what stands behind it, up to more white space,
/// is the next word.
pub proof fn words_are_parted_by_white_space(s: Seq<char>, gap: char, word: Seq<char>)
    requires
        white_space(gap),
        word.len() > 0,
        forall|i: int| 0 <= i < word.len() ==> !white_space(#[trigger] word[i]),
    ensures
        words_of(s.push(gap)) == words_of(s),
        words_of(s.push(gap) + word) == words_of(s).push(word),
        words_of(word) == seq![word],
        words_of(Seq::empty()) == Seq::<Seq<char>>::empty(),
{
    assert(s.push(gap).drop_last() =~= s);
    words_go_on(s.push(gap), word);
    let none = Seq::<char>::empty();
    words_go_on(none, word);
    assert(none + word =~= word);
    assert(words_of(word) =~= seq![word]);
}

/// What white space is, among the characters of ASCII: the space, the tab, and what ends
/// or feeds lines.
pub proof fn white_space_in_ascii(c: char)
    requires
        (c as u32) < 128,
    ensures
        white_space(c) <==> c == ' ' || c == '\t' || c == '\n' || c == '\r' || c as u32 == 11
            || c as u32 == 12,
{
}

/// A number is read digit by digit, from the left, in tens. A plus sign before it says
/// nothing, and anything else in it makes it none.
pub proof fn numbers_are_read_in_tens(s: Seq<char>, c: char, max: nat)
    requires
        s.len() > 0,
        s[0] != '+',
    ensures
        !('0' <= c <= '9') ==> parsed_number(s.push(c), max) is None,
        parsed_number(s.push(c), max) matches Some(n) ==> (parsed_number(s, max) matches Some(m) && n
            == 10 * m + (c as nat - 48) && n <= max),
        parsed_number(s, max) matches Some(m) && '0' <= c <= '9' && 10 * m + (c as nat - 48) <= max
            ==> parsed_number(s.push(c), max) is Some,
        parsed_number(seq!['+'] + s, max) == parsed_number(s, max),
        parsed_number(Seq::empty(), max) is None,
        '0' <= c <= '9' && c as nat - 48 <= max ==> parsed_number(seq![c], max) == Some(
            (c as nat - 48) as nat,
        ),
{
    let t = s.push(c);
    assert(t[0] == s[0]);
    assert(t.drop_last() =~= s);
    assert(t[t.len() - 1] == c);
    if all_digits(t) {
        assert forall|i: int| 0 <= i < s.len() implies is_digit(#[trigger] s[i]) by {
            assert(t[i] == s[i]);
        }
    }
    if parsed_number(s, max) is Some && '0' <= c <= '9' {
        assert forall|i: int| 0 <= i < t.len() implies is_digit(#[trigger] t[i]) by {
            if i < s.len() {
                assert(t[i] == s[i]);
            }
        }
    }
    let p = seq!['+'] + s;
    assert(p.skip(1) =~= s);
    if '0' <= c <= '9' {
        let one = seq![c];
        assert(one.drop_last() =~= Seq::<char>::empty());
        assert(digits_value(one.drop_last()) == 0);
        assert(all_digits(one));
        assert(digits_value(one) == c as nat - 48);
    }
}

/// A list of texts is joined with the separator between each two of them, and nowhere else.
pub proof fn joining_puts_the_separator_between(v: Seq<Seq<char>>, last: Seq<char>, sep: Seq<char>)
    ensures
        v.len() > 0 ==> joined(v.push(last), sep) == joined(v, sep) + sep + last,
        v.len() == 0 ==> joined(v.push(last), sep) == last,
        joined(Seq::empty(), sep) == Seq::<char>::empty(),
{
    assert(v.push(last).drop_last() =~= v);
}

/// The digits up to nine are `0` to `9`, and those above them `a` to `f`.
pub proof fn digits_are_in_order(n: int)
    requires
        0 <= n < 16,
    ensures
        n < 10 ==> '0' <= digit(n) <= '9' && digit(n) as int == '0' as int + n,
        n >= 10 ==> 'a' <= digit(n) <= 'f' && digit(n) as int == 'a' as int + (n - 10),
{
}

/// A number in sixteens has at least the width asked for, and ends with its last digit.
pub proof fn sixteens_are_padded(n: nat, width: nat)
    requires
        width > 0,
    ensures
        hex(n, width).len() >= width,
        hex(n, width).last() == digit((n % 16) as int),
        hex(n, width).drop_last() == hex(n / 16, (width - 1) as nat),
    decreases width,
{
    if width > 1 {
        sixteens_are_padded(n / 16, (width - 1) as nat);
    }
    assert(hex(n, width).drop_last() =~= hex(n / 16, (width - 1) as nat));
}

/// Numbers below zero are told with a sign before them, others without.
pub proof fn only_negative_numbers_have_a_sign(n: int)
    ensures
        n < 0 ==> decimal_int(n) == seq!['-'] + decimal((-n) as nat),
        n >= 0 ==> decimal_int(n) == decimal(n as nat),
{
}

/// Two digits are the tens and the ones.
pub proof fn two_digits_are_tens_and_ones(n: int)
    requires
        0 <= n < 100,
    ensures
        two_digits(n).len() == 2,
        (two_digits(n)[0] as int - '0' as int) * 10 + (two_digits(n)[1] as int - '0' as int) == n,
        is_digit(two_digits(n)[0]) && is_digit(two_digits(n)[1]),
{
}

/// A column is as wide as was asked, or as the text where that is wider, with the text at
/// its left.
pub proof fn columns_are_filled_up(s: Seq<char>, width: nat)
    ensures
        column(s, width).len() == if s.len() >= width {
            s.len()
        } else {
            width
        },
        column(s, width).take(s.len() as int) == s,
        forall|i: int| s.len() <= i < column(s, width).len() ==> #[trigger] column(s, width)[i]
            == ' ',
{
    assert(column(s, width).take(s.len() as int) =~= s);
}

} // verus!
