//! Shell and attach sessions.
//!
//! A shell runs on a terminal of its own and is a plain conduit in both
//! directions. Attaching bridges to a supervised process that has no terminal,
//! so the line is edited here, and Ctrl+C ends the session instead of being
//! forwarded. The steps below say what to print and what to send for each thing
//! that happens.
use vstd::prelude::*;

use crate::client::editor::{Keystroke, LineEditor};
use crate::client::editor;
use crate::client::keys::{KeyCode, KeyEvent, KeyKind, KeyModifiers};
use crate::protocol::term;
use crate::{bytes, text};

verus! {

pub const ESC: u8 = 27;

// ---- what the remote terminal says to this one -------------------------------------

/// `ESC [ 6 n`: where is the cursor?
pub open spec fn cursor_query() -> Seq<u8> {
    seq![27, 91, 54, 110]
}

/// `ESC [ ? 9001 h`: switch the input encoding on.
pub open spec fn input_mode_on() -> Seq<u8> {
    seq![27, 91, 63, 57, 48, 48, 49, 104]
}

/// `ESC [ ? 9001 l`: switch the input encoding off.
pub open spec fn input_mode_off() -> Seq<u8> {
    seq![27, 91, 63, 57, 48, 48, 49, 108]
}

/// What the front of the output is.
pub enum Verdict {
    /// A cursor query.
    Query,
    /// A sequence to swallow.
    Drop,
    /// The beginning of one of these: more is needed to tell.
    Hold,
    /// A byte to print.
    Print,
}

pub open spec fn verdict(rest: Seq<u8>) -> Verdict {
    if rest.len() == 0 || rest[0] != ESC {
        Verdict::Print
    } else if cursor_query().is_prefix_of(rest) {
        Verdict::Query
    } else if rest.is_prefix_of(cursor_query()) {
        Verdict::Hold
    } else if input_mode_on().is_prefix_of(rest) {
        Verdict::Drop
    } else if rest.is_prefix_of(input_mode_on()) {
        Verdict::Hold
    } else if input_mode_off().is_prefix_of(rest) {
        Verdict::Drop
    } else if rest.is_prefix_of(input_mode_off()) {
        Verdict::Hold
    } else {
        Verdict::Print
    }
}

/// Output, parted into what is printed, how many cursor queries it held, and
/// what is held back.
#[verifier::ext_equal]
pub struct Filtered {
    pub printable: Seq<u8>,
    pub queries: nat,
    pub carry: Seq<u8>,
}

pub open spec fn filtered(data: Seq<u8>) -> Filtered
    decreases data.len(),
{
    if data.len() == 0 {
        Filtered { printable: seq![], queries: 0, carry: seq![] }
    } else {
        match verdict(data) {
            Verdict::Query => {
                let rest = filtered(data.skip(4));
                Filtered { queries: rest.queries + 1, ..rest }
            },
            Verdict::Drop => filtered(data.skip(8)),
            Verdict::Hold => Filtered { printable: seq![], queries: 0, carry: data },
            Verdict::Print => {
                let rest = filtered(data.skip(1));
                Filtered { printable: seq![data[0]] + rest.printable, ..rest }
            },
        }
    }
}

/// Two stretches of output, one after the other.
pub open spec fn followed_by(first: Filtered, second: Filtered) -> Filtered {
    Filtered {
        printable: first.printable + second.printable,
        queries: first.queries + second.queries,
        carry: second.carry,
    }
}

/// Takes out of the output the few sequences that are meant for the terminal
/// rather than the screen.
pub struct OutputFilter {
    /// The beginning of a sequence at the end of what came so far.
    pub carry: Vec<u8>,
}

fn begins(data: &Vec<u8>, at: usize, pattern: &[u8]) -> (r: bool)
    requires
        at <= data@.len(),
    ensures
        r == pattern@.is_prefix_of(data@.skip(at as int)),
{
    if data.len() - at < pattern.len() {
        return false;
    }
    let out: bool = bytes::same_bytes(&data[at..at + pattern.len()], pattern);
    proof {
        let n = pattern@.len() as int;
        assert(data@.subrange(at as int, at + n) =~= data@.skip(at as int).subrange(0, n));
    }
    out
}

fn is_begun(data: &Vec<u8>, at: usize, pattern: &[u8]) -> (r: bool)
    requires
        at <= data@.len(),
    ensures
        r == data@.skip(at as int).is_prefix_of(pattern@),
{
    let n: usize = data.len() - at;
    if n > pattern.len() {
        return false;
    }
    let out: bool = bytes::same_bytes(&data[at..data.len()], &pattern[0..n]);
    proof {
        assert(data@.subrange(at as int, data@.len() as int) =~= data@.skip(at as int));
    }
    out
}

fn verdict_at(data: &Vec<u8>, at: usize) -> (r: (bool, bool, bool))
    requires
        at < data@.len(),
    ensures
        match verdict(data@.skip(at as int)) {
            Verdict::Query => r == (true, false, false),
            Verdict::Drop => r == (false, true, false),
            Verdict::Hold => r == (false, false, true),
            Verdict::Print => r == (false, false, false),
        },
{
    if data[at] != ESC {
        return (false, false, false);
    }
    let query: [u8; 4] = [27, 91, 54, 110];
    let on: [u8; 8] = [27, 91, 63, 57, 48, 48, 49, 104];
    let off: [u8; 8] = [27, 91, 63, 57, 48, 48, 49, 108];
    assert(query@ =~= cursor_query());
    assert(on@ =~= input_mode_on());
    assert(off@ =~= input_mode_off());
    if begins(data, at, &query) {
        (true, false, false)
    } else if is_begun(data, at, &query) {
        (false, false, true)
    } else if begins(data, at, &on) {
        (false, true, false)
    } else if is_begun(data, at, &on) {
        (false, false, true)
    } else if begins(data, at, &off) {
        (false, true, false)
    } else if is_begun(data, at, &off) {
        (false, false, true)
    } else {
        (false, false, false)
    }
}

impl OutputFilter {
    pub fn new() -> (r: OutputFilter)
        ensures
            r.carry@ == Seq::<u8>::empty(),
    {
        OutputFilter { carry: Vec::new() }
    }

    /// Parts a chunk into what is printed and how many cursor queries were
    /// taken out. A beginning at its end is held back until the next chunk
    /// decides what it was.
    pub fn feed(&mut self, chunk: &[u8]) -> (r: (Vec<u8>, usize))
        ensures
            ({
                let all = filtered(old(self).carry@ + chunk@);
                &&& r.0@ == all.printable
                &&& r.1 == all.queries
                &&& final(self).carry@ == all.carry
            }),
    {
        let mut data: Vec<u8> = Vec::new();
        std::mem::swap(&mut data, &mut self.carry);
        data.extend_from_slice(chunk);
        assert(data@ =~= old(self).carry@ + chunk@);
        let mut printable: Vec<u8> = Vec::new();
        let mut queries: usize = 0;
        let mut i: usize = 0;
        proof {
            assert(data@.skip(0) =~= data@);
            let all = filtered(data@);
            assert(Seq::<u8>::empty() + all.printable =~= all.printable);
        }
        while i < data.len()
            invariant
                i <= data.len(),
                queries <= i,
                data@ == old(self).carry@ + chunk@,
                self.carry@.len() == 0,
                filtered(data@) == followed_by(
                    Filtered { printable: printable@, queries: queries as nat, carry: seq![] },
                    filtered(data@.skip(i as int)),
                ),
            decreases data.len() - i,
        {
            let ghost rest = data@.skip(i as int);
            let ghost before = Filtered {
                printable: printable@,
                queries: queries as nat,
                carry: seq![],
            };
            let (query, drop, hold): (bool, bool, bool) = verdict_at(&data, i);
            if query {
                assert(rest.skip(4) =~= data@.skip(i as int + 4));
                queries = queries + 1;
                i = i + 4;
            } else if drop {
                assert(rest.skip(8) =~= data@.skip(i as int + 8));
                i = i + 8;
            } else if hold {
                self.carry = bytes::copy_of(&data[i..data.len()]);
                assert(self.carry@ =~= rest);
                assert(printable@ + Seq::<u8>::empty() =~= printable@);
                return (printable, queries);
            } else {
                let ghost tail = filtered(rest.skip(1));
                printable.push(data[i]);
                i = i + 1;
                assert(rest.skip(1) =~= data@.skip(i as int));
                assert(before.printable + (seq![rest[0]] + tail.printable) =~= printable@
                    + tail.printable);
            }
        }
        assert(printable@ + Seq::<u8>::empty() =~= printable@);
        (printable, queries)
    }
}

proof fn verdict_is_final(a: Seq<u8>, b: Seq<u8>)
    requires
        a.len() > 0,
        verdict(a) !is Hold,
    ensures
        verdict(a + b) == verdict(a),
{
    let c = a + b;
    assert(c[0] == a[0]);
    pattern_is_final(a, b, cursor_query());
    pattern_is_final(a, b, input_mode_on());
    pattern_is_final(a, b, input_mode_off());
}

proof fn pattern_is_final(a: Seq<u8>, b: Seq<u8>, pattern: Seq<u8>)
    ensures
        pattern.is_prefix_of(a) ==> pattern.is_prefix_of(a + b),
        !pattern.is_prefix_of(a) && !a.is_prefix_of(pattern) ==> !pattern.is_prefix_of(a + b) && !(a
            + b).is_prefix_of(pattern),
{
    let c = a + b;
    if pattern.is_prefix_of(a) {
        assert(c.subrange(0, pattern.len() as int) =~= a.subrange(0, pattern.len() as int));
    }
    if !pattern.is_prefix_of(a) && !a.is_prefix_of(pattern) {
        if pattern.is_prefix_of(c) {
            if pattern.len() <= a.len() {
                assert(a.subrange(0, pattern.len() as int) =~= c.subrange(0, pattern.len() as int));
            } else {
                assert(pattern.subrange(0, a.len() as int) =~= a) by {
                    assert forall|i: int| 0 <= i < a.len() implies pattern[i] == a[i] by {
                        assert(c.subrange(0, pattern.len() as int)[i] == c[i]);
                    }
                }
            }
        }
        if c.is_prefix_of(pattern) {
            assert(pattern.subrange(0, a.len() as int) =~= a) by {
                assert forall|i: int| 0 <= i < a.len() implies pattern[i] == a[i] by {
                    assert(pattern.subrange(0, c.len() as int)[i] == pattern[i]);
                }
            }
        }
    }
}

/// How the output is cut into chunks does not matter: what is printed and what
/// is answered is the same as for the whole.
pub proof fn chunks_do_not_matter(a: Seq<u8>, b: Seq<u8>)
    ensures
        filtered(a + b) == followed_by(filtered(a), filtered(filtered(a).carry + b)),
    decreases a.len(),
{
    let none = Seq::<u8>::empty();
    if a.len() == 0 {
        assert(a + b =~= b);
        assert(none + b =~= b);
        assert(none + filtered(b).printable =~= filtered(b).printable);
    } else if verdict(a) is Hold {
        assert(none + filtered(a + b).printable =~= filtered(a + b).printable);
    } else {
        verdict_is_final(a, b);
        let n: int = match verdict(a) {
            Verdict::Query => 4,
            Verdict::Drop => 8,
            _ => 1,
        };
        assert((a + b).skip(n) =~= a.skip(n) + b);
        chunks_do_not_matter(a.skip(n), b);
        if verdict(a) is Print {
            let rest = filtered(a.skip(1));
            let more = filtered(filtered(a).carry + b);
            assert(seq![a[0]] + (rest.printable + more.printable) =~= (seq![a[0]] + rest.printable)
                + more.printable);
        }
    }
}

// ---- keys as a terminal sends them -------------------------------------------------

/// The byte that a character stands for while the control key is held.
pub open spec fn control_byte(c: char) -> Option<u8> {
    if 'a' <= c <= 'z' {
        Some((c as int - 'a' as int + 1) as u8)
    } else if 'A' <= c <= 'Z' {
        Some((c as int - 'A' as int + 1) as u8)
    } else if c == ' ' || c == '@' {
        Some(0)
    } else if c == '[' {
        Some(0x1b)
    } else if c == '\\' {
        Some(0x1c)
    } else if c == ']' {
        Some(0x1d)
    } else if c == '^' {
        Some(0x1e)
    } else if c == '_' || c == '/' {
        Some(0x1f)
    } else if c == '?' {
        Some(0x7f)
    } else {
        None
    }
}

pub fn ctrl_byte(c: char) -> (r: Option<u8>)
    ensures
        r == control_byte(c),
{
    if 'a' <= c && c <= 'z' {
        Some((c as u32 - 'a' as u32 + 1) as u8)
    } else if 'A' <= c && c <= 'Z' {
        Some((c as u32 - 'A' as u32 + 1) as u8)
    } else if c == ' ' || c == '@' {
        Some(0)
    } else if c == '[' {
        Some(0x1b)
    } else if c == '\\' {
        Some(0x1c)
    } else if c == ']' {
        Some(0x1d)
    } else if c == '^' {
        Some(0x1e)
    } else if c == '_' || c == '/' {
        Some(0x1f)
    } else if c == '?' {
        Some(0x7f)
    } else {
        None
    }
}

/// The number that stands for the modifiers in a key's sequence: one and then
/// one, two and four for shift, alt and control.
pub open spec fn modifier_number(m: KeyModifiers) -> u8 {
    let shift: int = if m.shift { 1 } else { 0 };
    let alt: int = if m.alt { 2 } else { 0 };
    let control: int = if m.control { 4 } else { 0 };
    (1 + shift + alt + control) as u8
}

fn modifier_number_of(m: KeyModifiers) -> (r: u8)
    ensures
        r == modifier_number(m),
        1 <= r <= 8,
{
    let shift: u8 = if m.shift { 1 } else { 0 };
    let alt: u8 = if m.alt { 2 } else { 0 };
    let control: u8 = if m.control { 4 } else { 0 };
    1 + shift + alt + control
}

/// `ESC [ c`, or `ESC [ 1 ; m c` where there are modifiers.
pub open spec fn arrow_key(m: u8, c: u8) -> Seq<u8> {
    if m == 1 {
        seq![27, 91, c]
    } else {
        seq![27, 91, 49, 59, (48 + m) as u8, c]
    }
}

/// A number under a hundred, in decimal digits.
pub open spec fn small_decimal(n: u8) -> Seq<u8> {
    if n < 10 {
        seq![(48 + n) as u8]
    } else {
        seq![(48 + n / 10) as u8, (48 + n % 10) as u8]
    }
}

/// `ESC [ n ~`, or `ESC [ n ; m ~` where there are modifiers.
pub open spec fn tilde_key(m: u8, n: u8) -> Seq<u8> {
    if m == 1 {
        seq![27, 91] + small_decimal(n) + seq![126]
    } else {
        seq![27, 91] + small_decimal(n) + seq![59, (48 + m) as u8, 126]
    }
}

/// Bytes with an escape before them while alt is held.
pub open spec fn alt_key(alt: bool, bytes: Seq<u8>) -> Seq<u8> {
    if alt {
        seq![27] + bytes
    } else {
        bytes
    }
}

/// The number by which a function key above the fourth is sent.
pub open spec fn function_number(n: u8) -> Option<u8> {
    if n == 5 {
        Some(15)
    } else if 6 <= n <= 10 {
        Some((n + 11) as u8)
    } else if n == 11 {
        Some(23)
    } else if n == 12 {
        Some(24)
    } else {
        None
    }
}

/// The bytes that a terminal sends for a key; none for a key without any.
pub open spec fn key_bytes(key: KeyEvent) -> Option<Seq<u8>> {
    let m = modifier_number(key.modifiers);
    let alt = key.modifiers.alt;
    match key.code {
        KeyCode::Char(c) => Some(
            alt_key(
                alt,
                if key.modifiers.control && control_byte(c) is Some {
                    seq![control_byte(c)->0]
                } else {
                    vstd::utf8::encode_utf8(seq![c])
                },
            ),
        ),
        KeyCode::Enter => Some(alt_key(alt, seq![13])),
        KeyCode::Tab => Some(
            if key.modifiers.shift {
                seq![27, 91, 90]
            } else {
                alt_key(alt, seq![9])
            },
        ),
        KeyCode::BackTab => Some(seq![27, 91, 90]),
        KeyCode::Backspace => Some(alt_key(alt, seq![0x7f])),
        KeyCode::Esc => Some(seq![27]),
        KeyCode::Up => Some(arrow_key(m, 65)),
        KeyCode::Down => Some(arrow_key(m, 66)),
        KeyCode::Right => Some(arrow_key(m, 67)),
        KeyCode::Left => Some(arrow_key(m, 68)),
        KeyCode::Home => Some(arrow_key(m, 72)),
        KeyCode::End => Some(arrow_key(m, 70)),
        KeyCode::Insert => Some(tilde_key(m, 2)),
        KeyCode::Delete => Some(tilde_key(m, 3)),
        KeyCode::PageUp => Some(tilde_key(m, 5)),
        KeyCode::PageDown => Some(tilde_key(m, 6)),
        KeyCode::F(n) => if 1 <= n <= 4 {
            if m == 1 {
                Some(seq![27, 79, (79 + n) as u8])
            } else {
                Some(seq![27, 91, 49, 59, (48 + m) as u8, (79 + n) as u8])
            }
        } else {
            match function_number(n) {
                Some(k) => Some(tilde_key(m, k)),
                None => None,
            }
        },
        KeyCode::Other => None,
    }
}

fn arrow(m: u8, c: u8) -> (r: Vec<u8>)
    requires
        1 <= m <= 8,
    ensures
        r@ == arrow_key(m, c),
{
    let out: Vec<u8> = if m == 1 {
        vec![27, 91, c]
    } else {
        vec![27, 91, 49, 59, 48 + m, c]
    };
    assert(out@ =~= arrow_key(m, c));
    out
}

fn tilde(m: u8, n: u8) -> (r: Vec<u8>)
    requires
        1 <= m <= 8,
        n < 100,
    ensures
        r@ == tilde_key(m, n),
{
    let mut out: Vec<u8> = vec![27, 91];
    if n >= 10 {
        out.push(48 + n / 10);
    }
    out.push(48 + n % 10);
    if m != 1 {
        out.push(59);
        out.push(48 + m);
    }
    out.push(126);
    assert(out@ =~= tilde_key(m, n));
    out
}

fn plain(alt: bool, base: Vec<u8>) -> (r: Vec<u8>)
    ensures
        r@ == alt_key(alt, base@),
{
    if alt {
        let mut out: Vec<u8> = vec![27];
        out.extend_from_slice(&base);
        assert(out@ =~= seq![27u8] + base@);
        out
    } else {
        base
    }
}

/// The bytes that a terminal sends for a key.
pub fn encode_key(key: &KeyEvent) -> (r: Option<Vec<u8>>)
    ensures
        match r {
            Some(b) => key_bytes(*key) == Some(b@),
            None => key_bytes(*key) is None,
        },
{
    let m: u8 = modifier_number_of(key.modifiers);
    let alt: bool = key.modifiers.alt;
    let shift_tab: Vec<u8> = vec![27, 91, 90];
    assert(shift_tab@ =~= seq![27u8, 91, 90]);
    match key.code {
        KeyCode::Char(c) => {
            let control: Option<u8> = if key.modifiers.control {
                ctrl_byte(c)
            } else {
                None
            };
            let base: Vec<u8> = match control {
                Some(b) => {
                    let one: Vec<u8> = vec![b];
                    assert(one@ =~= seq![b]);
                    one
                },
                None => {
                    let mut s: String = String::new();
                    s.push(c);
                    assert(s@ =~= seq![c]);
                    bytes::copy_of(s.as_str().as_bytes())
                },
            };
            Some(plain(alt, base))
        },
        KeyCode::Enter => {
            let one: Vec<u8> = vec![13];
            assert(one@ =~= seq![13u8]);
            Some(plain(alt, one))
        },
        KeyCode::Tab => {
            if key.modifiers.shift {
                Some(shift_tab)
            } else {
                let one: Vec<u8> = vec![9];
                assert(one@ =~= seq![9u8]);
                Some(plain(alt, one))
            }
        },
        KeyCode::BackTab => Some(shift_tab),
        KeyCode::Backspace => {
            let one: Vec<u8> = vec![0x7f];
            assert(one@ =~= seq![0x7fu8]);
            Some(plain(alt, one))
        },
        KeyCode::Esc => {
            let one: Vec<u8> = vec![27];
            assert(one@ =~= seq![27u8]);
            Some(one)
        },
        KeyCode::Up => Some(arrow(m, 65)),
        KeyCode::Down => Some(arrow(m, 66)),
        KeyCode::Right => Some(arrow(m, 67)),
        KeyCode::Left => Some(arrow(m, 68)),
        KeyCode::Home => Some(arrow(m, 72)),
        KeyCode::End => Some(arrow(m, 70)),
        KeyCode::Insert => Some(tilde(m, 2)),
        KeyCode::Delete => Some(tilde(m, 3)),
        KeyCode::PageUp => Some(tilde(m, 5)),
        KeyCode::PageDown => Some(tilde(m, 6)),
        KeyCode::F(n) => {
            if 1 <= n && n <= 4 {
                let out: Vec<u8> = if m == 1 {
                    vec![27, 79, 79 + n]
                } else {
                    vec![27, 91, 49, 59, 48 + m, 79 + n]
                };
                assert(m == 1 ==> out@ =~= seq![27u8, 79, (79 + n) as u8]);
                assert(m != 1 ==> out@ =~= seq![27u8, 91, 49, 59, (48 + m) as u8, (79 + n) as u8]);
                Some(out)
            } else if n == 5 {
                Some(tilde(m, 15))
            } else if 6 <= n && n <= 10 {
                Some(tilde(m, n + 11))
            } else if n == 11 {
                Some(tilde(m, 23))
            } else if n == 12 {
                Some(tilde(m, 24))
            } else {
                None
            }
        },
        KeyCode::Other => None,
    }
}

/// Whether a key is the given letter, of either case, with control held.
pub fn is_ctrl(key: &KeyEvent, c: char) -> (r: bool)
    ensures
        r == control_with(*key, c),
{
    key.modifiers.control && match key.code {
        KeyCode::Char(got) => text::to_ascii_lower(got) == text::to_ascii_lower(c),
        _ => false,
    }
}

pub open spec fn control_with(key: KeyEvent, c: char) -> bool {
    key.modifiers.control && (key.code matches KeyCode::Char(got) && text::ascii_lower(got)
        == text::ascii_lower(c))
}

// ---- the shell conduit -------------------------------------------------------------

/// What happens during a shell session.
#[derive(Debug)]
pub enum ShellEvent {
    /// Bytes from the remote shell, for a terminal that this end answers for.
    Remote(Vec<u8>),
    /// Bytes from the remote shell, for a terminal that answers for itself.
    Verbatim(Vec<u8>),
    /// The remote end closed, or reading from it failed.
    RemoteClosed,
    Key { key: KeyEvent, kind: KeyKind },
    /// Bytes that the local terminal produced itself.
    Input(Vec<u8>),
    /// The size of the local terminal, as it was announced.
    Resize { cols: u16, rows: u16 },
    /// The size of the local terminal, as it was looked up.
    Size { cols: u16, rows: u16 },
    FocusGained,
    FocusLost,
    /// There is no more local input.
    InputEnded,
    /// What was to be sent could not be.
    SendFailed,
    /// Anything else.
    Other,
}

/// What to do about it, in this order: print, answer the cursor queries, send,
/// end the session.
#[derive(Debug)]
pub struct ShellStep {
    pub print: Vec<u8>,
    /// How many cursor queries to answer, once everything before is on screen.
    pub queries: usize,
    /// A frame to send.
    pub send: Option<Vec<u8>>,
    pub end: bool,
}

/// The same, as contents.
#[verifier::ext_equal]
pub struct ShellDoes {
    pub print: Seq<u8>,
    pub queries: nat,
    pub send: Option<Seq<u8>>,
    pub end: bool,
}

impl View for ShellStep {
    type V = ShellDoes;

    open spec fn view(&self) -> ShellDoes {
        ShellDoes {
            print: self.print@,
            queries: self.queries as nat,
            send: match self.send {
                Some(f) => Some(f@),
                None => None,
            },
            end: self.end,
        }
    }
}

pub struct ShellPump {
    pub filter: OutputFilter,
    /// Keys that are held down, each once.
    pub pressed: Vec<(KeyCode, KeyModifiers)>,
    pub cols: u16,
    pub rows: u16,
}

/// A conduit, as what it holds.
#[verifier::ext_equal]
pub struct Conduit {
    pub carry: Seq<u8>,
    pub pressed: Set<(KeyCode, KeyModifiers)>,
    pub cols: u16,
    pub rows: u16,
}

impl View for ShellPump {
    type V = Conduit;

    open spec fn view(&self) -> Conduit {
        Conduit {
            carry: self.filter.carry@,
            pressed: self.pressed@.to_set(),
            cols: self.cols,
            rows: self.rows,
        }
    }
}

pub open spec fn shell_idle() -> ShellDoes {
    ShellDoes { print: seq![], queries: 0, send: None, end: false }
}

pub open spec fn shell_sends(bytes: Seq<u8>) -> ShellDoes {
    ShellDoes { send: Some(term::framed(term::KIND_DATA, bytes)), ..shell_idle() }
}

pub open spec fn shell_resizes(cols: u16, rows: u16) -> ShellDoes {
    ShellDoes {
        send: Some(term::framed(term::KIND_RESIZE, term::be16(cols) + term::be16(rows))),
        ..shell_idle()
    }
}

/// What an event does. A release echoes a press and is dropped, or every key
/// would count twice; a release without a press is forwarded.
pub open spec fn shell_stepped(c: Conduit, event: ShellEvent) -> (Conduit, ShellDoes) {
    match event {
        ShellEvent::Remote(chunk) => {
            let all = filtered(c.carry + chunk@);
            (
                Conduit { carry: all.carry, ..c },
                ShellDoes { print: all.printable, queries: all.queries, send: None, end: false },
            )
        },
        ShellEvent::Verbatim(chunk) => (c, ShellDoes { print: chunk@, ..shell_idle() }),
        ShellEvent::Key { key, kind } => {
            let held = (key.code, key.modifiers);
            let forward = kind != KeyKind::Release || !c.pressed.contains(held);
            let pressed = match kind {
                KeyKind::Press => c.pressed.insert(held),
                KeyKind::Repeat => c.pressed,
                KeyKind::Release => c.pressed.remove(held),
            };
            (
                Conduit { pressed, ..c },
                match key_bytes(key) {
                    Some(b) => if forward {
                        shell_sends(b)
                    } else {
                        shell_idle()
                    },
                    None => shell_idle(),
                },
            )
        },
        ShellEvent::Input(b) => (c, shell_sends(b@)),
        ShellEvent::Resize { cols, rows } => (c, shell_resizes(cols, rows)),
        ShellEvent::Size { cols, rows } => if cols != c.cols || rows != c.rows {
            (Conduit { cols, rows, ..c }, shell_resizes(cols, rows))
        } else {
            (c, shell_idle())
        },
        ShellEvent::FocusGained => (c, shell_sends(seq![27, 91, 73])),
        ShellEvent::FocusLost => (c, shell_sends(seq![27, 91, 79])),
        ShellEvent::RemoteClosed => (c, ShellDoes { end: true, ..shell_idle() }),
        ShellEvent::InputEnded => (c, ShellDoes { end: true, ..shell_idle() }),
        ShellEvent::SendFailed => (c, ShellDoes { end: true, ..shell_idle() }),
        ShellEvent::Other => (c, shell_idle()),
    }
}

fn idle_step() -> (r: ShellStep)
    ensures
        r@ == shell_idle(),
{
    ShellStep { print: Vec::new(), queries: 0, send: None, end: false }
}

fn send_step(payload: &[u8]) -> (r: ShellStep)
    ensures
        r@ == shell_sends(payload@),
{
    ShellStep { print: Vec::new(), queries: 0, send: Some(term::data_frame(payload)), end: false }
}

fn resize_step(cols: u16, rows: u16) -> (r: ShellStep)
    ensures
        r@ == shell_resizes(cols, rows),
{
    ShellStep {
        print: Vec::new(),
        queries: 0,
        send: Some(term::resize_frame(cols, rows)),
        end: false,
    }
}

impl ShellPump {
    /// No key is held twice.
    pub open spec fn wf(&self) -> bool {
        self.pressed@.no_duplicates()
    }

    pub fn new(cols: u16, rows: u16) -> (r: ShellPump)
        ensures
            r.wf(),
            r@ == (Conduit { carry: seq![], pressed: Set::empty(), cols, rows }),
    {
        let out = ShellPump { filter: OutputFilter::new(), pressed: Vec::new(), cols, rows };
        assert(out.pressed@.to_set() =~= Set::empty());
        out
    }

    fn place_of(&self, held: (KeyCode, KeyModifiers)) -> (r: Option<usize>)
        ensures
            match r {
                Some(i) => i < self.pressed@.len() && self.pressed@[i as int] == held,
                None => !self.pressed@.contains(held),
            },
    {
        let mut i: usize = 0;
        while i < self.pressed.len()
            invariant
                i <= self.pressed.len(),
                forall|j: int| 0 <= j < i ==> self.pressed@[j] != held,
            decreases self.pressed.len() - i,
        {
            if self.pressed[i].0 == held.0 && self.pressed[i].1 == held.1 {
                return Some(i);
            }
            i = i + 1;
        }
        None
    }

    fn note_key(&mut self, key: KeyEvent, kind: KeyKind) -> (forward: bool)
        requires
            old(self).wf(),
        ensures
            final(self).wf(),
            ({
                let held = (key.code, key.modifiers);
                &&& forward == (kind != KeyKind::Release || !old(self)@.pressed.contains(held))
                &&& final(self)@ == (Conduit {
                    pressed: match kind {
                        KeyKind::Press => old(self)@.pressed.insert(held),
                        KeyKind::Repeat => old(self)@.pressed,
                        KeyKind::Release => old(self)@.pressed.remove(held),
                    },
                    ..old(self)@
                })
            }),
    {
        let held: (KeyCode, KeyModifiers) = (key.code, key.modifiers);
        let ghost before = self.pressed@;
        match kind {
            KeyKind::Repeat => true,
            KeyKind::Press => {
                match self.place_of(held) {
                    Some(i) => {
                        assert(before.to_set().contains(before[i as int]));
                        assert(before.to_set().insert(held) =~= before.to_set());
                    },
                    None => {
                        self.pressed.push(held);
                        proof {
                            let after = self.pressed@;
                            assert(after =~= before.push(held));
                            assert(after.to_set() =~= before.to_set().insert(held)) by {
                                assert forall|x: (KeyCode, KeyModifiers)| after.to_set().contains(x)
                                    == before.to_set().insert(held).contains(x) by {
                                    if before.contains(x) {
                                        let j = before.index_of(x);
                                        assert(after[j] == x);
                                    }
                                    assert(after[before.len() as int] == held);
                                    if after.contains(x) {
                                        let j = after.index_of(x);
                                        if j < before.len() {
                                            assert(before[j] == x);
                                        }
                                    }
                                }
                            }
                        }
                    },
                }
                true
            },
            KeyKind::Release => match self.place_of(held) {
                None => {
                    assert(!before.to_set().contains(held));
                    assert(before.to_set().remove(held) =~= before.to_set());
                    true
                },
                Some(i) => {
                    self.pressed.remove(i);
                    proof {
                        let after = self.pressed@;
                        assert(after =~= before.remove(i as int));
                        assert(before.to_set().contains(held));
                        assert(after.to_set() =~= before.to_set().remove(held)) by {
                            assert forall|x: (KeyCode, KeyModifiers)| after.to_set().contains(x)
                                == before.to_set().remove(held).contains(x) by {
                                if after.contains(x) {
                                    let j = after.index_of(x);
                                    let k = if j < i {
                                        j
                                    } else {
                                        j + 1
                                    };
                                    assert(before[k] == x);
                                    assert(before[k] != before[i as int]);
                                }
                                if before.contains(x) && x != held {
                                    let k = before.index_of(x);
                                    let j = if k < i {
                                        k
                                    } else {
                                        k - 1
                                    };
                                    assert(after[j] == x);
                                }
                            }
                        }
                        assert(after.no_duplicates()) by {
                            assert forall|a: int, b: int|
                                0 <= a < after.len() && 0 <= b < after.len() && a
                                    != b implies after[a] != after[b] by {
                                let x = if a < i {
                                    a
                                } else {
                                    a + 1
                                };
                                let y = if b < i {
                                    b
                                } else {
                                    b + 1
                                };
                                assert(before[x] != before[y]);
                            }
                        }
                    }
                    false
                },
            },
        }
    }

    /// Takes in what happened and says what to do.
    pub fn step(&mut self, event: ShellEvent) -> (r: ShellStep)
        requires
            old(self).wf(),
        ensures
            final(self).wf(),
            (final(self)@, r@) == shell_stepped(old(self)@, event),
    {
        match event {
            ShellEvent::Remote(chunk) => {
                let (print, queries): (Vec<u8>, usize) = self.filter.feed(&chunk);
                ShellStep { print, queries, send: None, end: false }
            },
            ShellEvent::Verbatim(chunk) => {
                ShellStep { print: chunk, queries: 0, send: None, end: false }
            },
            ShellEvent::Key { key, kind } => {
                let forward: bool = self.note_key(key, kind);
                match encode_key(&key) {
                    Some(b) => if forward {
                        send_step(&b)
                    } else {
                        idle_step()
                    },
                    None => idle_step(),
                }
            },
            ShellEvent::Input(b) => send_step(&b),
            ShellEvent::Resize { cols, rows } => resize_step(cols, rows),
            ShellEvent::Size { cols, rows } => {
                if cols != self.cols || rows != self.rows {
                    self.cols = cols;
                    self.rows = rows;
                    resize_step(cols, rows)
                } else {
                    idle_step()
                }
            },
            ShellEvent::FocusGained => {
                let b: [u8; 3] = [27, 91, 73];
                assert(b@ =~= seq![27u8, 91, 73]);
                send_step(&b)
            },
            ShellEvent::FocusLost => {
                let b: [u8; 3] = [27, 91, 79];
                assert(b@ =~= seq![27u8, 91, 79]);
                send_step(&b)
            },
            ShellEvent::RemoteClosed | ShellEvent::InputEnded | ShellEvent::SendFailed => {
                ShellStep { print: Vec::new(), queries: 0, send: None, end: true }
            },
            ShellEvent::Other => idle_step(),
        }
    }
}

/// What a cursor query is answered with: `ESC [ row ; col R`.
pub open spec fn cursor_answer(row: u16, col: u16) -> Seq<char> {
    "\x1b["@ + text::decimal(row as nat) + ";"@ + text::decimal(col as nat) + "R"@
}

/// The frame that answers a cursor query.
pub fn cursor_reply(row: u16, col: u16) -> (r: Vec<u8>)
    ensures
        r@ == term::framed(
            term::KIND_DATA,
            vstd::utf8::encode_utf8(cursor_answer(row, col)),
        ),
{
    let answer: String = text::cat5(
        "\x1b[",
        &text::decimal_of(row as u128),
        ";",
        &text::decimal_of(col as u128),
        "R",
    );
    term::data_frame(answer.as_str().as_bytes())
}

// ---- attaching ---------------------------------------------------------------------

/// Line breaks as a raw terminal needs them: a carriage return before each line
/// feed that has none.
pub open spec fn with_returns(s: Seq<u8>) -> Seq<u8>
    decreases s.len(),
{
    if s.len() == 0 {
        seq![]
    } else {
        let before = with_returns(s.drop_last());
        if s.last() == 10 && !(s.len() > 1 && s[s.len() - 2] == 13) {
            before.push(13).push(10)
        } else {
            before.push(s.last())
        }
    }
}

pub fn crlf(b: &[u8]) -> (r: Vec<u8>)
    ensures
        r@ == with_returns(b@),
{
    let mut out: Vec<u8> = Vec::new();
    let mut prev: u8 = 0;
    let mut i: usize = 0;
    assert(b@.take(0) =~= seq![]);
    assert(out@ =~= seq![]);
    while i < b.len()
        invariant
            i <= b.len(),
            prev == (if i == 0 {
                0
            } else {
                b@[i - 1]
            }),
            out@ == with_returns(b@.take(i as int)),
        decreases b.len() - i,
    {
        let c: u8 = b[i];
        let ghost so_far = b@.take(i as int + 1);
        assert(so_far.drop_last() =~= b@.take(i as int));
        if c == 10 && prev != 13 {
            out.push(13);
        }
        out.push(c);
        prev = c;
        i = i + 1;
    }
    assert(b@.take(i as int) =~= b@);
    out
}

/// No line feed comes without a carriage return before it.
pub open spec fn no_bare_feed(s: Seq<u8>) -> bool {
    forall|i: int| 0 <= i < s.len() && #[trigger] s[i] == 10 ==> i > 0 && s[i - 1] == 13
}

/// What is printed in raw mode never steps down without returning to the first
/// column, and text that is already so is left alone.
pub proof fn returns_are_complete(s: Seq<u8>)
    ensures
        no_bare_feed(with_returns(s)),
        no_bare_feed(s) ==> with_returns(s) == s,
        s.len() > 0 ==> with_returns(s).len() > 0 && with_returns(s).last() == s.last(),
    decreases s.len(),
{
    if s.len() > 0 {
        let front = s.drop_last();
        returns_are_complete(front);
        let before = with_returns(front);
        let r = with_returns(s);
        assert forall|i: int| 0 <= i < r.len() && #[trigger] r[i] == 10 implies i > 0 && r[i - 1]
            == 13 by {
            if i < before.len() {
                assert(r[i] == before[i]);
            } else if s.last() == 10 && s.len() > 1 && s[s.len() - 2] == 13 {
                assert(front.last() == 13);
            }
        }
        if no_bare_feed(s) {
            assert(no_bare_feed(front)) by {
                assert forall|i: int| 0 <= i < front.len() && #[trigger] front[i] == 10 implies i
                    > 0 && front[i - 1] == 13 by {
                    assert(s[i] == 10);
                }
            }
            assert(s[s.len() - 1] == s.last());
            assert(front.push(s.last()) =~= s);
        }
    }
}

/// The prompt: a dim arrow.
pub open spec fn prompt() -> Seq<char> {
    "\x1b[2m❯\x1b[22m "@
}

/// The line as shown.
pub open spec fn shown_line(e: editor::Editing) -> Seq<char> {
    e.line.map_values(
        |c: char|
            if c == '\t' {
                ' '
            } else {
                c
            },
    )
}

/// The row in which the line is edited: cleared, prompt, line, and the cursor
/// put back to where it is.
pub open spec fn edit_row_text(e: editor::Editing) -> Seq<char> {
    let row = "\r\x1b[K"@ + prompt() + shown_line(e);
    if e.cursor < e.line.len() {
        row + ("\x1b["@ + text::decimal((e.line.len() - e.cursor) as nat) + "D"@)
    } else {
        row
    }
}

pub fn edit_row(editor: &LineEditor) -> (r: String)
    requires
        editor@.wf(),
    ensures
        r@ == edit_row_text(editor@),
{
    let display: String = editor.display();
    let back: usize = editor.line.len() - editor.cursor();
    let mut row: String = text::cat3("\r\x1b[K", "\x1b[2m❯\x1b[22m ", &display);
    if back > 0 {
        row.append(&text::cat3("\x1b[", &text::decimal_of(back as u128), "D"));
    }
    row
}

/// What happens while attached.
#[derive(Debug)]
pub enum AttachEvent {
    /// The session starts.
    Begin,
    /// Output of the process.
    Remote(Vec<u8>),
    RemoteClosed,
    Key { key: KeyEvent, kind: KeyKind },
    InputEnded,
    /// What was to be sent could not be.
    SendFailed,
    Other,
}

/// What to do about it, in this order: print, send, end.
#[derive(Debug)]
pub struct AttachStep {
    pub print: Vec<u8>,
    pub send: Option<String>,
    /// The session ends; whether the remote end closed it.
    pub end: Option<bool>,
}

#[verifier::ext_equal]
pub struct AttachDoes {
    pub print: Seq<u8>,
    pub send: Option<Seq<char>>,
    pub end: Option<bool>,
}

impl View for AttachStep {
    type V = AttachDoes;

    open spec fn view(&self) -> AttachDoes {
        AttachDoes {
            print: self.print@,
            send: crate::client::form::opt_text(self.send),
            end: self.end,
        }
    }
}

pub open spec fn attach_prints(print: Seq<u8>) -> AttachDoes {
    AttachDoes { print, send: None, end: None }
}

pub open spec fn attach_ends(by_remote: bool) -> AttachDoes {
    AttachDoes { print: seq![], send: None, end: Some(by_remote) }
}

pub open spec fn row_bytes(e: editor::Editing) -> Seq<u8> {
    vstd::utf8::encode_utf8(edit_row_text(e))
}

/// What an event does. The edited line owns the bottom row: output is written
/// above it, by clearing the row, printing, and putting the row back.
pub open spec fn attach_stepped(e: editor::Editing, event: AttachEvent) -> (
    editor::Editing,
    AttachDoes,
) {
    match event {
        AttachEvent::Begin => (e, attach_prints(row_bytes(e))),
        AttachEvent::Remote(output) => (
            e,
            attach_prints(seq![13, 27, 91, 75] + with_returns(output@) + row_bytes(e)),
        ),
        AttachEvent::RemoteClosed => (e, attach_ends(true)),
        AttachEvent::SendFailed => (e, attach_ends(true)),
        AttachEvent::InputEnded => (e, attach_ends(false)),
        AttachEvent::Other => (e, attach_prints(seq![])),
        AttachEvent::Key { key, kind } => if kind != KeyKind::Press {
            (e, attach_prints(seq![]))
        } else if control_with(key, 'c') {
            (e, attach_ends(false))
        } else {
            let (after, struck) = editor::struck(e, key);
            (
                after,
                match struck {
                    editor::Struck::Ignored => attach_prints(seq![]),
                    editor::Struck::Edited => attach_prints(row_bytes(after)),
                    editor::Struck::Submit(line) => AttachDoes {
                        print: vstd::utf8::encode_utf8("\r\n"@ + edit_row_text(after)),
                        send: Some(line),
                        end: None,
                    },
                },
            )
        },
    }
}

fn row_of(editor: &LineEditor) -> (r: Vec<u8>)
    requires
        editor@.wf(),
    ensures
        r@ == row_bytes(editor@),
{
    bytes::copy_of(edit_row(editor).as_str().as_bytes())
}

fn print_step(print: Vec<u8>) -> (r: AttachStep)
    ensures
        r@ == attach_prints(print@),
{
    AttachStep { print, send: None, end: None }
}

fn end_step(by_remote: bool) -> (r: AttachStep)
    ensures
        r@ == attach_ends(by_remote),
{
    AttachStep { print: Vec::new(), send: None, end: Some(by_remote) }
}

/// Takes in what happened while attached and says what to do.
pub fn attach_step(editor: &mut LineEditor, event: AttachEvent) -> (r: AttachStep)
    requires
        old(editor)@.wf(),
    ensures
        final(editor)@.wf(),
        (final(editor)@, r@) == attach_stepped(old(editor)@, event),
{
    match event {
        AttachEvent::Begin => print_step(row_of(editor)),
        AttachEvent::Remote(output) => {
            let mut out: Vec<u8> = vec![13, 27, 91, 75];
            assert(out@ =~= seq![13u8, 27, 91, 75]);
            out.extend_from_slice(&crlf(&output));
            out.extend_from_slice(&row_of(editor));
            assert(out@ =~= seq![13u8, 27, 91, 75] + with_returns(output@) + row_bytes(editor@));
            print_step(out)
        },
        AttachEvent::RemoteClosed | AttachEvent::SendFailed => end_step(true),
        AttachEvent::InputEnded => end_step(false),
        AttachEvent::Other => print_step(Vec::new()),
        AttachEvent::Key { key, kind } => {
            if !matches!(kind, KeyKind::Press) {
                return print_step(Vec::new());
            }
            if is_ctrl(&key, 'c') {
                return end_step(false);
            }
            match editor.handle(&key) {
                Keystroke::Ignored => print_step(Vec::new()),
                Keystroke::Edited => print_step(row_of(editor)),
                Keystroke::Submit(line) => {
                    let row: String = text::cat2("\r\n", &edit_row(editor));
                    AttachStep {
                        print: bytes::copy_of(row.as_str().as_bytes()),
                        send: Some(line),
                        end: None,
                    }
                },
            }
        },
    }
}

/// What is shown when a shell session starts.
pub fn shell_banner(label: &str) -> (r: String)
    ensures
        r@ == "── shell on "@ + label@ + " · type 'exit' to end the session ──"@,
{
    text::cat3("── shell on ", label, " · type 'exit' to end the session ──")
}

/// What is shown when an attach session starts.
pub fn attach_banner(label: &str) -> (r: String)
    ensures
        r@ == "── attached to "@ + label@
            + " · Ctrl+C detaches, ↑↓ history, the instance keeps running ──"@,
{
    text::cat3(
        "── attached to ",
        label,
        " · Ctrl+C detaches, ↑↓ history, the instance keeps running ──",
    )
}

/// What is shown when an attach session has ended.
pub fn attach_farewell(ended_by_remote: bool) -> (r: &'static str)
    ensures
        r@ == (if ended_by_remote {
            "\n── the instance's output stream closed ──"@
        } else {
            "\n── detached ──"@
        }),
{
    if ended_by_remote {
        "\n── the instance's output stream closed ──"
    } else {
        "\n── detached ──"
    }
}

// ---- laws --------------------------------------------------------------------------

/// A key that is pressed and released is sent once.
pub proof fn a_key_counts_once(c: Conduit, key: KeyEvent)
    requires
        key_bytes(key) is Some,
    ensures
        ({
            let down = shell_stepped(c, ShellEvent::Key { key, kind: KeyKind::Press });
            let up = shell_stepped(down.0, ShellEvent::Key { key, kind: KeyKind::Release });
            &&& down.1 == shell_sends(key_bytes(key)->0)
            &&& up.1 == shell_idle()
            &&& !up.0.pressed.contains((key.code, key.modifiers))
        }),
{
}

/// A release that no press came before is sent too.
pub proof fn a_lone_release_is_sent(c: Conduit, key: KeyEvent)
    requires
        key_bytes(key) is Some,
        !c.pressed.contains((key.code, key.modifiers)),
    ensures
        shell_stepped(c, ShellEvent::Key { key, kind: KeyKind::Release }).1 == shell_sends(
            key_bytes(key)->0,
        ),
{
}

/// Output without an escape is printed as it is, and nothing is held back.
pub proof fn plain_output_is_printed(data: Seq<u8>)
    requires
        forall|i: int| 0 <= i < data.len() ==> #[trigger] data[i] != 27,
    ensures
        filtered(data) == (Filtered { printable: data, queries: 0, carry: seq![] }),
    decreases data.len(),
{
    if data.len() > 0 {
        let rest = data.skip(1);
        assert forall|i: int| 0 <= i < rest.len() implies #[trigger] rest[i] != 27 by {
            assert(rest[i] == data[i + 1]);
        }
        plain_output_is_printed(rest);
        assert(data[0] != 27);
        assert(seq![data[0]] + rest =~= data);
    } else {
        assert(data =~= seq![]);
    }
}

/// A question for the cursor's place, `ESC [ 6 n`, is taken out and counted; the switches
/// of the input mode, `ESC [ ? 9001 h` and `l`, are taken out. What follows them is
/// treated as if they had not been there.
pub proof fn questions_are_taken_out(rest: Seq<u8>)
    ensures
        filtered(seq![27u8, 91, 54, 110] + rest) == (Filtered {
            queries: filtered(rest).queries + 1,
            ..filtered(rest)
        }),
        filtered(seq![27u8, 91, 63, 57, 48, 48, 49, 104] + rest) == filtered(rest),
        filtered(seq![27u8, 91, 63, 57, 48, 48, 49, 108] + rest) == filtered(rest),
{
    let q = seq![27u8, 91, 54, 110] + rest;
    assert(cursor_query() =~= q.subrange(0, 4));
    assert(q.skip(4) =~= rest);
    let on = seq![27u8, 91, 63, 57, 48, 48, 49, 104] + rest;
    assert(input_mode_on() =~= on.subrange(0, 8));
    assert(on.skip(8) =~= rest);
    assert(on[2] == 63 && cursor_query()[2] == 54);
    if cursor_query().is_prefix_of(on) {
        assert(cursor_query()[2] == on.subrange(0, 4)[2]);
    }
    if on.is_prefix_of(cursor_query()) {
        assert(on[2] == cursor_query().subrange(0, on.len() as int)[2]);
    }
    let off = seq![27u8, 91, 63, 57, 48, 48, 49, 108] + rest;
    assert(input_mode_off() =~= off.subrange(0, 8));
    assert(off.skip(8) =~= rest);
    if cursor_query().is_prefix_of(off) {
        assert(cursor_query()[2] == off.subrange(0, 4)[2]);
    }
    if off.is_prefix_of(cursor_query()) {
        assert(off[2] == cursor_query().subrange(0, off.len() as int)[2]);
    }
    if input_mode_on().is_prefix_of(off) {
        assert(input_mode_on()[7] == off.subrange(0, 8)[7]);
    }
    if off.is_prefix_of(input_mode_on()) {
        assert(off[7] == input_mode_on().subrange(0, off.len() as int)[7]);
    }
}

/// The start of such a sequence is held back until more is known, and any other escape is
/// printed.
pub proof fn starts_are_held_back(cut: int, next: u8, rest: Seq<u8>)
    requires
        1 <= cut <= 3,
        next != 91,
    ensures
        filtered(seq![27u8, 91, 54, 110].take(cut)) == (Filtered {
            printable: seq![],
            queries: 0,
            carry: seq![27u8, 91, 54, 110].take(cut),
        }),
        filtered(seq![27u8, next] + rest).printable == seq![27u8] + filtered(
            seq![next] + rest,
        ).printable,
{
    let start = seq![27u8, 91, 54, 110].take(cut);
    assert(start =~= cursor_query().subrange(0, cut));
    if cursor_query().is_prefix_of(start) {
        assert(cursor_query().len() <= start.len());
    }
    let other = seq![27u8, next] + rest;
    assert(other.skip(1) =~= seq![next] + rest);
    assert(other[1] == next);
    if cursor_query().is_prefix_of(other) {
        assert(cursor_query()[1] == other.subrange(0, 4)[1]);
    }
    if other.is_prefix_of(cursor_query()) {
        assert(other[1] == cursor_query().subrange(0, other.len() as int)[1]);
    }
    if input_mode_on().is_prefix_of(other) {
        assert(input_mode_on()[1] == other.subrange(0, 8)[1]);
    }
    if other.is_prefix_of(input_mode_on()) {
        assert(other[1] == input_mode_on().subrange(0, other.len() as int)[1]);
    }
    if input_mode_off().is_prefix_of(other) {
        assert(input_mode_off()[1] == other.subrange(0, 8)[1]);
    }
    if other.is_prefix_of(input_mode_off()) {
        assert(other[1] == input_mode_off().subrange(0, other.len() as int)[1]);
    }
}

/// A character is sent in UTF-8, after an escape where Alt is held. With Ctrl, a letter of
/// either case is sent as the control character of its place in the alphabet.
pub proof fn characters_are_sent(key: KeyEvent, c: char)
    requires
        key.code == KeyCode::Char(c),
    ensures
        !key.modifiers.control && !key.modifiers.alt ==> key_bytes(key) == Some(
            vstd::utf8::encode_utf8(seq![c]),
        ),
        !key.modifiers.control && key.modifiers.alt ==> key_bytes(key) == Some(
            seq![27u8] + vstd::utf8::encode_utf8(seq![c]),
        ),
        key.modifiers.control && !key.modifiers.alt && 'a' <= c <= 'z' ==> key_bytes(key) == Some(
            seq![(c as u32 - 96) as u8],
        ),
        key.modifiers.control && !key.modifiers.alt && 'A' <= c <= 'Z' ==> key_bytes(key) == Some(
            seq![(c as u32 - 64) as u8],
        ),
        control_byte(' ') == Some(0u8) && control_byte('@') == Some(0u8) && control_byte('[')
            == Some(27u8) && control_byte('\\') == Some(28u8) && control_byte(']') == Some(29u8)
            && control_byte('^') == Some(30u8) && control_byte('_') == Some(31u8)
            && control_byte('/') == Some(31u8) && control_byte('?') == Some(127u8),
        '0' <= c <= '9' ==> control_byte(c) is None,
{
}

/// The keys that stand for no character, without modifiers, send what a terminal sends.
pub proof fn bare_keys_are_sent(key: KeyEvent)
    requires
        !key.modifiers.control,
        !key.modifiers.alt,
        !key.modifiers.shift,
    ensures
        key.code == KeyCode::Enter ==> key_bytes(key) == Some(seq![13u8]),
        key.code == KeyCode::Tab ==> key_bytes(key) == Some(seq![9u8]),
        key.code == KeyCode::BackTab ==> key_bytes(key) == Some(seq![27u8, 91, 90]),
        key.code == KeyCode::Backspace ==> key_bytes(key) == Some(seq![127u8]),
        key.code == KeyCode::Esc ==> key_bytes(key) == Some(seq![27u8]),
        key.code == KeyCode::Up ==> key_bytes(key) == Some(seq![27u8, 91, 65]),
        key.code == KeyCode::Down ==> key_bytes(key) == Some(seq![27u8, 91, 66]),
        key.code == KeyCode::Right ==> key_bytes(key) == Some(seq![27u8, 91, 67]),
        key.code == KeyCode::Left ==> key_bytes(key) == Some(seq![27u8, 91, 68]),
        key.code == KeyCode::Home ==> key_bytes(key) == Some(seq![27u8, 91, 72]),
        key.code == KeyCode::End ==> key_bytes(key) == Some(seq![27u8, 91, 70]),
        key.code == KeyCode::Insert ==> key_bytes(key) == Some(seq![27u8, 91, 50, 126]),
        key.code == KeyCode::Delete ==> key_bytes(key) == Some(seq![27u8, 91, 51, 126]),
        key.code == KeyCode::PageUp ==> key_bytes(key) == Some(seq![27u8, 91, 53, 126]),
        key.code == KeyCode::PageDown ==> key_bytes(key) == Some(seq![27u8, 91, 54, 126]),
        key.code == KeyCode::Other ==> key_bytes(key) is None,
        key.code matches KeyCode::F(n) ==> {
            &&& 1 <= n <= 4 ==> key_bytes(key) == Some(seq![27u8, 79, (79 + n) as u8])
            &&& n == 5 ==> key_bytes(key) == Some(seq![27u8, 91, 49, 53, 126])
            &&& n == 6 ==> key_bytes(key) == Some(seq![27u8, 91, 49, 55, 126])
            &&& n == 7 ==> key_bytes(key) == Some(seq![27u8, 91, 49, 56, 126])
            &&& n == 8 ==> key_bytes(key) == Some(seq![27u8, 91, 49, 57, 126])
            &&& n == 9 ==> key_bytes(key) == Some(seq![27u8, 91, 50, 48, 126])
            &&& n == 10 ==> key_bytes(key) == Some(seq![27u8, 91, 50, 49, 126])
            &&& n == 11 ==> key_bytes(key) == Some(seq![27u8, 91, 50, 51, 126])
            &&& n == 12 ==> key_bytes(key) == Some(seq![27u8, 91, 50, 52, 126])
            &&& n == 0 || n > 12 ==> key_bytes(key) is None
        },
{
    assert(seq![27u8, 91] + small_decimal(2) + seq![126u8] =~= seq![27u8, 91, 50, 126]);
    assert(seq![27u8, 91] + small_decimal(3) + seq![126u8] =~= seq![27u8, 91, 51, 126]);
    assert(seq![27u8, 91] + small_decimal(5) + seq![126u8] =~= seq![27u8, 91, 53, 126]);
    assert(seq![27u8, 91] + small_decimal(6) + seq![126u8] =~= seq![27u8, 91, 54, 126]);
    assert(seq![27u8, 91] + small_decimal(15) + seq![126u8] =~= seq![27u8, 91, 49, 53, 126]);
    assert(seq![27u8, 91] + small_decimal(17) + seq![126u8] =~= seq![27u8, 91, 49, 55, 126]);
    assert(seq![27u8, 91] + small_decimal(18) + seq![126u8] =~= seq![27u8, 91, 49, 56, 126]);
    assert(seq![27u8, 91] + small_decimal(19) + seq![126u8] =~= seq![27u8, 91, 49, 57, 126]);
    assert(seq![27u8, 91] + small_decimal(20) + seq![126u8] =~= seq![27u8, 91, 50, 48, 126]);
    assert(seq![27u8, 91] + small_decimal(21) + seq![126u8] =~= seq![27u8, 91, 50, 49, 126]);
    assert(seq![27u8, 91] + small_decimal(23) + seq![126u8] =~= seq![27u8, 91, 50, 51, 126]);
    assert(seq![27u8, 91] + small_decimal(24) + seq![126u8] =~= seq![27u8, 91, 50, 52, 126]);
}

/// With modifiers, the keys that move send a number for them before their letter, and the
/// others before their tilde: one, and one more for Shift, two for Alt, four for Ctrl.
pub proof fn modified_keys_are_sent(key: KeyEvent)
    requires
        key.modifiers.control || key.modifiers.alt || key.modifiers.shift,
    ensures
        ({
            let shift: int = if key.modifiers.shift { 1 } else { 0 };
            let alt: int = if key.modifiers.alt { 2 } else { 0 };
            let control: int = if key.modifiers.control { 4 } else { 0 };
            let m = (49 + shift + alt + control) as u8;
            &&& key.code == KeyCode::Up ==> key_bytes(key) == Some(seq![27u8, 91, 49, 59, m, 65])
            &&& key.code == KeyCode::Down ==> key_bytes(key) == Some(seq![27u8, 91, 49, 59, m, 66])
            &&& key.code == KeyCode::Right ==> key_bytes(key) == Some(
                seq![27u8, 91, 49, 59, m, 67],
            )
            &&& key.code == KeyCode::Left ==> key_bytes(key) == Some(seq![27u8, 91, 49, 59, m, 68])
            &&& key.code == KeyCode::Home ==> key_bytes(key) == Some(seq![27u8, 91, 49, 59, m, 72])
            &&& key.code == KeyCode::End ==> key_bytes(key) == Some(seq![27u8, 91, 49, 59, m, 70])
            &&& key.code == KeyCode::Insert ==> key_bytes(key) == Some(
                seq![27u8, 91, 50, 59, m, 126],
            )
            &&& key.code == KeyCode::Delete ==> key_bytes(key) == Some(
                seq![27u8, 91, 51, 59, m, 126],
            )
            &&& key.code == KeyCode::PageUp ==> key_bytes(key) == Some(
                seq![27u8, 91, 53, 59, m, 126],
            )
            &&& key.code == KeyCode::PageDown ==> key_bytes(key) == Some(
                seq![27u8, 91, 54, 59, m, 126],
            )
            &&& key.code matches KeyCode::F(n) ==> (1 <= n <= 4 ==> key_bytes(key) == Some(
                seq![27u8, 91, 49, 59, m, (79 + n) as u8],
            ))
            &&& key.code == KeyCode::F(5) ==> key_bytes(key) == Some(
                seq![27u8, 91, 49, 53, 59, m, 126],
            )
            &&& key.code == KeyCode::Enter && key.modifiers.alt ==> key_bytes(key) == Some(
                seq![27u8, 13],
            )
            &&& key.code == KeyCode::Enter && !key.modifiers.alt ==> key_bytes(key) == Some(
                seq![13u8],
            )
            &&& key.code == KeyCode::Backspace && key.modifiers.alt ==> key_bytes(key) == Some(
                seq![27u8, 127],
            )
            &&& key.code == KeyCode::Backspace && !key.modifiers.alt ==> key_bytes(key) == Some(
                seq![127u8],
            )
            &&& key.code == KeyCode::Tab && key.modifiers.shift ==> key_bytes(key) == Some(
                seq![27u8, 91, 90],
            )
            &&& key.code == KeyCode::Tab && !key.modifiers.shift && key.modifiers.alt ==> key_bytes(
                key,
            ) == Some(seq![27u8, 9])
            &&& key.code == KeyCode::Tab && !key.modifiers.shift && !key.modifiers.alt ==> key_bytes(
                key,
            ) == Some(seq![9u8])
            &&& key.code == KeyCode::BackTab ==> key_bytes(key) == Some(seq![27u8, 91, 90])
            &&& key.code == KeyCode::Other ==> key_bytes(key) is None
            &&& key.code == KeyCode::Esc ==> key_bytes(key) == Some(seq![27u8])
        }),
{
    let m = modifier_number(key.modifiers);
    assert(seq![27u8, 91] + small_decimal(2) + seq![59u8, (48 + m) as u8, 126] =~= seq![
        27u8,
        91,
        50,
        59,
        (48 + m) as u8,
        126,
    ]);
    assert(seq![27u8, 91] + small_decimal(3) + seq![59u8, (48 + m) as u8, 126] =~= seq![
        27u8,
        91,
        51,
        59,
        (48 + m) as u8,
        126,
    ]);
    assert(seq![27u8, 91] + small_decimal(5) + seq![59u8, (48 + m) as u8, 126] =~= seq![
        27u8,
        91,
        53,
        59,
        (48 + m) as u8,
        126,
    ]);
    assert(seq![27u8, 91] + small_decimal(6) + seq![59u8, (48 + m) as u8, 126] =~= seq![
        27u8,
        91,
        54,
        59,
        (48 + m) as u8,
        126,
    ]);
    assert(seq![27u8, 91] + small_decimal(15) + seq![59u8, (48 + m) as u8, 126] =~= seq![
        27u8,
        91,
        49,
        53,
        59,
        (48 + m) as u8,
        126,
    ]);
    assert(seq![27u8] + seq![13u8] =~= seq![27u8, 13]);
    assert(seq![27u8] + seq![127u8] =~= seq![27u8, 127]);
}

/// In a shell, what is typed goes to the other end in a frame of its own, a new size of
/// the window too, and a change of focus as a terminal tells it. What comes from a
/// terminal that answers for itself is printed whole. The end of either side is the end.
pub proof fn shells_pass_everything_on(c: Conduit, event: ShellEvent)
    ensures
        ({
            let (after, does) = shell_stepped(c, event);
            match event {
                ShellEvent::Input(b) => after == c && does.send == Some(
                    term::framed(0, b@),
                ) && does.print.len() == 0 && does.queries == 0 && !does.end,
                ShellEvent::Verbatim(b) => after == c && does.print == b@ && does.send is None
                    && does.queries == 0 && !does.end,
                ShellEvent::Remote(b) => does.send is None && !does.end && after.pressed == c.pressed
                    && does.print == filtered(c.carry + b@).printable && does.queries == filtered(
                    c.carry + b@,
                ).queries && after.carry == filtered(c.carry + b@).carry,
                ShellEvent::Resize { cols, rows } => after == c && does.send == Some(
                    term::framed(1, term::be16(cols) + term::be16(rows)),
                ) && !does.end,
                ShellEvent::Size { cols, rows } => after.cols == cols && after.rows == rows && !does.end
                    && (does.send is None <==> cols == c.cols && rows == c.rows) && (
                does.send is Some ==> does.send == Some(
                    term::framed(1, term::be16(cols) + term::be16(rows)),
                )),
                ShellEvent::FocusGained => does.send == Some(term::framed(0, seq![27u8, 91, 73])),
                ShellEvent::FocusLost => does.send == Some(term::framed(0, seq![27u8, 91, 79])),
                ShellEvent::RemoteClosed | ShellEvent::InputEnded | ShellEvent::SendFailed => {
                    does.end && does.send is None && does.print.len() == 0
                },
                ShellEvent::Key { key, kind } => !does.end && does.print.len() == 0 && (
                does.send matches Some(f) ==> key_bytes(key) is Some && f == term::framed(
                    0,
                    key_bytes(key)->0,
                )) && (kind != KeyKind::Release && key_bytes(key) is Some ==> does.send is Some) && (
                kind == KeyKind::Press ==> after.pressed == c.pressed.insert(
                    (key.code, key.modifiers),
                )) && (kind == KeyKind::Repeat ==> after.pressed == c.pressed),
                ShellEvent::Other => after == c && does.send is None && !does.end
                    && does.print.len() == 0,
            }
        }),
{
}

/// Nothing is lost when line breaks are made fit for a raw terminal: each byte follows
/// the one before it, and only a line feed without its return gets one.
pub proof fn returns_are_put_in(s: Seq<u8>, next: u8)
    ensures
        with_returns(Seq::<u8>::empty()).len() == 0,
        next != 10 ==> with_returns(s.push(next)) == with_returns(s).push(next),
        next == 10 && s.len() > 0 && s.last() == 13 ==> with_returns(s.push(next))
            == with_returns(s).push(10),
        next == 10 && (s.len() == 0 || s.last() != 13) ==> with_returns(s.push(next))
            == with_returns(s).push(13).push(10),
{
    assert(s.push(next).drop_last() =~= s);
}

/// While attached, output is printed above the line that is being edited, which is drawn
/// again below it; the line itself stays as it is.
pub proof fn output_is_shown_above_the_line(e: editor::Editing, output: Vec<u8>)
    ensures
        ({
            let (after, does) = attach_stepped(e, AttachEvent::Remote(output));
            &&& after == e
            &&& does.send is None && does.end is None
            &&& does.print == seq![13u8, 27, 91, 75] + with_returns(output@) + row_bytes(e)
        }),
{
}

/// While attached, Ctrl+C ends the session from this side; the close of the other side
/// ends it from there. A key counts when it is pressed.
pub proof fn attached_sessions_end(e: editor::Editing, key: KeyEvent, kind: KeyKind)
    ensures
        attach_stepped(e, AttachEvent::RemoteClosed).1.end == Some(true),
        attach_stepped(e, AttachEvent::SendFailed).1.end == Some(true),
        attach_stepped(e, AttachEvent::InputEnded).1.end == Some(false),
        attach_stepped(e, AttachEvent::Begin).1.end is None,
        attach_stepped(e, AttachEvent::Other).1.end is None,
        key.modifiers.control && (key.code == KeyCode::Char('c') || key.code == KeyCode::Char('C'))
            ==> attach_stepped(e, AttachEvent::Key { key, kind: KeyKind::Press }).1.end == Some(
            false,
        ) && attach_stepped(e, AttachEvent::Key { key, kind: KeyKind::Press }).1.send is None,
        kind != KeyKind::Press ==> attach_stepped(e, AttachEvent::Key { key, kind }).0 == e
            && attach_stepped(e, AttachEvent::Key { key, kind }).1.send is None && attach_stepped(
            e,
            AttachEvent::Key { key, kind },
        ).1.end is None,
        !key.modifiers.control ==> attach_stepped(e, AttachEvent::Key { key, kind }).1.end is None,
{
}

/// While attached, Enter sends the line with its break; every other key only edits it.
pub proof fn attached_lines_are_sent_whole(e: editor::Editing, key: KeyEvent)
    requires
        e.wf(),
        !key.modifiers.control,
    ensures
        ({
            let (after, does) = attach_stepped(e, AttachEvent::Key { key, kind: KeyKind::Press });
            &&& after == editor::struck(e, key).0
            &&& does.send is Some <==> key.code == KeyCode::Enter
            &&& key.code == KeyCode::Enter ==> does.send == Some(e.line + "\r\n"@) && after.line.len()
                == 0
        }),
{
}

/// The line is drawn behind its prompt, on a row that is cleared first, with tabs shown as
/// blanks, and the cursor is taken back over what stands behind it.
pub proof fn the_line_is_drawn_with_its_cursor(e: editor::Editing)
    requires
        e.wf(),
    ensures
        shown_line(e).len() == e.line.len(),
        forall|i: int|
            0 <= i < e.line.len() ==> #[trigger] shown_line(e)[i] == (if e.line[i] == '\t' {
                ' '
            } else {
                e.line[i]
            }),
        e.cursor == e.line.len() ==> edit_row_text(e) == "\r\x1b[K"@ + "\x1b[2m❯\x1b[22m "@
            + shown_line(e),
        e.cursor < e.line.len() ==> edit_row_text(e) == "\r\x1b[K"@ + "\x1b[2m❯\x1b[22m "@
            + shown_line(e) + ("\x1b["@ + text::decimal((e.line.len() - e.cursor) as nat) + "D"@),
{
}

/// The question where the cursor is, is answered with its row and then its column.
pub proof fn cursors_are_told_by_row_and_column(row: u16, col: u16)
    ensures
        cursor_answer(row, col) == "\x1b["@ + text::decimal(row as nat) + ";"@ + text::decimal(
            col as nat,
        ) + "R"@,
{
}

} // verus!
