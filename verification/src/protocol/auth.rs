//! Authentication of the calls by a key that both ends hold.
//!
//! The key has 1024 bytes. It is derived from a passphrase, so that the same
//! phrase gives the same key on both machines, or drawn from the system's
//! entropy, and must then be copied across.
//!
//! Every request carries a tag over `nonce || timestamp || payload`, and the
//! reply is signed over the nonce of the request, which binds it to the request
//! it answers. The payload is opaque here: it is worth decoding only once the
//! tag has been verified. This authenticates; it does not encrypt.
use std::time::Instant;

use hmac::{Hmac, Mac};
use sha2::Sha256;
use vstd::prelude::*;

use crate::{assoc, bytes, text};

verus! {

pub const KEY_LEN: usize = 1024;

/// Cost of deriving a key from a phrase. The costs and the salt are part of the
/// protocol: both ends must derive the same bytes from the same phrase.
pub const ARGON2_M_COST_KIB: u32 = 65536;

pub const ARGON2_T_COST: u32 = 3;

pub const ARGON2_P_COST: u32 = 1;

/// How far apart, in milliseconds, the two clocks may be.
pub const MAX_SKEW: u64 = 60_000;

/// How long, in nanoseconds, a nonce is remembered: for twice the skew, in which a
/// request may be fresh, and a millisecond more, since times are told in whole ones.
pub const HORIZON_NS: u128 = 120_001_000_000;

pub const NONCE_LEN: usize = 16;

pub const TAG_LEN: usize = 32;

// ---- what comes from outside -------------------------------------------------------

/// What Argon2id, version 0x13, makes of a password under the given costs.
pub uninterp spec fn argon2id(
    m_cost: u32,
    t_cost: u32,
    p_cost: u32,
    password: Seq<u8>,
    salt: Seq<u8>,
    len: usize,
) -> Seq<u8>;

/// `argon2::Argon2::hash_password_into`, with no secret and the output length
/// left to the buffer. Its result is a function of the costs, the password, the
/// salt and the length. The bounds are those outside which it returns an error.
#[verifier::external_body]
fn derive(m_cost: u32, t_cost: u32, p_cost: u32, password: &[u8], salt: &[u8], len: usize) -> (r: Vec<u8>)
    requires
        1 <= p_cost <= 0xff_ffff,
        8 * p_cost <= m_cost,
        1 <= t_cost,
        password@.len() <= 0xffff_ffff,
        8 <= salt@.len() <= 0xffff_ffff,
        4 <= len <= 0xffff_ffff,
    ensures
        r@ == argon2id(m_cost, t_cost, p_cost, password@, salt@, len),
        r@.len() == len,
{
    let mut out = vec![0u8; len];
    let params = argon2::Params::new(m_cost, t_cost, p_cost, None).expect("the costs are in range");
    argon2::Argon2::new(argon2::Algorithm::Argon2id, argon2::Version::V0x13, params)
        .hash_password_into(password, salt, &mut out)
        .expect("the lengths are in range");
    out
}

/// The system had no entropy to give.
#[derive(Clone, Copy, Debug, PartialEq, Eq)]
pub struct NoEntropy;

/// `getrandom::fill` on a buffer of the given length: bytes from the system's
/// entropy, or an error where the system refuses. Nothing is claimed of them.
#[verifier::external_body]
fn entropy(len: usize) -> (r: Result<Vec<u8>, NoEntropy>)
    ensures
        r matches Ok(drawn) ==> drawn@.len() == len,
{
    let mut out = vec![0u8; len];
    match getrandom::fill(&mut out) {
        Ok(()) => Ok(out),
        Err(_) => Err(NoEntropy),
    }
}

/// Whether `r` is what came of drawing so many bytes from the system's entropy.
pub closed spec fn drawn(len: usize, r: Result<Vec<u8>, NoEntropy>) -> bool {
    call_ensures(entropy, (len,), r)
}

/// The HMAC-SHA256 of a message under a key.
pub uninterp spec fn hmac_sha256(key: Seq<u8>, message: Seq<u8>) -> Seq<u8>;

/// `Hmac::<Sha256>` over one message: keys of any length are accepted, and the
/// code has 32 bytes.
#[verifier::external_body]
fn hmac_of(key: &[u8], message: &[u8]) -> (r: Vec<u8>)
    ensures
        r@ == hmac_sha256(key@, message@),
        r@.len() == TAG_LEN,
{
    let mut mac = <Hmac<Sha256> as Mac>::new_from_slice(key).expect("a key may have any length");
    mac.update(message);
    mac.finalize().into_bytes().to_vec()
}

/// `Mac::verify_slice` of `Hmac::<Sha256>`: whether the given bytes are the
/// whole code of the message, compared in constant time.
#[verifier::external_body]
fn hmac_matches(key: &[u8], message: &[u8], expected: &[u8]) -> (r: bool)
    ensures
        r == (expected@ == hmac_sha256(key@, message@)),
{
    let mut mac = <Hmac<Sha256> as Mac>::new_from_slice(key).expect("a key may have any length");
    mac.update(message);
    mac.verify_slice(expected).is_ok()
}

/// The system's clock, `SystemTime::now`, in milliseconds since the unix epoch;
/// zero where it stands before that. Nothing is claimed of it.
#[verifier::external_body]
fn now_ms() -> (r: u64) {
    std::time::SystemTime::now()
        .duration_since(std::time::UNIX_EPOCH)
        .map(|d| d.as_millis() as u64)
        .unwrap_or(0)
}

/// Whether the system's clock was read as `now`.
pub closed spec fn clock_read(now: u64) -> bool {
    call_ensures(now_ms, (), now)
}

/// A reading of the system's monotonic clock.
#[verifier::external_type_specification]
#[verifier::external_body]
pub struct ExInstant(Instant);

/// `Instant::now`: a reading of the monotonic clock. Nothing is claimed of it.
pub assume_specification[ Instant::now ]() -> Instant
;

/// `Instant::elapsed`, in nanoseconds. Nothing is claimed of it.
#[verifier::external_body]
fn nanos_since(start: &Instant) -> (r: u128) {
    start.elapsed().as_nanos()
}

/// Whether so many nanoseconds were found to have passed since a reading of the
/// monotonic clock.
pub closed spec fn passed(start: Instant, ns: u128) -> bool {
    call_ensures(nanos_since, (&start,), ns)
}

// ---- keys --------------------------------------------------------------------------

/// The salt that separates these keys from other uses of a phrase:
/// `container-auth-kdf-v1`.
pub open spec fn kdf_salt() -> Seq<u8> {
    seq![
        99, 111, 110, 116, 97, 105, 110, 101, 114, 45, 97, 117, 116, 104, 45, 107, 100, 102, 45,
        118, 49,
    ]
}

fn kdf_salt_bytes() -> (r: [u8; 21])
    ensures
        r@ == kdf_salt(),
{
    let out: [u8; 21] = [
        99, 111, 110, 116, 97, 105, 110, 101, 114, 45, 97, 117, 116, 104, 45, 107, 100, 102, 45,
        118, 49,
    ];
    assert(out@ =~= kdf_salt());
    out
}

/// The key that a phrase, in its UTF-8 bytes, stands for.
pub open spec fn phrase_key(phrase: Seq<u8>) -> Seq<u8> {
    argon2id(
        ARGON2_M_COST_KIB,
        ARGON2_T_COST,
        ARGON2_P_COST,
        phrase,
        kdf_salt(),
        KEY_LEN,
    )
}

/// The key of a phrase, or a fresh random one where there is no phrase or an
/// empty one.
pub fn hash_or_random(input: Option<&str>) -> (r: Result<Vec<u8>, NoEntropy>)
    requires
        input matches Some(phrase) ==> vstd::utf8::encode_utf8(phrase@).len() <= 0xffff_ffff,
    ensures
        r matches Ok(key) ==> key@.len() == KEY_LEN,
        input matches Some(phrase) ==> phrase@.len() > 0 ==> (r matches Ok(key) && key@
            == phrase_key(vstd::utf8::encode_utf8(phrase@))),
        input is None || input->0@.len() == 0 ==> drawn(KEY_LEN, r),
{
    match input {
        Some(phrase) => {
            if !phrase.is_empty() {
                let password = phrase.as_bytes();
                return Ok(
                    derive(
                        ARGON2_M_COST_KIB,
                        ARGON2_T_COST,
                        ARGON2_P_COST,
                        password,
                        &kdf_salt_bytes(),
                        KEY_LEN,
                    ),
                );
            }
        },
        None => {},
    }
    entropy(KEY_LEN)
}

/// Two lower-case hexadecimal digits for each byte.
pub open spec fn hex_text(key: Seq<u8>) -> Seq<char> {
    Seq::new(
        2 * key.len(),
        |i: int|
            text::digit(
                if i % 2 == 0 {
                    key[i / 2] as int / 16
                } else {
                    key[i / 2] as int % 16
                },
            ),
    )
}

pub fn to_hex(key: &[u8]) -> (r: String)
    ensures
        r@ == hex_text(key@),
{
    let mut out: String = String::new();
    let mut i: usize = 0;
    while i < key.len()
        invariant
            i <= key.len(),
            out@ == hex_text(key@.take(i as int)),
        decreases key.len() - i,
    {
        let ghost before = out@;
        let b: u8 = key[i];
        out.push(text::digit_of(b / 16));
        out.push(text::digit_of(b % 16));
        i = i + 1;
        assert(out@ =~= hex_text(key@.take(i as int))) by {
            assert(before =~= hex_text(key@.take(i - 1)));
        }
    }
    assert(key@.take(i as int) =~= key@);
    out
}

/// How many bytes a character takes in UTF-8.
pub open spec fn width(c: char) -> nat {
    if c as u32 <= 0x7f {
        1
    } else if c as u32 <= 0x7ff {
        2
    } else if c as u32 <= 0xffff {
        3
    } else {
        4
    }
}

/// How many bytes a text takes in UTF-8.
pub open spec fn byte_len(s: Seq<char>) -> nat
    decreases s.len(),
{
    if s.len() == 0 {
        0
    } else {
        byte_len(s.drop_last()) + width(s.last())
    }
}

fn byte_len_of(s: &Vec<char>) -> (r: u128)
    ensures
        r == byte_len(s@),
        r <= 4 * s@.len(),
{
    let mut n: u128 = 0;
    let mut i: usize = 0;
    while i < s.len()
        invariant
            i <= s.len(),
            n == byte_len(s@.take(i as int)),
            n <= 4 * i,
        decreases s.len() - i,
    {
        let c: u32 = s[i] as u32;
        n = n + if c <= 0x7f {
            1u128
        } else if c <= 0x7ff {
            2
        } else if c <= 0xffff {
            3
        } else {
            4
        };
        i = i + 1;
        assert(s@.take(i as int).drop_last() =~= s@.take(i - 1));
    }
    assert(s@.take(i as int) =~= s@);
    n
}

/// The value of a hexadecimal digit of either case; sixteen for anything else.
pub open spec fn nibble(c: char) -> int {
    if '0' <= c <= '9' {
        c as int - '0' as int
    } else if 'a' <= c <= 'f' {
        c as int - 'a' as int + 10
    } else if 'A' <= c <= 'F' {
        c as int - 'A' as int + 10
    } else {
        16
    }
}

fn nibble_of(c: char) -> (r: u8)
    ensures
        r == nibble(c),
        r <= 16,
{
    if '0' <= c && c <= '9' {
        (c as u32 - '0' as u32) as u8
    } else if 'a' <= c && c <= 'f' {
        (c as u32 - 'a' as u32 + 10) as u8
    } else if 'A' <= c && c <= 'F' {
        (c as u32 - 'A' as u32 + 10) as u8
    } else {
        16
    }
}

/// Two hexadecimal digits as a byte.
pub open spec fn pair_value(a: char, b: char) -> Option<u8> {
    if nibble(a) < 16 && nibble(b) < 16 {
        Some((nibble(a) * 16 + nibble(b)) as u8)
    } else {
        None
    }
}

/// The text that says that something is not a byte.
pub open spec fn not_hex(s: Seq<char>) -> Seq<char> {
    "'"@ + s + "' is not a hex byte"@
}

/// The bytes that pairs of characters stand for, or what is said of the first
/// that is none. A character of more than one byte is taken by itself.
pub open spec fn unhexed(s: Seq<char>) -> Result<Seq<u8>, Seq<char>>
    decreases s.len(),
{
    if s.len() == 0 {
        Ok(seq![])
    } else if s.len() == 1 || width(s[0]) > 1 {
        Err(not_hex(seq![s[0]]))
    } else {
        match pair_value(s[0], s[1]) {
            None => Err(not_hex(seq![s[0], s[1]])),
            Some(v) => match unhexed(s.skip(2)) {
                Ok(rest) => Ok(seq![v] + rest),
                Err(e) => Err(e),
            },
        }
    }
}

/// What is said of a key of the wrong length.
pub open spec fn wrong_length(got: nat) -> Seq<char> {
    "a key is 2048 hex characters (1024 bytes); got "@ + text::decimal(got)
}

/// What a text stands for as a key.
pub open spec fn key_of_hex(s: Seq<char>) -> Result<Seq<u8>, Seq<char>> {
    let t = text::trimmed(s);
    if byte_len(t) != 2 * KEY_LEN {
        Err(wrong_length(byte_len(t)))
    } else {
        unhexed(t)
    }
}

/// Reads a key, white space around it aside. The length is checked here, so
/// that there is one clear error rather than a failed tag later.
pub fn from_hex(s: &str) -> (r: Result<Vec<u8>, String>)
    ensures
        match r {
            Ok(key) => key_of_hex(s@) == Ok::<Seq<u8>, Seq<char>>(key@),
            Err(e) => key_of_hex(s@) == Err::<Seq<u8>, Seq<char>>(e@),
        },
{
    let chars = text::trim_chars(&text::chars_of(s));
    let n: u128 = byte_len_of(&chars);
    if n != 2 * KEY_LEN as u128 {
        return Err(
            text::cat2("a key is 2048 hex characters (1024 bytes); got ", &text::decimal_of(n)),
        );
    }
    let mut out: Vec<u8> = Vec::new();
    let mut i: usize = 0;
    assert(chars@.skip(0) =~= chars@);
    while i < chars.len()
        invariant
            i <= chars.len(),
            chars@ == text::trimmed(s@),
            byte_len(chars@) == 2 * KEY_LEN,
            unhexed(chars@) == (match unhexed(chars@.skip(i as int)) {
                Ok(rest) => Ok::<Seq<u8>, Seq<char>>(out@ + rest),
                Err(e) => Err(e),
            }),
        decreases chars.len() - i,
    {
        let ghost rest = chars@.skip(i as int);
        let a: char = chars[i];
        assert(rest[0] == a);
        let wide: bool = a as u32 > 0x7f;
        if i + 1 == chars.len() || wide {
            let mut bad: String = String::new();
            bad.push(a);
            assert(bad@ =~= seq![rest[0]]);
            return Err(text::cat3("'", &bad, "' is not a hex byte"));
        }
        let b: char = chars[i + 1];
        assert(rest[1] == b);
        let high: u8 = nibble_of(a);
        let low: u8 = nibble_of(b);
        if high == 16 || low == 16 {
            let mut bad: String = String::new();
            bad.push(a);
            bad.push(b);
            assert(bad@ =~= seq![rest[0], rest[1]]);
            return Err(text::cat3("'", &bad, "' is not a hex byte"));
        }
        let ghost before = out@;
        out.push(high * 16 + low);
        i = i + 2;
        assert(rest.skip(2) =~= chars@.skip(i as int));
        proof {
            if let Ok(more) = unhexed(chars@.skip(i as int)) {
                assert(before + (seq![(high * 16 + low) as u8] + more) =~= out@ + more);
            }
        }
    }
    assert(out@ + Seq::<u8>::empty() =~= out@);
    Ok(out)
}

// ---- requests and replies ----------------------------------------------------------

/// Why a request was refused before its payload could be trusted.
#[derive(Clone, Copy, Debug, PartialEq, Eq, Structural)]
pub enum AuthFailure {
    /// The tag did not verify: another key, or tampering.
    BadKey,
    /// Outside the clock-skew window.
    Stale,
    /// This nonce was already used.
    Replay,
    /// A nonce of the wrong length, or a payload that cannot be decoded.
    Malformed,
}

/// What is told to the operator.
pub open spec fn failure_text(failure: AuthFailure) -> Seq<char> {
    match failure {
        AuthFailure::BadKey => "the server rejected this client's key — run `keygen` with the same phrase on both sides"@,
        AuthFailure::Stale => "the request was outside the 60s clock-skew window — check the clocks on both machines"@,
        AuthFailure::Replay => "that request nonce was already used"@,
        AuthFailure::Malformed => "the request was malformed"@,
    }
}

impl AuthFailure {
    pub fn text(&self) -> (r: String)
        ensures
            r@ == failure_text(*self),
    {
        let out: &str = match self {
            AuthFailure::BadKey => "the server rejected this client's key — run `keygen` with the same phrase on both sides",
            AuthFailure::Stale => "the request was outside the 60s clock-skew window — check the clocks on both machines",
            AuthFailure::Replay => "that request nonce was already used",
            AuthFailure::Malformed => "the request was malformed",
        };
        out.to_string()
    }
}

/// A signed, opaque payload.
#[derive(Debug, PartialEq, Eq)]
pub struct Request {
    pub nonce: Vec<u8>,
    pub timestamp_ms: u64,
    pub mac: Vec<u8>,
    pub payload: Vec<u8>,
}

#[derive(Debug, PartialEq, Eq)]
pub enum Reply {
    /// A payload signed against the nonce of the request.
    Signed { timestamp_ms: u64, mac: Vec<u8>, payload: Vec<u8> },
    /// Refused before the request could be trusted. It is not signed, so it is a
    /// hint for the operator and never the basis of a decision.
    Rejected(AuthFailure),
}

/// What is signed: the nonce, the time, the payload.
pub open spec fn signed_message(nonce: Seq<u8>, timestamp_ms: u64, payload: Seq<u8>) -> Seq<u8> {
    nonce + bytes::be64(timestamp_ms) + payload
}

/// The tag of a message.
pub open spec fn tag_of(key: Seq<u8>, nonce: Seq<u8>, timestamp_ms: u64, payload: Seq<u8>) -> Seq<
    u8,
> {
    hmac_sha256(key, signed_message(nonce, timestamp_ms, payload))
}

fn message_bytes(nonce: &[u8], timestamp_ms: u64, payload: &[u8]) -> (r: Vec<u8>)
    ensures
        r@ == signed_message(nonce@, timestamp_ms, payload@),
{
    let mut out: Vec<u8> = bytes::copy_of(nonce);
    bytes::push_be64(&mut out, timestamp_ms);
    out.extend_from_slice(payload);
    assert(out@ =~= signed_message(nonce@, timestamp_ms, payload@));
    out
}

fn tag(key: &[u8], nonce: &[u8], timestamp_ms: u64, payload: &[u8]) -> (r: Vec<u8>)
    ensures
        r@ == tag_of(key@, nonce@, timestamp_ms, payload@),
        r@.len() == TAG_LEN,
{
    hmac_of(key, &message_bytes(nonce, timestamp_ms, payload))
}

fn verify_tag(key: &[u8], nonce: &[u8], timestamp_ms: u64, payload: &[u8], expected: &[u8]) -> (r:
    bool)
    ensures
        r == (expected@ == tag_of(key@, nonce@, timestamp_ms, payload@)),
{
    hmac_matches(key, &message_bytes(nonce, timestamp_ms, payload), expected)
}

/// Whether a time lies within the skew of the clock.
pub open spec fn is_fresh(timestamp_ms: u64, now: u64) -> bool {
    timestamp_ms <= now + MAX_SKEW && now <= timestamp_ms + MAX_SKEW
}

/// Whether a time lies within the skew of the given clock reading.
pub fn fresh(timestamp_ms: u64, now: u64) -> (r: bool)
    ensures
        r == is_fresh(timestamp_ms, now),
{
    let skew: u64 = if now >= timestamp_ms {
        now - timestamp_ms
    } else {
        timestamp_ms - now
    };
    skew <= MAX_SKEW
}

/// The tag that a request with these fields must carry.
pub fn request_mac(key: &[u8], nonce: &[u8], timestamp_ms: u64, payload: &[u8]) -> (r: Vec<u8>)
    ensures
        r@ == tag_of(key@, nonce@, timestamp_ms, payload@),
        r@.len() == TAG_LEN,
{
    tag(key, nonce, timestamp_ms, payload)
}

/// Whether a request is signed with a key.
pub open spec fn request_is_signed(key: Seq<u8>, request: Request) -> bool {
    request.mac@ == tag_of(key, request.nonce@, request.timestamp_ms, request.payload@)
}

/// Signs a payload under the given nonce and time.
pub fn sign_request_at(key: &[u8], nonce: Vec<u8>, timestamp_ms: u64, payload: Vec<u8>) -> (r:
    Request)
    ensures
        r.nonce@ == nonce@,
        r.timestamp_ms == timestamp_ms,
        r.payload@ == payload@,
        request_is_signed(key@, r),
{
    let mac = tag(key, &nonce, timestamp_ms, &payload);
    Request { nonce, timestamp_ms, mac, payload }
}

/// Whether `r` is what comes of signing a payload at the given time, under the nonce
/// that was drawn: a request where one was drawn, and only then.
pub open spec fn signed_with(
    key: Seq<u8>,
    drawn: Result<Vec<u8>, NoEntropy>,
    timestamp_ms: u64,
    payload: Seq<u8>,
    r: Result<Request, NoEntropy>,
) -> bool {
    match drawn {
        Ok(nonce) => {
            &&& r matches Ok(request)
            &&& request.nonce@ == nonce@
            &&& request.timestamp_ms == timestamp_ms
            &&& request.payload@ == payload
            &&& request_is_signed(key, request)
        },
        Err(e) => r == Err::<Request, NoEntropy>(e),
    }
}

/// Signs a payload at the given time, under the nonce that was drawn, where one was.
pub fn sign_request_with(
    key: &[u8],
    drawn: Result<Vec<u8>, NoEntropy>,
    timestamp_ms: u64,
    payload: Vec<u8>,
) -> (r: Result<Request, NoEntropy>)
    ensures
        signed_with(key@, drawn, timestamp_ms, payload@, r),
{
    match drawn {
        Ok(nonce) => Ok(sign_request_at(key, nonce, timestamp_ms, payload)),
        Err(e) => Err(e),
    }
}

/// Signs a payload under a fresh nonce, at the time of the system's clock. It fails
/// only where the system has no entropy to give.
pub fn sign_request(key: &[u8], payload: Vec<u8>) -> (r: Result<Request, NoEntropy>)
    ensures
        exists|drawn: Result<Vec<u8>, NoEntropy>, timestamp_ms: u64|
            self::drawn(NONCE_LEN, drawn) && clock_read(timestamp_ms) && #[trigger] signed_with(
                key@,
                drawn,
                timestamp_ms,
                payload@,
                r,
            ),
        r matches Ok(request) ==> {
            &&& request.nonce@.len() == NONCE_LEN
            &&& request.payload@ == payload@
            &&& request_is_signed(key@, request)
        },
{
    let drawn = entropy(NONCE_LEN);
    let now: u64 = now_ms();
    let ghost nonce = drawn;
    let ghost sent = payload@;
    let r = sign_request_with(key, drawn, now, payload);
    assert(signed_with(key@, nonce, now, sent, r));
    r
}

/// What the shape, the tag and the time of a request decide, in that order.
pub open spec fn admitted(key: Seq<u8>, request: Request, now: u64) -> Result<(), AuthFailure> {
    if request.nonce@.len() != NONCE_LEN {
        Err(AuthFailure::Malformed)
    } else if !request_is_signed(key, request) {
        Err(AuthFailure::BadKey)
    } else if !is_fresh(request.timestamp_ms, now) {
        Err(AuthFailure::Stale)
    } else {
        Ok(())
    }
}

/// What is decided of a request, given the nonces seen so far.
pub open spec fn judged(
    key: Seq<u8>,
    request: Request,
    seen: Map<Seq<u8>, u128>,
    now: u64,
    now_ns: u128,
) -> Result<Seq<u8>, AuthFailure> {
    match admitted(key, request, now) {
        Err(failure) => Err(failure),
        Ok(()) => if remembered(seen, now_ns).contains_key(request.nonce@) {
            Err(AuthFailure::Replay)
        } else {
            Ok(request.payload@)
        },
    }
}

/// The nonces seen after a request has been judged: one more only where the
/// request was authentic and fresh.
pub open spec fn seen_after(
    key: Seq<u8>,
    request: Request,
    seen: Map<Seq<u8>, u128>,
    now: u64,
    now_ns: u128,
) -> Map<Seq<u8>, u128> {
    if admitted(key, request, now) is Ok {
        remembered(seen, now_ns).insert(request.nonce@, now_ns)
    } else {
        seen
    }
}

/// Verifies a request and hands back its payload, at the given readings of the
/// two clocks.
pub fn verify_request_at<'a>(
    key: &[u8],
    request: &'a Request,
    replay: &mut ReplayGuard,
    now: u64,
    now_ns: u128,
) -> (r: Result<&'a [u8], AuthFailure>)
    requires
        old(replay).wf(),
    ensures
        final(replay).wf(),
        match judged(key@, *request, old(replay)@, now, now_ns) {
            Ok(payload) => r matches Ok(p) && p@ == payload,
            Err(failure) => r == Err::<&'a [u8], AuthFailure>(failure),
        },
        final(replay)@ == seen_after(key@, *request, old(replay)@, now, now_ns),
        final(replay).started == old(replay).started,
{
    if request.nonce.len() != NONCE_LEN {
        return Err(AuthFailure::Malformed);
    }
    if !verify_tag(key, &request.nonce, request.timestamp_ms, &request.payload, &request.mac) {
        return Err(AuthFailure::BadKey);
    }
    if !fresh(request.timestamp_ms, now) {
        return Err(AuthFailure::Stale);
    }
    if !replay.remember_at(&request.nonce, now_ns) {
        return Err(AuthFailure::Replay);
    }
    Ok(&request.payload)
}

/// Verifies a request and hands back its payload. A nonce is only worth
/// remembering once the request is known to be authentic, so the order is:
/// shape, tag, freshness, replay.
pub fn verify_request<'a>(key: &[u8], request: &'a Request, replay: &mut ReplayGuard) -> (r: Result<
    &'a [u8],
    AuthFailure,
>)
    requires
        old(replay).wf(),
    ensures
        final(replay).wf(),
        final(replay).started == old(replay).started,
        exists|now: u64, now_ns: u128|
            clock_read(now) && passed(old(replay).started, now_ns) && final(replay)@
                == #[trigger] seen_after(key@, *request, old(replay)@, now, now_ns) && (match judged(key@, *request, old(replay)@, now, now_ns) {
                Ok(payload) => r matches Ok(p) && p@ == payload,
                Err(failure) => r == Err::<&'a [u8], AuthFailure>(failure),
            }),
        request.nonce@.len() != NONCE_LEN <==> r == Err::<&'a [u8], AuthFailure>(
            AuthFailure::Malformed,
        ),
        request.nonce@.len() == NONCE_LEN && !request_is_signed(key@, *request) <==> r == Err::<
            &'a [u8],
            AuthFailure,
        >(AuthFailure::BadKey),
{
    let now: u64 = now_ms();
    let now_ns: u128 = nanos_since(&replay.started);
    let out = verify_request_at(key, request, replay, now, now_ns);
    proof {
        assert(final(replay)@ == seen_after(key@, *request, old(replay)@, now, now_ns));
    }
    out
}

/// Signs a reply against the nonce of the request that it answers, at the given
/// time.
pub fn sign_reply_at(key: &[u8], request_nonce: &[u8], timestamp_ms: u64, payload: Vec<u8>) -> (r:
    Reply)
    ensures
        r matches Reply::Signed { timestamp_ms: t, mac, payload: p } && t == timestamp_ms && p@
            == payload@ && mac@ == tag_of(key@, request_nonce@, timestamp_ms, payload@),
{
    let mac = tag(key, request_nonce, timestamp_ms, &payload);
    Reply::Signed { timestamp_ms, mac, payload }
}

/// Signs a reply against the nonce of the request that it answers, so that it
/// cannot be lifted from one exchange into another.
pub fn sign_reply(key: &[u8], request_nonce: &[u8], payload: Vec<u8>) -> (r: Reply)
    ensures
        r matches Reply::Signed { timestamp_ms, mac, payload: p } && clock_read(timestamp_ms) && p@
            == payload@ && mac@ == tag_of(key@, request_nonce@, timestamp_ms, payload@),
{
    sign_reply_at(key, request_nonce, now_ms(), payload)
}

/// What is decided of a reply to the request with the given nonce.
pub open spec fn reply_judged(key: Seq<u8>, request_nonce: Seq<u8>, reply: Reply, now: u64) -> Result<
    Seq<u8>,
    AuthFailure,
> {
    match reply {
        Reply::Rejected(failure) => Err(failure),
        Reply::Signed { timestamp_ms, mac, payload } => if mac@ != tag_of(
            key,
            request_nonce,
            timestamp_ms,
            payload@,
        ) {
            Err(AuthFailure::BadKey)
        } else if !is_fresh(timestamp_ms, now) {
            Err(AuthFailure::Stale)
        } else {
            Ok(payload@)
        },
    }
}

/// Verifies a reply and hands back its payload, at the given time.
pub fn verify_reply_at<'a>(key: &[u8], request_nonce: &[u8], reply: &'a Reply, now: u64) -> (r:
    Result<&'a [u8], AuthFailure>)
    ensures
        match reply_judged(key@, request_nonce@, *reply, now) {
            Ok(payload) => r matches Ok(p) && p@ == payload,
            Err(failure) => r == Err::<&'a [u8], AuthFailure>(failure),
        },
{
    match reply {
        Reply::Rejected(failure) => Err(*failure),
        Reply::Signed { timestamp_ms, mac, payload } => {
            if !verify_tag(key, request_nonce, *timestamp_ms, payload, mac) {
                return Err(AuthFailure::BadKey);
            }
            if !fresh(*timestamp_ms, now) {
                return Err(AuthFailure::Stale);
            }
            Ok(payload)
        },
    }
}

/// Verifies a reply and hands back its payload, at the time of the system's
/// clock.
pub fn verify_reply<'a>(key: &[u8], request_nonce: &[u8], reply: &'a Reply) -> (r: Result<
    &'a [u8],
    AuthFailure,
>)
    ensures
        exists|now: u64|
            clock_read(now) && (match #[trigger] reply_judged(key@, request_nonce@, *reply, now) {
                Ok(payload) => r matches Ok(p) && p@ == payload,
                Err(failure) => r == Err::<&'a [u8], AuthFailure>(failure),
            }),
{
    let now: u64 = now_ms();
    let out = verify_reply_at(key, request_nonce, reply, now);
    assert(reply_judged(key@, request_nonce@, *reply, now) == reply_judged(
        key@,
        request_nonce@,
        *reply,
        now,
    ));
    out
}

// ---- replay ------------------------------------------------------------------------

/// One nonce and when it was used.
#[derive(Debug)]
pub struct SeenNonce {
    pub nonce: Vec<u8>,
    pub at: u128,
}

/// Remembers recently seen nonces, so that a captured request cannot be sent
/// again. A nonce need only outlive the skew window: anything older is refused
/// as stale, so it can be forgotten.
pub struct ReplayGuard {
    pub seen: Vec<SeenNonce>,
    pub started: Instant,
}

pub open spec fn seen_pairs(seen: Seq<SeenNonce>) -> Seq<(Seq<u8>, u128)> {
    seen.map_values(|s: SeenNonce| (s.nonce@, s.at))
}

/// Whether something of that time is still remembered.
pub open spec fn alive(at: u128, now: u128) -> bool {
    now <= at + HORIZON_NS
}

/// What is left of the nonces at a given time.
pub open spec fn remembered(seen: Map<Seq<u8>, u128>, now: u128) -> Map<Seq<u8>, u128> {
    Map::new(
        |nonce: Seq<u8>| seen.contains_key(nonce) && alive(seen[nonce], now),
        |nonce: Seq<u8>| seen[nonce],
    )
}

impl View for ReplayGuard {
    type V = Map<Seq<u8>, u128>;

    open spec fn view(&self) -> Map<Seq<u8>, u128> {
        assoc::as_map(seen_pairs(self.seen@))
    }
}

impl Default for ReplayGuard {
    fn default() -> (r: ReplayGuard)
        ensures
            r.wf(),
            r@ == Map::<Seq<u8>, u128>::empty(),
    {
        ReplayGuard::new()
    }
}

impl ReplayGuard {
    pub open spec fn wf(&self) -> bool {
        assoc::distinct(seen_pairs(self.seen@))
    }

    pub fn new() -> (r: ReplayGuard)
        ensures
            r.wf(),
            r@ == Map::<Seq<u8>, u128>::empty(),
    {
        ReplayGuard { seen: Vec::new(), started: Instant::now() }
    }

    /// Forgets what is too old.
    fn forget(&mut self, now: u128)
        requires
            old(self).wf(),
        ensures
            final(self).wf(),
            final(self)@ == remembered(old(self)@, now),
            final(self).started == old(self).started,
    {
        let mut kept: Vec<SeenNonce> = Vec::new();
        let ghost all = seen_pairs(self.seen@);
        let mut i: usize = 0;
        assert(all.take(0) =~= seq![]);
        assert(remembered(Map::<Seq<u8>, u128>::empty(), now) =~= Map::empty());
        while i < self.seen.len()
            invariant
                i <= self.seen.len(),
                self == old(self),
                self.wf(),
                all == seen_pairs(self.seen@),
                assoc::distinct(seen_pairs(kept@)),
                assoc::as_map(seen_pairs(kept@)) == remembered(
                    assoc::as_map(all.take(i as int)),
                    now,
                ),
                forall|k: int|
                    0 <= k < kept@.len() ==> exists|j: int|
                        0 <= j < i && #[trigger] all[j] == #[trigger] seen_pairs(kept@)[k],
            decreases self.seen.len() - i,
        {
            let ghost before = assoc::as_map(all.take(i as int));
            let ghost kept_before = seen_pairs(kept@);
            let at: u128 = self.seen[i].at;
            let age: u128 = if now >= at {
                now - at
            } else {
                0
            };
            let ghost key = all[i as int].0;
            proof {
                assert(all.take(i as int + 1).drop_last() =~= all.take(i as int));
                assert(all.take(i as int + 1).last() == all[i as int]);
                assert(all[i as int] == (self.seen@[i as int].nonce@, at));
                assert(assoc::distinct(all.take(i as int))) by {
                    let part = all.take(i as int);
                    assert forall|a: int, b: int| 0 <= a < b < part.len() implies (
                    #[trigger] part[a]).0 != (#[trigger] part[b]).0 by {
                        assert(part[a] == all[a] && part[b] == all[b]);
                    }
                }
                assoc::push_inserts(all.take(i as int), key, at);
                assert(all.take(i as int).push((key, at)) =~= all.take(i as int + 1));
            }
            if age <= HORIZON_NS {
                let copy = SeenNonce { nonce: bytes::copy_of(&self.seen[i].nonce), at };
                kept.push(copy);
                proof {
                    assert(seen_pairs(kept@) =~= kept_before.push((key, at)));
                    assert forall|k: int| 0 <= k < kept_before.len() implies (
                    #[trigger] kept_before[k]).0 != key by {
                        let j = choose|j: int|
                            0 <= j < i && #[trigger] all[j] == kept_before[k];
                        assert(all[j].0 != all[i as int].0);
                    }
                    assoc::push_inserts(kept_before, key, at);
                    assert(remembered(before.insert(key, at), now) =~= remembered(
                        before,
                        now,
                    ).insert(key, at));
                    assert forall|k: int| 0 <= k < kept@.len() implies exists|j: int|
                        0 <= j < i + 1 && #[trigger] all[j] == #[trigger] seen_pairs(kept@)[k] by {
                        if k < kept_before.len() {
                            assert(seen_pairs(kept@)[k] == kept_before[k]);
                            let j = choose|j: int|
                                0 <= j < i && #[trigger] all[j] == kept_before[k];
                            assert(all[j] == seen_pairs(kept@)[k]);
                        } else {
                            assert(all[i as int] == seen_pairs(kept@)[k]);
                        }
                    }
                }
            } else {
                assert(remembered(before.insert(key, at), now) =~= remembered(before, now));
            }
            i = i + 1;
        }
        assert(all.take(i as int) =~= all);
        self.seen = kept;
    }

    /// Records a nonce at the given time; false where it had already been used.
    pub fn remember_at(&mut self, nonce: &[u8], now: u128) -> (r: bool)
        requires
            old(self).wf(),
        ensures
            final(self).wf(),
            r == !remembered(old(self)@, now).contains_key(nonce@),
            final(self)@ == remembered(old(self)@, now).insert(nonce@, now),
            final(self).started == old(self).started,
    {
        self.forget(now);
        let ghost before = seen_pairs(self.seen@);
        proof {
            assoc::as_map_holds(before);
        }
        let mut i: usize = 0;
        while i < self.seen.len()
            invariant
                self.wf(),
                i <= self.seen.len(),
                before == seen_pairs(self.seen@),
                self@ == remembered(old(self)@, now),
                self.started == old(self).started,
                forall|k: int| 0 <= k < i ==> (#[trigger] before[k]).0 != nonce@,
            decreases self.seen.len() - i,
        {
            assert(before[i as int].0 == self.seen@[i as int].nonce@);
            if bytes::same_bytes(&self.seen[i].nonce, nonce) {
                proof {
                    assoc::update_inserts(before, i as int, now);
                }
                self.seen.set(i, SeenNonce { nonce: bytes::copy_of(nonce), at: now });
                assert(seen_pairs(self.seen@) =~= before.update(i as int, (nonce@, now)));
                return false;
            }
            i = i + 1;
        }
        proof {
            assoc::push_inserts(before, nonce@, now);
        }
        self.seen.push(SeenNonce { nonce: bytes::copy_of(nonce), at: now });
        assert(seen_pairs(self.seen@) =~= before.push((nonce@, now)));
        true
    }

    /// Records a nonce now; false where it had already been used.
    pub fn remember(&mut self, nonce: &[u8]) -> (r: bool)
        requires
            old(self).wf(),
        ensures
            final(self).wf(),
            final(self).started == old(self).started,
            exists|now: u128|
                passed(old(self).started, now) && r == !(#[trigger] remembered(
                    old(self)@,
                    now,
                )).contains_key(nonce@) && final(self)@ == remembered(old(self)@, now).insert(nonce@, now),
    {
        let now: u128 = nanos_since(&self.started);
        self.remember_at(nonce, now)
    }
}

// ---- laws --------------------------------------------------------------------------

/// A key written in hexadecimal reads back as the same key.
pub proof fn hex_round_trips(key: Seq<u8>)
    requires
        key.len() == KEY_LEN,
    ensures
        key_of_hex(hex_text(key)) == Ok::<Seq<u8>, Seq<char>>(key),
{
    let s = hex_text(key);
    assert forall|i: int| 0 <= i < s.len() implies !text::white_space(#[trigger] s[i]) && width(
        s[i],
    ) == 1 by {}
    text::trimmed_keeps(s);
    narrow_len(s);
    unhex_inverts(key);
}

/// What reads as a key is one, and nothing else does: white space aside, exactly
/// twice as many hexadecimal digits as a key has bytes.
pub proof fn keys_in_hex_are_whole(s: Seq<char>)
    ensures
        key_of_hex(s) matches Ok(key) ==> key.len() == KEY_LEN,
        key_of_hex(s) is Ok <==> text::trimmed(s).len() == 2 * KEY_LEN && forall|i: int|
            0 <= i < text::trimmed(s).len() ==> nibble(#[trigger] text::trimmed(s)[i]) < 16,
{
    let t = text::trimmed(s);
    if key_of_hex(s) is Ok {
        pairs_are_narrow(t);
        narrow_len(t);
    }
    if t.len() == 2 * KEY_LEN && forall|i: int|
        0 <= i < t.len() ==> nibble(#[trigger] t[i]) < 16 {
        digits_are_read(t);
        pairs_are_narrow(t);
        narrow_len(t);
    }
}

proof fn digits_are_read(s: Seq<char>)
    requires
        s.len() % 2 == 0,
        forall|i: int| 0 <= i < s.len() ==> nibble(#[trigger] s[i]) < 16,
    ensures
        unhexed(s) is Ok,
    decreases s.len(),
{
    if s.len() > 0 {
        let rest = s.skip(2);
        assert forall|i: int| 0 <= i < rest.len() implies nibble(#[trigger] rest[i]) < 16 by {
            assert(rest[i] == s[i + 2]);
        }
        digits_are_read(rest);
        assert(nibble(s[0]) < 16 && nibble(s[1]) < 16);
    }
}

proof fn pairs_are_narrow(s: Seq<char>)
    requires
        unhexed(s) is Ok,
    ensures
        s.len() == 2 * unhexed(s)->Ok_0.len(),
        forall|i: int| 0 <= i < s.len() ==> width(#[trigger] s[i]) == 1 && nibble(s[i]) < 16,
    decreases s.len(),
{
    if s.len() > 0 {
        let rest = s.skip(2);
        pairs_are_narrow(rest);
        assert forall|i: int| 0 <= i < s.len() implies width(#[trigger] s[i]) == 1 && nibble(
            s[i],
        ) < 16 by {
            if i >= 2 {
                assert(rest[i - 2] == s[i]);
            }
        }
    }
}

proof fn narrow_len(s: Seq<char>)
    requires
        forall|i: int| 0 <= i < s.len() ==> width(#[trigger] s[i]) == 1,
    ensures
        byte_len(s) == s.len(),
    decreases s.len(),
{
    if s.len() > 0 {
        assert forall|i: int| 0 <= i < s.drop_last().len() implies width(
            #[trigger] s.drop_last()[i],
        ) == 1 by {
            assert(s.drop_last()[i] == s[i]);
        }
        narrow_len(s.drop_last());
    }
}

proof fn hex_pair(key: Seq<u8>)
    requires
        key.len() > 0,
    ensures
        hex_text(key).len() >= 2,
        width(hex_text(key)[0]) == 1,
        width(hex_text(key)[1]) == 1,
        pair_value(hex_text(key)[0], hex_text(key)[1]) == Some(key[0]),
        hex_text(key).skip(2) == hex_text(key.skip(1)),
{
    let s = hex_text(key);
    let n = key[0] as int;
    assert(s[0] == text::digit(n / 16));
    assert(s[1] == text::digit(n % 16));
    assert(nibble(s[0]) == n / 16);
    assert(nibble(s[1]) == n % 16);
    assert(s.skip(2) =~= hex_text(key.skip(1))) by {
        assert forall|i: int| 0 <= i < s.skip(2).len() implies s.skip(2)[i] == hex_text(
            key.skip(1),
        )[i] by {
            assert((i + 2) / 2 == i / 2 + 1 && (i + 2) % 2 == i % 2);
            assert(key.skip(1)[i / 2] == key[i / 2 + 1]);
        }
    }
}

proof fn unhex_inverts(key: Seq<u8>)
    ensures
        unhexed(hex_text(key)) == Ok::<Seq<u8>, Seq<char>>(key),
    decreases key.len(),
{
    if key.len() == 0 {
        assert(hex_text(key) =~= seq![]);
        assert(key =~= seq![]);
    } else {
        hex_pair(key);
        unhex_inverts(key.skip(1));
        assert(seq![key[0]] + key.skip(1) =~= key);
    }
}

/// What is signed determines its parts: no two requests share a message.
pub proof fn messages_are_unambiguous(
    nonce: Seq<u8>,
    timestamp_ms: u64,
    payload: Seq<u8>,
    other_nonce: Seq<u8>,
    other_timestamp_ms: u64,
    other_payload: Seq<u8>,
)
    requires
        nonce.len() == NONCE_LEN,
        other_nonce.len() == NONCE_LEN,
        signed_message(nonce, timestamp_ms, payload) == signed_message(
            other_nonce,
            other_timestamp_ms,
            other_payload,
        ),
    ensures
        nonce == other_nonce,
        timestamp_ms == other_timestamp_ms,
        payload == other_payload,
{
    let m = signed_message(nonce, timestamp_ms, payload);
    let o = signed_message(other_nonce, other_timestamp_ms, other_payload);
    bytes::be64_round_trips(timestamp_ms);
    bytes::be64_round_trips(other_timestamp_ms);
    assert(nonce =~= m.take(16) && other_nonce =~= o.take(16));
    assert(bytes::be64(timestamp_ms) =~= m.subrange(16, 24));
    assert(bytes::be64(other_timestamp_ms) =~= o.subrange(16, 24));
    assert(payload =~= m.skip(24) && other_payload =~= o.skip(24));
}

/// A request signed with the key, fresh, and under a nonce that is not
/// remembered, is accepted, and its payload comes out as it went in.
pub proof fn signed_requests_are_accepted(
    key: Seq<u8>,
    request: Request,
    seen: Map<Seq<u8>, u128>,
    now: u64,
    now_ns: u128,
)
    requires
        request.nonce@.len() == NONCE_LEN,
        request_is_signed(key, request),
        is_fresh(request.timestamp_ms, now),
        !remembered(seen, now_ns).contains_key(request.nonce@),
    ensures
        judged(key, request, seen, now, now_ns) == Ok::<Seq<u8>, AuthFailure>(request.payload@),
{
}

/// Only a request that carries the tag of its own fields is accepted.
pub proof fn accepted_requests_are_signed(
    key: Seq<u8>,
    request: Request,
    seen: Map<Seq<u8>, u128>,
    now: u64,
    now_ns: u128,
)
    requires
        judged(key, request, seen, now, now_ns) is Ok,
    ensures
        request_is_signed(key, request),
        is_fresh(request.timestamp_ms, now),
{
}

/// A refused request burns no nonce, unless it is refused as a replay.
pub proof fn refusals_burn_no_nonce(
    key: Seq<u8>,
    request: Request,
    seen: Map<Seq<u8>, u128>,
    now: u64,
    now_ns: u128,
)
    requires
        judged(key, request, seen, now, now_ns) is Err,
        judged(key, request, seen, now, now_ns) != Err::<Seq<u8>, AuthFailure>(AuthFailure::Replay),
    ensures
        seen_after(key, request, seen, now, now_ns) == seen,
{
}

/// As long as a nonce is remembered, it stays so whatever else is judged.
pub proof fn nonces_stay_remembered(
    key: Seq<u8>,
    nonce: Seq<u8>,
    used_ns: u128,
    seen: Map<Seq<u8>, u128>,
    other: Request,
    now: u64,
    now_ns: u128,
)
    requires
        seen.contains_key(nonce),
        seen[nonce] >= used_ns,
        used_ns <= now_ns,
        alive(used_ns, now_ns),
    ensures
        seen_after(key, other, seen, now, now_ns).contains_key(nonce),
        seen_after(key, other, seen, now, now_ns)[nonce] >= used_ns,
{
}

/// A request and the readings of the two clocks at which it is judged.
pub struct Call {
    pub request: Request,
    pub now: u64,
    pub now_ns: u128,
}

/// The nonces seen after some calls, one by one.
pub open spec fn seen_through(
    key: Seq<u8>,
    seen: Map<Seq<u8>, u128>,
    calls: Seq<Call>,
) -> Map<Seq<u8>, u128>
    decreases calls.len(),
{
    if calls.len() == 0 {
        seen
    } else {
        seen_after(
            key,
            calls.last().request,
            seen_through(key, seen, calls.drop_last()),
            calls.last().now,
            calls.last().now_ns,
        )
    }
}

/// Whether the two clocks have advanced together, as far as it matters: as many whole
/// milliseconds as have passed on the second have passed on the first.
pub open spec fn together(now: u64, now_ns: u128, later: u64, later_ns: u128) -> bool {
    now_ns <= later_ns && now + (later_ns - now_ns) / 1_000_000 <= later
}

/// A request that was accepted is never accepted again, whatever calls come in
/// between, where the two clocks advance together: while its nonce is remembered it
/// is a replay, and after that it is stale.
pub proof fn no_second_acceptance(
    key: Seq<u8>,
    request: Request,
    seen: Map<Seq<u8>, u128>,
    now: u64,
    now_ns: u128,
    between: Seq<Call>,
    later: u64,
    later_ns: u128,
)
    requires
        judged(key, request, seen, now, now_ns) is Ok,
        forall|i: int|
            0 <= i < between.len() ==> now_ns <= (#[trigger] between[i]).now_ns <= later_ns,
        together(now, now_ns, later, later_ns),
    ensures
        ({
            let known = seen_through(
                key,
                seen_after(key, request, seen, now, now_ns),
                between,
            );
            let r = judged(key, request, known, later, later_ns);
            r == Err::<Seq<u8>, AuthFailure>(AuthFailure::Replay) || r == Err::<
                Seq<u8>,
                AuthFailure,
            >(AuthFailure::Stale)
        }),
{
    if alive(now_ns, later_ns) {
        stays_through(
            key,
            request.nonce@,
            now_ns,
            seen_after(key, request, seen, now, now_ns),
            between,
            later_ns,
        );
    }
}

proof fn stays_through(
    key: Seq<u8>,
    nonce: Seq<u8>,
    used_ns: u128,
    seen: Map<Seq<u8>, u128>,
    calls: Seq<Call>,
    until_ns: u128,
)
    requires
        seen.contains_key(nonce),
        seen[nonce] >= used_ns,
        alive(used_ns, until_ns),
        forall|i: int|
            0 <= i < calls.len() ==> used_ns <= (#[trigger] calls[i]).now_ns <= until_ns,
    ensures
        seen_through(key, seen, calls).contains_key(nonce),
        seen_through(key, seen, calls)[nonce] >= used_ns,
    decreases calls.len(),
{
    if calls.len() > 0 {
        let before = calls.drop_last();
        assert forall|i: int| 0 <= i < before.len() implies used_ns <= (
        #[trigger] before[i]).now_ns <= until_ns by {
            assert(before[i] == calls[i]);
        }
        stays_through(key, nonce, used_ns, seen, before, until_ns);
        nonces_stay_remembered(
            key,
            nonce,
            used_ns,
            seen_through(key, seen, before),
            calls.last().request,
            calls.last().now,
            calls.last().now_ns,
        );
    }
}

/// A reply that is accepted carries the tag over the nonce of the request that
/// it is taken to answer.
pub proof fn replies_are_bound_to_their_request(
    key: Seq<u8>,
    request_nonce: Seq<u8>,
    reply: Reply,
    now: u64,
)
    requires
        reply_judged(key, request_nonce, reply, now) is Ok,
    ensures
        reply matches Reply::Signed { timestamp_ms, mac, payload } && mac@ == tag_of(
            key,
            request_nonce,
            timestamp_ms,
            payload@,
        ) && reply_judged(key, request_nonce, reply, now) == Ok::<Seq<u8>, AuthFailure>(payload@),
{
}

/// A reply that is read while it is fresh comes out as it was signed.
pub proof fn signed_replies_are_accepted(
    key: Seq<u8>,
    request_nonce: Seq<u8>,
    reply: Reply,
    now: u64,
)
    requires
        reply matches Reply::Signed { timestamp_ms, mac, payload } && mac@ == tag_of(
            key,
            request_nonce,
            timestamp_ms,
            payload@,
        ) && is_fresh(timestamp_ms, now),
    ensures
        reply matches Reply::Signed { timestamp_ms, mac, payload } && reply_judged(
            key,
            request_nonce,
            reply,
            now,
        ) == Ok::<Seq<u8>, AuthFailure>(payload@),
{
}

/// A reply to one request is refused as the reply to any other, unless the tags of two
/// different messages agree.
pub proof fn replies_to_others_are_refused(
    key: Seq<u8>,
    nonce: Seq<u8>,
    other: Seq<u8>,
    reply: Reply,
    now: u64,
)
    requires
        nonce.len() == NONCE_LEN,
        other.len() == NONCE_LEN,
        nonce != other,
        reply matches Reply::Signed { timestamp_ms, mac, payload } && mac@ == tag_of(
            key,
            nonce,
            timestamp_ms,
            payload@,
        ),
    ensures
        reply matches Reply::Signed { timestamp_ms, mac, payload } && {
            let own = signed_message(nonce, timestamp_ms, payload@);
            let its = signed_message(other, timestamp_ms, payload@);
            &&& own != its
            &&& hmac_sha256(key, own) != hmac_sha256(key, its) ==> reply_judged(
                key,
                other,
                reply,
                now,
            ) == Err::<Seq<u8>, AuthFailure>(AuthFailure::BadKey)
        },
{
    if let Reply::Signed { timestamp_ms, mac, payload } = reply {
        if signed_message(nonce, timestamp_ms, payload@) == signed_message(
            other,
            timestamp_ms,
            payload@,
        ) {
            messages_are_unambiguous(
                nonce,
                timestamp_ms,
                payload@,
                other,
                timestamp_ms,
                payload@,
            );
        }
    }
}

/// A request is refused for the first of these that is wrong with it: its shape, its tag,
/// its time, its nonce having been seen. Only one with none of them is accepted.
pub proof fn refusals_name_their_cause(
    key: Seq<u8>,
    request: Request,
    seen: Map<Seq<u8>, u128>,
    now: u64,
    now_ns: u128,
)
    ensures
        ({
            let r = judged(key, request, seen, now, now_ns);
            let whole = request.nonce@.len() == 16;
            let signed = request.mac@ == hmac_sha256(
                key,
                request.nonce@ + bytes::be64(request.timestamp_ms) + request.payload@,
            );
            let timely = request.timestamp_ms <= now + 60_000 && now <= request.timestamp_ms
                + 60_000;
            let new = !(seen.contains_key(request.nonce@) && now_ns <= seen[request.nonce@]
                + 120_001_000_000);
            &&& !whole ==> r == Err::<Seq<u8>, AuthFailure>(AuthFailure::Malformed)
            &&& whole && !signed ==> r == Err::<Seq<u8>, AuthFailure>(AuthFailure::BadKey)
            &&& whole && signed && !timely ==> r == Err::<Seq<u8>, AuthFailure>(AuthFailure::Stale)
            &&& whole && signed && timely && !new ==> r == Err::<Seq<u8>, AuthFailure>(
                AuthFailure::Replay,
            )
            &&& whole && signed && timely && new ==> r == Ok::<Seq<u8>, AuthFailure>(
                request.payload@,
            )
        }),
{
}

/// A reply is refused for what the other end said, for its tag, or for its time, in that
/// order.
pub proof fn reply_refusals_name_their_cause(
    key: Seq<u8>,
    nonce: Seq<u8>,
    reply: Reply,
    now: u64,
)
    ensures
        match reply {
            Reply::Rejected(f) => reply_judged(key, nonce, reply, now) == Err::<
                Seq<u8>,
                AuthFailure,
            >(f),
            Reply::Signed { timestamp_ms, mac, payload } => {
                let signed = mac@ == hmac_sha256(
                    key,
                    nonce + bytes::be64(timestamp_ms) + payload@,
                );
                let timely = timestamp_ms <= now + 60_000 && now <= timestamp_ms + 60_000;
                &&& !signed ==> reply_judged(key, nonce, reply, now) == Err::<
                    Seq<u8>,
                    AuthFailure,
                >(AuthFailure::BadKey)
                &&& signed && !timely ==> reply_judged(key, nonce, reply, now) == Err::<
                    Seq<u8>,
                    AuthFailure,
                >(AuthFailure::Stale)
                &&& signed && timely ==> reply_judged(key, nonce, reply, now) == Ok::<
                    Seq<u8>,
                    AuthFailure,
                >(payload@)
            },
        },
{
}

/// A nonce is remembered from its use for a little more than twice the skew, and only then
/// forgotten; remembering one forgets no other before its time.
pub proof fn nonces_are_remembered_for_their_time(
    seen: Map<Seq<u8>, u128>,
    nonce: Seq<u8>,
    now: u128,
)
    ensures
        remembered(seen, now).contains_key(nonce) <==> seen.contains_key(nonce) && now
            <= seen[nonce] + 120_001_000_000,
        remembered(seen, now).contains_key(nonce) ==> remembered(seen, now)[nonce] == seen[nonce],
{
}

/// A key from a phrase is what Argon2id makes of it at these costs, under this salt, at its
/// full length; both ends must agree on all of them.
pub proof fn phrases_are_derived_at_fixed_costs(phrase: Seq<u8>)
    ensures
        phrase_key(phrase) == argon2id(65536, 3, 1, phrase, kdf_salt(), 1024),
        kdf_salt().len() == 21,
{
}

/// Each refusal has words of its own.
pub proof fn refusals_have_their_words()
    ensures
        failure_text(AuthFailure::BadKey)
            == "the server rejected this client's key — run `keygen` with the same phrase on both sides"@,
        failure_text(AuthFailure::Stale)
            == "the request was outside the 60s clock-skew window — check the clocks on both machines"@,
        failure_text(AuthFailure::Replay) == "that request nonce was already used"@,
        failure_text(AuthFailure::Malformed) == "the request was malformed"@,
{
}

/// A request goes out under the nonce that was drawn, with the time and the payload that it
/// was given and a tag over all three; without a nonce there is none.
pub proof fn requests_carry_what_they_were_given(
    key: Seq<u8>,
    drawn: Result<Vec<u8>, NoEntropy>,
    now: u64,
    payload: Seq<u8>,
    r: Result<Request, NoEntropy>,
)
    requires
        signed_with(key, drawn, now, payload, r),
    ensures
        drawn is Ok <==> r is Ok,
        r matches Ok(request) ==> request.nonce@ == drawn->Ok_0@ && request.timestamp_ms == now
            && request.payload@ == payload && request.mac@ == hmac_sha256(
            key,
            drawn->Ok_0@ + bytes::be64(now) + payload,
        ),
{
}

} // verus!
