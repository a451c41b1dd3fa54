//! What the client makes of a call: the checks before it, and the reading of
//! what came back.
use vstd::prelude::*;

use crate::client::instance_form::Parsed;
use crate::client::instance_form;
use crate::listing;
use crate::order;
use crate::path::Platform;
use crate::protocol::api::{Action, ApiError, DirEntry, Response};
use crate::protocol::auth::{AuthFailure, Reply, KEY_LEN};
use crate::protocol::auth;
use crate::protocol::instance::{ConsoleLine, InstanceStatResponse, InstanceStatus};
use crate::text;

verus! {

/// How long a connection or a call may take, in seconds.
pub const RPC_TIMEOUT: u64 = 5;

/// What a text stands for as an address and a port, or what is wrong with it.
pub uninterp spec fn parsed_target(s: Seq<char>) -> Result<(u32, u16), Seq<char>>;

/// `bierpc::rpc::Target::from_str`: an IPv4 address, a colon and a port, or the
/// error as it prints. The result is a function of the text alone.
#[verifier::external_body]
fn read_target(s: &str) -> (r: Result<(u32, u16), String>)
    ensures
        match r {
            Ok(t) => parsed_target(s@) == Ok::<(u32, u16), Seq<char>>(t),
            Err(e) => parsed_target(s@) == Err::<(u32, u16), Seq<char>>(e@),
        },
{
    match <bierpc::rpc::Target as std::str::FromStr>::from_str(s) {
        Ok(t) => Ok((u32::from(t.addr), t.port)),
        Err(e) => Err(e.to_string()),
    }
}

/// An IPv4 address, as one number, and a port.
#[derive(Clone, Copy, Debug, PartialEq, Eq, Structural)]
pub struct Target {
    pub ip: u32,
    pub port: u16,
}

/// An address as it is written: `a.b.c.d:port`.
pub open spec fn target_text(t: Target) -> Seq<char> {
    text::decimal((t.ip / 0x100_0000) as nat) + "."@ + text::decimal(
        (t.ip / 0x1_0000 % 256) as nat,
    ) + "."@ + text::decimal((t.ip / 0x100 % 256) as nat) + "."@ + text::decimal(
        (t.ip % 256) as nat,
    ) + ":"@ + text::decimal(t.port as nat)
}

impl Target {
    /// Reads an address.
    pub fn parse(s: &str) -> (r: Result<Target, String>)
        ensures
            match r {
                Ok(t) => parsed_target(s@) == Ok::<(u32, u16), Seq<char>>((t.ip, t.port)),
                Err(e) => parsed_target(s@) == Err::<(u32, u16), Seq<char>>(e@),
            },
    {
        match read_target(s) {
            Ok((ip, port)) => Ok(Target { ip, port }),
            Err(e) => Err(e),
        }
    }

    pub fn text(&self) -> (r: String)
        ensures
            r@ == target_text(*self),
    {
        let mut out: String = text::decimal_of((self.ip / 0x100_0000) as u128);
        out.append(".");
        out.append(&text::decimal_of((self.ip / 0x1_0000 % 256) as u128));
        out.append(".");
        out.append(&text::decimal_of((self.ip / 0x100 % 256) as u128));
        out.append(".");
        out.append(&text::decimal_of((self.ip % 256) as u128));
        out.append(":");
        out.append(&text::decimal_of(self.port as u128));
        out
    }
}

/// The kinds of system error that tell an unreachable host from another fault.
#[derive(Clone, Copy, Debug, PartialEq, Eq, Structural)]
pub enum IoKind {
    ConnectionRefused,
    ConnectionReset,
    HostUnreachable,
    NetworkUnreachable,
    AddrNotAvailable,
    Other,
}

/// How a connection or a call failed.
#[derive(Debug, PartialEq, Eq)]
pub enum RpcFailure {
    Io { kind: IoKind, text: String },
    TimedOut { phase: String, after_secs: u64 },
    CallTypeRejected { reason: String },
    ConnectionPoisoned,
}

/// Why a call did not succeed.
#[derive(Clone, Debug, PartialEq, Eq)]
pub enum NetError {
    /// There was no connection at all.
    Unreachable(String),
    /// Connected, but the exchange did not complete or made no sense.
    Protocol(String),
    /// The key was refused, or the reply could not be authenticated.
    Auth(AuthFailure),
    /// There is no key for this server yet.
    NoKey,
    /// The server refused.
    Api(ApiError),
}

/// An error, as what it says.
#[verifier::ext_equal]
pub enum Trouble {
    Unreachable(Seq<char>),
    Protocol(Seq<char>),
    Auth(AuthFailure),
    NoKey,
    Api(crate::protocol::api::ErrorCode, Seq<char>),
}

impl View for NetError {
    type V = Trouble;

    open spec fn view(&self) -> Trouble {
        match *self {
            NetError::Unreachable(m) => Trouble::Unreachable(m@),
            NetError::Protocol(m) => Trouble::Protocol(m@),
            NetError::Auth(f) => Trouble::Auth(f),
            NetError::NoKey => Trouble::NoKey,
            NetError::Api(e) => Trouble::Api(e.code, e.msg@),
        }
    }
}

/// The part of a failure that is worth showing.
pub open spec fn detail(e: RpcFailure) -> Seq<char> {
    match e {
        RpcFailure::Io { text, .. } => text@,
        RpcFailure::TimedOut { phase, after_secs } => phase@ + " timed out after "@
            + text::decimal(after_secs as nat) + "s"@,
        RpcFailure::CallTypeRejected { reason } => reason@,
        RpcFailure::ConnectionPoisoned => "connection is poisoned"@,
    }
}

pub fn rpc_detail(e: &RpcFailure) -> (r: String)
    ensures
        r@ == detail(*e),
{
    match e {
        RpcFailure::Io { text, .. } => text.clone(),
        RpcFailure::TimedOut { phase, after_secs } => text::cat4(
            phase,
            " timed out after ",
            &text::decimal_of(*after_secs as u128),
            "s",
        ),
        RpcFailure::CallTypeRejected { reason } => reason.clone(),
        RpcFailure::ConnectionPoisoned => "connection is poisoned".to_string(),
    }
}

/// Whether a failure means that nothing is listening.
pub open spec fn nobody_there(e: RpcFailure) -> bool {
    match e {
        RpcFailure::Io { kind, .. } => kind != IoKind::Other,
        RpcFailure::TimedOut { .. } => true,
        _ => false,
    }
}

/// What a failed connection is taken for: nobody there, or else a handshake
/// that was rejected, which is a matter of the key.
pub open spec fn connect_trouble(addr: Target, e: RpcFailure) -> Trouble {
    if nobody_there(e) {
        Trouble::Unreachable(
            "cannot connect to "@ + target_text(addr) + " ("@ + detail(e)
                + ") — is the server running?"@,
        )
    } else {
        Trouble::Auth(AuthFailure::BadKey)
    }
}

pub fn connect_error(addr: Target, e: &RpcFailure) -> (r: NetError)
    ensures
        r@ == connect_trouble(addr, *e),
{
    let nobody: bool = match e {
        RpcFailure::Io { kind, .. } => !matches!(kind, IoKind::Other),
        RpcFailure::TimedOut { .. } => true,
        _ => false,
    };
    if nobody {
        NetError::Unreachable(
            text::cat5(
                "cannot connect to ",
                &addr.text(),
                " (",
                &rpc_detail(e),
                ") — is the server running?",
            ),
        )
    } else {
        NetError::Auth(AuthFailure::BadKey)
    }
}

/// An error in words.
pub open spec fn trouble_text(e: Trouble) -> Seq<char> {
    match e {
        Trouble::Unreachable(m) => m,
        Trouble::Protocol(m) => m,
        Trouble::Auth(f) => auth::failure_text(f),
        Trouble::NoKey => "no authentication key for this server — run `client keygen <phrase>` with the phrase the server was given"@,
        Trouble::Api(_, m) => m,
    }
}

/// An error in a few words, for where there is no room.
pub open spec fn trouble_short(e: Trouble) -> Seq<char> {
    match e {
        Trouble::Unreachable(_) => "unreachable"@,
        Trouble::Protocol(_) => "protocol error"@,
        Trouble::Auth(_) => "key rejected — run `client keygen <phrase>`"@,
        Trouble::NoKey => "no key — run `client keygen <phrase>`"@,
        Trouble::Api(_, _) => "refused"@,
    }
}

impl NetError {
    pub fn text(&self) -> (r: String)
        ensures
            r@ == trouble_text(self@),
    {
        match self {
            NetError::Unreachable(m) => m.clone(),
            NetError::Protocol(m) => m.clone(),
            NetError::Auth(failure) => failure.text(),
            NetError::NoKey => "no authentication key for this server — run `client keygen <phrase>` with the phrase the server was given".to_string(),
            NetError::Api(e) => e.text(),
        }
    }

    pub fn short(&self) -> (r: &'static str)
        ensures
            r@ == trouble_short(self@),
    {
        match self {
            NetError::Unreachable(_) => "unreachable",
            NetError::Protocol(_) => "protocol error",
            NetError::Auth(_) => "key rejected — run `client keygen <phrase>`",
            NetError::NoKey => "no key — run `client keygen <phrase>`",
            NetError::Api(_) => "refused",
        }
    }
}

/// A server's address and the key to reach it with, carried together so that
/// no call talks to one server with another's key.
#[derive(Debug, PartialEq, Eq)]
pub struct Endpoint {
    pub addr: Target,
    pub key: Vec<u8>,
}

/// An endpoint, as what it holds.
#[verifier::ext_equal]
pub struct Dest {
    pub addr: Target,
    pub key: Seq<u8>,
}

impl View for Endpoint {
    type V = Dest;

    open spec fn view(&self) -> Dest {
        Dest { addr: self.addr, key: self.key@ }
    }
}

impl Endpoint {
    pub fn new(addr: Target, key: Vec<u8>) -> (r: Endpoint)
        ensures
            r.addr == addr,
            r.key == key,
    {
        Endpoint { addr, key }
    }

    pub fn copy(&self) -> (r: Endpoint)
        ensures
            r@ == self@,
    {
        Endpoint { addr: self.addr, key: crate::bytes::copy_of(&self.key) }
    }
}

// ---- one round trip ----------------------------------------------------------------

/// The payload to sign, given what encoding the action gave. Without a key of
/// the right length there is no call.
pub fn prepare(key: &[u8], encoded: Result<Vec<u8>, String>) -> (r: Result<Vec<u8>, NetError>)
    ensures
        key@.len() != KEY_LEN ==> (r matches Err(e) && e@ == Trouble::NoKey),
        key@.len() == KEY_LEN ==> match encoded {
            Ok(payload) => r == Ok::<Vec<u8>, NetError>(payload),
            Err(m) => r matches Err(e) && e@ == Trouble::Protocol(
                "could not encode the request: "@ + m@,
            ),
        },
{
    if key.len() != KEY_LEN {
        return Err(NetError::NoKey);
    }
    match encoded {
        Ok(payload) => Ok(payload),
        Err(m) => Err(NetError::Protocol(text::cat2("could not encode the request: ", &m))),
    }
}

/// What a call that failed after connecting is reported as.
pub fn call_error(addr: Target, e: &RpcFailure) -> (r: NetError)
    ensures
        r@ == Trouble::Protocol(
            target_text(addr) + " accepted the connection but the request failed: "@ + detail(*e),
        ),
{
    NetError::Protocol(
        text::cat3(
            &addr.text(),
            " accepted the connection but the request failed: ",
            &rpc_detail(e),
        ),
    )
}

/// The payload of a reply, verified at the given time.
pub fn open_reply_at<'a>(key: &[u8], nonce: &[u8], reply: &'a Reply, now: u64) -> (r: Result<
    &'a [u8],
    NetError,
>)
    ensures
        match auth::reply_judged(key@, nonce@, *reply, now) {
            Ok(payload) => r matches Ok(p) && p@ == payload,
            Err(failure) => r matches Err(e) && e@ == Trouble::Auth(failure),
        },
{
    match auth::verify_reply_at(key, nonce, reply, now) {
        Ok(payload) => Ok(payload),
        Err(failure) => Err(NetError::Auth(failure)),
    }
}

/// The payload of a reply, verified.
pub fn open_reply<'a>(key: &[u8], nonce: &[u8], reply: &'a Reply) -> (r: Result<&'a [u8], NetError>)
    ensures
        exists|now: u64|
            auth::clock_read(now) && (match #[trigger] auth::reply_judged(
                key@,
                nonce@,
                *reply,
                now,
            ) {
                Ok(payload) => r matches Ok(p) && p@ == payload,
                Err(failure) => r matches Err(e) && e@ == Trouble::Auth(failure),
            }),
{
    match auth::verify_reply(key, nonce, reply) {
        Ok(payload) => Ok(payload),
        Err(failure) => Err(NetError::Auth(failure)),
    }
}

/// The answer to a call, given what decoding the payload gave.
pub fn read_answer(decoded: Result<Response, String>) -> (r: Result<Response, NetError>)
    ensures
        match decoded {
            Ok(Response::Error(e)) => r == Err::<Response, NetError>(NetError::Api(e)),
            Ok(response) => r == Ok::<Response, NetError>(response),
            Err(m) => r matches Err(e) && e@ == Trouble::Protocol(
                "could not decode the reply: "@ + m@,
            ),
        },
{
    match decoded {
        Ok(response) => match response {
            Response::Error(e) => Err(NetError::Api(e)),
            other => Ok(other),
        },
        Err(m) => Err(NetError::Protocol(text::cat2("could not decode the reply: ", &m))),
    }
}

/// What is said of an answer that is not the one asked for. `shown` is the
/// answer as it prints.
pub open spec fn unexpected_trouble(what: Seq<char>, shown: Seq<char>) -> Trouble {
    Trouble::Protocol("expected "@ + what + ", got "@ + shown)
}

fn unexpected(what: &str, shown: &str) -> (r: NetError)
    ensures
        r@ == unexpected_trouble(what@, shown@),
{
    NetError::Protocol(text::cat4("expected ", what, ", got ", shown))
}

/// A server's counters.
#[derive(Debug, PartialEq, Eq)]
pub struct Vitals {
    pub version: u32,
    pub total_stg: u64,
    pub free_stg: u64,
    pub total_ram: u64,
    pub free_ram: u64,
    pub network_recv: u64,
    pub network_trans: u64,
    /// The processor load in percent, as the bits of a double.
    pub cpu_usage_bits: u64,
    pub instances: Vec<InstanceStatResponse>,
    /// The server would honour `Bootstrap` right now.
    pub bootstrap: bool,
}

/// Instances by name, whatever its case.
pub fn sorted_by_name(instances: Vec<InstanceStatResponse>) -> (r: Vec<InstanceStatResponse>)
    ensures
        r@ == order::sorted(instances@),
{
    listing::sort_instances(instances)
}

/// The counters in an answer.
pub fn stat(response: Response, shown: &str) -> (r: Result<Vitals, NetError>)
    ensures
        match response {
            Response::StatResponse {
                version,
                total_stg,
                free_stg,
                total_ram,
                free_ram,
                network_recv,
                network_trans,
                cpu_usage_bits,
                instances,
                bootstrap,
            } => {
                &&& r matches Ok(v)
                &&& v.version == version
                &&& v.total_stg == total_stg
                &&& v.free_stg == free_stg
                &&& v.total_ram == total_ram
                &&& v.free_ram == free_ram
                &&& v.network_recv == network_recv
                &&& v.network_trans == network_trans
                &&& v.cpu_usage_bits == cpu_usage_bits
                &&& v.instances@ == order::sorted(instances@)
                &&& v.bootstrap == bootstrap
            },
            _ => r matches Err(e) && e@ == unexpected_trouble("StatResponse"@, shown@),
        },
{
    match response {
        Response::StatResponse {
            version,
            total_stg,
            free_stg,
            total_ram,
            free_ram,
            network_recv,
            network_trans,
            cpu_usage_bits,
            instances,
            bootstrap,
        } => Ok(
            Vitals {
                version,
                total_stg,
                free_stg,
                total_ram,
                free_ram,
                network_recv,
                network_trans,
                cpu_usage_bits,
                instances: sorted_by_name(instances),
                bootstrap,
            },
        ),
        _ => Err(unexpected("StatResponse", shown)),
    }
}

pub fn ping(response: Response, shown: &str) -> (r: Result<(), NetError>)
    ensures
        match response {
            Response::Pong => r is Ok,
            _ => r matches Err(e) && e@ == unexpected_trouble("Pong"@, shown@),
        },
{
    match response {
        Response::Pong => Ok(()),
        _ => Err(unexpected("Pong", shown)),
    }
}

pub fn check(response: Response, shown: &str) -> (r: Result<InstanceStatus, NetError>)
    ensures
        match response {
            Response::InstanceStatus(status) => r == Ok::<InstanceStatus, NetError>(status),
            _ => r matches Err(e) && e@ == unexpected_trouble("InstanceStatus"@, shown@),
        },
{
    match response {
        Response::InstanceStatus(status) => Ok(status),
        _ => Err(unexpected("InstanceStatus", shown)),
    }
}

/// Recent console output of an instance, oldest first, and how many lines
/// before it are gone.
pub fn tail_console(response: Response, shown: &str) -> (r: Result<
    (Vec<ConsoleLine>, u64),
    NetError,
>)
    ensures
        match response {
            Response::Console { lines, dropped } => r == Ok::<(Vec<ConsoleLine>, u64), NetError>(
                (lines, dropped),
            ),
            _ => r matches Err(e) && e@ == unexpected_trouble("Console"@, shown@),
        },
{
    match response {
        Response::Console { lines, dropped } => Ok((lines, dropped)),
        _ => Err(unexpected("Console", shown)),
    }
}

/// The action that creates what the form yielded.
pub fn create_action(spec: Parsed, platform: Platform) -> (r: Action)
    ensures
        r matches Action::CreateInstance {
            name,
            source,
            command,
            args,
            env,
            autostart,
            retry_policy,
        } && name == spec.name && source@ == instance_form::recorded(spec.source@, platform)
            && command == spec.command && args == spec.args && env == spec.env && autostart
            == spec.autostart && retry_policy == spec.retry_policy,
{
    let source = spec.source.to_source(platform);
    Action::CreateInstance {
        name: spec.name,
        source,
        command: spec.command,
        args: spec.args,
        env: spec.env,
        autostart: spec.autostart,
        retry_policy: spec.retry_policy,
    }
}

/// The identity of an instance that was created.
pub fn create(response: Response, shown: &str) -> (r: Result<u128, NetError>)
    ensures
        match response {
            Response::InstanceCreated { id } => r == Ok::<u128, NetError>(id),
            _ => r matches Err(e) && e@ == unexpected_trouble("InstanceCreated"@, shown@),
        },
{
    match response {
        Response::InstanceCreated { id } => Ok(id),
        _ => Err(unexpected("InstanceCreated", shown)),
    }
}

/// For actions of which only success or failure matters.
pub fn done(response: Response, shown: &str) -> (r: Result<(), NetError>)
    ensures
        match response {
            Response::Done => r is Ok,
            _ => r matches Err(e) && e@ == unexpected_trouble("Done"@, shown@),
        },
{
    match response {
        Response::Done => Ok(()),
        _ => Err(unexpected("Done", shown)),
    }
}

/// The directory that was listed, resolved, and its entries.
pub fn list_dir(response: Response, shown: &str) -> (r: Result<(String, Vec<DirEntry>), NetError>)
    ensures
        match response {
            Response::DirListing { path, entries } => r == Ok::<(String, Vec<DirEntry>), NetError>(
                (path, entries),
            ),
            _ => r matches Err(e) && e@ == unexpected_trouble("DirListing"@, shown@),
        },
{
    match response {
        Response::DirListing { path, entries } => Ok((path, entries)),
        _ => Err(unexpected("DirListing", shown)),
    }
}

/// How a session ended: the fault of its body where there was one, and
/// otherwise what the server's reply says.
pub fn session(body_failed: Option<String>, outcome: Result<Response, RpcFailure>, shown: &str) -> (r:
    Result<(), String>)
    ensures
        match body_failed {
            Some(m) => r == Err::<(), String>(m),
            None => match outcome {
                Ok(Response::Done) => r is Ok,
                Ok(Response::Error(e)) => r matches Err(m) && m@ == e.msg@,
                Ok(_) => r matches Err(m) && m@ == "unexpected session reply: "@ + shown@,
                Err(e) => r matches Err(m) && m@ == "session failed: "@ + detail(e),
            },
        },
{
    match body_failed {
        Some(m) => Err(m),
        None => match outcome {
            Ok(response) => match response {
                Response::Done => Ok(()),
                Response::Error(e) => Err(e.msg),
                _ => Err(text::cat2("unexpected session reply: ", shown)),
            },
            Err(e) => Err(text::cat2("session failed: ", &rpc_detail(&e))),
        },
    }
}

/// A connection that failed because nobody was there, or nobody answered in time, is told
/// as such, with the address; any other failure to connect means that the key was refused.
pub proof fn failures_to_connect_are_told_apart(addr: Target, e: RpcFailure)
    ensures
        e is TimedOut || (e matches RpcFailure::Io { kind, .. } && kind != IoKind::Other)
            ==> connect_trouble(addr, e) == Trouble::Unreachable(
            "cannot connect to "@ + target_text(addr) + " ("@ + detail(e)
                + ") — is the server running?"@,
        ),
        !(e is TimedOut || (e matches RpcFailure::Io { kind, .. } && kind != IoKind::Other))
            ==> connect_trouble(addr, e) == Trouble::Auth(AuthFailure::BadKey),
        e matches RpcFailure::Io { text, .. } ==> detail(e) == text@,
        e matches RpcFailure::TimedOut { phase, after_secs } ==> detail(e) == phase@
            + " timed out after "@ + text::decimal(after_secs as nat) + "s"@,
        e matches RpcFailure::CallTypeRejected { reason } ==> detail(e) == reason@,
        e is ConnectionPoisoned ==> detail(e) == "connection is poisoned"@,
{
}

/// Each kind of trouble has a short word of its own, and its own words are told whole.
pub proof fn troubles_have_their_words(m: Seq<char>, f: AuthFailure, c: crate::protocol::api::ErrorCode)
    ensures
        trouble_text(Trouble::Unreachable(m)) == m && trouble_short(Trouble::Unreachable(m))
            == "unreachable"@,
        trouble_text(Trouble::Protocol(m)) == m && trouble_short(Trouble::Protocol(m))
            == "protocol error"@,
        trouble_text(Trouble::Api(c, m)) == m && trouble_short(Trouble::Api(c, m)) == "refused"@,
        trouble_text(Trouble::Auth(f)) == auth::failure_text(f) && trouble_short(Trouble::Auth(f))
            == "key rejected — run `client keygen <phrase>`"@,
        trouble_short(Trouble::NoKey) == "no key — run `client keygen <phrase>`"@,
{
}

/// An address is written as its four parts and its port.
pub proof fn addresses_are_written_in_parts(a: u8, b: u8, c: u8, d: u8, port: u16)
    ensures
        target_text(
            Target {
                ip: (a * 0x100_0000 + b * 0x1_0000 + c * 0x100 + d) as u32,
                port,
            },
        ) == text::decimal(a as nat) + "."@ + text::decimal(b as nat) + "."@ + text::decimal(
            c as nat,
        ) + "."@ + text::decimal(d as nat) + ":"@ + text::decimal(port as nat),
{
    let n: int = a * 0x100_0000 + b * 0x1_0000 + c * 0x100 + d;
    assert(n / 0x100_0000 == a);
    assert(n / 0x1_0000 % 256 == b);
    assert(n / 0x100 % 256 == c);
    assert(n % 256 == d);
}

/// An answer of another kind is reported with what was expected and what came.
pub proof fn answers_of_another_kind_are_reported(what: Seq<char>, shown: Seq<char>)
    ensures
        unexpected_trouble(what, shown) matches Trouble::Protocol(msg) && msg == "expected "@ + what
            + ", got "@ + shown,
{
}

} // verus!
