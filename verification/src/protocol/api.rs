//! The unary calls and their answers.
use vstd::prelude::*;
use crate::protocol::instance::{
    ConsoleLine, Env, InstanceStatResponse, InstanceStatus, RetryPolicy, Source,
};

verus! {

#[derive(Clone, Copy, Debug, PartialEq, Eq, Structural)]
pub enum ErrorCode {
    NotFound,
    AlreadyRunning,
    NotRunning,
    Provisioning,
    GitError,
    AccessDenied,
    Conflict,
    Internal,
}

/// Why the server refused, as a code and as a sentence.
#[derive(Clone, Debug, PartialEq, Eq)]
pub struct ApiError {
    pub code: ErrorCode,
    pub msg: String,
}

/// A refusal, its sentence as a text.
#[verifier::ext_equal]
pub struct Refusal {
    pub code: ErrorCode,
    pub msg: Seq<char>,
}

impl View for ApiError {
    type V = Refusal;

    open spec fn view(&self) -> Refusal {
        Refusal { code: self.code, msg: self.msg@ }
    }
}

impl ApiError {
    pub fn new(code: ErrorCode, msg: &str) -> (r: ApiError)
        ensures
            r@ == (Refusal { code, msg: msg@ }),
    {
        ApiError { code, msg: msg.to_string() }
    }

    /// The sentence alone.
    pub fn text(&self) -> (r: String)
        ensures
            r@ == self.msg@,
    {
        self.msg.clone()
    }
}

/// One entry of a directory listing.
#[derive(Clone, Debug, PartialEq, Eq)]
pub struct DirEntry {
    pub name: String,
    pub is_dir: bool,
    pub size: u64,
    /// Modification time in seconds since the unix epoch, where there is one.
    pub modified_secs: Option<u64>,
}

#[allow(inconsistent_fields)]
#[derive(Debug, PartialEq, Eq)]
pub enum Action {
    Ping,
    Stat,
    CreateInstance {
        name: String,
        source: Source,
        command: String,
        args: Vec<String>,
        env: Env,
        autostart: bool,
        retry_policy: RetryPolicy,
    },
    UpdateInstance {
        id: u128,
        name: Option<String>,
        source: Option<Source>,
        command: Option<String>,
        args: Option<Vec<String>>,
        env: Option<Env>,
        autostart: Option<bool>,
        retry_policy: Option<RetryPolicy>,
    },
    /// Bring the files in again; the instance must be stopped.
    UpdateRepo { id: u128 },
    RunInstance { id: u128 },
    /// Stop where it runs, and start again. On the self-managed instance the
    /// server hands over to a fresh process.
    RestartInstance { id: u128 },
    /// Stop with a grace period.
    StopInstance { id: u128 },
    /// Stop at once.
    KillInstance { id: u128 },
    RemoveInstance { id: u128, delete_files: bool },
    CheckInstance { id: u128 },
    ListInstances,
    ListDir { path: String },
    /// The end of an instance's captured output, newest last.
    TailConsole { id: u128, lines: u32 },
    /// Hand the server over to itself.
    Bootstrap,
}

#[derive(Debug, PartialEq, Eq)]
pub enum Response {
    Pong,
    /// Success of an action that returns nothing.
    Done,
    StatResponse {
        version: u32,
        total_stg: u64,
        free_stg: u64,
        total_ram: u64,
        free_ram: u64,
        network_recv: u64,
        network_trans: u64,
        /// The processor load in percent, as the bits of a double.
        cpu_usage_bits: u64,
        instances: Vec<InstanceStatResponse>,
        /// Whether `Bootstrap` would be honoured right now.
        bootstrap: bool,
    },
    InstanceCreated { id: u128 },
    InstanceStatus(InstanceStatus),
    InstanceList(Vec<InstanceStatResponse>),
    /// `path` is the directory that was listed, resolved.
    DirListing { path: String, entries: Vec<DirEntry> },
    /// `dropped` counts the lines that were already discarded.
    Console { lines: Vec<ConsoleLine>, dropped: u64 },
    Error(ApiError),
}

} // verus!
