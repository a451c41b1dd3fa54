//! The server's calls: opened, sorted out, and their answers sealed.
use vstd::prelude::*;

use crate::bytes;
use crate::protocol::api::{Action, ApiError, Response};
use crate::protocol::auth;
use crate::protocol::auth::{AuthFailure, Reply, ReplayGuard, Request};
use crate::protocol::instance::{
    Env, InstanceConfig, InstanceStatResponse, RetryPolicy, Source,
};
use crate::sampling;
use crate::sampling::Sample;

verus! {

/// An outcome as it is answered.
pub fn respond(result: Result<Response, ApiError>) -> (r: Response)
    ensures
        r == (match result {
            Ok(response) => response,
            Err(e) => Response::Error(e),
        }),
{
    match result {
        Ok(response) => response,
        Err(e) => Response::Error(e),
    }
}

/// The door that calls come in through.
pub struct Api {
    /// The key that is shared with the clients.
    pub key: Vec<u8>,
    pub replay: ReplayGuard,
}

impl Api {
    pub fn new(key: Vec<u8>) -> (r: Api)
        ensures
            r.key == key,
            r.replay.wf(),
            r.replay@ == Map::<Seq<u8>, u128>::empty(),
    {
        Api { key, replay: ReplayGuard::new() }
    }

    /// Opens a call at the given time: hands out what it carries, or the answer to a
    /// call that is refused. That answer says no more than the kind of failure.
    pub fn open_at(&mut self, request: &Request, now: u64, now_ns: u128) -> (r: Result<
        Vec<u8>,
        Reply,
    >)
        requires
            old(self).replay.wf(),
        ensures
            final(self).replay.wf(),
            final(self).key == old(self).key,
            final(self).replay.started == old(self).replay.started,
            final(self).replay@ == auth::seen_after(
                old(self).key@,
                *request,
                old(self).replay@,
                now,
                now_ns,
            ),
            match auth::judged(old(self).key@, *request, old(self).replay@, now, now_ns) {
                Ok(payload) => r matches Ok(p) && p@ == payload,
                Err(failure) => r == Err::<Vec<u8>, Reply>(Reply::Rejected(failure)),
            },
    {
        match auth::verify_request_at(&self.key, request, &mut self.replay, now, now_ns) {
            Ok(payload) => Ok(bytes::copy_of(payload)),
            Err(failure) => Err(Reply::Rejected(failure)),
        }
    }

    /// Opens a call: hands out what it carries, or the answer to a call that is
    /// refused.
    pub fn open(&mut self, request: &Request) -> (r: Result<Vec<u8>, Reply>)
        requires
            old(self).replay.wf(),
        ensures
            final(self).replay.wf(),
            final(self).key == old(self).key,
            final(self).replay.started == old(self).replay.started,
            exists|now: u64, now_ns: u128|
                auth::clock_read(now) && auth::passed(old(self).replay.started, now_ns) && final(self).replay@ == #[trigger] auth::seen_after(
                    old(self).key@,
                    *request,
                    old(self).replay@,
                    now,
                    now_ns,
                ) && (match auth::judged(
                    old(self).key@,
                    *request,
                    old(self).replay@,
                    now,
                    now_ns,
                ) {
                    Ok(payload) => r matches Ok(p) && p@ == payload,
                    Err(failure) => r == Err::<Vec<u8>, Reply>(Reply::Rejected(failure)),
                }),
            r matches Ok(p) ==> auth::request_is_signed(old(self).key@, *request) && p@
                == request.payload@,
    {
        match auth::verify_request(&self.key, request, &mut self.replay) {
            Ok(payload) => Ok(bytes::copy_of(payload)),
            Err(failure) => Err(Reply::Rejected(failure)),
        }
    }

    /// The answer to a call that is signed and yet cannot be read: the other end is
    /// of another version.
    pub fn undecodable() -> (r: Reply)
        ensures
            r == Reply::Rejected(AuthFailure::Malformed),
    {
        Reply::Rejected(AuthFailure::Malformed)
    }

    /// Seals an answer, bound to the call that it answers.
    pub fn seal(&self, request_nonce: &[u8], payload: Vec<u8>) -> (r: Reply)
        ensures
            r matches Reply::Signed { timestamp_ms, mac, payload: p } && auth::clock_read(
                timestamp_ms,
            ) && p@ == payload@ && mac@ == auth::tag_of(self.key@, request_nonce@, timestamp_ms, payload@),
    {
        auth::sign_reply(&self.key, request_nonce, payload)
    }

    /// The answer to a call for the machine's figures. `version` is the server's own,
    /// `bootstrap` whether it would hand over to itself.
    pub fn stat(
        version: u32,
        bootstrap: bool,
        sample: &Sample,
        instances: Vec<InstanceStatResponse>,
    ) -> (r: Response)
        requires
            sampling::summable(sample.disks@),
            sampling::summable(sample.networks@),
        ensures
            r == (Response::StatResponse {
                version,
                total_stg: sampling::first_sum(sample.disks@, sample.disks@.len() as int) as u64,
                free_stg: sampling::second_sum(sample.disks@, sample.disks@.len() as int) as u64,
                total_ram: sample.total_ram,
                free_ram: sample.free_ram,
                network_recv: sampling::first_sum(
                    sample.networks@,
                    sample.networks@.len() as int,
                ) as u64,
                network_trans: sampling::second_sum(
                    sample.networks@,
                    sample.networks@.len() as int,
                ) as u64,
                cpu_usage_bits: sample.cpu_usage_bits,
                instances,
                bootstrap,
            }),
    {
        let (total_stg, free_stg): (u64, u64) = sampling::totals(&sample.disks);
        let (network_recv, network_trans): (u64, u64) = sampling::totals(&sample.networks);
        Response::StatResponse {
            version,
            total_stg,
            free_stg,
            total_ram: sample.total_ram,
            free_ram: sample.free_ram,
            network_recv,
            network_trans,
            cpu_usage_bits: sample.cpu_usage_bits,
            instances,
            bootstrap,
        }
    }
}

/// What is to be changed of an instance; `None` leaves a field as it is.
#[derive(Debug, PartialEq, Eq)]
pub struct InstancePatch {
    pub name: Option<String>,
    pub source: Option<Source>,
    pub command: Option<String>,
    pub args: Option<Vec<String>>,
    pub env: Option<Env>,
    pub autostart: Option<bool>,
    pub retry_policy: Option<RetryPolicy>,
}

/// What a call asks of the part of the server that it concerns.
#[derive(Debug, PartialEq, Eq)]
pub enum Task {
    /// Nothing: this is the answer.
    Reply(Response),
    /// Measure the machine.
    Stat,
    /// Add an instance. It gets its identity then.
    Create(InstanceConfig),
    Update { id: u128, patch: InstancePatch },
    UpdateRepo { id: u128 },
    Run { id: u128 },
    Restart { id: u128 },
    Stop { id: u128 },
    Kill { id: u128 },
    Remove { id: u128, delete_files: bool },
    Check { id: u128 },
    List,
    ListDir { path: String },
    /// The last lines of an instance's output, at most so many.
    Tail { id: u128, lines: usize },
    Bootstrap,
}

/// What a call asks for.
pub open spec fn task_of(action: Action) -> Task {
    match action {
        Action::Ping => Task::Reply(Response::Pong),
        Action::Stat => Task::Stat,
        Action::CreateInstance { name, source, command, args, env, autostart, retry_policy } =>
            Task::Create(
            InstanceConfig {
                id: 0,
                name,
                source,
                command,
                args,
                env,
                autostart,
                retry_policy,
                self_managed: false,
            },
        ),
        Action::UpdateInstance {
            id,
            name,
            source,
            command,
            args,
            env,
            autostart,
            retry_policy,
        } => Task::Update {
            id,
            patch: InstancePatch { name, source, command, args, env, autostart, retry_policy },
        },
        Action::UpdateRepo { id } => Task::UpdateRepo { id },
        Action::RunInstance { id } => Task::Run { id },
        Action::RestartInstance { id } => Task::Restart { id },
        Action::StopInstance { id } => Task::Stop { id },
        Action::KillInstance { id } => Task::Kill { id },
        Action::RemoveInstance { id, delete_files } => Task::Remove { id, delete_files },
        Action::CheckInstance { id } => Task::Check { id },
        Action::ListInstances => Task::List,
        Action::ListDir { path } => Task::ListDir { path },
        Action::TailConsole { id, lines } => Task::Tail { id, lines: lines as usize },
        Action::Bootstrap => Task::Bootstrap,
    }
}

/// Sorts out what a call asks for.
pub fn dispatch(action: Action) -> (r: Task)
    ensures
        r == task_of(action),
{
    match action {
        Action::Ping => Task::Reply(Response::Pong),
        Action::Stat => Task::Stat,
        Action::CreateInstance { name, source, command, args, env, autostart, retry_policy } => {
            Task::Create(
                InstanceConfig {
                    id: 0,
                    name,
                    source,
                    command,
                    args,
                    env,
                    autostart,
                    retry_policy,
                    self_managed: false,
                },
            )
        },
        Action::UpdateInstance {
            id,
            name,
            source,
            command,
            args,
            env,
            autostart,
            retry_policy,
        } => Task::Update {
            id,
            patch: InstancePatch { name, source, command, args, env, autostart, retry_policy },
        },
        Action::UpdateRepo { id } => Task::UpdateRepo { id },
        Action::RunInstance { id } => Task::Run { id },
        Action::RestartInstance { id } => Task::Restart { id },
        Action::StopInstance { id } => Task::Stop { id },
        Action::KillInstance { id } => Task::Kill { id },
        Action::RemoveInstance { id, delete_files } => Task::Remove { id, delete_files },
        Action::CheckInstance { id } => Task::Check { id },
        Action::ListInstances => Task::List,
        Action::ListDir { path } => Task::ListDir { path },
        Action::TailConsole { id, lines } => Task::Tail { id, lines: lines as usize },
        Action::Bootstrap => Task::Bootstrap,
    }
}

/// A call asks for just what it says, of just the instance that it names: a stop is a stop
/// and a kill a kill; a removal keeps its word about the files; and a new instance has
/// what the call gave for it, under no identity yet.
pub proof fn calls_ask_for_what_they_say(id: u128, files: bool, lines: u32, path: String)
    ensures
        task_of(Action::Ping) == Task::Reply(Response::Pong),
        task_of(Action::Stat) == Task::Stat,
        task_of(Action::ListInstances) == Task::List,
        task_of(Action::Bootstrap) == Task::Bootstrap,
        task_of(Action::RunInstance { id }) == (Task::Run { id }),
        task_of(Action::RestartInstance { id }) == (Task::Restart { id }),
        task_of(Action::StopInstance { id }) == (Task::Stop { id }),
        task_of(Action::KillInstance { id }) == (Task::Kill { id }),
        task_of(Action::UpdateRepo { id }) == (Task::UpdateRepo { id }),
        task_of(Action::CheckInstance { id }) == (Task::Check { id }),
        task_of(Action::RemoveInstance { id, delete_files: files }) == (Task::Remove {
            id,
            delete_files: files,
        }),
        task_of(Action::ListDir { path }) == (Task::ListDir { path }),
        task_of(Action::TailConsole { id, lines }) == (Task::Tail { id, lines: lines as usize }),
{
}

/// What a call gives for an instance is what is asked for: each field as it is, for a new
/// one and for one that is changed.
pub proof fn calls_pass_their_fields_on(action: Action)
    ensures
        action matches Action::CreateInstance {
            name,
            source,
            command,
            args,
            env,
            autostart,
            retry_policy,
        } ==> (task_of(action) matches Task::Create(c) && c.name == name && c.source == source
            && c.command == command && c.args == args && c.env == env && c.autostart == autostart
            && c.retry_policy == retry_policy && !c.self_managed && c.id == 0),
        action matches Action::UpdateInstance {
            id,
            name,
            source,
            command,
            args,
            env,
            autostart,
            retry_policy,
        } ==> (task_of(action) matches Task::Update { id: i, patch } && i == id && patch.name == name
            && patch.source == source && patch.command == command && patch.args == args && patch.env
            == env && patch.autostart == autostart && patch.retry_policy == retry_policy),
{
}

} // verus!
