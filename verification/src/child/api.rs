//! The daemon's calls and their answers.
use vstd::prelude::*;

use crate::child::manager::{
    InstanceManager, InstancePatch, InstanceStatResponse, InstanceStatus,
};
use crate::child::session::SessionOffer;
use crate::child::storage::InstanceConfig;
use crate::child::{manager, storage};
use crate::protocol::api::{ApiError, ErrorCode};
use crate::protocol::api;
use crate::protocol::instance::{Env, GroupStats, RetryPolicy};
use crate::sampling::Sample;
use crate::{chance, sampling, text};

verus! {

/// What a terminal session is for.
#[derive(Clone, Copy, Debug, PartialEq, Eq, Structural)]
pub enum TerminalMode {
    /// A running instance's own input and output.
    Attach(u128),
    /// A fresh shell in the directory of an instance's files.
    Shell(u128),
}

#[allow(inconsistent_fields)]
#[derive(Debug, PartialEq, Eq)]
pub enum Action {
    Ping,
    Stat,
    CreateInstance {
        name: String,
        repo_url: String,
        branch: Option<String>,
        command: String,
        args: Vec<String>,
        env: Env,
        autostart: bool,
        retry_policy: RetryPolicy,
    },
    UpdateInstance {
        id: u128,
        name: Option<String>,
        repo_url: Option<String>,
        branch: Option<Option<String>>,
        command: Option<String>,
        args: Option<Vec<String>>,
        env: Option<Env>,
        autostart: Option<bool>,
        retry_policy: Option<RetryPolicy>,
    },
    /// Clone the configured branch anew; the instance must be stopped.
    UpdateRepo { id: u128 },
    RunInstance { id: u128 },
    /// Stop with a grace period.
    StopInstance { id: u128 },
    /// Stop at once.
    KillInstance { id: u128 },
    RemoveInstance { id: u128, delete_files: bool },
    CheckInstance { id: u128 },
    ListInstances,
    OpenTerminal { mode: TerminalMode },
    /// The client will push a file over the session that is offered.
    UploadFile { dest: String },
    /// The client will pull a file over the session that is offered.
    DownloadFile { src: String },
}

#[derive(Debug, PartialEq, Eq)]
pub enum Response {
    Pong,
    /// Success of an action that returns nothing.
    Done,
    StatResponse {
        total_stg: u64,
        free_stg: u64,
        total_ram: u64,
        free_ram: u64,
        network_recv: u64,
        network_trans: u64,
        /// The processor load in percent, as the bits of a double.
        cpu_usage_bits: u64,
        instances: Vec<InstanceStatResponse>,
    },
    InstanceCreated { id: u128 },
    InstanceStatus(InstanceStatus),
    InstanceList(Vec<InstanceStatResponse>),
    /// Connect to the same host on `port` within `ttl_secs`, send `token`, and wait
    /// for one byte. `size` is the length of a file to be pulled.
    SessionOpened { port: u16, token: Vec<u8>, ttl_secs: u64, size: Option<u64> },
    Error(ApiError),
}

/// An outcome as it is answered.
pub fn respond(result: Result<Response, ApiError>) -> (r: Response)
    ensures
        r == (match result {
            Ok(response) => response,
            Err(e) => Response::Error(e),
        }),
{
    match result {
        Ok(response) => response,
        Err(e) => Response::Error(e),
    }
}

/// What is left to be done for a call once it is judged.
#[derive(Debug, PartialEq, Eq)]
pub enum Todo {
    /// Answer.
    Reply(Response),
    /// Measure the machine, and answer with its figures.
    Sample,
    /// Keep the list of instances, clone the new one, and answer with its identity.
    Created { id: u128 },
    /// Keep the list of instances, and answer that it is done.
    Changed,
    /// Clone anew, and answer that it is done.
    Renew { id: u128 },
    /// Make a group for its processes, start it, and answer.
    Start { id: u128 },
    /// Stop it, wait, and answer.
    Stop { id: u128 },
    /// Kill it, and answer.
    Kill { id: u128 },
    /// Keep the list of instances, end a run that is `left`, delete the files if
    /// asked to, and answer that it is done.
    Removed { id: u128, left: bool, delete_files: bool },
    /// Measure its processes, and answer with everything that is known of it.
    Measure { id: u128 },
    /// Offer a session that is attached to it.
    Attach { id: u128 },
    /// Offer a session with a shell in the directory of its files.
    Shell { id: u128 },
    /// Offer a session that receives a file.
    Receive { dest: String },
    /// Offer a session that sends a file.
    Send { src: String },
}

/// Whether a call was answered with this refusal.
pub open spec fn refused(todo: Todo, refusal: api::Refusal) -> bool {
    todo matches Todo::Reply(Response::Error(e)) && e@ == refusal
}

/// What a call comes to for an instance that may have been refused.
pub open spec fn unless_refused(todo: Todo, refusal: Option<api::Refusal>, otherwise: Todo) -> bool {
    match refusal {
        Some(refusal) => refused(todo, refusal),
        None => todo == otherwise,
    }
}

/// The patch that a call carries.
pub open spec fn patch_of(action: Action) -> manager::InstancePatch {
    match action {
        Action::UpdateInstance {
            id: _,
            name,
            repo_url,
            branch,
            command,
            args,
            env,
            autostart,
            retry_policy,
        } => manager::InstancePatch {
            name,
            repo_url,
            branch,
            command,
            args,
            env,
            autostart,
            retry_policy,
        },
        _ => manager::InstancePatch {
            name: None,
            repo_url: None,
            branch: None,
            command: None,
            args: None,
            env: None,
            autostart: None,
            retry_policy: None,
        },
    }
}

/// The definition that a call carries; the identity is given later.
pub open spec fn template_of(action: Action) -> storage::Setup
    recommends
        action is CreateInstance,
{
    storage::Setup {
        id: 0,
        name: action->CreateInstance_name@,
        repo_url: action->CreateInstance_repo_url@,
        branch: storage::maybe(action->CreateInstance_branch),
        command: action->CreateInstance_command@,
        args: text::views(action->CreateInstance_args@),
        env: action->CreateInstance_env@,
        autostart: action->CreateInstance_autostart,
        retry_policy: action->CreateInstance_retry_policy,
    }
}

/// What a call comes to: how the instances stand after it, and what is left to do.
pub open spec fn handled(
    before: Map<u128, manager::Held>,
    action: Action,
    after: Map<u128, manager::Held>,
    todo: Todo,
) -> bool {
    match action {
        Action::Ping => after == before && todo == Todo::Reply(Response::Pong),
        Action::Stat => after == before && todo == Todo::Sample,
        Action::CreateInstance { name, .. } => match manager::create_refusal(before, name@) {
            Some(refusal) => after == before && refused(todo, refusal),
            None => todo matches Todo::Created { id } && chance::drawn(id) && after
                == manager::created(
                before,
                template_of(action),
                id,
            ),
        },
        Action::UpdateInstance { id, name, .. } => match manager::patch_refusal(before, id, name) {
            Some(refusal) => after == before && refused(todo, refusal),
            None => todo == Todo::Changed && after == before.insert(
                id,
                manager::Held {
                    config: manager::patched(before[id].config, patch_of(action)),
                    ..before[id]
                },
            ),
        },
        Action::UpdateRepo { id } => match manager::update_refusal(before, id) {
            Some(refusal) => after == before && refused(todo, refusal),
            None => todo == (Todo::Renew { id }) && after == before.insert(
                id,
                manager::with_repo(before[id], crate::protocol::instance::Files::Provisioning),
            ),
        },
        Action::RunInstance { id } => after == before && unless_refused(
            todo,
            manager::run_refusal(before, id),
            Todo::Start { id },
        ),
        Action::StopInstance { id } => after == before && unless_refused(
            todo,
            manager::stop_refusal(before, id),
            Todo::Stop { id },
        ),
        Action::KillInstance { id } => after == before && unless_refused(
            todo,
            manager::stop_refusal(before, id),
            Todo::Kill { id },
        ),
        Action::RemoveInstance { id, delete_files } => match manager::remove_refusal(before, id) {
            Some(refusal) => after == before && refused(todo, refusal),
            None => after == before.remove(id) && todo == (Todo::Removed {
                id,
                left: before[id].service is Some,
                delete_files,
            }),
        },
        Action::CheckInstance { id } => after == before && unless_refused(
            todo,
            if before.contains_key(id) {
                None
            } else {
                Some(manager::no_such_instance())
            },
            Todo::Measure { id },
        ),
        Action::ListInstances => after == before && (todo matches Todo::Reply(
            Response::InstanceList(list),
        ) && lists_all(list@, before)),
        Action::OpenTerminal { mode } => after == before && match mode {
            TerminalMode::Attach(id) => unless_refused(
                todo,
                manager::stop_refusal(before, id),
                Todo::Attach { id },
            ),
            TerminalMode::Shell(id) => unless_refused(
                todo,
                if before.contains_key(id) {
                    None
                } else {
                    Some(manager::no_such_instance())
                },
                Todo::Shell { id },
            ),
        },
        Action::UploadFile { dest } => after == before && todo == (Todo::Receive { dest }),
        Action::DownloadFile { src } => after == before && todo == (Todo::Send { src }),
    }
}

/// Whether a list holds each instance once, and nothing else.
pub open spec fn lists_all(list: Seq<InstanceStatResponse>, m: Map<u128, manager::Held>) -> bool {
    &&& forall|i: int|
        0 <= i < list.len() ==> m.contains_key((#[trigger] list[i]).id) && manager::lists(
            list[i],
            m[list[i].id],
        )
    &&& forall|i: int, j: int|
        0 <= i < j < list.len() ==> (#[trigger] list[i]).id != (#[trigger] list[j]).id
    &&& forall|id: u128| #[trigger]
        m.contains_key(id) ==> exists|i: int| 0 <= i < list.len() && (#[trigger] list[i]).id == id
}

proof fn listing_is_complete(all: &InstanceManager, list: Seq<InstanceStatResponse>)
    requires
        all.wf(),
        list.len() == all.instances@.len(),
        forall|i: int|
            0 <= i < list.len() ==> manager::lists(#[trigger] list[i], all.instances@[i]@),
    ensures
        lists_all(list, all@),
{
    let pairs = manager::by_id(all.instances@);
    crate::assoc::as_map_holds(pairs);
    assert forall|i: int| 0 <= i < list.len() implies all@.contains_key((#[trigger] list[i]).id)
        && manager::lists(list[i], all@[list[i].id]) by {
        assert(pairs[i] == (all.instances@[i].config.id, all.instances@[i]@));
        assert(all.instances@[i]@.config.id == all.instances@[i].config.id);
    }
    assert forall|i: int, j: int| 0 <= i < j < list.len() implies (#[trigger] list[i]).id != (
    #[trigger] list[j]).id by {
        assert(pairs[i] == (all.instances@[i].config.id, all.instances@[i]@));
        assert(pairs[j] == (all.instances@[j].config.id, all.instances@[j]@));
        assert(all.instances@[i]@.config.id == all.instances@[i].config.id);
        assert(all.instances@[j]@.config.id == all.instances@[j].config.id);
    }
    assert forall|id: u128| #[trigger] all@.contains_key(id) implies exists|i: int|
        0 <= i < list.len() && (#[trigger] list[i]).id == id by {
        assert(crate::assoc::has_key(pairs, id));
        let k = choose|k: int| 0 <= k < pairs.len() && (#[trigger] pairs[k]).0 == id;
        assert(all.instances@[k]@.config.id == all.instances@[k].config.id);
        assert(list[k].id == id);
    }
}

/// Judges a call: changes the instances as far as that is all there is to it, and
/// says what is left to be done.
pub fn handle(all: &mut InstanceManager, action: Action) -> (r: Todo)
    requires
        old(all).wf(),
    ensures
        final(all).wf(),
        final(all).same_place(old(all)),
        handled(old(all)@, action, final(all)@, r),
{
    match action {
        Action::Ping => Todo::Reply(Response::Pong),
        Action::Stat => Todo::Sample,
        Action::CreateInstance {
            name,
            repo_url,
            branch,
            command,
            args,
            env,
            autostart,
            retry_policy,
        } => {
            let config = InstanceConfig {
                id: 0,
                name,
                repo_url,
                branch,
                command,
                args,
                env,
                autostart,
                retry_policy,
            };
            assert(config@ == template_of(action));
            match all.create(config) {
                Ok(id) => Todo::Created { id },
                Err(e) => Todo::Reply(Response::Error(e)),
            }
        },
        Action::UpdateInstance {
            id,
            name,
            repo_url,
            branch,
            command,
            args,
            env,
            autostart,
            retry_policy,
        } => {
            let patch = InstancePatch {
                name,
                repo_url,
                branch,
                command,
                args,
                env,
                autostart,
                retry_policy,
            };
            match all.update_config(id, patch) {
                Ok(()) => Todo::Changed,
                Err(e) => Todo::Reply(Response::Error(e)),
            }
        },
        Action::UpdateRepo { id } => match all.update_repo(id) {
            Ok(()) => Todo::Renew { id },
            Err(e) => Todo::Reply(Response::Error(e)),
        },
        Action::RunInstance { id } => match all.may_run(id) {
            Ok(()) => Todo::Start { id },
            Err(e) => Todo::Reply(Response::Error(e)),
        },
        Action::StopInstance { id } => match all.stop(id) {
            Ok(()) => Todo::Stop { id },
            Err(e) => Todo::Reply(Response::Error(e)),
        },
        Action::KillInstance { id } => match all.kill(id) {
            Ok(()) => Todo::Kill { id },
            Err(e) => Todo::Reply(Response::Error(e)),
        },
        Action::RemoveInstance { id, delete_files } => match all.remove(id) {
            Ok(left) => Todo::Removed { id, left, delete_files },
            Err(e) => Todo::Reply(Response::Error(e)),
        },
        Action::CheckInstance { id } => match all.check(id, None) {
            Ok(_) => Todo::Measure { id },
            Err(e) => Todo::Reply(Response::Error(e)),
        },
        Action::ListInstances => {
            let list = all.list();
            proof {
                listing_is_complete(all, list@);
            }
            Todo::Reply(Response::InstanceList(list))
        },
        Action::OpenTerminal { mode } => match mode {
            TerminalMode::Attach(id) => match all.attach_handles(id) {
                Ok(()) => Todo::Attach { id },
                Err(e) => Todo::Reply(Response::Error(e)),
            },
            TerminalMode::Shell(id) => match all.check(id, None) {
                Ok(_) => Todo::Shell { id },
                Err(e) => Todo::Reply(Response::Error(e)),
            },
        },
        Action::UploadFile { dest } => Todo::Receive { dest },
        Action::DownloadFile { src } => Todo::Send { src },
    }
}

/// The answer to a call for the machine's figures.
pub fn stat(all: &InstanceManager, sample: &Sample) -> (r: Response)
    requires
        all.wf(),
        sampling::summable(sample.disks@),
        sampling::summable(sample.networks@),
    ensures
        r matches Response::StatResponse {
            total_stg,
            free_stg,
            total_ram,
            free_ram,
            network_recv,
            network_trans,
            cpu_usage_bits,
            instances,
        } && {
            &&& total_stg == sampling::first_sum(sample.disks@, sample.disks@.len() as int)
            &&& free_stg == sampling::second_sum(sample.disks@, sample.disks@.len() as int)
            &&& total_ram == sample.total_ram
            &&& free_ram == sample.free_ram
            &&& network_recv == sampling::first_sum(
                sample.networks@,
                sample.networks@.len() as int,
            )
            &&& network_trans == sampling::second_sum(
                sample.networks@,
                sample.networks@.len() as int,
            )
            &&& cpu_usage_bits == sample.cpu_usage_bits
            &&& lists_all(instances@, all@)
        },
{
    let (total_stg, free_stg): (u64, u64) = sampling::totals(&sample.disks);
    let (network_recv, network_trans): (u64, u64) = sampling::totals(&sample.networks);
    let instances = all.list();
    proof {
        listing_is_complete(all, instances@);
    }
    Response::StatResponse {
        total_stg,
        free_stg,
        total_ram: sample.total_ram,
        free_ram: sample.free_ram,
        network_recv,
        network_trans,
        cpu_usage_bits: sample.cpu_usage_bits,
        instances,
    }
}

/// The answer to a call for an instance, once its processes are measured.
pub fn checked(all: &InstanceManager, id: u128, stats: Option<GroupStats>) -> (r: Response)
    requires
        all.wf(),
    ensures
        if all@.contains_key(id) {
            r matches Response::InstanceStatus(status) && status.config@ == all@[id].config
                && status.repo@ == all@[id].repo && status.run@ == manager::running(all@[id])
                && status.stats == (if manager::busy(all@[id]) {
                stats
            } else {
                None
            })
        } else {
            r matches Response::Error(e) && e@ == manager::no_such_instance()
        },
{
    match all.check(id, stats) {
        Ok(status) => Response::InstanceStatus(status),
        Err(e) => Response::Error(e),
    }
}

/// The answer that offers a session, or says why there is none.
pub fn session_opened(opened: Result<SessionOffer, String>, size: Option<u64>) -> (r: Response)
    ensures
        match opened {
            Ok(offer) => r == (Response::SessionOpened {
                port: offer.port,
                token: offer.token,
                ttl_secs: offer.ttl_secs,
                size,
            }),
            Err(why) => r matches Response::Error(e) && e@ == (api::Refusal {
                code: ErrorCode::Internal,
                msg: "opening session listener: "@ + why@,
            }),
        },
{
    match opened {
        Ok(offer) => Response::SessionOpened {
            port: offer.port,
            token: offer.token,
            ttl_secs: offer.ttl_secs,
            size,
        },
        Err(why) => Response::Error(
            manager::internal_error("opening session listener: ", &why),
        ),
    }
}

/// What is answered where a file to be sent cannot be looked at.
pub fn unreadable(path: &str, why: &str) -> (r: ApiError)
    ensures
        r@ == (api::Refusal {
            code: ErrorCode::NotFound,
            msg: "cannot read '"@ + path@ + "': "@ + why@,
        }),
{
    ApiError { code: ErrorCode::NotFound, msg: text::cat4("cannot read '", path, "': ", why) }
}

/// Nothing that only asks changes anything.
pub proof fn asking_changes_nothing(
    before: Map<u128, manager::Held>,
    action: Action,
    after: Map<u128, manager::Held>,
    todo: Todo,
)
    requires
        handled(before, action, after, todo),
        action is Ping || action is Stat || action is CheckInstance || action is ListInstances
            || action is OpenTerminal || action is UploadFile || action is DownloadFile,
    ensures
        after == before,
{
}

/// A refused call changes nothing, whatever it asked for.
pub proof fn refusals_change_nothing(
    before: Map<u128, manager::Held>,
    action: Action,
    after: Map<u128, manager::Held>,
    todo: Todo,
)
    requires
        handled(before, action, after, todo),
        todo matches Todo::Reply(Response::Error(_)),
    ensures
        after == before,
{
}

/// Calls keep names apart.
pub proof fn calls_keep_names_apart(
    before: Map<u128, manager::Held>,
    action: Action,
    after: Map<u128, manager::Held>,
    todo: Todo,
)
    requires
        handled(before, action, after, todo),
        manager::names_apart(before),
    ensures
        manager::names_apart(after),
{
    match action {
        Action::CreateInstance { name, .. } => {
            if manager::create_refusal(before, name@) is None {
                manager::creating_keeps_names_apart(before, template_of(action), todo->Created_id);
            }
        },
        Action::UpdateInstance { id, name, .. } => {
            if manager::patch_refusal(before, id, name) is None {
                manager::patching_keeps_names_apart(before, id, patch_of(action));
            }
        },
        Action::UpdateRepo { id } => {
            assert forall|a: u128, b: u128| #[trigger]
                after.contains_key(a) && #[trigger] after.contains_key(b) && after[a].config.name
                    == after[b].config.name implies a == b by {
                assert(before.contains_key(a) && before.contains_key(b));
            }
        },
        Action::RemoveInstance { id, .. } => {
            assert forall|a: u128, b: u128| #[trigger]
                after.contains_key(a) && #[trigger] after.contains_key(b) && after[a].config.name
                    == after[b].config.name implies a == b by {
                assert(before.contains_key(a) && before.contains_key(b));
            }
        },
        _ => {},
    }
}

/// A call for something to be done to an instance has just that done to just that
/// instance, where nothing stands against it, and is answered with the refusal where
/// something does: a start starts, a stop stops and a kill kills.
pub proof fn calls_do_what_they_say(
    before: Map<u128, manager::Held>,
    after: Map<u128, manager::Held>,
    todo: Todo,
    id: u128,
    files: bool,
)
    ensures
        handled(before, Action::RunInstance { id }, after, todo) ==> after == before && (
        manager::run_refusal(before, id) is None ==> todo == (Todo::Start { id })) && (
        manager::run_refusal(before, id) matches Some(r) ==> (todo matches Todo::Reply(
            Response::Error(e),
        ) && e@ == r)),
        handled(before, Action::StopInstance { id }, after, todo) ==> after == before && (
        manager::stop_refusal(before, id) is None ==> todo == (Todo::Stop { id })) && (
        manager::stop_refusal(before, id) matches Some(r) ==> (todo matches Todo::Reply(
            Response::Error(e),
        ) && e@ == r)),
        handled(before, Action::KillInstance { id }, after, todo) ==> after == before && (
        manager::stop_refusal(before, id) is None ==> todo == (Todo::Kill { id })) && (
        manager::stop_refusal(before, id) matches Some(r) ==> (todo matches Todo::Reply(
            Response::Error(e),
        ) && e@ == r)),
        handled(before, Action::CheckInstance { id }, after, todo) ==> after == before && (
        before.contains_key(id) ==> todo == (Todo::Measure { id })) && (!before.contains_key(id)
            ==> (todo matches Todo::Reply(Response::Error(e)) && e@.code == ErrorCode::NotFound)),
        handled(before, Action::UpdateRepo { id }, after, todo) && manager::update_refusal(
            before,
            id,
        ) is None ==> todo == (Todo::Renew { id }) && after.dom() =~= before.dom().insert(id)
            && after[id].repo is Provisioning && after[id].config == before[id].config && forall|
            other: u128,
        |
            other != id && #[trigger] before.contains_key(other) ==> after[other] == before[other],
        handled(before, Action::RemoveInstance { id, delete_files: files }, after, todo)
            && manager::remove_refusal(before, id) is None ==> !after.contains_key(id) && (
        todo matches Todo::Removed { id: i, left, delete_files } && i == id && delete_files == files
            && left == (before[id].service is Some)) && forall|other: u128|
            other != id ==> (#[trigger] after.contains_key(other) <==> before.contains_key(other))
                && (before.contains_key(other) ==> after[other] == before[other]),
        handled(before, Action::Ping, after, todo) ==> todo == Todo::Reply(Response::Pong),
        handled(before, Action::Stat, after, todo) ==> todo == Todo::Sample,
{
}

/// A listing names every instance once, with its name, its files and what it is doing.
pub proof fn listings_are_whole(
    before: Map<u128, manager::Held>,
    after: Map<u128, manager::Held>,
    todo: Todo,
    id: u128,
)
    requires
        handled(before, Action::ListInstances, after, todo),
        before.contains_key(id),
    ensures
        todo matches Todo::Reply(Response::InstanceList(list)) && exists|i: int|
            0 <= i < list@.len() && (#[trigger] list@[i]).id == id && before[id].config.name
                == list@[i].name@ && list@[i].repo@ == before[id].repo && list@[i].run@
                == manager::running(before[id]),
{
    if let Todo::Reply(Response::InstanceList(list)) = todo {
        let i = choose|i: int| 0 <= i < list@.len() && (#[trigger] list@[i]).id == id;
        assert(manager::lists(list@[i], before[list@[i].id]));
    }
}

/// A created instance has everything that the call gave for it, and a patch names just
/// what the call named.
pub proof fn calls_carry_their_fields(action: Action)
    ensures
        action matches Action::CreateInstance {
            name,
            repo_url,
            branch,
            command,
            args,
            env,
            autostart,
            retry_policy,
        } ==> {
            let t = template_of(action);
            t.name == name@ && t.repo_url == repo_url@ && t.command == command@ && t.args.len()
                == args@.len() && (forall|i: int|
                0 <= i < args@.len() ==> #[trigger] t.args[i] == args@[i]@) && t.env == env@
                && t.autostart == autostart && t.retry_policy == retry_policy && (
            branch matches Some(b) ==> t.branch == Some(b@)) && (branch is None
                ==> t.branch is None)
        },
        action matches Action::UpdateInstance {
            id,
            name,
            repo_url,
            branch,
            command,
            args,
            env,
            autostart,
            retry_policy,
        } ==> {
            let p = patch_of(action);
            p.name == name && p.repo_url == repo_url && p.branch == branch && p.command == command
                && p.args == args && p.env == env && p.autostart == autostart && p.retry_policy
                == retry_policy
        },
{
}

/// A session is offered for what was asked: attached to a run that there is, a shell on an
/// instance that is known, or a file that goes one way or the other.
pub proof fn sessions_are_for_what_was_asked(
    before: Map<u128, manager::Held>,
    after: Map<u128, manager::Held>,
    todo: Todo,
    id: u128,
    path: String,
)
    ensures
        handled(
            before,
            Action::OpenTerminal { mode: TerminalMode::Attach(id) },
            after,
            todo,
        ) ==> (manager::stop_refusal(before, id) is None <==> todo == (Todo::Attach { id })),
        handled(before, Action::OpenTerminal { mode: TerminalMode::Shell(id) }, after, todo) ==> (
        before.contains_key(id) <==> todo == (Todo::Shell { id })),
        handled(before, Action::UploadFile { dest: path }, after, todo) ==> todo == (Todo::Receive {
            dest: path,
        }),
        handled(before, Action::DownloadFile { src: path }, after, todo) ==> todo == (Todo::Send {
            src: path,
        }),
{
}

} // verus!
