//! The instances of a daemon: which there are, which may run, and what changes them.
use vstd::prelude::*;

use crate::child::storage::{ChildStg, InstanceConfig};
use crate::child::supervise::State;
use crate::child::{storage, supervise};
use crate::path::Platform;
use crate::protocol::api::{ApiError, ErrorCode};
use crate::protocol::instance::{Env, GroupStats, RepoState, RetryPolicy, RunState};
use crate::protocol::{api, instance};
use crate::{assoc, chance, text};

verus! {

/// Everything that is known of one instance.
#[derive(Debug, PartialEq, Eq)]
pub struct InstanceStatus {
    pub config: InstanceConfig,
    pub repo: RepoState,
    pub run: RunState,
    pub stats: Option<GroupStats>,
}

/// The short form in which instances are listed.
#[derive(Debug, PartialEq, Eq)]
pub struct InstanceStatResponse {
    pub id: u128,
    pub name: String,
    pub repo: RepoState,
    pub run: RunState,
}

/// An instance with how it stands: its files, and the last word of its last run.
#[derive(Debug, PartialEq, Eq)]
pub struct ManagedInstance {
    pub config: InstanceConfig,
    pub repo: RepoState,
    /// Where it was run since the daemon came up: how that run stands.
    pub service: Option<State>,
}

/// An instance with how it stands, as texts.
#[verifier::ext_equal]
pub struct Held {
    pub config: storage::Setup,
    pub repo: instance::Files,
    pub service: Option<supervise::Condition>,
}

impl View for ManagedInstance {
    type V = Held;

    open spec fn view(&self) -> Held {
        Held {
            config: self.config@,
            repo: self.repo@,
            service: match self.service {
                Some(s) => Some(s@),
                None => None,
            },
        }
    }
}

/// Whether the instance is doing something right now.
pub open spec fn busy(held: Held) -> bool {
    held.service matches Some(c) && !supervise::terminal(c)
}

/// How the instance is told to be doing.
pub open spec fn running(held: Held) -> instance::Activity {
    match held.service {
        Some(c) => supervise::reported(c),
        None => instance::Activity::NotRunning,
    }
}

impl ManagedInstance {
    pub fn run_state(&self) -> (r: RunState)
        ensures
            r@ == running(self@),
    {
        match &self.service {
            Some(state) => state.report(),
            None => RunState::NotRunning,
        }
    }

    pub fn is_active(&self) -> (r: bool)
        ensures
            r == busy(self@),
    {
        match &self.service {
            Some(state) => !state.is_terminal(),
            None => false,
        }
    }
}

/// What is to be changed of an instance; `None` leaves a field as it is.
#[derive(Debug, PartialEq, Eq)]
pub struct InstancePatch {
    pub name: Option<String>,
    pub repo_url: Option<String>,
    pub branch: Option<Option<String>>,
    pub command: Option<String>,
    pub args: Option<Vec<String>>,
    pub env: Option<Env>,
    pub autostart: Option<bool>,
    pub retry_policy: Option<RetryPolicy>,
}

/// A definition with a patch applied.
pub open spec fn patched(c: storage::Setup, p: InstancePatch) -> storage::Setup {
    storage::Setup {
        id: c.id,
        name: match p.name {
            Some(v) => v@,
            None => c.name,
        },
        repo_url: match p.repo_url {
            Some(v) => v@,
            None => c.repo_url,
        },
        branch: match p.branch {
            Some(v) => storage::maybe(v),
            None => c.branch,
        },
        command: match p.command {
            Some(v) => v@,
            None => c.command,
        },
        args: match p.args {
            Some(v) => text::views(v@),
            None => c.args,
        },
        env: match p.env {
            Some(v) => v@,
            None => c.env,
        },
        autostart: match p.autostart {
            Some(v) => v,
            None => c.autostart,
        },
        retry_policy: match p.retry_policy {
            Some(v) => v,
            None => c.retry_policy,
        },
    }
}

/// Whether an instance other than `except` has this name.
pub open spec fn name_taken(
    m: Map<u128, Held>,
    name: Seq<char>,
    except: Option<u128>,
) -> bool {
    exists|id: u128|
        #[trigger] m.contains_key(id) && Some(id) != except && m[id].config.name == name
}

pub open spec fn no_such_instance() -> api::Refusal {
    api::Refusal { code: ErrorCode::NotFound, msg: "no such instance"@ }
}

pub open spec fn name_conflict(name: Seq<char>) -> api::Refusal {
    api::Refusal {
        code: ErrorCode::Conflict,
        msg: "an instance named '"@ + name + "' already exists"@,
    }
}

pub open spec fn not_running() -> api::Refusal {
    api::Refusal { code: ErrorCode::NotRunning, msg: "instance is not running"@ }
}

/// Why an instance of this name cannot be created.
pub open spec fn create_refusal(m: Map<u128, Held>, name: Seq<char>) -> Option<api::Refusal> {
    if name_taken(m, name, None) {
        Some(name_conflict(name))
    } else {
        None
    }
}

/// The instances with one more, whose files are being brought in.
pub open spec fn created(m: Map<u128, Held>, template: storage::Setup, id: u128) -> Map<
    u128,
    Held,
> {
    m.insert(
        id,
        Held {
            config: storage::Setup { id, ..template },
            repo: instance::Files::Provisioning,
            service: None,
        },
    )
}

/// Why a patch cannot be applied.
pub open spec fn patch_refusal(m: Map<u128, Held>, id: u128, name: Option<String>) -> Option<
    api::Refusal,
> {
    if name matches Some(n) && name_taken(m, n@, Some(id)) {
        Some(name_conflict(name->0@))
    } else if !m.contains_key(id) {
        Some(no_such_instance())
    } else {
        None
    }
}

/// Why an instance's files cannot be brought in again.
pub open spec fn update_refusal(m: Map<u128, Held>, id: u128) -> Option<api::Refusal> {
    if !m.contains_key(id) {
        Some(no_such_instance())
    } else if busy(m[id]) {
        Some(
            api::Refusal {
                code: ErrorCode::Conflict,
                msg: "instance is running; stop it before updating the repo"@,
            },
        )
    } else if m[id].repo is Provisioning {
        Some(
            api::Refusal {
                code: ErrorCode::Provisioning,
                msg: "a clone/update is already in progress"@,
            },
        )
    } else {
        None
    }
}

/// Why an instance cannot be started.
pub open spec fn run_refusal(m: Map<u128, Held>, id: u128) -> Option<api::Refusal> {
    if !m.contains_key(id) {
        Some(no_such_instance())
    } else {
        match m[id].repo {
            instance::Files::Provisioning => Some(
                api::Refusal {
                    code: ErrorCode::Provisioning,
                    msg: "repo clone still in progress"@,
                },
            ),
            instance::Files::CloneFailed(error) => Some(
                api::Refusal {
                    code: ErrorCode::GitError,
                    msg: "repo is not available: "@ + error,
                },
            ),
            instance::Files::Ready => if busy(m[id]) {
                Some(
                    api::Refusal {
                        code: ErrorCode::AlreadyRunning,
                        msg: "instance is already running"@,
                    },
                )
            } else {
                None
            },
        }
    }
}

/// Why an instance cannot be stopped, killed or attached to.
pub open spec fn stop_refusal(m: Map<u128, Held>, id: u128) -> Option<api::Refusal> {
    if !m.contains_key(id) {
        Some(no_such_instance())
    } else if !busy(m[id]) {
        Some(not_running())
    } else {
        None
    }
}

/// Why an instance cannot be removed.
pub open spec fn remove_refusal(m: Map<u128, Held>, id: u128) -> Option<api::Refusal> {
    if !m.contains_key(id) {
        Some(no_such_instance())
    } else if m[id].repo is Provisioning {
        Some(
            api::Refusal {
                code: ErrorCode::Provisioning,
                msg: "wait for the running clone/update to finish first"@,
            },
        )
    } else {
        None
    }
}

/// What an instance's files are taken for when the daemon comes up.
pub open spec fn found(present: bool) -> instance::Files {
    if present {
        instance::Files::Ready
    } else {
        instance::Files::CloneFailed("repo directory missing; run UpdateRepo"@)
    }
}

/// An instance as the daemon comes up with it.
#[derive(Debug, PartialEq, Eq)]
pub struct Loaded {
    pub config: InstanceConfig,
    /// Whether the directory of its files is there.
    pub present: bool,
}

/// The instances that the first `n` definitions make; of two with one identity
/// the later one stays.
pub open spec fn loaded(all: Seq<Loaded>, n: int) -> Map<u128, Held>
    decreases n,
{
    if n <= 0 {
        Map::empty()
    } else {
        loaded(all, n - 1).insert(
            all[n - 1].config@.id,
            Held { config: all[n - 1].config@, repo: found(all[n - 1].present), service: None },
        )
    }
}

/// The same instance with other files.
pub open spec fn with_repo(held: Held, repo: instance::Files) -> Held {
    Held { config: held.config, repo, service: held.service }
}

/// The same instance with another run.
pub open spec fn with_service(held: Held, service: Option<supervise::Condition>) -> Held {
    Held { config: held.config, repo: held.repo, service }
}

/// Every instance without its run.
pub open spec fn all_stopped(m: Map<u128, Held>) -> Map<u128, Held> {
    m.map_values(|held: Held| with_service(held, None))
}

/// The instances under their identities.
pub open spec fn by_id(all: Seq<ManagedInstance>) -> Seq<(u128, Held)> {
    all.map_values(|mi: ManagedInstance| (mi.config.id, mi@))
}

/// What a listing says of an instance.
pub open spec fn lists(entry: InstanceStatResponse, held: Held) -> bool {
    &&& entry.id == held.config.id
    &&& entry.name@ == held.config.name
    &&& entry.repo@ == held.repo
    &&& entry.run@ == running(held)
}

/// What is to be cloned, and where to.
#[derive(Debug, PartialEq, Eq)]
pub struct CloneOrder {
    pub url: String,
    pub branch: Option<String>,
    pub repo_dir: String,
}

/// The instances of a daemon.
#[derive(Debug, PartialEq, Eq)]
pub struct InstanceManager {
    pub stg: ChildStg,
    pub platform: Platform,
    pub instances: Vec<ManagedInstance>,
}

impl View for InstanceManager {
    type V = Map<u128, Held>;

    open spec fn view(&self) -> Map<u128, Held> {
        assoc::as_map(by_id(self.instances@))
    }
}

impl InstanceManager {
    /// No identity stands twice.
    pub open spec fn wf(&self) -> bool {
        assoc::distinct(by_id(self.instances@))
    }

    /// Only the instances differ.
    pub open spec fn same_place(&self, other: &InstanceManager) -> bool {
        self.stg == other.stg && self.platform == other.platform
    }

    fn find(&self, id: u128) -> (r: Option<usize>)
        requires
            self.wf(),
        ensures
            match r {
                Some(i) => {
                    &&& i < self.instances@.len()
                    &&& self.instances@[i as int].config.id == id
                    &&& self@.contains_key(id)
                    &&& self@[id] == self.instances@[i as int]@
                },
                None => !self@.contains_key(id) && forall|i: int|
                    0 <= i < self.instances@.len() ==> (#[trigger] self.instances@[i]).config.id
                        != id,
            },
    {
        let ghost pairs = by_id(self.instances@);
        proof {
            assoc::as_map_holds(pairs);
        }
        let mut i: usize = 0;
        while i < self.instances.len()
            invariant
                i <= self.instances.len(),
                pairs == by_id(self.instances@),
                self@ == assoc::as_map(pairs),
                forall|k: int|
                    0 <= k < pairs.len() ==> assoc::as_map(pairs).contains_key(
                        (#[trigger] pairs[k]).0,
                    ) && assoc::as_map(pairs)[pairs[k].0] == pairs[k].1,
                forall|k: int|
                    0 <= k < i ==> (#[trigger] self.instances@[k]).config.id != id,
            decreases self.instances.len() - i,
        {
            if self.instances[i].config.id == id {
                assert(pairs[i as int] == (id, self.instances@[i as int]@));
                return Some(i);
            }
            i = i + 1;
        }
        assert(!self@.contains_key(id)) by {
            if self@.contains_key(id) {
                assert(assoc::has_key(pairs, id));
                let k = choose|k: int| 0 <= k < pairs.len() && (#[trigger] pairs[k]).0 == id;
                assert(self.instances@[k].config.id == id);
            }
        }
        None
    }

    /// Puts an instance in the place of the one at `i`, which has the same identity.
    fn put(&mut self, i: usize, mi: ManagedInstance)
        requires
            old(self).wf(),
            i < old(self).instances@.len(),
            old(self).instances@[i as int].config.id == mi.config.id,
        ensures
            final(self).wf(),
            final(self).same_place(old(self)),
            final(self)@ == old(self)@.insert(mi.config.id, mi@),
            final(self).instances@ == old(self).instances@.update(i as int, mi),
    {
        let ghost pairs = by_id(self.instances@);
        proof {
            assoc::update_inserts(pairs, i as int, mi@);
        }
        let ghost wanted = pairs.update(i as int, (mi.config.id, mi@));
        self.instances.set(i, mi);
        assert(by_id(self.instances@) =~= wanted);
    }

    /// Adds an instance, in place of one with the same identity.
    fn insert(&mut self, mi: ManagedInstance)
        requires
            old(self).wf(),
        ensures
            final(self).wf(),
            final(self).same_place(old(self)),
            final(self)@ == old(self)@.insert(mi.config.id, mi@),
    {
        match self.find(mi.config.id) {
            Some(i) => self.put(i, mi),
            None => {
                let ghost pairs = by_id(self.instances@);
                proof {
                    assert forall|k: int| 0 <= k < pairs.len() implies (#[trigger] pairs[k]).0
                        != mi.config.id by {
                        assert(self.instances@[k].config.id != mi.config.id);
                    }
                    assoc::push_inserts(pairs, mi.config.id, mi@);
                }
                let ghost wanted = pairs.push((mi.config.id, mi@));
                self.instances.push(mi);
                assert(by_id(self.instances@) =~= wanted);
            },
        }
    }

    fn is_name_taken(&self, name: &str, except: Option<u128>) -> (r: bool)
        requires
            self.wf(),
        ensures
            r == name_taken(self@, name@, except),
    {
        let ghost pairs = by_id(self.instances@);
        proof {
            assoc::as_map_holds(pairs);
        }
        let mut i: usize = 0;
        while i < self.instances.len()
            invariant
                i <= self.instances.len(),
                pairs == by_id(self.instances@),
                self@ == assoc::as_map(pairs),
                forall|k: int|
                    0 <= k < pairs.len() ==> assoc::as_map(pairs).contains_key(
                        (#[trigger] pairs[k]).0,
                    ) && assoc::as_map(pairs)[pairs[k].0] == pairs[k].1,
                forall|k: int|
                    0 <= k < i ==> Some((#[trigger] self.instances@[k]).config.id) == except
                        || self.instances@[k].config.name@ != name@,
            decreases self.instances.len() - i,
        {
            let mi = &self.instances[i];
            let excepted: bool = match except {
                Some(id) => mi.config.id == id,
                None => false,
            };
            if !excepted && text::same(&mi.config.name, name) {
                assert(pairs[i as int] == (mi.config.id, mi@));
                assert(self@.contains_key(mi.config.id));
                return true;
            }
            i = i + 1;
        }
        assert(!name_taken(self@, name@, except)) by {
            if name_taken(self@, name@, except) {
                let id = choose|id: u128|
                    #[trigger] self@.contains_key(id) && Some(id) != except
                        && self@[id].config.name == name@;
                assert(assoc::has_key(pairs, id));
                let k = choose|k: int| 0 <= k < pairs.len() && (#[trigger] pairs[k]).0 == id;
                assert(pairs[k] == (self.instances@[k].config.id, self.instances@[k]@));
                assert(self.instances@[k].config.name@ == name@);
            }
        }
        false
    }

    /// The instances that were kept, with what is there of their files.
    pub fn new(stg: ChildStg, configs: Vec<Loaded>, platform: Platform) -> (r: InstanceManager)
        ensures
            r.wf(),
            r.stg == stg,
            r.platform == platform,
            r@ == loaded(configs@, configs@.len() as int),
    {
        let mut all = InstanceManager { stg, platform, instances: Vec::new() };
        let mut i: usize = 0;
        assert(all@ =~= loaded(configs@, 0));
        while i < configs.len()
            invariant
                i <= configs.len(),
                all.wf(),
                all.stg == stg,
                all.platform == platform,
                all@ == loaded(configs@, i as int),
            decreases configs.len() - i,
        {
            let repo: RepoState = if configs[i].present {
                RepoState::Ready
            } else {
                RepoState::CloneFailed("repo directory missing; run UpdateRepo".to_string())
            };
            let mi = ManagedInstance { config: configs[i].config.copy(), repo, service: None };
            assert(mi@.config.id == mi.config.id);
            all.insert(mi);
            i = i + 1;
        }
        all
    }

    /// The instances that are to be started when the daemon comes up.
    pub fn autostart(&self) -> (r: Vec<u128>)
        requires
            self.wf(),
        ensures
            r@.no_duplicates(),
            forall|id: u128|
                #[trigger] r@.contains(id) <==> self@.contains_key(id)
                    && self@[id].config.autostart && self@[id].repo is Ready,
    {
        let ghost pairs = by_id(self.instances@);
        proof {
            assoc::as_map_holds(pairs);
        }
        let mut out: Vec<u128> = Vec::new();
        let mut i: usize = 0;
        while i < self.instances.len()
            invariant
                i <= self.instances.len(),
                self.wf(),
                pairs == by_id(self.instances@),
                out@.no_duplicates(),
                forall|id: u128| #[trigger] out@.contains(id) <==> starts_among(pairs, id, i as int),
            decreases self.instances.len() - i,
        {
            let mi = &self.instances[i];
            assert(pairs[i as int] == (mi.config.id, mi@));
            let ghost before = out@;
            let due: bool = mi.config.autostart && matches!(mi.repo, RepoState::Ready);
            if due {
                proof {
                    assert(!before.contains(mi.config.id)) by {
                        if before.contains(mi.config.id) {
                            assert(starts_among(pairs, mi.config.id, i as int));
                        }
                    }
                }
                out.push(mi.config.id);
            }
            proof {
                assert forall|id: u128| #[trigger] out@.contains(id) <==> starts_among(
                    pairs,
                    id,
                    i + 1,
                ) by {
                    if out@.contains(id) {
                        let k = choose|k: int| 0 <= k < out@.len() && out@[k] == id;
                        if k < before.len() {
                            assert(before[k] == id);
                            assert(before.contains(id));
                        } else {
                            assert(starts(pairs[i as int]) && pairs[i as int].0 == id);
                        }
                    }
                    if starts_among(pairs, id, i + 1) {
                        let k = choose|k: int|
                            0 <= k < i + 1 && (#[trigger] pairs[k]).0 == id && starts(pairs[k]);
                        if k < i {
                            assert(before.contains(id));
                            let j = choose|j: int| 0 <= j < before.len() && before[j] == id;
                            assert(out@[j] == id);
                        } else {
                            assert(out@[out@.len() - 1] == id);
                        }
                    }
                }
            }
            i = i + 1;
        }
        proof {
            assert forall|id: u128| #[trigger] out@.contains(id) <==> self@.contains_key(id)
                && self@[id].config.autostart && self@[id].repo is Ready by {
                if self@.contains_key(id) {
                    assert(assoc::has_key(pairs, id));
                    let k = choose|k: int| 0 <= k < pairs.len() && (#[trigger] pairs[k]).0 == id;
                    assert(self@[id] == pairs[k].1);
                }
                if starts_among(pairs, id, pairs.len() as int) {
                    let k = choose|k: int|
                        0 <= k < pairs.len() && (#[trigger] pairs[k]).0 == id && starts(pairs[k]);
                    assert(self@[id] == pairs[k].1);
                }
            }
        }
        out
    }

    /// The definitions as they are kept on disk.
    pub fn configs(&self) -> (r: Vec<InstanceConfig>)
        ensures
            r@.len() == self.instances@.len(),
            forall|i: int|
                0 <= i < r@.len() ==> (#[trigger] r@[i])@ == self.instances@[i].config@,
    {
        let mut out: Vec<InstanceConfig> = Vec::new();
        let mut i: usize = 0;
        while i < self.instances.len()
            invariant
                i <= self.instances.len(),
                out@.len() == i,
                forall|k: int|
                    0 <= k < i ==> (#[trigger] out@[k])@ == self.instances@[k].config@,
            decreases self.instances.len() - i,
        {
            out.push(self.instances[i].config.copy());
            i = i + 1;
        }
        out
    }

    /// Adds an instance under a random identity; its files are then brought in.
    pub fn create(&mut self, config_template: InstanceConfig) -> (r: Result<u128, ApiError>)
        requires
            old(self).wf(),
        ensures
            final(self).wf(),
            final(self).same_place(old(self)),
            match create_refusal(old(self)@, config_template.name@) {
                Some(refusal) => r matches Err(e) && e@ == refusal && final(self)@ == old(self)@,
                None => r matches Ok(id) && chance::drawn(id) && final(self)@ == created(
                    old(self)@,
                    config_template@,
                    id,
                ),
            },
    {
        self.create_as(config_template, chance::number())
    }

    /// Adds an instance under a given identity; its files are then brought in.
    pub fn create_as(&mut self, config_template: InstanceConfig, id: u128) -> (r: Result<
        u128,
        ApiError,
    >)
        requires
            old(self).wf(),
        ensures
            final(self).wf(),
            final(self).same_place(old(self)),
            match create_refusal(old(self)@, config_template.name@) {
                Some(refusal) => r matches Err(e) && e@ == refusal && final(self)@ == old(self)@,
                None => r == Ok::<u128, ApiError>(id) && final(self)@ == created(
                    old(self)@,
                    config_template@,
                    id,
                ),
            },
    {
        if self.is_name_taken(&config_template.name, None) {
            return Err(conflict_error(&config_template.name));
        }
        let mut config = config_template;
        config.id = id;
        assert(config@ == storage::Setup { id, ..config_template@ });
        self.insert(ManagedInstance { config, repo: RepoState::Provisioning, service: None });
        Ok(id)
    }

    /// What is to be cloned for an instance, if it is still there.
    pub fn clone_order(&self, id: u128) -> (r: Option<CloneOrder>)
        requires
            self.wf(),
        ensures
            match r {
                Some(order) => {
                    &&& self@.contains_key(id)
                    &&& order.url@ == self@[id].config.repo_url
                    &&& storage::maybe(order.branch) == self@[id].config.branch
                    &&& order.repo_dir@ == storage::repo_in(
                        self.stg.storage_path@,
                        id,
                        self.platform,
                    )
                },
                None => !self@.contains_key(id),
            },
    {
        match self.find(id) {
            Some(i) => {
                let config = &self.instances[i].config;
                let branch: Option<String> = match &config.branch {
                    Some(b) => Some(b.clone()),
                    None => None,
                };
                Some(
                    CloneOrder {
                        url: config.repo_url.clone(),
                        branch,
                        repo_dir: self.stg.repo_dir(id, self.platform),
                    },
                )
            },
            None => None,
        }
    }

    fn set_repo(&mut self, i: usize, repo: RepoState)
        requires
            old(self).wf(),
            i < old(self).instances@.len(),
            old(self)@[old(self).instances@[i as int].config.id] == old(self).instances@[i as int]@,
        ensures
            final(self).wf(),
            final(self).same_place(old(self)),
            ({
                let id = old(self).instances@[i as int].config.id;
                final(self)@ == old(self)@.insert(id, with_repo(old(self)@[id], repo@))
            }),
    {
        let config = self.instances[i].config.copy();
        let service: Option<State> = match &self.instances[i].service {
            Some(state) => Some(state.copy()),
            None => None,
        };
        let mi = ManagedInstance { config, repo, service };
        assert(mi@.config.id == mi.config.id);
        assert(self.instances@[i as int]@.config.id == self.instances@[i as int].config.id);
        self.put(i, mi);
    }

    fn set_service(&mut self, i: usize, service: Option<State>)
        requires
            old(self).wf(),
            i < old(self).instances@.len(),
            old(self)@[old(self).instances@[i as int].config.id] == old(self).instances@[i as int]@,
        ensures
            final(self).wf(),
            final(self).same_place(old(self)),
            ({
                let id = old(self).instances@[i as int].config.id;
                final(self)@ == old(self)@.insert(
                    id,
                    with_service(
                        old(self)@[id],
                        match service {
                            Some(s) => Some(s@),
                            None => None,
                        },
                    ),
                )
            }),
    {
        let config = self.instances[i].config.copy();
        let repo = self.instances[i].repo.copy();
        let mi = ManagedInstance { config, repo, service };
        assert(mi@.config.id == mi.config.id);
        assert(self.instances@[i as int]@.config.id == self.instances@[i as int].config.id);
        self.put(i, mi);
    }

    /// Notes how bringing an instance's files in went. An instance that is gone by
    /// then stays gone.
    pub fn clone_finished(&mut self, id: u128, result: Result<(), String>)
        requires
            old(self).wf(),
        ensures
            final(self).wf(),
            final(self).same_place(old(self)),
            final(self)@ == if old(self)@.contains_key(id) {
                old(self)@.insert(
                    id,
                    with_repo(
                        old(self)@[id],
                        match result {
                            Ok(_) => instance::Files::Ready,
                            Err(e) => instance::Files::CloneFailed(e@),
                        },
                    ),
                )
            } else {
                old(self)@
            },
    {
        if let Some(i) = self.find(id) {
            let repo: RepoState = match result {
                Ok(()) => RepoState::Ready,
                Err(e) => RepoState::CloneFailed(e),
            };
            self.set_repo(i, repo);
        }
    }

    /// Changes an instance's definition.
    pub fn update_config(&mut self, id: u128, patch: InstancePatch) -> (r: Result<(), ApiError>)
        requires
            old(self).wf(),
        ensures
            final(self).wf(),
            final(self).same_place(old(self)),
            match patch_refusal(old(self)@, id, patch.name) {
                Some(refusal) => r matches Err(e) && e@ == refusal && final(self)@ == old(self)@,
                None => r is Ok && final(self)@ == old(self)@.insert(
                    id,
                    Held { config: patched(old(self)@[id].config, patch), ..old(self)@[id] },
                ),
            },
    {
        if let Some(name) = &patch.name {
            if self.is_name_taken(name, Some(id)) {
                return Err(conflict_error(name));
            }
        }
        let i: usize = match self.find(id) {
            Some(i) => i,
            None => {
                return Err(missing_error());
            },
        };
        let mut c = self.instances[i].config.copy();
        assert(c@.id == c.id);
        assert(self.instances@[i as int]@.config.id == self.instances@[i as int].config.id);
        if let Some(v) = patch.name {
            c.name = v;
        }
        if let Some(v) = patch.repo_url {
            c.repo_url = v;
        }
        if let Some(v) = patch.branch {
            c.branch = v;
        }
        if let Some(v) = patch.command {
            c.command = v;
        }
        if let Some(v) = patch.args {
            c.args = v;
        }
        if let Some(v) = patch.env {
            c.env = v;
        }
        if let Some(v) = patch.autostart {
            c.autostart = v;
        }
        if let Some(v) = patch.retry_policy {
            c.retry_policy = v;
        }
        assert(c@ == patched(self.instances@[i as int].config@, patch));
        let repo = self.instances[i].repo.copy();
        let service: Option<State> = match &self.instances[i].service {
            Some(state) => Some(state.copy()),
            None => None,
        };
        self.put(i, ManagedInstance { config: c, repo, service });
        Ok(())
    }

    /// Has an instance's files brought in again. It must not be running meanwhile.
    pub fn update_repo(&mut self, id: u128) -> (r: Result<(), ApiError>)
        requires
            old(self).wf(),
        ensures
            final(self).wf(),
            final(self).same_place(old(self)),
            match update_refusal(old(self)@, id) {
                Some(refusal) => r matches Err(e) && e@ == refusal && final(self)@ == old(self)@,
                None => r is Ok && final(self)@ == old(self)@.insert(
                    id,
                    with_repo(old(self)@[id], instance::Files::Provisioning),
                ),
            },
    {
        let i: usize = match self.find(id) {
            Some(i) => i,
            None => {
                return Err(missing_error());
            },
        };
        if self.instances[i].is_active() {
            return Err(
                ApiError::new(
                    ErrorCode::Conflict,
                    "instance is running; stop it before updating the repo",
                ),
            );
        }
        if matches!(self.instances[i].repo, RepoState::Provisioning) {
            return Err(
                ApiError::new(ErrorCode::Provisioning, "a clone/update is already in progress"),
            );
        }
        self.set_repo(i, RepoState::Provisioning);
        Ok(())
    }

    /// Whether an instance may be started now.
    pub fn may_run(&self, id: u128) -> (r: Result<(), ApiError>)
        requires
            self.wf(),
        ensures
            match run_refusal(self@, id) {
                Some(refusal) => r matches Err(e) && e@ == refusal,
                None => r is Ok,
            },
    {
        let i: usize = match self.find(id) {
            Some(i) => i,
            None => {
                return Err(missing_error());
            },
        };
        match &self.instances[i].repo {
            RepoState::Provisioning => {
                return Err(
                    ApiError::new(ErrorCode::Provisioning, "repo clone still in progress"),
                );
            },
            RepoState::CloneFailed(e) => {
                return Err(
                    ApiError {
                        code: ErrorCode::GitError,
                        msg: text::cat2("repo is not available: ", e),
                    },
                );
            },
            RepoState::Ready => {},
        }
        if self.instances[i].is_active() {
            return Err(ApiError::new(ErrorCode::AlreadyRunning, "instance is already running"));
        }
        Ok(())
    }

    /// Starts an instance. `group` says whether a group for its processes could be
    /// made, which is asked for only where the instance may be started.
    pub fn run(&mut self, id: u128, group: Result<(), String>) -> (r: Result<(), ApiError>)
        requires
            old(self).wf(),
        ensures
            final(self).wf(),
            final(self).same_place(old(self)),
            match run_refusal(old(self)@, id) {
                Some(refusal) => r matches Err(e) && e@ == refusal && final(self)@ == old(self)@,
                None => match group {
                    Err(why) => {
                        &&& r matches Err(e)
                        &&& e@ == (api::Refusal {
                            code: ErrorCode::Internal,
                            msg: "creating process group: "@ + why@,
                        })
                        &&& final(self)@ == old(self)@
                    },
                    Ok(_) => r is Ok && final(self)@ == old(self)@.insert(
                        id,
                        with_service(old(self)@[id], Some(supervise::Condition::Starting)),
                    ),
                },
            },
    {
        self.may_run(id)?;
        if let Err(why) = group {
            return Err(internal_error("creating process group: ", &why));
        }
        if let Some(i) = self.find(id) {
            self.set_service(i, Some(State::Starting));
        }
        Ok(())
    }

    /// Notes what the supervision of a running instance tells.
    pub fn observe(&mut self, id: u128, state: State)
        requires
            old(self).wf(),
        ensures
            final(self).wf(),
            final(self).same_place(old(self)),
            final(self)@ == if old(self)@.contains_key(id) && old(self)@[id].service is Some {
                old(self)@.insert(id, with_service(old(self)@[id], Some(state@)))
            } else {
                old(self)@
            },
    {
        if let Some(i) = self.find(id) {
            if self.instances[i].service.is_some() {
                self.set_service(i, Some(state));
            }
        }
    }

    /// Whether an instance can be stopped now.
    pub fn stop(&self, id: u128) -> (r: Result<(), ApiError>)
        requires
            self.wf(),
        ensures
            match stop_refusal(self@, id) {
                Some(refusal) => r matches Err(e) && e@ == refusal,
                None => r is Ok,
            },
    {
        match self.find(id) {
            None => Err(missing_error()),
            Some(i) => if self.instances[i].is_active() {
                Ok(())
            } else {
                Err(ApiError::new(ErrorCode::NotRunning, "instance is not running"))
            },
        }
    }

    /// Whether an instance can be killed now; the same as for stopping it.
    pub fn kill(&self, id: u128) -> (r: Result<(), ApiError>)
        requires
            self.wf(),
        ensures
            match stop_refusal(self@, id) {
                Some(refusal) => r matches Err(e) && e@ == refusal,
                None => r is Ok,
            },
    {
        self.stop(id)
    }

    /// Whether an instance can be attached to now; the same as for stopping it.
    pub fn attach_handles(&self, id: u128) -> (r: Result<(), ApiError>)
        requires
            self.wf(),
        ensures
            match stop_refusal(self@, id) {
                Some(refusal) => r matches Err(e) && e@ == refusal,
                None => r is Ok,
            },
    {
        self.stop(id)
    }

    /// Takes an instance out. Says whether a run of it is left to be ended.
    pub fn remove(&mut self, id: u128) -> (r: Result<bool, ApiError>)
        requires
            old(self).wf(),
        ensures
            final(self).wf(),
            final(self).same_place(old(self)),
            match remove_refusal(old(self)@, id) {
                Some(refusal) => r matches Err(e) && e@ == refusal && final(self)@ == old(self)@,
                None => r == Ok::<bool, ApiError>(old(self)@[id].service is Some) && final(self)@
                    == old(self)@.remove(id),
            },
    {
        let i: usize = match self.find(id) {
            Some(i) => i,
            None => {
                return Err(missing_error());
            },
        };
        if matches!(self.instances[i].repo, RepoState::Provisioning) {
            return Err(
                ApiError::new(
                    ErrorCode::Provisioning,
                    "wait for the running clone/update to finish first",
                ),
            );
        }
        let left: bool = self.instances[i].service.is_some();
        let ghost pairs = by_id(self.instances@);
        proof {
            assoc::remove_removes(pairs, i as int);
        }
        self.instances.remove(i);
        assert(by_id(self.instances@) =~= pairs.remove(i as int));
        Ok(left)
    }

    /// Everything that is known of an instance. `stats` is what its processes have
    /// used, which only an active one is asked for.
    pub fn check(&self, id: u128, stats: Option<GroupStats>) -> (r: Result<
        InstanceStatus,
        ApiError,
    >)
        requires
            self.wf(),
        ensures
            match r {
                Ok(status) => {
                    &&& self@.contains_key(id)
                    &&& status.config@ == self@[id].config
                    &&& status.repo@ == self@[id].repo
                    &&& status.run@ == running(self@[id])
                    &&& status.stats == if busy(self@[id]) {
                        stats
                    } else {
                        None
                    }
                },
                Err(e) => !self@.contains_key(id) && e@ == no_such_instance(),
            },
    {
        match self.find(id) {
            None => Err(missing_error()),
            Some(i) => {
                let mi = &self.instances[i];
                Ok(
                    InstanceStatus {
                        config: mi.config.copy(),
                        repo: mi.repo.copy(),
                        run: mi.run_state(),
                        stats: if mi.is_active() {
                            stats
                        } else {
                            None
                        },
                    },
                )
            },
        }
    }

    /// All instances in their short form.
    pub fn list(&self) -> (r: Vec<InstanceStatResponse>)
        ensures
            r@.len() == self.instances@.len(),
            forall|i: int|
                0 <= i < r@.len() ==> lists(#[trigger] r@[i], self.instances@[i]@),
    {
        let mut out: Vec<InstanceStatResponse> = Vec::new();
        let mut i: usize = 0;
        while i < self.instances.len()
            invariant
                i <= self.instances.len(),
                out@.len() == i,
                forall|k: int| 0 <= k < i ==> lists(#[trigger] out@[k], self.instances@[k]@),
            decreases self.instances.len() - i,
        {
            let mi = &self.instances[i];
            out.push(
                InstanceStatResponse {
                    id: mi.config.id,
                    name: mi.config.name.clone(),
                    repo: mi.repo.copy(),
                    run: mi.run_state(),
                },
            );
            i = i + 1;
        }
        out
    }

    /// Where an instance's files are. `present` says whether that directory exists.
    pub fn repo_dir_of(&self, id: u128, present: bool) -> (r: Result<String, ApiError>)
        requires
            self.wf(),
        ensures
            match r {
                Ok(dir) => {
                    &&& self@.contains_key(id) && present
                    &&& dir@ == storage::repo_in(self.stg.storage_path@, id, self.platform)
                },
                Err(e) => if !self@.contains_key(id) {
                    e@ == no_such_instance()
                } else {
                    !present && e@ == (api::Refusal {
                        code: ErrorCode::GitError,
                        msg: "instance repo directory does not exist yet"@,
                    })
                },
            },
    {
        if self.find(id).is_none() {
            return Err(missing_error());
        }
        if !present {
            return Err(
                ApiError::new(ErrorCode::GitError, "instance repo directory does not exist yet"),
            );
        }
        Ok(self.stg.repo_dir(id, self.platform))
    }

    /// Lets go of every run, and says of which instances there were any.
    pub fn shutdown_all(&mut self) -> (r: Vec<u128>)
        requires
            old(self).wf(),
        ensures
            final(self).wf(),
            final(self).same_place(old(self)),
            final(self)@ == all_stopped(old(self)@),
            r@.no_duplicates(),
            forall|id: u128|
                #[trigger] r@.contains(id) <==> old(self)@.contains_key(id)
                    && old(self)@[id].service is Some,
    {
        let mut out: Vec<u128> = Vec::new();
        let ghost first = self.instances@;
        let mut i: usize = 0;
        while i < self.instances.len()
            invariant
                i <= self.instances.len(),
                self.wf(),
                self.same_place(old(self)),
                first == old(self).instances@,
                assoc::distinct(by_id(first)),
                self.instances@.len() == first.len(),
                forall|k: int|
                    0 <= k < i ==> (#[trigger] self.instances@[k])@ == with_service(
                        first[k]@,
                        None,
                    ) && self.instances@[k].config.id == first[k].config.id,
                forall|k: int|
                    i <= k < first.len() ==> (#[trigger] self.instances@[k]) == first[k],
                out@.no_duplicates(),
                forall|id: u128| #[trigger] out@.contains(id) <==> runs_among(first, id, i as int),
            decreases self.instances.len() - i,
        {
            let ghost before = out@;
            let ghost pairs = by_id(self.instances@);
            proof {
                assoc::as_map_holds(pairs);
                assert(pairs[i as int] == (
                    self.instances@[i as int].config.id,
                    self.instances@[i as int]@,
                ));
            }
            let id: u128 = self.instances[i].config.id;
            let due: bool = self.instances[i].service.is_some();
            if due {
                proof {
                    if before.contains(id) {
                        let k = choose|k: int|
                            0 <= k < i && (#[trigger] first[k]).config.id == id
                                && first[k].service is Some;
                        assert(by_id(first)[k].0 == by_id(first)[i as int].0);
                    }
                }
                out.push(id);
            }
            let ghost was = self.instances@;
            self.drop_service(i);
            proof {
                assert forall|x: u128| #[trigger] out@.contains(x) <==> runs_among(
                    first,
                    x,
                    i + 1,
                ) by {
                    if out@.contains(x) {
                        let k = choose|k: int| 0 <= k < out@.len() && out@[k] == x;
                        if k < before.len() {
                            assert(before[k] == x);
                            assert(before.contains(x));
                        } else {
                            assert(first[i as int].config.id == x);
                        }
                    }
                    if runs_among(first, x, i + 1) {
                        let k = choose|k: int|
                            0 <= k < i + 1 && (#[trigger] first[k]).config.id == x
                                && first[k].service is Some;
                        if k < i {
                            assert(before.contains(x));
                            let j = choose|j: int| 0 <= j < before.len() && before[j] == x;
                            assert(out@[j] == x);
                        } else {
                            assert(out@[out@.len() - 1] == x);
                        }
                    }
                }
            }
            i = i + 1;
        }
        proof {
            let a = by_id(first);
            let b = by_id(self.instances@);
            assoc::as_map_holds(a);
            assoc::as_map_holds(b);
            assert forall|k: int| 0 <= k < a.len() implies (#[trigger] b[k]) == (
                a[k].0,
                with_service(a[k].1, None),
            ) by {
                assert(self.instances@[k]@ == with_service(first[k]@, None));
            }
            stopping_maps_over(a, b);
            assert forall|x: u128| #[trigger] out@.contains(x) <==> old(self)@.contains_key(x)
                && old(self)@[x].service is Some by {
                if old(self)@.contains_key(x) {
                    assert(assoc::has_key(a, x));
                    let k = choose|k: int| 0 <= k < a.len() && (#[trigger] a[k]).0 == x;
                    assert(first[k].config.id == x);
                    assert(old(self)@[x] == first[k]@);
                    if runs_among(first, x, first.len() as int) {
                        let j = choose|j: int|
                            0 <= j < first.len() && (#[trigger] first[j]).config.id == x
                                && first[j].service is Some;
                        assert(a[j].0 == x);
                        assert(j == k);
                    }
                }
                if runs_among(first, x, first.len() as int) {
                    let j = choose|j: int|
                        0 <= j < first.len() && (#[trigger] first[j]).config.id == x
                            && first[j].service is Some;
                    assert(a[j] == (x, first[j]@));
                }
            }
        }
        out
    }

    fn drop_service(&mut self, i: usize)
        requires
            old(self).wf(),
            i < old(self).instances@.len(),
        ensures
            final(self).wf(),
            final(self).same_place(old(self)),
            final(self).instances@.len() == old(self).instances@.len(),
            final(self).instances@[i as int]@ == with_service(old(self).instances@[i as int]@, None),
            final(self).instances@[i as int].config.id == old(self).instances@[i as int].config.id,
            forall|k: int|
                0 <= k < old(self).instances@.len() && k != i ==> (#[trigger] final(self).instances@[k]) == old(self).instances@[k],
    {
        let config = self.instances[i].config.copy();
        let repo = self.instances[i].repo.copy();
        let mi = ManagedInstance { config, repo, service: None };
        assert(mi@.config.id == mi.config.id);
        assert(self.instances@[i as int]@.config.id == self.instances@[i as int].config.id);
        self.put(i, mi);
    }
}

spec fn starts(pair: (u128, Held)) -> bool {
    pair.1.config.autostart && pair.1.repo is Ready
}

spec fn starts_among(pairs: Seq<(u128, Held)>, id: u128, n: int) -> bool {
    exists|k: int| 0 <= k < n && (#[trigger] pairs[k]).0 == id && starts(pairs[k])
}

spec fn runs_among(all: Seq<ManagedInstance>, id: u128, n: int) -> bool {
    exists|k: int|
        0 <= k < n && (#[trigger] all[k]).config.id == id && all[k].service is Some
}

proof fn stopping_maps_over(a: Seq<(u128, Held)>, b: Seq<(u128, Held)>)
    requires
        a.len() == b.len(),
        forall|k: int|
            0 <= k < a.len() ==> (#[trigger] b[k]) == (a[k].0, with_service(a[k].1, None)),
    ensures
        assoc::as_map(b) == all_stopped(assoc::as_map(a)),
    decreases a.len(),
{
    if a.len() > 0 {
        let x = a.drop_last();
        let y = b.drop_last();
        assert forall|k: int| 0 <= k < x.len() implies (#[trigger] y[k]) == (
            x[k].0,
            with_service(x[k].1, None),
        ) by {
            assert(y[k] == b[k]);
        }
        stopping_maps_over(x, y);
        assert(b[b.len() - 1] == (a.last().0, with_service(a.last().1, None)));
    }
    assert(assoc::as_map(b) =~= all_stopped(assoc::as_map(a)));
}

fn missing_error() -> (r: ApiError)
    ensures
        r@ == no_such_instance(),
{
    ApiError::new(ErrorCode::NotFound, "no such instance")
}

fn conflict_error(name: &str) -> (r: ApiError)
    ensures
        r@ == name_conflict(name@),
{
    ApiError {
        code: ErrorCode::Conflict,
        msg: text::cat3("an instance named '", name, "' already exists"),
    }
}

/// A failure of the daemon itself: what it was doing, and why that failed.
pub fn internal_error(doing: &str, why: &str) -> (r: ApiError)
    ensures
        r@ == (api::Refusal { code: ErrorCode::Internal, msg: doing@ + why@ }),
{
    ApiError { code: ErrorCode::Internal, msg: text::cat2(doing, why) }
}

/// For how many seconds a stop is waited for.
pub const STOP_WAIT_SECS: u64 = 20;

/// What is answered when waiting for a stop took too long.
pub fn stop_timed_out() -> (r: ApiError)
    ensures
        r@ == (api::Refusal {
            code: ErrorCode::Internal,
            msg: "instance did not stop within 20s"@,
        }),
{
    ApiError::new(ErrorCode::Internal, "instance did not stop within 20s")
}

/// No two instances have one name.
pub open spec fn names_apart(m: Map<u128, Held>) -> bool {
    forall|a: u128, b: u128|
        #[trigger] m.contains_key(a) && #[trigger] m.contains_key(b) && m[a].config.name
            == m[b].config.name ==> a == b
}

/// No instance has its files exchanged while it runs.
pub open spec fn files_at_rest(m: Map<u128, Held>) -> bool {
    forall|id: u128|
        #[trigger] m.contains_key(id) ==> !(busy(m[id]) && m[id].repo is Provisioning)
}

/// Names stay apart when an instance is created.
pub proof fn creating_keeps_names_apart(m: Map<u128, Held>, template: storage::Setup, id: u128)
    requires
        names_apart(m),
        create_refusal(m, template.name) is None,
    ensures
        names_apart(created(m, template, id)),
{
    let after = created(m, template, id);
    assert forall|a: u128, b: u128| #[trigger]
        after.contains_key(a) && #[trigger] after.contains_key(b) && after[a].config.name
            == after[b].config.name implies a == b by {
        if a != id {
            assert(m.contains_key(a));
        }
        if b != id {
            assert(m.contains_key(b));
        }
    }
}

/// Names stay apart when a definition is changed.
pub proof fn patching_keeps_names_apart(m: Map<u128, Held>, id: u128, patch: InstancePatch)
    requires
        names_apart(m),
        patch_refusal(m, id, patch.name) is None,
    ensures
        names_apart(m.insert(id, Held { config: patched(m[id].config, patch), ..m[id] })),
{
    let after = m.insert(id, Held { config: patched(m[id].config, patch), ..m[id] });
    assert forall|a: u128, b: u128| #[trigger]
        after.contains_key(a) && #[trigger] after.contains_key(b) && after[a].config.name
            == after[b].config.name implies a == b by {
        assert(m.contains_key(a) && m.contains_key(b) && m.contains_key(id));
    }
}

/// While an instance's files are being brought in it can be neither started, nor
/// removed, nor have them brought in once more.
pub proof fn provisioning_excludes_the_rest(m: Map<u128, Held>, id: u128)
    requires
        m.contains_key(id),
        m[id].repo is Provisioning,
    ensures
        run_refusal(m, id) is Some,
        remove_refusal(m, id) is Some,
        update_refusal(m, id) is Some,
{
}

/// The operations that touch files or runs never bring an instance to run while
/// its files are being exchanged. A supervision speaks only while it is not over.
pub proof fn files_stay_at_rest(
    m: Map<u128, Held>,
    id: u128,
    template: storage::Setup,
    repo: instance::Files,
    told: supervise::Condition,
)
    requires
        files_at_rest(m),
    ensures
        files_at_rest(created(m, template, id)),
        update_refusal(m, id) is None ==> files_at_rest(
            m.insert(id, with_repo(m[id], instance::Files::Provisioning)),
        ),
        run_refusal(m, id) is None ==> files_at_rest(
            m.insert(id, with_service(m[id], Some(supervise::Condition::Starting))),
        ),
        !(repo is Provisioning) ==> files_at_rest(m.insert(id, with_repo(m[id], repo))),
        m.contains_key(id) && busy(m[id]) ==> files_at_rest(
            m.insert(id, with_service(m[id], Some(told))),
        ),
        files_at_rest(m.remove(id)),
        files_at_rest(all_stopped(m)),
{
    assert forall|other: u128| #[trigger] m.remove(id).contains_key(other) implies !(busy(
        m.remove(id)[other],
    ) && m.remove(id)[other].repo is Provisioning) by {
        assert(m.contains_key(other));
    }
}

/// A started instance is running: it is not started twice, and can be stopped.
pub proof fn starting_makes_it_run(m: Map<u128, Held>, id: u128)
    requires
        run_refusal(m, id) is None,
    ensures
        ({
            let after = m.insert(
                id,
                with_service(m[id], Some(supervise::Condition::Starting)),
            );
            &&& run_refusal(after, id) matches Some(r) && r.code == ErrorCode::AlreadyRunning
            &&& stop_refusal(after, id) is None
            &&& update_refusal(after, id) matches Some(r) && r.code == ErrorCode::Conflict
        }),
{
}

/// An instance can be stopped exactly where it is told to be active.
pub proof fn the_active_can_be_stopped(m: Map<u128, Held>, id: u128, told: RunState)
    requires
        m.contains_key(id),
        told@ == running(m[id]),
    ensures
        stop_refusal(m, id) is None <==> instance::active(told),
{
}

/// What was kept comes back: a daemon that comes up with the definitions of
/// another has the same instances, under the same definitions, none of them running.
pub proof fn kept_instances_come_back(manager: InstanceManager, all: Seq<Loaded>)
    requires
        manager.wf(),
        all.len() == manager.instances@.len(),
        forall|i: int|
            0 <= i < all.len() ==> (#[trigger] all[i]).config@ == manager.instances@[i].config@,
    ensures
        loaded(all, all.len() as int).dom() == manager@.dom(),
        forall|id: u128| #[trigger]
            manager@.contains_key(id) ==> loaded(all, all.len() as int)[id].config
                == manager@[id].config && loaded(all, all.len() as int)[id].service is None,
{
    let pairs = by_id(manager.instances@);
    assert(pairs.take(pairs.len() as int) =~= pairs);
    loading_follows(pairs, all, all.len() as int, manager.instances@);
}

proof fn loading_follows(
    pairs: Seq<(u128, Held)>,
    all: Seq<Loaded>,
    n: int,
    instances: Seq<ManagedInstance>,
)
    requires
        0 <= n <= all.len(),
        all.len() == instances.len(),
        pairs == by_id(instances),
        forall|i: int|
            0 <= i < all.len() ==> (#[trigger] all[i]).config@ == instances[i].config@,
    ensures
        loaded(all, n).dom() == assoc::as_map(pairs.take(n)).dom(),
        forall|id: u128| #[trigger]
            assoc::as_map(pairs.take(n)).contains_key(id) ==> loaded(all, n)[id].config
                == assoc::as_map(pairs.take(n))[id].config && loaded(all, n)[id].service is None,
    decreases n,
{
    let kept = assoc::as_map(pairs.take(n));
    if n > 0 {
        loading_follows(pairs, all, n - 1, instances);
        assert(pairs.take(n).drop_last() =~= pairs.take(n - 1));
        assert(pairs.take(n).last() == pairs[n - 1]);
        assert(all[n - 1].config@ == instances[n - 1].config@);
        assert(all[n - 1].config@.id == instances[n - 1].config.id);
        let before = assoc::as_map(pairs.take(n - 1));
        assert forall|id: u128| #[trigger] kept.contains_key(id) implies loaded(all, n)[id].config
            == kept[id].config && loaded(all, n)[id].service is None by {
            if id != instances[n - 1].config.id {
                assert(before.contains_key(id));
            }
        }
    }
    assert(loaded(all, n).dom() =~= kept.dom());
}

/// After a patch that is accepted, every field that it names has the value that it
/// gives, and every other field is as before. The identity never changes, nor do the
/// files or the run, nor any other instance.
pub proof fn patches_take_hold(m: Map<u128, Held>, id: u128, patch: InstancePatch)
    requires
        patch_refusal(m, id, patch.name) is None,
    ensures
        ({
            let after = m.insert(id, Held { config: patched(m[id].config, patch), ..m[id] });
            let was = m[id].config;
            let now = after[id].config;
            &&& now.id == was.id
            &&& patch.name is Some ==> now.name == patch.name->0@
            &&& patch.name is None ==> now.name == was.name
            &&& patch.repo_url is Some ==> now.repo_url == patch.repo_url->0@
            &&& patch.repo_url is None ==> now.repo_url == was.repo_url
            &&& patch.branch matches Some(Some(b)) ==> now.branch == Some(b@)
            &&& patch.branch matches Some(None) ==> now.branch is None
            &&& patch.branch is None ==> now.branch == was.branch
            &&& patch.command is Some ==> now.command == patch.command->0@
            &&& patch.command is None ==> now.command == was.command
            &&& patch.args is Some ==> now.args.len() == patch.args->0@.len() && forall|i: int|
                0 <= i < now.args.len() ==> #[trigger] now.args[i] == patch.args->0@[i]@
            &&& patch.args is None ==> now.args == was.args
            &&& patch.env is Some ==> now.env == patch.env->0@
            &&& patch.env is None ==> now.env == was.env
            &&& patch.autostart is Some ==> now.autostart == patch.autostart->0
            &&& patch.autostart is None ==> now.autostart == was.autostart
            &&& patch.retry_policy is Some ==> now.retry_policy == patch.retry_policy->0
            &&& patch.retry_policy is None ==> now.retry_policy == was.retry_policy
        }),
{
}

/// A patch is refused exactly where it would give the instance the name of another, or
/// where there is no such instance.
pub proof fn patches_are_refused_for_a_reason(m: Map<u128, Held>, id: u128, patch: InstancePatch)
    ensures
        patch_refusal(m, id, patch.name) is Some <==> !m.contains_key(id) || (patch.name is Some
            && exists|other: u128|
            other != id && #[trigger] m.contains_key(other) && m[other].config.name
                == patch.name->0@),
        patch_refusal(m, id, patch.name) matches Some(r) ==> r.code == ErrorCode::Conflict || r.code
            == ErrorCode::NotFound,
        m.contains_key(id) ==> (patch_refusal(m, id, patch.name) matches Some(r) ==> r.code
            == ErrorCode::Conflict),
        patch.name is None ==> (patch_refusal(m, id, patch.name) matches Some(r) ==> r.code
            == ErrorCode::NotFound),
{
    if patch.name is Some {
        let name = patch.name->0@;
        if name_taken(m, name, Some(id)) {
            let other = choose|other: u128|
                #[trigger] m.contains_key(other) && Some(other) != Some(id)
                    && m[other].config.name == name;
            assert(other != id && m.contains_key(other));
        }
    }
}

/// An instance that is created is there under its identity, just as it was asked for,
/// its files still being brought in and not running. No other changes. It is refused
/// exactly where its name is taken.
pub proof fn created_instances_are_as_asked(
    m: Map<u128, Held>,
    template: storage::Setup,
    id: u128,
)
    ensures
        ({
            let after = created(m, template, id);
            let now = after[id].config;
            &&& after.contains_key(id)
            &&& now.id == id
            &&& now.name == template.name && now.repo_url == template.repo_url && now.branch
                == template.branch && now.command == template.command && now.args == template.args
                && now.env == template.env && now.autostart == template.autostart
                && now.retry_policy == template.retry_policy
            &&& after[id].repo is Provisioning
            &&& after[id].service is None
            &&& forall|other: u128|
                other != id ==> (#[trigger] after.contains_key(other) <==> m.contains_key(other))
                    && after[other] == m[other]
        }),
        create_refusal(m, template.name) is Some <==> exists|other: u128| #[trigger]
            m.contains_key(other) && m[other].config.name == template.name,
        create_refusal(m, template.name) matches Some(r) ==> r.code == ErrorCode::Conflict,
{
    if name_taken(m, template.name, None) {
        let other = choose|other: u128|
            #[trigger] m.contains_key(other) && Some(other) != None::<u128> && m[other].config.name
                == template.name;
        assert(m.contains_key(other));
    }
    if exists|other: u128| #[trigger]
        m.contains_key(other) && m[other].config.name == template.name {
        let other = choose|other: u128| #[trigger]
            m.contains_key(other) && m[other].config.name == template.name;
        assert(m.contains_key(other) && Some(other) != None::<u128>);
    }
}

/// An instance is started exactly where it is known, its files are there, and it does
/// not run already; each refusal says which of these is wanting.
pub proof fn starts_need_files_and_rest(m: Map<u128, Held>, id: u128)
    ensures
        run_refusal(m, id) is None <==> m.contains_key(id) && m[id].repo is Ready && (
        m[id].service is None || m[id].service->0 is Exited || m[id].service->0 is Stopped
            || m[id].service->0 is Failed),
        !m.contains_key(id) ==> (run_refusal(m, id) matches Some(r) && r.code
            == ErrorCode::NotFound),
        m.contains_key(id) ==> match m[id].repo {
            instance::Files::Provisioning => run_refusal(m, id) matches Some(r) && r.code
                == ErrorCode::Provisioning,
            instance::Files::CloneFailed(why) => run_refusal(m, id) matches Some(r) && r.code
                == ErrorCode::GitError && r.msg == "repo is not available: "@ + why,
            instance::Files::Ready => run_refusal(m, id) matches Some(r) ==> r.code
                == ErrorCode::AlreadyRunning,
        },
{
}

/// Only what runs, is being started or is about to be restarted can be stopped.
pub proof fn stops_need_a_run(m: Map<u128, Held>, id: u128)
    ensures
        stop_refusal(m, id) is None <==> m.contains_key(id) && (m[id].service matches Some(c) && (
        c is Starting || c is Running || c is Backoff)),
        stop_refusal(m, id) matches Some(r) ==> r.code == (if m.contains_key(id) {
            ErrorCode::NotRunning
        } else {
            ErrorCode::NotFound
        }),
{
}

/// Files are brought in again only for an instance that is known, at rest, and whose
/// files are not being brought in already; one that failed may be tried again.
pub proof fn updates_need_rest(m: Map<u128, Held>, id: u128)
    ensures
        update_refusal(m, id) is None <==> m.contains_key(id) && !(m[id].repo is Provisioning)
            && !(m[id].service matches Some(c) && (c is Starting || c is Running
            || c is Backoff)),
        update_refusal(m, id) matches Some(r) ==> r.code == (if !m.contains_key(id) {
            ErrorCode::NotFound
        } else if m[id].service matches Some(c) && (c is Starting || c is Running || c is Backoff) {
            ErrorCode::Conflict
        } else {
            ErrorCode::Provisioning
        }),
{
}

/// An instance can be removed, running or not, unless its files are being brought in.
pub proof fn removals_wait_for_files(m: Map<u128, Held>, id: u128)
    ensures
        remove_refusal(m, id) is None <==> m.contains_key(id) && !(m[id].repo is Provisioning),
        remove_refusal(m, id) matches Some(r) ==> r.code == (if m.contains_key(id) {
            ErrorCode::Provisioning
        } else {
            ErrorCode::NotFound
        }),
{
}

/// What an instance is told to be doing is what its supervision last said; without one
/// it is not running.
pub proof fn doings_are_told(held: Held)
    ensures
        held.service is None <==> running(held) is NotRunning,
        held.service matches Some(supervise::Condition::Running { pids, restarts }) ==> running(
            held,
        ) == (instance::Activity::Running { pids, restarts }),
        held.service matches Some(supervise::Condition::Stopped) ==> running(held) is Stopped,
        held.service matches Some(supervise::Condition::Starting) ==> running(held) is Starting,
{
}

/// Exchanging files or runs touches nothing else of an instance, and stopping all
/// leaves everything but the runs.
pub proof fn changes_are_apart(
    held: Held,
    repo: instance::Files,
    service: Option<supervise::Condition>,
    m: Map<u128, Held>,
)
    ensures
        with_repo(held, repo).repo == repo,
        with_repo(held, repo).config == held.config,
        with_repo(held, repo).service == held.service,
        with_service(held, service).service == service,
        with_service(held, service).config == held.config,
        with_service(held, service).repo == held.repo,
        all_stopped(m).dom() =~= m.dom(),
        forall|id: u128| #[trigger]
            m.contains_key(id) ==> all_stopped(m)[id].service is None && all_stopped(m)[id].config
                == m[id].config && all_stopped(m)[id].repo == m[id].repo,
{
}

/// An instance whose files are there when the daemon comes up can be started at once;
/// one whose files are missing cannot, and may have them brought in.
pub proof fn files_are_found_or_missed(all: Seq<Loaded>, n: int)
    requires
        0 < n <= all.len(),
    ensures
        ({
            let m = loaded(all, n);
            let last = all[n - 1];
            let id = last.config@.id;
            &&& m.contains_key(id)
            &&& m[id].config == last.config@
            &&& m[id].service is None
            &&& last.present <==> m[id].repo is Ready
            &&& !last.present ==> m[id].repo == instance::Files::CloneFailed(
                "repo directory missing; run UpdateRepo"@,
            )
            &&& last.present <==> run_refusal(m, id) is None
            &&& update_refusal(m, id) is None
            &&& forall|other: u128|
                other != id ==> (#[trigger] m.contains_key(other) <==> loaded(
                    all,
                    n - 1,
                ).contains_key(other)) && m[other] == loaded(all, n - 1)[other]
        }),
{
}

/// Each refusal says in words what is wrong.
pub proof fn refusals_say_why(m: Map<u128, Held>, id: u128)
    requires
        m.contains_key(id),
    ensures
        busy(m[id]) ==> (update_refusal(m, id) matches Some(why) && why.msg
            == "instance is running; stop it before updating the repo"@),
        !busy(m[id]) && m[id].repo is Provisioning ==> (update_refusal(m, id) matches Some(why)
            && why.msg == "a clone/update is already in progress"@),
        m[id].repo is Provisioning ==> (run_refusal(m, id) matches Some(why) && why.msg
            == "repo clone still in progress"@),
        m[id].repo matches instance::Files::CloneFailed(error) ==> (run_refusal(
            m,
            id,
        ) matches Some(why) && why.msg == "repo is not available: "@ + error),
        m[id].repo is Ready && busy(m[id]) ==> (run_refusal(m, id) matches Some(why) && why.msg
            == "instance is already running"@),
        !busy(m[id]) ==> (stop_refusal(m, id) matches Some(why) && why.msg
            == "instance is not running"@ && why.code == ErrorCode::NotRunning),
        m[id].repo is Provisioning ==> (remove_refusal(m, id) matches Some(why) && why.msg
            == "wait for the running clone/update to finish first"@),
{
}

/// What is not there is not there, whatever is asked of it.
pub proof fn absent_instances_are_told(m: Map<u128, Held>, id: u128)
    requires
        !m.contains_key(id),
    ensures
        ({
            let absent = Some(
                api::Refusal { code: ErrorCode::NotFound, msg: "no such instance"@ },
            );
            &&& update_refusal(m, id) == absent
            &&& run_refusal(m, id) == absent
            &&& stop_refusal(m, id) == absent
            &&& remove_refusal(m, id) == absent
            &&& patch_refusal(m, id, None) == absent
        }),
{
}

} // verus!
