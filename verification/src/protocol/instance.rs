//! Instances: what they are made of, how they run, and what is reported of them.
use vstd::prelude::*;
use crate::{assoc, text};

verus! {

/// What to do when a supervised process ends.
#[derive(Clone, Copy, Debug, PartialEq, Eq, Structural)]
pub enum RetryPolicy {
    Never,
    OnCrash,
    Always,
    Retry(u32),
}

/// Where an instance's files come from.
#[derive(Clone, Debug, PartialEq, Eq)]
pub enum Source {
    /// A git repository; the default branch where none is named.
    Git { url: String, branch: Option<String> },
    /// A file or archive behind an address.
    Url { url: String },
    /// Content pushed by a client.
    Upload { desc: String },
    /// A bare directory.
    Empty,
    /// No files at all.
    Nothing,
}

/// A source, as texts.
#[verifier::ext_equal]
pub enum Origin {
    Git { url: Seq<char>, branch: Option<Seq<char>> },
    Url { url: Seq<char> },
    Upload { desc: Seq<char> },
    Empty,
    Nothing,
}

impl View for Source {
    type V = Origin;

    open spec fn view(&self) -> Origin {
        match *self {
            Source::Git { url, branch } => Origin::Git {
                url: url@,
                branch: match branch {
                    Some(b) => Some(b@),
                    None => None,
                },
            },
            Source::Url { url } => Origin::Url { url: url@ },
            Source::Upload { desc } => Origin::Upload { desc: desc@ },
            Source::Empty => Origin::Empty,
            Source::Nothing => Origin::Nothing,
        }
    }
}

/// How an instance is doing.
#[derive(Clone, Debug, PartialEq, Eq)]
pub enum RunState {
    NotRunning,
    Starting,
    Running { pids: Vec<u32>, restarts: u32 },
    Backoff { delay_ms: u64, restarts: u32 },
    Exited { code: Option<i32>, signal: Option<i32>, restarts: u32 },
    Stopped,
    Failed(String),
}

/// How an instance is doing, as texts and sequences.
#[verifier::ext_equal]
pub enum Activity {
    NotRunning,
    Starting,
    Running { pids: Seq<u32>, restarts: u32 },
    Backoff { delay_ms: u64, restarts: u32 },
    Exited { code: Option<i32>, signal: Option<i32>, restarts: u32 },
    Stopped,
    Failed(Seq<char>),
}

impl View for RunState {
    type V = Activity;

    open spec fn view(&self) -> Activity {
        match *self {
            RunState::NotRunning => Activity::NotRunning,
            RunState::Starting => Activity::Starting,
            RunState::Running { pids, restarts } => Activity::Running { pids: pids@, restarts },
            RunState::Backoff { delay_ms, restarts } => Activity::Backoff { delay_ms, restarts },
            RunState::Exited { code, signal, restarts } => Activity::Exited {
                code,
                signal,
                restarts,
            },
            RunState::Stopped => Activity::Stopped,
            RunState::Failed(error) => Activity::Failed(error@),
        }
    }
}

/// Whether an instance in this state is doing something right now.
pub open spec fn active(state: RunState) -> bool {
    state is Starting || state is Running || state is Backoff
}

impl RunState {
    /// Whether the instance is doing something right now, so that stopping and
    /// attaching make sense and changing its files does not.
    pub fn is_active(&self) -> (r: bool)
        ensures
            r == active(*self),
    {
        matches!(self, RunState::Starting | RunState::Running { .. } | RunState::Backoff { .. })
    }
}

/// How an instance's files are doing.
#[derive(Clone, Debug, PartialEq, Eq)]
pub enum RepoState {
    /// The files are being brought in; the instance cannot run yet.
    Provisioning,
    Ready,
    CloneFailed(String),
}

/// How an instance's files are doing, with the failure as a text.
#[verifier::ext_equal]
pub enum Files {
    Provisioning,
    Ready,
    CloneFailed(Seq<char>),
}

impl View for RepoState {
    type V = Files;

    open spec fn view(&self) -> Files {
        match *self {
            RepoState::Provisioning => Files::Provisioning,
            RepoState::Ready => Files::Ready,
            RepoState::CloneFailed(error) => Files::CloneFailed(error@),
        }
    }
}

impl RepoState {
    /// The same state, once more.
    pub fn copy(&self) -> (r: RepoState)
        ensures
            r@ == self@,
    {
        match self {
            RepoState::Provisioning => RepoState::Provisioning,
            RepoState::Ready => RepoState::Ready,
            RepoState::CloneFailed(error) => RepoState::CloneFailed(error.clone()),
        }
    }
}

/// What a group of processes has used.
#[derive(Clone, Copy, Debug, PartialEq, Eq)]
pub struct GroupStats {
    pub processes: u64,
    pub cpu_time_ms: Option<u64>,
    pub peak_memory_bytes: Option<u64>,
}

/// Environment variables: names with their values, each name once.
#[derive(Debug, PartialEq, Eq)]
pub struct Env {
    pub entries: Vec<(String, String)>,
}

/// The entries as texts, in order.
pub open spec fn env_pairs(entries: Seq<(String, String)>) -> Seq<(Seq<char>, Seq<char>)> {
    entries.map_values(|e: (String, String)| (e.0@, e.1@))
}

impl View for Env {
    type V = Map<Seq<char>, Seq<char>>;

    open spec fn view(&self) -> Map<Seq<char>, Seq<char>> {
        assoc::as_map(env_pairs(self.entries@))
    }
}

impl Env {
    /// Each name stands once.
    pub open spec fn wf(&self) -> bool {
        assoc::distinct(env_pairs(self.entries@))
    }

    /// No variables at all.
    pub fn new() -> (r: Env)
        ensures
            r.wf(),
            r@ == Map::<Seq<char>, Seq<char>>::empty(),
            r.entries@.len() == 0,
    {
        Env { entries: Vec::new() }
    }

    /// The same variables, once more, in the same order.
    pub fn copy(&self) -> (r: Env)
        ensures
            env_pairs(r.entries@) == env_pairs(self.entries@),
            r@ == self@,
    {
        let mut entries: Vec<(String, String)> = Vec::new();
        let mut i: usize = 0;
        while i < self.entries.len()
            invariant
                i <= self.entries.len(),
                env_pairs(entries@) == env_pairs(self.entries@).take(i as int),
            decreases self.entries.len() - i,
        {
            let ghost before = env_pairs(entries@);
            let name: String = self.entries[i].0.clone();
            let value: String = self.entries[i].1.clone();
            entries.push((name, value));
            assert(env_pairs(entries@) =~= before.push(env_pairs(self.entries@)[i as int]));
            i = i + 1;
            assert(env_pairs(entries@) =~= env_pairs(self.entries@).take(i as int));
        }
        assert(env_pairs(entries@) =~= env_pairs(self.entries@));
        Env { entries }
    }

    /// Sets a variable, in place of an earlier value of the same name.
    pub fn insert(&mut self, name: String, value: String)
        requires
            old(self).wf(),
        ensures
            final(self).wf(),
            final(self)@ == old(self)@.insert(name@, value@),
    {
        let ghost before = env_pairs(self.entries@);
        let mut i: usize = 0;
        while i < self.entries.len()
            invariant
                self.wf(),
                i <= self.entries.len(),
                before == env_pairs(self.entries@),
                self == old(self),
                forall|k: int| 0 <= k < i ==> (#[trigger] before[k]).0 != name@,
            decreases self.entries.len() - i,
        {
            assert(before[i as int].0 == self.entries@[i as int].0@);
            if text::same(&self.entries[i].0, &name) {
                proof {
                    assoc::update_inserts(before, i as int, value@);
                }
                let ghost wanted = before.update(i as int, (name@, value@));
                self.entries.set(i, (name, value));
                assert(env_pairs(self.entries@) =~= wanted);
                return ;
            }
            i = i + 1;
        }
        proof {
            assoc::push_inserts(before, name@, value@);
        }
        let ghost wanted = before.push((name@, value@));
        self.entries.push((name, value));
        assert(env_pairs(self.entries@) =~= wanted);
    }
}

/// What an instance is and how it is run.
#[derive(Debug, PartialEq, Eq)]
pub struct InstanceConfig {
    pub id: u128,
    pub name: String,
    pub source: Source,
    pub command: String,
    pub args: Vec<String>,
    pub env: Env,
    pub autostart: bool,
    pub retry_policy: RetryPolicy,
    /// This instance is the server's own process: it is reported as running
    /// rather than supervised, and cannot be operated on.
    pub self_managed: bool,
}

/// Everything the server knows of one instance.
#[derive(Debug, PartialEq, Eq)]
pub struct InstanceStatus {
    pub config: InstanceConfig,
    pub repo: RepoState,
    pub run: RunState,
    pub stats: Option<GroupStats>,
    /// Where the instance's files are on the server.
    pub repo_dir: String,
}

/// Which of a process's streams a console line came from.
#[derive(Clone, Copy, Debug, PartialEq, Eq, Structural)]
pub enum Stream {
    Stdout,
    Stderr,
}

/// One line of an instance's captured output.
#[derive(Clone, Debug, PartialEq, Eq)]
pub struct ConsoleLine {
    /// Milliseconds since the unix epoch, stamped when the server read it.
    pub at_ms: u64,
    pub stream: Stream,
    pub text: String,
}

/// The short form in which instances are listed.
#[derive(Clone, Debug, PartialEq, Eq)]
pub struct InstanceStatResponse {
    pub id: u128,
    pub name: String,
    pub repo: RepoState,
    pub run: RunState,
    pub self_managed: bool,
}

/// An instance is active while it is being started, runs, or waits for a restart, and at no
/// other time.
pub proof fn the_active_are_those_that_run_or_will(state: RunState)
    ensures
        active(state) <==> !(state is NotRunning || state is Exited || state is Stopped
            || state is Failed),
{
}

/// The values on the wire say what they say: each kind is told as itself, with everything
/// that it carries.
pub proof fn states_are_told_as_they_are(run: RunState, repo: RepoState, source: Source)
    ensures
        run is NotRunning <==> run@ is NotRunning,
        run is Starting <==> run@ is Starting,
        run is Stopped <==> run@ is Stopped,
        run matches RunState::Running { pids, restarts } ==> run@ == (Activity::Running {
            pids: pids@,
            restarts,
        }),
        run matches RunState::Backoff { delay_ms, restarts } ==> run@ == (Activity::Backoff {
            delay_ms,
            restarts,
        }),
        run matches RunState::Exited { code, signal, restarts } ==> run@ == (Activity::Exited {
            code,
            signal,
            restarts,
        }),
        run matches RunState::Failed(e) ==> run@ == Activity::Failed(e@),
        repo is Ready <==> repo@ is Ready,
        repo is Provisioning <==> repo@ is Provisioning,
        repo matches RepoState::CloneFailed(e) ==> repo@ == Files::CloneFailed(e@),
        source matches Source::Git { url, branch } ==> (source@ matches Origin::Git {
            url: u,
            branch: b,
        } && u == url@ && (branch matches Some(x) ==> b == Some(x@)) && (branch is None
            ==> b is None)),
        source matches Source::Url { url } ==> source@ == (Origin::Url { url: url@ }),
        source matches Source::Upload { desc } ==> source@ == (Origin::Upload { desc: desc@ }),
        source is Empty <==> source@ is Empty,
        source is Nothing <==> source@ is Nothing,
{
}

} // verus!
