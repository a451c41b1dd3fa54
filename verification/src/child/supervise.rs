//! The supervision of one instance: when it is started, watched, restarted and
//! given up.
use vstd::prelude::*;

use crate::protocol::instance;
use crate::protocol::instance::{RetryPolicy, RunState};

verus! {

/// How a process ended.
#[derive(Clone, Copy, Debug, PartialEq, Eq, Structural)]
pub enum Outcome {
    Exited(i32),
    /// By a signal, whose number the platform may not tell.
    Signalled(Option<i32>),
    /// In some other way.
    Other,
}

/// Whether a policy asks for another start after `restarts` of them.
pub open spec fn restart_due(policy: RetryPolicy, outcome: Outcome, restarts: u32) -> bool {
    match policy {
        RetryPolicy::Never => false,
        RetryPolicy::OnCrash => outcome != Outcome::Exited(0),
        RetryPolicy::Always => true,
        RetryPolicy::Retry(n) => restarts < n,
    }
}

impl RetryPolicy {
    pub fn should_restart(&self, outcome: &Outcome, restarts: u32) -> (r: bool)
        ensures
            r == restart_due(*self, *outcome, restarts),
    {
        match self {
            RetryPolicy::Never => false,
            RetryPolicy::OnCrash => !matches!(outcome, Outcome::Exited(0)),
            RetryPolicy::Always => true,
            RetryPolicy::Retry(n) => restarts < *n,
        }
    }
}

/// The longest wait before a restart, in milliseconds.
pub const MAX_DELAY_MS: u64 = 30_000;

/// Two to the power of `n`.
pub open spec fn doubled(n: nat) -> nat
    decreases n,
{
    if n == 0 {
        1
    } else {
        2 * doubled((n - 1) as nat)
    }
}

/// The wait before a restart, in milliseconds: a tenth of a second, twice as long
/// for each restart before it up to the eighth, and never beyond `MAX_DELAY_MS`.
pub open spec fn backoff(restarts: u32) -> nat {
    let ms = 100 * doubled(if restarts < 8 { restarts as nat } else { 8 });
    if ms < MAX_DELAY_MS {
        ms
    } else {
        MAX_DELAY_MS as nat
    }
}

pub fn backoff_delay(restarts: u32) -> (r: u64)
    ensures
        r == backoff(restarts),
{
    let steps: u32 = if restarts < 8 {
        restarts
    } else {
        8
    };
    let mut ms: u64 = 100;
    let mut i: u32 = 0;
    proof {
        reveal_with_fuel(doubled, 9);
    }
    while i < steps
        invariant
            i <= steps <= 8,
            ms == 100 * doubled(i as nat),
            ms <= 25_600,
            doubled(8) == 256,
            forall|n: nat| n <= 8 ==> #[trigger] doubled(n) <= 256,
        decreases steps - i,
    {
        assert(doubled((i + 1) as nat) == 2 * doubled(i as nat));
        ms = ms * 2;
        i = i + 1;
        assert(doubled(i as nat) <= 256);
    }
    if ms < MAX_DELAY_MS {
        ms
    } else {
        MAX_DELAY_MS
    }
}

/// How the supervision of an instance stands.
#[derive(Debug, PartialEq, Eq)]
pub enum State {
    Starting,
    /// `pids` are those of the whole tree of processes.
    Running { pids: Vec<u32>, restarts: u32 },
    Backoff { delay_ms: u64, restarts: u32 },
    /// It ended, and is not started again.
    Exited { outcome: Outcome, restarts: u32 },
    /// It was stopped on request.
    Stopped,
    /// It could not be started or waited for.
    Failed { error: String },
}

/// How the supervision stands, as texts and sequences.
#[verifier::ext_equal]
pub enum Condition {
    Starting,
    Running { pids: Seq<u32>, restarts: u32 },
    Backoff { delay_ms: u64, restarts: u32 },
    Exited { outcome: Outcome, restarts: u32 },
    Stopped,
    Failed { error: Seq<char> },
}

impl View for State {
    type V = Condition;

    open spec fn view(&self) -> Condition {
        match *self {
            State::Starting => Condition::Starting,
            State::Running { pids, restarts } => Condition::Running { pids: pids@, restarts },
            State::Backoff { delay_ms, restarts } => Condition::Backoff { delay_ms, restarts },
            State::Exited { outcome, restarts } => Condition::Exited { outcome, restarts },
            State::Stopped => Condition::Stopped,
            State::Failed { error } => Condition::Failed { error: error@ },
        }
    }
}

/// Nothing follows this condition.
pub open spec fn terminal(c: Condition) -> bool {
    c is Exited || c is Stopped || c is Failed
}

/// What is reported of a condition.
pub open spec fn reported(c: Condition) -> instance::Activity {
    match c {
        Condition::Starting => instance::Activity::Starting,
        Condition::Running { pids, restarts } => instance::Activity::Running { pids, restarts },
        Condition::Backoff { delay_ms, restarts } => instance::Activity::Backoff {
            delay_ms,
            restarts,
        },
        Condition::Exited { outcome, restarts } => match outcome {
            Outcome::Exited(code) => instance::Activity::Exited {
                code: Some(code),
                signal: None,
                restarts,
            },
            Outcome::Signalled(signal) => instance::Activity::Exited {
                code: None,
                signal,
                restarts,
            },
            Outcome::Other => instance::Activity::Exited { code: None, signal: None, restarts },
        },
        Condition::Stopped => instance::Activity::Stopped,
        Condition::Failed { error } => instance::Activity::Failed(error),
    }
}

fn copy_pids(pids: &Vec<u32>) -> (r: Vec<u32>)
    ensures
        r@ == pids@,
{
    let mut out: Vec<u32> = Vec::new();
    let mut i: usize = 0;
    while i < pids.len()
        invariant
            i <= pids.len(),
            out@ == pids@.take(i as int),
        decreases pids.len() - i,
    {
        out.push(pids[i]);
        i = i + 1;
        assert(out@ =~= pids@.take(i as int));
    }
    assert(out@ =~= pids@);
    out
}

impl State {
    pub fn is_terminal(&self) -> (r: bool)
        ensures
            r == terminal(self@),
    {
        matches!(self, State::Exited { .. } | State::Stopped | State::Failed { .. })
    }

    /// The same state, once more.
    pub fn copy(&self) -> (r: State)
        ensures
            r@ == self@,
    {
        match self {
            State::Starting => State::Starting,
            State::Running { pids, restarts } => State::Running {
                pids: copy_pids(pids),
                restarts: *restarts,
            },
            State::Backoff { delay_ms, restarts } => State::Backoff {
                delay_ms: *delay_ms,
                restarts: *restarts,
            },
            State::Exited { outcome, restarts } => State::Exited {
                outcome: *outcome,
                restarts: *restarts,
            },
            State::Stopped => State::Stopped,
            State::Failed { error } => State::Failed { error: error.clone() },
        }
    }

    /// The form in which the state is told to clients.
    pub fn report(&self) -> (r: RunState)
        ensures
            r@ == reported(self@),
    {
        match self {
            State::Starting => RunState::Starting,
            State::Running { pids, restarts } => RunState::Running {
                pids: copy_pids(pids),
                restarts: *restarts,
            },
            State::Backoff { delay_ms, restarts } => RunState::Backoff {
                delay_ms: *delay_ms,
                restarts: *restarts,
            },
            State::Exited { outcome, restarts } => {
                let (code, signal): (Option<i32>, Option<i32>) = match outcome {
                    Outcome::Exited(code) => (Some(*code), None),
                    Outcome::Signalled(signal) => (None, *signal),
                    Outcome::Other => (None, None),
                };
                RunState::Exited { code, signal, restarts: *restarts }
            },
            State::Stopped => RunState::Stopped,
            State::Failed { error } => RunState::Failed(error.clone()),
        }
    }
}

/// Where a supervision is between two events.
#[derive(Clone, Copy, Debug, PartialEq, Eq, Structural)]
pub enum Phase {
    /// About to start the process.
    Fresh,
    /// The process is being started.
    Spawning,
    /// The process runs, its output is read.
    Watching,
    /// The output has ended, the process is waited for.
    Reaping,
    /// The next start is waited for.
    Waiting,
    /// Nothing more will happen.
    Over,
}

/// What happened.
#[derive(Debug, PartialEq, Eq)]
pub enum Event {
    /// A start is due. `cancelled` says whether a stop has been asked for by now.
    Due { cancelled: bool },
    /// The process has been started.
    Spawned { pids: Vec<u32> },
    /// It could not be started.
    SpawnFailed { error: String },
    /// It wrote a line, or something that is none. `listeners` counts who is attached.
    Output { line: Option<Vec<u8>>, listeners: usize },
    /// Its output has ended.
    OutputEnded,
    /// A stop has been asked for.
    Cancelled,
    /// It was waited for.
    Finished(Outcome),
    /// It could not be waited for.
    FinishFailed { error: String },
}

/// What happened, as sequences.
#[verifier::ext_equal]
pub enum Happening {
    Due { cancelled: bool },
    Spawned { pids: Seq<u32> },
    SpawnFailed { error: Seq<char> },
    Output { line: Option<Seq<u8>>, listeners: usize },
    OutputEnded,
    Cancelled,
    Finished(Outcome),
    FinishFailed { error: Seq<char> },
}

impl View for Event {
    type V = Happening;

    open spec fn view(&self) -> Happening {
        match *self {
            Event::Due { cancelled } => Happening::Due { cancelled },
            Event::Spawned { pids } => Happening::Spawned { pids: pids@ },
            Event::SpawnFailed { error } => Happening::SpawnFailed { error: error@ },
            Event::Output { line, listeners } => Happening::Output {
                line: match line {
                    Some(l) => Some(l@),
                    None => None,
                },
                listeners,
            },
            Event::OutputEnded => Happening::OutputEnded,
            Event::Cancelled => Happening::Cancelled,
            Event::Finished(outcome) => Happening::Finished(outcome),
            Event::FinishFailed { error } => Happening::FinishFailed { error: error@ },
        }
    }
}

/// What is done about it, in this order.
#[derive(Debug, PartialEq, Eq)]
pub enum Act {
    /// Nothing.
    Ignore,
    /// Tell the state, then start the process.
    Spawn(State),
    /// Tell the state, and read the output.
    Watch(State),
    /// Send this to everyone attached.
    Send(Vec<u8>),
    /// Wait for the process.
    Reap,
    /// Tell the state, then sleep for its delay.
    Sleep(State),
    /// End the whole tree of processes, then tell the state and be done.
    ShutDown(State),
    /// Tell the state and be done.
    End(State),
}

/// What is done, over conditions and bytes.
#[verifier::ext_equal]
pub enum Deed {
    Ignore,
    Spawn(Condition),
    Watch(Condition),
    Send(Seq<u8>),
    Reap,
    Sleep(Condition),
    ShutDown(Condition),
    End(Condition),
}

impl View for Act {
    type V = Deed;

    open spec fn view(&self) -> Deed {
        match *self {
            Act::Ignore => Deed::Ignore,
            Act::Spawn(s) => Deed::Spawn(s@),
            Act::Watch(s) => Deed::Watch(s@),
            Act::Send(chunk) => Deed::Send(chunk@),
            Act::Reap => Deed::Reap,
            Act::Sleep(s) => Deed::Sleep(s@),
            Act::ShutDown(s) => Deed::ShutDown(s@),
            Act::End(s) => Deed::End(s@),
        }
    }
}

/// The supervision of one instance.
#[derive(Clone, Copy, Debug, PartialEq, Eq, Structural)]
pub struct Supervisor {
    pub policy: RetryPolicy,
    pub restarts: u32,
    pub phase: Phase,
}

/// What comes of an event: the supervision after it, and what is done.
pub open spec fn stepped(s: Supervisor, event: Happening) -> (Supervisor, Deed) {
    let over = Supervisor { phase: Phase::Over, ..s };
    match (s.phase, event) {
        (Phase::Fresh, Happening::Due { cancelled }) | (
            Phase::Waiting,
            Happening::Due { cancelled },
        ) => if cancelled {
            (over, Deed::End(Condition::Stopped))
        } else {
            (Supervisor { phase: Phase::Spawning, ..s }, Deed::Spawn(Condition::Starting))
        },
        (Phase::Spawning, Happening::Spawned { pids }) => (
            Supervisor { phase: Phase::Watching, ..s },
            Deed::Watch(Condition::Running { pids, restarts: s.restarts }),
        ),
        // A process that cannot be started has not crashed: it is not tried again.
        (Phase::Spawning, Happening::SpawnFailed { error }) => (
            over,
            Deed::End(Condition::Failed { error }),
        ),
        (Phase::Watching, Happening::Output { line, listeners }) => (
            s,
            match line {
                Some(line) => if listeners > 0 {
                    Deed::Send(line.push(10))
                } else {
                    Deed::Ignore
                },
                None => Deed::Ignore,
            },
        ),
        (Phase::Watching, Happening::Cancelled) => (over, Deed::ShutDown(Condition::Stopped)),
        (Phase::Watching, Happening::OutputEnded) => (
            Supervisor { phase: Phase::Reaping, ..s },
            Deed::Reap,
        ),
        (Phase::Reaping, Happening::Finished(outcome)) => if restart_due(
            s.policy,
            outcome,
            s.restarts,
        ) {
            let restarts = (s.restarts + 1) as u32;
            (
                Supervisor { restarts, phase: Phase::Waiting, ..s },
                Deed::Sleep(Condition::Backoff { delay_ms: backoff(restarts) as u64, restarts }),
            )
        } else {
            (over, Deed::End(Condition::Exited { outcome, restarts: s.restarts }))
        },
        (Phase::Reaping, Happening::FinishFailed { error }) => (
            over,
            Deed::End(Condition::Failed { error }),
        ),
        (Phase::Waiting, Happening::Cancelled) => (over, Deed::End(Condition::Stopped)),
        _ => (s, Deed::Ignore),
    }
}

/// The count of restarts has room for this event.
pub open spec fn countable(s: Supervisor, event: Happening) -> bool {
    s.phase == Phase::Reaping ==> (event matches Happening::Finished(outcome) ==> restart_due(
        s.policy,
        outcome,
        s.restarts,
    ) ==> s.restarts < u32::MAX)
}

/// The line with the break that was taken off it.
fn with_break(line: Vec<u8>) -> (r: Vec<u8>)
    ensures
        r@ == line@.push(10),
{
    let mut chunk = line;
    chunk.push(10);
    chunk
}

impl Supervisor {
    /// A supervision whose first start is due.
    pub fn new(policy: RetryPolicy) -> (r: Supervisor)
        ensures
            r == (Supervisor { policy, restarts: 0, phase: Phase::Fresh }),
    {
        Supervisor { policy, restarts: 0, phase: Phase::Fresh }
    }

    /// What is to be done about an event.
    pub fn supervise(&mut self, event: Event) -> (r: Act)
        requires
            countable(*old(self), event@),
        ensures
            (*final(self), r@) == stepped(*old(self), event@),
    {
        match (self.phase, event) {
            (Phase::Fresh, Event::Due { cancelled }) | (
                Phase::Waiting,
                Event::Due { cancelled },
            ) => {
                if cancelled {
                    self.phase = Phase::Over;
                    Act::End(State::Stopped)
                } else {
                    self.phase = Phase::Spawning;
                    Act::Spawn(State::Starting)
                }
            },
            (Phase::Spawning, Event::Spawned { pids }) => {
                self.phase = Phase::Watching;
                Act::Watch(State::Running { pids, restarts: self.restarts })
            },
            (Phase::Spawning, Event::SpawnFailed { error }) => {
                self.phase = Phase::Over;
                Act::End(State::Failed { error })
            },
            (Phase::Watching, Event::Output { line, listeners }) => {
                match line {
                    Some(line) => {
                        if listeners > 0 {
                            Act::Send(with_break(line))
                        } else {
                            Act::Ignore
                        }
                    },
                    None => Act::Ignore,
                }
            },
            (Phase::Watching, Event::Cancelled) => {
                self.phase = Phase::Over;
                Act::ShutDown(State::Stopped)
            },
            (Phase::Watching, Event::OutputEnded) => {
                self.phase = Phase::Reaping;
                Act::Reap
            },
            (Phase::Reaping, Event::Finished(outcome)) => {
                if self.policy.should_restart(&outcome, self.restarts) {
                    self.restarts = self.restarts + 1;
                    self.phase = Phase::Waiting;
                    let delay_ms: u64 = backoff_delay(self.restarts);
                    Act::Sleep(State::Backoff { delay_ms, restarts: self.restarts })
                } else {
                    self.phase = Phase::Over;
                    Act::End(State::Exited { outcome, restarts: self.restarts })
                }
            },
            (Phase::Reaping, Event::FinishFailed { error }) => {
                self.phase = Phase::Over;
                Act::End(State::Failed { error })
            },
            (Phase::Waiting, Event::Cancelled) => {
                self.phase = Phase::Over;
                Act::End(State::Stopped)
            },
            _ => Act::Ignore,
        }
    }
}

/// The supervision after a run of events.
pub open spec fn run_through(s: Supervisor, events: Seq<Happening>) -> Supervisor
    decreases events.len(),
{
    if events.len() == 0 {
        s
    } else {
        stepped(run_through(s, events.drop_last()), events.last()).0
    }
}

/// The wait before a restart never gets shorter, and never passes its cap.
pub proof fn waits_grow_up_to_the_cap(a: u32, b: u32)
    requires
        a <= b,
    ensures
        100 <= backoff(a) <= backoff(b) <= MAX_DELAY_MS,
{
    let x = if a < 8 { a as nat } else { 8 };
    let y = if b < 8 { b as nat } else { 8 };
    doubling_grows(0, x);
    doubling_grows(x, y);
}

proof fn doubling_grows(a: nat, b: nat)
    requires
        a <= b,
    ensures
        doubled(a) <= doubled(b),
        doubled(0) == 1,
    decreases b,
{
    if a < b {
        doubling_grows(a, (b - 1) as nat);
        doubling_is_positive((b - 1) as nat);
    }
}

proof fn doubling_is_positive(n: nat)
    ensures
        doubled(n) > 0,
    decreases n,
{
    if n > 0 {
        doubling_is_positive((n - 1) as nat);
    }
}

/// An instance with a budget of restarts is never started again beyond it,
/// whatever happens to it.
pub proof fn restarts_keep_to_the_budget(n: u32, events: Seq<Happening>)
    ensures
        run_through(
            Supervisor { policy: RetryPolicy::Retry(n), restarts: 0, phase: Phase::Fresh },
            events,
        ).restarts <= n,
        run_through(
            Supervisor { policy: RetryPolicy::Retry(n), restarts: 0, phase: Phase::Fresh },
            events,
        ).policy == RetryPolicy::Retry(n),
    decreases events.len(),
{
    if events.len() > 0 {
        restarts_keep_to_the_budget(n, events.drop_last());
    }
}

/// An instance that is never to be restarted is started once at most: no wait for
/// another start ever comes.
pub proof fn never_means_once(events: Seq<Happening>)
    ensures
        ({
            let s = run_through(
                Supervisor { policy: RetryPolicy::Never, restarts: 0, phase: Phase::Fresh },
                events,
            );
            s.restarts == 0 && s.phase != Phase::Waiting && s.policy == RetryPolicy::Never
        }),
    decreases events.len(),
{
    if events.len() > 0 {
        never_means_once(events.drop_last());
    }
}

/// A supervision is over exactly when it has told a state that nothing follows.
pub proof fn the_last_word_is_terminal(s: Supervisor, event: Happening)
    requires
        s.phase != Phase::Over,
    ensures
        stepped(s, event).0.phase == Phase::Over <==> match stepped(s, event).1 {
            Deed::ShutDown(c) => terminal(c),
            Deed::End(c) => terminal(c),
            _ => false,
        },
        match stepped(s, event).1 {
            Deed::Spawn(c) => !terminal(c),
            Deed::Watch(c) => !terminal(c),
            Deed::Sleep(c) => !terminal(c),
            _ => true,
        },
{
}

/// Once over, a supervision stays over and does nothing more.
pub proof fn nothing_follows_the_end(s: Supervisor, event: Happening)
    requires
        s.phase == Phase::Over,
    ensures
        stepped(s, event) == (s, Deed::Ignore),
{
}

/// A stop that is asked for while the process runs, or while its restart is waited
/// for, is the end, whatever the policy says: the instance is reported as stopped.
pub proof fn stopping_beats_restarting(s: Supervisor)
    requires
        s.phase == Phase::Watching || s.phase == Phase::Waiting,
    ensures
        stepped(s, Happening::Cancelled).0.phase == Phase::Over,
        stepped(s, Happening::Cancelled).1 == Deed::ShutDown(Condition::Stopped) || stepped(
            s,
            Happening::Cancelled,
        ).1 == Deed::End(Condition::Stopped),
{
}

/// A process that cannot be started is not tried again, whatever the policy says.
pub proof fn failed_starts_are_not_retried(s: Supervisor, error: Seq<char>)
    requires
        s.phase == Phase::Spawning,
    ensures
        stepped(s, Happening::SpawnFailed { error }) == (
            Supervisor { phase: Phase::Over, ..s },
            Deed::End(Condition::Failed { error }),
        ),
{
}

/// What clients are told of a condition is active exactly where something may
/// still follow it.
pub proof fn reports_tell_what_is_active(state: State, told: RunState)
    requires
        told@ == reported(state@),
    ensures
        instance::active(told) == !terminal(state@),
{
}

/// What the policies ask for: `Always` another start after every end, however often
/// it was restarted; `OnCrash` after every end but a clean exit; `Never` after none;
/// `Retry` after any end, until its budget is spent.
pub proof fn policies_keep_their_word(outcome: Outcome, restarts: u32, budget: u32)
    ensures
        restart_due(RetryPolicy::Always, outcome, restarts),
        !restart_due(RetryPolicy::Never, outcome, restarts),
        outcome == Outcome::Exited(0) ==> !restart_due(RetryPolicy::OnCrash, outcome, restarts),
        outcome != Outcome::Exited(0) ==> restart_due(RetryPolicy::OnCrash, outcome, restarts),
        restarts < budget ==> restart_due(RetryPolicy::Retry(budget), outcome, restarts),
        restarts >= budget ==> !restart_due(RetryPolicy::Retry(budget), outcome, restarts),
{
}

/// An end is told as final only where the policy gives up: never under `Always`, under
/// `OnCrash` only after a clean exit, under `Retry` only once the budget is spent. It
/// tells how the process ended and how often it was restarted.
pub proof fn final_ends_are_owed_to_the_policy(s: Supervisor, event: Happening)
    requires
        stepped(s, event).1 matches Deed::End(Condition::Exited { .. }),
    ensures
        s.phase == Phase::Reaping,
        s.policy != RetryPolicy::Always,
        s.policy == RetryPolicy::OnCrash ==> event == Happening::Finished(Outcome::Exited(0)),
        s.policy matches RetryPolicy::Retry(n) ==> s.restarts >= n,
        event matches Happening::Finished(outcome) && stepped(s, event).1 == Deed::End(
            Condition::Exited { outcome, restarts: s.restarts },
        ),
{
}

/// No supervision ever shows a final end under `Always`, whatever happens to it: it is
/// over only by a stop or a failure.
pub proof fn always_is_for_ever(events: Seq<Happening>, event: Happening)
    ensures
        ({
            let s = run_through(
                Supervisor { policy: RetryPolicy::Always, restarts: 0, phase: Phase::Fresh },
                events,
            );
            &&& s.policy == RetryPolicy::Always
            &&& match stepped(s, event).1 {
                Deed::End(c) => c is Stopped || c is Failed,
                Deed::ShutDown(c) => c is Stopped,
                _ => true,
            }
        }),
    decreases events.len(),
{
    if events.len() > 0 {
        always_is_for_ever(events.drop_last(), events.last());
    }
}

/// A process that ends is restarted or given up at once, by its policy. A restart is
/// counted, waited for, and then made.
pub proof fn an_end_leads_to_a_restart_or_to_the_last_word(s: Supervisor, outcome: Outcome)
    requires
        s.phase == Phase::Reaping,
        s.restarts < u32::MAX,
    ensures
        ({
            let (after, deed) = stepped(s, Happening::Finished(outcome));
            let again = match s.policy {
                RetryPolicy::Never => false,
                RetryPolicy::OnCrash => outcome != Outcome::Exited(0),
                RetryPolicy::Always => true,
                RetryPolicy::Retry(n) => s.restarts < n,
            };
            if again {
                &&& after.restarts == s.restarts + 1
                &&& after.phase == Phase::Waiting
                &&& deed matches Deed::Sleep(Condition::Backoff { delay_ms, restarts })
                    && restarts == s.restarts + 1 && delay_ms == backoff((s.restarts + 1) as u32)
                &&& stepped(after, Happening::Due { cancelled: false }).1 == Deed::Spawn(
                    Condition::Starting,
                )
            } else {
                &&& after.restarts == s.restarts
                &&& after.phase == Phase::Over
                &&& deed == Deed::End(Condition::Exited { outcome, restarts: s.restarts })
            }
        }),
{
    waits_grow_up_to_the_cap((s.restarts + 1) as u32, (s.restarts + 1) as u32);
}

/// The first wait of the scale is a tenth of a second; each is twice the one before it
/// up to the eighth restart, and from there on they stay as long.
pub proof fn waits_double(restarts: u32)
    ensures
        backoff(0) == 100,
        restarts < 8 ==> backoff((restarts + 1) as u32) == 2 * backoff(restarts),
        restarts >= 8 ==> backoff(restarts) == 25_600,
{
    reveal_with_fuel(doubled, 10);
}

/// A start that is due is made, unless a stop was asked for meanwhile: then nothing is
/// started any more.
pub proof fn due_starts_are_made(s: Supervisor)
    requires
        s.phase == Phase::Fresh || s.phase == Phase::Waiting,
    ensures
        stepped(s, Happening::Due { cancelled: false }).1 == Deed::Spawn(Condition::Starting),
        stepped(s, Happening::Due { cancelled: false }).0.phase == Phase::Spawning,
        stepped(s, Happening::Due { cancelled: true }).1 == Deed::End(Condition::Stopped),
        stepped(s, Happening::Due { cancelled: true }).0.phase == Phase::Over,
{
}

/// A process that was started is told to run under its own process numbers, with the
/// restarts so far, and its output is read.
pub proof fn started_processes_are_watched(s: Supervisor, pids: Seq<u32>)
    requires
        s.phase == Phase::Spawning,
    ensures
        stepped(s, Happening::Spawned { pids }).0.phase == Phase::Watching,
        stepped(s, Happening::Spawned { pids }).1 == Deed::Watch(
            Condition::Running { pids, restarts: s.restarts },
        ),
{
}

/// Whoever is attached gets every line that the process writes, whole and with its
/// break; where nobody is, and where it is no line, nothing is sent. Output changes
/// nothing else.
pub proof fn lines_reach_who_is_attached(s: Supervisor, line: Option<Seq<u8>>, listeners: usize)
    requires
        s.phase == Phase::Watching,
    ensures
        ({
            let (after, deed) = stepped(s, Happening::Output { line, listeners });
            &&& after == s
            &&& line is Some && listeners > 0 ==> (deed matches Deed::Send(bytes) && bytes.len()
                == line->0.len() + 1 && bytes.take(line->0.len() as int) == line->0
                && bytes.last() == 10)
            &&& line is None || listeners == 0 ==> deed == Deed::Ignore
        }),
{
    if let Some(line) = line {
        assert(line.push(10).take(line.len() as int) =~= line);
    }
}

/// When its output ends, a process is waited for; where that fails, that is the end,
/// with what went wrong.
pub proof fn ended_output_means_waiting(s: Supervisor, error: Seq<char>)
    ensures
        s.phase == Phase::Watching ==> stepped(s, Happening::OutputEnded).0.phase == Phase::Reaping
            && stepped(s, Happening::OutputEnded).1 == Deed::Reap,
        s.phase == Phase::Reaping ==> stepped(s, Happening::FinishFailed { error }).0.phase
            == Phase::Over && stepped(s, Happening::FinishFailed { error }).1 == Deed::End(
            Condition::Failed { error },
        ),
{
}

/// A running process is taken down with everything that it started; a wait is just
/// given up.
pub proof fn stops_take_the_tree_down(s: Supervisor)
    ensures
        s.phase == Phase::Watching ==> stepped(s, Happening::Cancelled).1 == Deed::ShutDown(
            Condition::Stopped,
        ),
        s.phase == Phase::Waiting ==> stepped(s, Happening::Cancelled).1 == Deed::End(
            Condition::Stopped,
        ),
{
}

/// The policy of a supervision never changes, and its restarts are counted one by one,
/// only where a process has ended.
pub proof fn counts_go_up_by_one(s: Supervisor, event: Happening)
    requires
        countable(s, event),
    ensures
        stepped(s, event).0.policy == s.policy,
        stepped(s, event).0.restarts != s.restarts ==> event is Finished && s.phase
            == Phase::Reaping && stepped(s, event).0.restarts == s.restarts + 1,
{
}

/// What does not belong where a supervision stands changes nothing.
pub proof fn strays_change_nothing(s: Supervisor, event: Happening)
    requires
        match s.phase {
            Phase::Fresh => !(event is Due),
            Phase::Spawning => !(event is Spawned) && !(event is SpawnFailed),
            Phase::Watching => !(event is Output) && !(event is OutputEnded) && !(
            event is Cancelled),
            Phase::Reaping => !(event is Finished) && !(event is FinishFailed),
            Phase::Waiting => !(event is Due) && !(event is Cancelled),
            Phase::Over => true,
        },
    ensures
        stepped(s, event) == (s, Deed::Ignore),
{
}

/// Clients are told what there is to tell: the process numbers and restarts of what
/// runs, the wait of what is restarted, the code or the signal of what ended, the words
/// of what failed.
pub proof fn reports_keep_the_facts(c: Condition)
    ensures
        match c {
            Condition::Starting => reported(c) is Starting,
            Condition::Running { pids, restarts } => reported(c) matches instance::Activity::Running {
                pids: p,
                restarts: n,
            } && p == pids && n == restarts,
            Condition::Backoff { delay_ms, restarts } => {
                reported(c) matches instance::Activity::Backoff { delay_ms: d, restarts: n } && d
                    == delay_ms && n == restarts
            },
            Condition::Exited { outcome, restarts } => {
                reported(c) matches instance::Activity::Exited { code, signal, restarts: n } && n
                    == restarts && (outcome matches Outcome::Exited(k) ==> code == Some(k)
                    && signal is None) && (outcome matches Outcome::Signalled(k) ==> code is None
                    && signal == k) && (outcome is Other ==> code is None && signal is None)
            },
            Condition::Stopped => reported(c) is Stopped,
            Condition::Failed { error } => reported(c) == instance::Activity::Failed(error),
        },
        terminal(c) <==> !(c is Starting || c is Running || c is Backoff),
{
}

} // verus!
