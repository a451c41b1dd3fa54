//! The plain list of servers and instances.
use vstd::prelude::*;

use crate::client::book::{Known, ServerEntry};
use crate::client::net;
use crate::client::net::{NetError, Vitals};
use crate::client::ui;
use crate::protocol::instance::{InstanceStatResponse, RepoState, RunState};
use crate::text;

verus! {

/// How an instance is doing, in words. `secs` is its restart delay in seconds,
/// with one decimal.
pub open spec fn status_text(inst: InstanceStatResponse, secs: Seq<char>) -> Seq<char> {
    if inst.self_managed {
        "this server"@
    } else {
        match inst.repo {
            RepoState::Provisioning => "preparing"@,
            RepoState::CloneFailed(e) => "source failed: "@ + text::first_of_lines(e@),
            RepoState::Ready => match inst.run {
                RunState::NotRunning => "stopped"@,
                RunState::Stopped => "stopped"@,
                RunState::Starting => "starting"@,
                RunState::Running { pids, restarts } => ui::running_text(pids@, restarts),
                RunState::Backoff { restarts, .. } => ui::backoff_text(secs, restarts),
                RunState::Exited { code, signal, .. } => match code {
                    Some(c) => "exited ("@ + text::decimal_int(c as int) + ")"@,
                    None => match signal {
                        Some(s) => "killed by signal "@ + text::decimal_int(s as int),
                        None => "exited"@,
                    },
                },
                RunState::Failed(e) => "failed: "@ + text::first_of_lines(e@),
            },
        }
    }
}

pub fn status(inst: &InstanceStatResponse, secs: &str) -> (r: String)
    ensures
        r@ == status_text(*inst, secs@),
{
    if inst.self_managed {
        return "this server".to_string();
    }
    match &inst.repo {
        RepoState::Provisioning => {
            return "preparing".to_string();
        },
        RepoState::CloneFailed(e) => {
            return text::cat2("source failed: ", &text::first_line_of(e));
        },
        RepoState::Ready => {},
    }
    match &inst.run {
        RunState::NotRunning => "stopped".to_string(),
        RunState::Stopped => "stopped".to_string(),
        RunState::Starting => "starting".to_string(),
        RunState::Running { pids, restarts } => ui::running_label(pids, *restarts),
        RunState::Backoff { restarts, .. } => ui::backoff_label(secs, *restarts),
        RunState::Exited { code, signal, .. } => match code {
            Some(c) => text::cat3("exited (", &text::decimal_of_i32(*c), ")"),
            None => match signal {
                Some(s) => text::cat2("killed by signal ", &text::decimal_of_i32(*s)),
                None => "exited".to_string(),
            },
        },
        RunState::Failed(e) => text::cat2("failed: ", &text::first_line_of(e)),
    }
}

/// The line of an instance: name, identity, status.
pub open spec fn instance_text(inst: InstanceStatResponse, secs: Seq<char>) -> Seq<char> {
    "  "@ + text::column(inst.name@, 24) + " "@ + text::hex(inst.id as nat, 32) + "  "@
        + status_text(inst, secs)
}

/// The lines of a server. One that cannot be reached gets a line like any other.
pub open spec fn server_text(
    s: Known,
    result: Result<Vitals, NetError>,
    secs: Seq<Seq<char>>,
) -> Seq<Seq<char>> {
    let head = s.name + " ("@ + net::target_text(s.addr) + ")"@;
    match result {
        Ok(v) => {
            let none = if v.instances@.len() == 0 {
                seq!["  (no instances)"@]
            } else {
                seq![]
            };
            seq![head] + none + Seq::new(
                v.instances@.len(),
                |i: int| instance_text(v.instances@[i], secs[i]),
            )
        },
        Err(e) => seq![head + " — "@ + net::trouble_short(e@)],
    }
}

/// The lines of a server, given what asking it gave, and the restart delay of
/// each of its instances.
pub fn server_lines(s: &ServerEntry, result: &Result<Vitals, NetError>, secs: &Vec<String>) -> (r:
    Vec<String>)
    requires
        result matches Ok(v) ==> v.instances@.len() == secs@.len(),
    ensures
        text::views(r@) == server_text(s@, *result, text::views(secs@)),
{
    let head: String = text::cat4(&s.name, " (", &s.addr.text(), ")");
    let mut out: Vec<String> = Vec::new();
    match result {
        Ok(v) => {
            out.push(head);
            if v.instances.len() == 0 {
                out.push("  (no instances)".to_string());
            }
            let ghost front = text::views(out@);
            let ghost delays = text::views(secs@);
            let mut i: usize = 0;
            assert(front + Seq::new(
                0,
                |k: int| instance_text(v.instances@[k], delays[k]),
            ) =~= front);
            while i < v.instances.len()
                invariant
                    i <= v.instances.len(),
                    v.instances@.len() == secs@.len(),
                    delays == text::views(secs@),
                    text::views(out@) == front + Seq::new(
                        i as nat,
                        |k: int| instance_text(v.instances@[k], delays[k]),
                    ),
                decreases v.instances.len() - i,
            {
                let ghost before = text::views(out@);
                let inst: &InstanceStatResponse = &v.instances[i];
                assert(delays[i as int] == secs@[i as int]@);
                let mut line: String = text::cat4(
                    "  ",
                    &text::in_column(&inst.name, 24),
                    " ",
                    &text::hex_of(inst.id, 32),
                );
                line.append("  ");
                line.append(&status(inst, &secs[i]));
                let ghost l = line@;
                assert(l == instance_text(v.instances@[i as int], delays[i as int]));
                out.push(line);
                assert(text::views(out@) =~= before.push(l));
                i = i + 1;
                assert(text::views(out@) =~= front + Seq::new(
                    i as nat,
                    |k: int| instance_text(v.instances@[k], delays[k]),
                ));
            }
            assert(text::views(out@) =~= server_text(s@, *result, text::views(secs@)));
        },
        Err(e) => {
            out.push(text::cat3(&head, " — ", e.short()));
            assert(text::views(out@) =~= server_text(s@, *result, text::views(secs@)));
        },
    }
    out
}

/// What is said where there is no server.
pub fn no_servers() -> (r: &'static str)
    ensures
        r@ == "no servers configured — add one in the TUI (run `client` with no arguments)"@,
{
    "no servers configured — add one in the TUI (run `client` with no arguments)"
}

/// An instance whose files are ready is listed as stopped exactly where it is not active:
/// one that is starting, running or waiting for a restart never is.
pub proof fn the_active_are_never_listed_as_stopped(inst: InstanceStatResponse, secs: Seq<char>)
    requires
        !inst.self_managed,
        inst.repo is Ready,
    ensures
        inst.run is NotRunning || inst.run is Stopped ==> status_text(inst, secs) == "stopped"@,
        inst.run is Starting || inst.run is Running || inst.run is Backoff ==> status_text(
            inst,
            secs,
        ) != "stopped"@,
        inst.run is Exited || inst.run is Failed ==> status_text(inst, secs) != "stopped"@,
{
    reveal_strlit("stopped");
    reveal_strlit("starting");
    reveal_strlit("running (");
    reveal_strlit("restarting in ");
    reveal_strlit("exited (");
    reveal_strlit("exited");
    reveal_strlit("killed by signal ");
    reveal_strlit("failed: ");
    reveal_strlit(")");
    assert("stopped"@.len() == 7 && "starting"@.len() == 8 && "stopped"@[0] == 's');
    if let RunState::Running { pids, restarts } = inst.run {
        assert(ui::running_text(pids@, restarts)[0] == 'r');
    }
    if let RunState::Backoff { restarts, .. } = inst.run {
        assert(ui::backoff_text(secs, restarts)[0] == 'r');
    }
}

/// One that runs is listed with its first process number, and with its restarts where
/// there were any.
pub proof fn the_running_are_listed_with_their_pid(
    inst: InstanceStatResponse,
    secs: Seq<char>,
    pids: Vec<u32>,
    restarts: u32,
)
    requires
        !inst.self_managed,
        inst.repo is Ready,
        inst.run == (RunState::Running { pids, restarts }),
    ensures
        pids@.len() > 0 && restarts == 0 ==> status_text(inst, secs) == "running ("@ + ("pid "@
            + text::decimal(pids@[0] as nat)) + ")"@,
        pids@.len() > 0 && restarts > 0 ==> status_text(inst, secs) == "running ("@ + ("pid "@
            + text::decimal(pids@[0] as nat)) + ", "@ + text::decimal(restarts as nat)
            + " restarts)"@,
        pids@.len() == 0 && restarts == 0 ==> status_text(inst, secs) == "running ("@ + "no pids"@
            + ")"@,
{
}

/// What else is listed: the server's own instance as such, files that are on their way or
/// failed to come, and how the rest stands: about to run, about to run again and when, how
/// it ended, or why it could not start.
pub proof fn the_rest_is_listed_as_it_is(inst: InstanceStatResponse, secs: Seq<char>)
    ensures
        inst.self_managed ==> status_text(inst, secs) == "this server"@,
        !inst.self_managed && inst.repo is Provisioning ==> status_text(inst, secs) == "preparing"@,
        !inst.self_managed ==> (inst.repo matches RepoState::CloneFailed(e) ==> status_text(
            inst,
            secs,
        ) == "source failed: "@ + text::first_of_lines(e@)),
        !inst.self_managed && inst.repo is Ready ==> match inst.run {
            RunState::Starting => status_text(inst, secs) == "starting"@,
            RunState::Backoff { restarts, .. } => status_text(inst, secs) == "restarting in "@ + secs
                + "s ("@ + text::decimal(restarts as nat) + " restarts)"@,
            RunState::Exited { code, signal, .. } => match (code, signal) {
                (Some(c), _) => status_text(inst, secs) == "exited ("@ + text::decimal_int(c as int)
                    + ")"@,
                (None, Some(s)) => status_text(inst, secs) == "killed by signal "@
                    + text::decimal_int(s as int),
                (None, None) => status_text(inst, secs) == "exited"@,
            },
            RunState::Failed(e) => status_text(inst, secs) == "failed: "@ + text::first_of_lines(
                e@,
            ),
            _ => true,
        },
{
}

/// Each server has a line with its name and address. One that answered has a line for
/// each of its instances below that, in their order, each with its name, its identity and
/// how it stands; or a word that there are none. One that did not has what is wrong.
pub proof fn servers_are_listed_with_their_instances(
    s: Known,
    result: Result<Vitals, NetError>,
    secs: Seq<Seq<char>>,
    i: int,
)
    ensures
        ({
            let lines = server_text(s, result, secs);
            let head = s.name + " ("@ + net::target_text(s.addr) + ")"@;
            match result {
                Ok(v) => {
                    let n = v.instances@.len();
                    &&& lines[0] == head
                    &&& n == 0 ==> lines.len() == 2 && lines[1] == "  (no instances)"@
                    &&& n > 0 ==> lines.len() == n + 1
                    &&& 0 <= i < n ==> lines[i + 1] == "  "@ + text::column(
                        v.instances@[i].name@,
                        24,
                    ) + " "@ + text::hex(v.instances@[i].id as nat, 32) + "  "@ + status_text(
                        v.instances@[i],
                        secs[i],
                    )
                },
                Err(e) => lines.len() == 1 && lines[0] == head + " — "@ + net::trouble_short(e@),
            }
        }),
{
}

} // verus!
