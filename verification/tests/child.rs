//! The daemon: its instances, their supervision, its sessions.
use container::child::api::{
    checked, handle, respond, session_opened, stat, unreadable, Action, Response, TerminalMode,
    Todo,
};
use container::child::cli::{gather_value_routine, Answer};
use container::child::manager::{
    internal_error, stop_timed_out, InstanceManager, InstancePatch, Loaded,
};
use container::child::session::{token_matches, Offer, OfferAct, OfferEvent, SessionOffer};
use container::child::storage::{default_shell, parse_roots, ChildStg, InstanceConfig};
use container::child::supervise::{
    backoff_delay, Act, Event, Outcome, Phase, State, Supervisor, MAX_DELAY_MS,
};
use container::child::terminal::{
    attach_bridge, shell_bridge, Act as Bridged, AttachEvent, ShellEvent,
};
use container::child::transfer::{
    announced_length, length_prefix, part_path, resolve_path, resolve_path_by, settle, Fate,
};
use container::path::Platform;
use container::protocol::{ApiError, Env, ErrorCode, GroupStats, RepoState, RetryPolicy, RunState};
use container::sampling::{totals, Sample};

fn stg() -> ChildStg {
    ChildStg {
        addr: "0.0.0.0:5000".to_string(),
        config_path: "config.chld".to_string(),
        storage_path: "/var/ctchld".to_string(),
        file_roots: vec!["/srv/files".to_string()],
        session_ttl_secs: 30,
        shell: "/bin/sh".to_string(),
    }
}

fn config(id: u128, name: &str) -> InstanceConfig {
    InstanceConfig {
        id,
        name: name.to_string(),
        repo_url: "https://x/y.git".to_string(),
        branch: None,
        command: "node".to_string(),
        args: vec!["main.js".to_string()],
        env: Env::new(),
        autostart: true,
        retry_policy: RetryPolicy::Never,
    }
}

fn manager(all: Vec<(InstanceConfig, bool)>) -> InstanceManager {
    InstanceManager::new(
        stg(),
        all.into_iter().map(|(config, present)| Loaded { config, present }).collect(),
        Platform::Unix,
    )
}

fn code<T>(r: Result<T, ApiError>) -> ErrorCode {
    match r {
        Ok(_) => panic!("it was not refused"),
        Err(e) => e.code,
    }
}

fn message<T>(r: Result<T, ApiError>) -> String {
    match r {
        Ok(_) => panic!("it was not refused"),
        Err(e) => e.msg,
    }
}

fn no_patch() -> InstancePatch {
    InstancePatch {
        name: None,
        repo_url: None,
        branch: None,
        command: None,
        args: None,
        env: None,
        autostart: None,
        retry_policy: None,
    }
}

// ---- supervision ---------------------------------------------------------------------

#[test]
fn waits_double_up_to_their_cap() {
    let all: Vec<u64> = (0..12).map(backoff_delay).collect();
    assert_eq!(
        all,
        [100, 200, 400, 800, 1600, 3200, 6400, 12800, 25600, 25600, 25600, 25600]
    );
    assert!(backoff_delay(u32::MAX) <= MAX_DELAY_MS);
}

#[test]
fn policies_decide_over_restarts() {
    let crashed = Outcome::Exited(1);
    let clean = Outcome::Exited(0);
    assert!(!RetryPolicy::Never.should_restart(&crashed, 0));
    assert!(RetryPolicy::OnCrash.should_restart(&crashed, 99));
    assert!(!RetryPolicy::OnCrash.should_restart(&clean, 0));
    assert!(RetryPolicy::OnCrash.should_restart(&Outcome::Signalled(Some(9)), 0));
    assert!(RetryPolicy::Always.should_restart(&clean, 0));
    assert!(RetryPolicy::Retry(2).should_restart(&clean, 1));
    assert!(!RetryPolicy::Retry(2).should_restart(&crashed, 2));
}

/// Starts a process and lets it end; what is done about that.
fn one_run(s: &mut Supervisor, outcome: Outcome) -> Act {
    assert_eq!(s.supervise(Event::Due { cancelled: false }), Act::Spawn(State::Starting));
    let running = s.supervise(Event::Spawned { pids: vec![42] });
    assert_eq!(running, Act::Watch(State::Running { pids: vec![42], restarts: s.restarts }));
    assert_eq!(s.supervise(Event::OutputEnded), Act::Reap);
    s.supervise(Event::Finished(outcome))
}

#[test]
fn a_budget_of_restarts_is_kept() {
    let mut s = Supervisor::new(RetryPolicy::Retry(2));
    assert_eq!(
        one_run(&mut s, Outcome::Exited(1)),
        Act::Sleep(State::Backoff { delay_ms: 200, restarts: 1 })
    );
    assert_eq!(
        one_run(&mut s, Outcome::Exited(0)),
        Act::Sleep(State::Backoff { delay_ms: 400, restarts: 2 })
    );
    assert_eq!(
        one_run(&mut s, Outcome::Exited(1)),
        Act::End(State::Exited { outcome: Outcome::Exited(1), restarts: 2 })
    );
    assert_eq!(s.phase, Phase::Over);
    assert_eq!(s.supervise(Event::Due { cancelled: false }), Act::Ignore);
}

#[test]
fn a_stop_is_the_end_whatever_the_policy() {
    let mut s = Supervisor::new(RetryPolicy::Always);
    s.supervise(Event::Due { cancelled: false });
    s.supervise(Event::Spawned { pids: vec![] });
    assert_eq!(s.supervise(Event::Cancelled), Act::ShutDown(State::Stopped));

    let mut s = Supervisor::new(RetryPolicy::Always);
    one_run(&mut s, Outcome::Exited(1));
    assert_eq!(s.supervise(Event::Cancelled), Act::End(State::Stopped));

    let mut s = Supervisor::new(RetryPolicy::Always);
    assert_eq!(s.supervise(Event::Due { cancelled: true }), Act::End(State::Stopped));
}

#[test]
fn what_cannot_be_started_is_not_tried_again() {
    let mut s = Supervisor::new(RetryPolicy::Always);
    s.supervise(Event::Due { cancelled: false });
    assert_eq!(
        s.supervise(Event::SpawnFailed { error: "no such file".to_string() }),
        Act::End(State::Failed { error: "no such file".to_string() })
    );
    let mut s = Supervisor::new(RetryPolicy::Always);
    s.supervise(Event::Due { cancelled: false });
    s.supervise(Event::Spawned { pids: vec![] });
    s.supervise(Event::OutputEnded);
    assert_eq!(
        s.supervise(Event::FinishFailed { error: "lost".to_string() }),
        Act::End(State::Failed { error: "lost".to_string() })
    );
}

#[test]
fn output_goes_to_those_who_listen() {
    let mut s = Supervisor::new(RetryPolicy::Never);
    s.supervise(Event::Due { cancelled: false });
    s.supervise(Event::Spawned { pids: vec![] });
    let said = |listeners, line| Event::Output { line, listeners };
    assert_eq!(s.supervise(said(1, Some(b"hi".to_vec()))), Act::Send(b"hi\n".to_vec()));
    assert_eq!(s.supervise(said(0, Some(b"hi".to_vec()))), Act::Ignore);
    assert_eq!(s.supervise(said(1, None)), Act::Ignore);
}

#[test]
fn states_are_reported() {
    assert!(!State::Starting.is_terminal());
    assert!(State::Stopped.is_terminal());
    let exited = |outcome| State::Exited { outcome, restarts: 1 }.report();
    assert_eq!(
        exited(Outcome::Exited(3)),
        RunState::Exited { code: Some(3), signal: None, restarts: 1 }
    );
    assert_eq!(
        exited(Outcome::Signalled(Some(9))),
        RunState::Exited { code: None, signal: Some(9), restarts: 1 }
    );
    assert_eq!(
        exited(Outcome::Other),
        RunState::Exited { code: None, signal: None, restarts: 1 }
    );
    assert_eq!(State::Failed { error: "x".to_string() }.report(), RunState::Failed("x".to_string()));
}

// ---- instances -----------------------------------------------------------------------

#[test]
fn names_are_taken_once() {
    let mut all = manager(vec![]);
    let id = all.create_as(config(0, "web"), 5).unwrap();
    assert_eq!(id, 5);
    assert_eq!(code(all.create(config(0, "web"))), ErrorCode::Conflict);
    assert_eq!(
        message(all.create(config(0, "web"))),
        "an instance named 'web' already exists"
    );
    let other = all.create(config(0, "db")).unwrap();
    assert_ne!(other, all.create(config(0, "cache")).unwrap());
    let rename = InstancePatch { name: Some("web".to_string()), ..no_patch() };
    assert_eq!(code(all.update_config(other, rename)), ErrorCode::Conflict);
    let own = InstancePatch { name: Some("web".to_string()), ..no_patch() };
    assert_eq!(all.update_config(5, own), Ok(()));
}

#[test]
fn a_patch_changes_what_it_names() {
    let mut all = manager(vec![(config(5, "web"), true)]);
    let patch = InstancePatch {
        branch: Some(Some("dev".to_string())),
        autostart: Some(false),
        retry_policy: Some(RetryPolicy::Always),
        ..no_patch()
    };
    assert_eq!(all.update_config(5, patch), Ok(()));
    let mut expected = config(5, "web");
    expected.branch = Some("dev".to_string());
    expected.autostart = false;
    expected.retry_policy = RetryPolicy::Always;
    assert_eq!(all.configs(), [expected]);
    assert_eq!(code(all.update_config(6, no_patch())), ErrorCode::NotFound);
}

#[test]
fn a_new_instance_runs_once_its_files_are_there() {
    let mut all = manager(vec![]);
    let id = all.create(config(0, "web")).unwrap();
    assert_eq!(message(all.may_run(id)), "repo clone still in progress");
    assert_eq!(code(all.remove(id)), ErrorCode::Provisioning);
    assert_eq!(code(all.update_repo(id)), ErrorCode::Provisioning);
    let order = all.clone_order(id).unwrap();
    assert_eq!(order.url, "https://x/y.git");
    assert_eq!(order.repo_dir, format!("/var/ctchld/instances/{id:032x}/repo"));

    all.clone_finished(id, Err("no network".to_string()));
    assert_eq!(message(all.may_run(id)), "repo is not available: no network");
    assert_eq!(code(all.may_run(id)), ErrorCode::GitError);
    assert_eq!(all.update_repo(id), Ok(()));
    all.clone_finished(id, Ok(()));
    assert_eq!(all.may_run(id), Ok(()));
    assert_eq!(
        message(all.run(id, Err("limit".to_string()))),
        "creating process group: limit"
    );
    assert_eq!(all.run(id, Ok(())), Ok(()));
    assert_eq!(code(all.run(id, Ok(()))), ErrorCode::AlreadyRunning);
    assert_eq!(
        message(all.update_repo(id)),
        "instance is running; stop it before updating the repo"
    );
    assert_eq!(all.stop(id), Ok(()));
    assert_eq!(all.attach_handles(id), Ok(()));
    all.observe(id, State::Stopped);
    assert_eq!(message(all.kill(id)), "instance is not running");
    assert_eq!(all.remove(id), Ok(true));
    assert_eq!(code(all.stop(id)), ErrorCode::NotFound);
    all.clone_finished(id, Ok(()));
    assert!(all.clone_order(id).is_none());
}

#[test]
fn kept_instances_come_back_at_the_next_start() {
    let mut all = manager(vec![(config(1, "a"), true), (config(2, "b"), false)]);
    let mut c = config(3, "c");
    c.autostart = false;
    all.create_as(c, 3).unwrap();
    let kept = all.configs();
    let again = manager(kept.into_iter().map(|c| (c, true)).collect());
    assert_eq!(again.configs(), all.configs());
    let mut ids = again.autostart();
    ids.sort();
    assert_eq!(ids, [1, 2]);
    assert_eq!(
        all.check(2, None).unwrap().repo,
        RepoState::CloneFailed("repo directory missing; run UpdateRepo".to_string())
    );
    assert_eq!(all.autostart(), [1]);
}

#[test]
fn statistics_are_those_of_the_active() {
    let mut all = manager(vec![(config(1, "a"), true)]);
    let stats = Some(GroupStats { processes: 2, cpu_time_ms: None, peak_memory_bytes: Some(9) });
    assert_eq!(all.check(1, stats).unwrap().stats, None);
    all.run(1, Ok(())).unwrap();
    let status = all.check(1, stats).unwrap();
    assert_eq!(status.stats, stats);
    assert_eq!(status.run, RunState::Starting);
    assert_eq!(all.shutdown_all(), [1]);
    assert_eq!(all.shutdown_all(), []);
    assert_eq!(all.list()[0].run, RunState::NotRunning);
}

#[test]
fn a_shell_needs_the_directory() {
    let all = manager(vec![(config(1, "a"), true)]);
    assert!(all.repo_dir_of(1, true).unwrap().ends_with("00000001/repo"));
    assert_eq!(
        message(all.repo_dir_of(1, false)),
        "instance repo directory does not exist yet"
    );
    assert_eq!(code(all.repo_dir_of(2, true)), ErrorCode::NotFound);
    assert_eq!(internal_error("kill failed: ", "x").msg, "kill failed: x");
    assert_eq!(stop_timed_out().msg, "instance did not stop within 20s");
}

// ---- calls ---------------------------------------------------------------------------

#[test]
fn calls_are_judged() {
    let mut all = manager(vec![(config(1, "a"), true)]);
    assert_eq!(handle(&mut all, Action::Ping), Todo::Reply(Response::Pong));
    assert_eq!(handle(&mut all, Action::Stat), Todo::Sample);
    assert_eq!(handle(&mut all, Action::RunInstance { id: 1 }), Todo::Start { id: 1 });
    assert!(matches!(
        handle(&mut all, Action::StopInstance { id: 1 }),
        Todo::Reply(Response::Error(e)) if e.code == ErrorCode::NotRunning
    ));
    assert!(matches!(
        handle(&mut all, Action::CheckInstance { id: 9 }),
        Todo::Reply(Response::Error(e)) if e.code == ErrorCode::NotFound
    ));
    assert_eq!(handle(&mut all, Action::CheckInstance { id: 1 }), Todo::Measure { id: 1 });
    assert_eq!(handle(&mut all, Action::UpdateRepo { id: 1 }), Todo::Renew { id: 1 });
    assert!(matches!(
        handle(&mut all, Action::RemoveInstance { id: 1, delete_files: true }),
        Todo::Reply(Response::Error(e)) if e.code == ErrorCode::Provisioning
    ));
    all.clone_finished(1, Ok(()));
    assert_eq!(
        handle(&mut all, Action::OpenTerminal { mode: TerminalMode::Shell(1) }),
        Todo::Shell { id: 1 }
    );
    assert!(matches!(
        handle(&mut all, Action::OpenTerminal { mode: TerminalMode::Attach(1) }),
        Todo::Reply(Response::Error(_))
    ));
    assert_eq!(
        handle(&mut all, Action::RemoveInstance { id: 1, delete_files: true }),
        Todo::Removed { id: 1, left: false, delete_files: true }
    );
    assert_eq!(handle(&mut all, Action::ListInstances), Todo::Reply(Response::InstanceList(vec![])));
}

#[test]
fn a_created_instance_is_listed() {
    let mut all = manager(vec![]);
    let todo = handle(
        &mut all,
        Action::CreateInstance {
            name: "web".to_string(),
            repo_url: "u".to_string(),
            branch: None,
            command: "c".to_string(),
            args: vec![],
            env: Env::new(),
            autostart: false,
            retry_policy: RetryPolicy::OnCrash,
        },
    );
    let Todo::Created { id } = todo else { panic!("it is created") };
    let Todo::Reply(Response::InstanceList(list)) = handle(&mut all, Action::ListInstances) else {
        panic!("it is listed")
    };
    assert_eq!(list.len(), 1);
    assert_eq!((list[0].id, list[0].name.as_str()), (id, "web"));
    assert!(matches!(checked(&all, id, None), Response::InstanceStatus(s) if s.config.id == id));
    assert!(matches!(checked(&all, id + 1, None), Response::Error(_)));
}

#[test]
fn the_machine_s_figures_are_summed() {
    let sample = Sample {
        disks: vec![(10, 1), (20, 2)],
        total_ram: 7,
        free_ram: 3,
        networks: vec![(5, 6), (7, 8), (0, 1)],
        cpu_usage_bits: 1.5f64.to_bits(),
    };
    assert_eq!(totals(&sample.networks), (12, 15));
    let Response::StatResponse { total_stg, free_stg, network_recv, cpu_usage_bits, .. } =
        stat(&manager(vec![]), &sample)
    else {
        panic!("figures are answered")
    };
    assert_eq!((total_stg, free_stg, network_recv), (30, 3, 12));
    assert_eq!(f64::from_bits(cpu_usage_bits), 1.5);
}

#[test]
fn outcomes_are_answered() {
    assert_eq!(respond(Ok(Response::Done)), Response::Done);
    let e = || ApiError { code: ErrorCode::Internal, msg: "x".to_string() };
    assert_eq!(respond(Err(e())), Response::Error(e()));
    let offer = SessionOffer { port: 9, token: vec![1], ttl_secs: 30 };
    assert_eq!(
        session_opened(Ok(offer), Some(4)),
        Response::SessionOpened { port: 9, token: vec![1], ttl_secs: 30, size: Some(4) }
    );
    assert!(matches!(
        session_opened(Err("in use".to_string()), None),
        Response::Error(e) if e.msg == "opening session listener: in use"
    ));
    assert_eq!(unreadable("/a", "gone").msg, "cannot read '/a': gone");
}

// ---- sessions ------------------------------------------------------------------------

#[test]
fn tokens_match_in_every_byte() {
    let token = [3u8; 32];
    assert!(token_matches(&token, &[3u8; 32]));
    for i in 0..32 {
        let mut other = token;
        other[i] ^= 0x80;
        assert!(!token_matches(&token, &other));
    }
}

#[test]
fn an_offer_is_taken_up_once_and_by_its_token() {
    let (mut offer, told) = Offer::open(4000, 30);
    assert_eq!((told.port, told.ttl_secs), (4000, 30));
    let mut token = [0u8; 32];
    token.copy_from_slice(&told.token);
    let (_, second) = Offer::open(4000, 30);
    assert_ne!(told.token, second.token);
    let mut wrong = token;
    wrong[0] ^= 1;
    assert_eq!(offer.on(OfferEvent::Presented(wrong)), OfferAct::Refuse);
    assert_eq!(offer.on(OfferEvent::Silent), OfferAct::Refuse);
    assert_eq!(offer.on(OfferEvent::Presented(token)), OfferAct::Serve);
    assert_eq!(offer.on(OfferEvent::Presented(token)), OfferAct::End);

    let mut late = Offer::with_token([1; 32]);
    assert_eq!(late.on(OfferEvent::Expired), OfferAct::End);
    assert_eq!(late.on(OfferEvent::Presented([1; 32])), OfferAct::End);
    assert_eq!(Offer::with_token([1; 32]).on(OfferEvent::AcceptFailed), OfferAct::End);
}

#[test]
fn bridges_carry_bytes_both_ways() {
    assert!(matches!(attach_bridge(AttachEvent::Chunk(vec![1])), Bridged::Send(b) if b == [1]));
    assert!(matches!(attach_bridge(AttachEvent::Read(vec![2])), Bridged::Feed(b) if b == [2]));
    assert!(matches!(attach_bridge(AttachEvent::Read(vec![])), Bridged::Leave));
    assert!(matches!(attach_bridge(AttachEvent::RunEnded), Bridged::Close));
    assert!(matches!(attach_bridge(AttachEvent::Lagged), Bridged::Ignore));
    assert!(matches!(
        shell_bridge(ShellEvent::Output(Some(b"ls".to_vec()))),
        Bridged::Send(b) if b == b"ls\n"
    ));
    assert!(matches!(shell_bridge(ShellEvent::Read(vec![])), Bridged::Close));
    assert!(matches!(
        shell_bridge(ShellEvent::StartFailed("no".to_string())),
        Bridged::Report(b) if b == b"failed to start shell: no\n"
    ));
}

// ---- files ---------------------------------------------------------------------------

#[test]
fn instances_have_their_places() {
    let stg = stg();
    let u = Platform::Unix;
    assert_eq!(stg.instances_index_path(u), "/var/ctchld/instances.chld");
    assert_eq!(stg.instances_index_draft(u), "/var/ctchld/instances.chld.tmp");
    assert_eq!(stg.instances_dir(u), "/var/ctchld/instances");
    assert_eq!(stg.instance_dir(0xff, u), format!("/var/ctchld/instances/{:032x}", 0xff));
    assert_ne!(stg.instance_dir(1, u), stg.instance_dir(2, u));
    assert_eq!(default_shell(u), "/bin/sh");
    assert_eq!(default_shell(Platform::Windows), "cmd.exe");
}

#[test]
fn roots_are_read_from_their_answer() {
    assert_eq!(parse_roots(" /a ; ;/b c;"), ["/a", "/b c"]);
    assert!(parse_roots("").is_empty());
}

#[test]
fn transfers_keep_to_the_roots() {
    let u = Platform::Unix;
    assert_eq!(resolve_path(&stg(), "/srv/files/a", u), Ok("/srv/files/a".to_string()));
    assert_eq!(
        resolve_path(&stg(), "instances/x", u),
        Ok("/var/ctchld/instances/x".to_string())
    );
    assert_eq!(
        message(resolve_path(&stg(), "/etc/passwd", u)),
        "path is outside the configured file roots"
    );
    assert_eq!(message(resolve_path(&stg(), "/srv/files/../x", u)), "path must not contain '..'");
    assert_eq!(code(resolve_path(&stg(), "elsewhere", u)), ErrorCode::AccessDenied);
    let seen = |path: &str| Ok::<String, String>(format!("/seen{path}"));
    assert_eq!(
        resolve_path_by(seen, &stg(), "/srv/files/a", u),
        Ok("/seen/srv/files/a".to_string())
    );
}

#[test]
fn a_file_takes_its_place_once_it_is_whole() {
    assert_eq!(length_prefix(258), [0, 0, 0, 0, 0, 0, 1, 2]);
    assert_eq!(announced_length(&length_prefix(u64::MAX)), u64::MAX);
    assert_eq!(part_path("/a/b.txt", Platform::Unix), "/a/b.part");
    assert_eq!(part_path("/a/b.part", Platform::Unix), "/a/b.part.part");
    assert_eq!(part_path("/a/b/", Platform::Unix), "/a/b.part");
    assert_eq!(part_path("/a/b.part/", Platform::Unix), "/a/b.part.part");
    assert_eq!(part_path("/", Platform::Unix), "/.part");
    assert_eq!(settle(Some(4), 4, true, false), Fate::Place);
    assert_eq!(settle(Some(4), 4, true, true), Fate::Replace);
    assert_eq!(settle(Some(3), 4, true, true), Fate::Discard);
    assert_eq!(settle(Some(4), 4, false, true), Fate::Discard);
    assert_eq!(settle(None, 4, true, false), Fate::Discard);
}

#[test]
fn an_empty_answer_stands_for_the_default() {
    assert_eq!(gather_value_routine("", None, Some(5)), Answer::Take(5));
    assert_eq!(gather_value_routine("7", Some(7), Some(5)), Answer::Take(7));
    assert_eq!(gather_value_routine("x", None, Some(5)), Answer::AskAgain);
    assert_eq!(gather_value_routine::<i32>("", None, None), Answer::AskAgain);
}
