//! The server: its door, its sessions, its sources.
use container::jail::{judge, resolve_by, target_of};
use container::path::Platform;
use container::payload::check_received;
use container::protocol::auth::{
    hash_or_random, sign_request, sign_request_at, to_hex, verify_reply, AuthFailure, Reply,
    KEY_LEN,
};
use container::protocol::term::{data_frame, resize_frame, OwnedFrame};
use container::protocol::{
    Action, ApiError, DirEntry, Env, ErrorCode, Response, RetryPolicy, Session, SessionStart,
    Source,
};
use container::sampling::Sample;
use container::server::api::{dispatch, respond, Api, Task};
use container::server::gitops::{chain, draft_of};
use container::server::session_handler::{
    accept, bridge_outcome, handle, handle_by, reject, start_download, Opening,
};
use container::server::setup::{
    arg_path, initial_advice, initial_key, is_runaway, new_key, pairing_advice, runs_with,
    runs_with_by, stop_report, takeover_step, EitherOr, Process, TAKEOVER_TRIES,
};
use container::server::sourceops::{
    fetch_url, materialize, update, url_file_name, ArchiveKind, Plan,
};
use container::server::storage::ServerStg;
use container::server::terminal::{
    attach_bridge, AttachAct, AttachEvent, ShellAct, ShellBridge, ShellEvent, Stage,
};
use container::server::transfer::{
    list_dir, resolve_path, resolve_path_by, tmp_archive_path, DirRead,
};

fn stg() -> ServerStg {
    ServerStg {
        addr: "127.0.0.1:5000".to_string(),
        config_path: "config.chld".to_string(),
        storage_path: "/var/srv".to_string(),
        file_roots: vec!["/data".to_string()],
        session_ttl_secs: 30,
        shell: "/bin/sh".to_string(),
        key: vec![1; KEY_LEN],
        bootstrap: false,
    }
}

// ---- calls ---------------------------------------------------------------------------

#[test]
fn a_call_is_opened_once_and_answered_to_its_sender() {
    let key = vec![1u8; KEY_LEN];
    let mut api = Api::new(key.clone());
    let request = sign_request(&key, b"call".to_vec()).unwrap();
    assert_eq!(api.open(&request), Ok(b"call".to_vec()));
    assert_eq!(api.open(&request), Err(Reply::Rejected(AuthFailure::Replay)));
    let reply = api.seal(&request.nonce, b"answer".to_vec());
    assert_eq!(verify_reply(&key, &request.nonce, &reply), Ok(&b"answer"[..]));
    assert_eq!(Api::undecodable(), Reply::Rejected(AuthFailure::Malformed));
}

#[test]
fn a_call_that_is_refused_says_only_the_kind() {
    let key = vec![1u8; KEY_LEN];
    let mut api = Api::new(key.clone());
    let good = sign_request_at(&key, vec![2; 16], 5_000_000, b"call".to_vec());
    let bad = sign_request_at(&[9u8; KEY_LEN], vec![2; 16], 5_000_000, b"call".to_vec());
    assert_eq!(api.open_at(&bad, 5_000_000, 0), Err(Reply::Rejected(AuthFailure::BadKey)));
    assert_eq!(api.open_at(&good, 9_000_000, 0), Err(Reply::Rejected(AuthFailure::Stale)));
    assert_eq!(api.open_at(&good, 5_000_000, 0), Ok(b"call".to_vec()));
}

#[test]
fn calls_are_sorted_out() {
    assert_eq!(dispatch(Action::Ping), Task::Reply(Response::Pong));
    assert_eq!(dispatch(Action::Stat), Task::Stat);
    assert_eq!(dispatch(Action::TailConsole { id: 3, lines: 50 }), Task::Tail { id: 3, lines: 50 });
    let created = dispatch(Action::CreateInstance {
        name: "web".to_string(),
        source: Source::Empty,
        command: "c".to_string(),
        args: vec![],
        env: Env::new(),
        autostart: true,
        retry_policy: RetryPolicy::Never,
    });
    let Task::Create(config) = created else { panic!("a creation") };
    assert_eq!((config.id, config.self_managed), (0, false));
    assert_eq!(
        dispatch(Action::RemoveInstance { id: 1, delete_files: true }),
        Task::Remove { id: 1, delete_files: true }
    );
    assert_eq!(respond(Ok(Response::Done)), Response::Done);
}

#[test]
fn figures_are_answered_with_the_version() {
    let sample = Sample {
        disks: vec![(1, 2), (3, 4)],
        total_ram: 5,
        free_ram: 6,
        networks: vec![],
        cpu_usage_bits: 0,
    };
    assert_eq!(
        Api::stat(8, true, &sample, vec![]),
        Response::StatResponse {
            version: 8,
            total_stg: 4,
            free_stg: 6,
            total_ram: 5,
            free_ram: 6,
            network_recv: 0,
            network_trans: 0,
            cpu_usage_bits: 0,
            instances: vec![],
            bootstrap: true,
        }
    );
}

// ---- sessions ------------------------------------------------------------------------

#[test]
fn a_refused_session_is_told_twice() {
    let e = || ApiError { code: ErrorCode::NotFound, msg: "no".to_string() };
    assert_eq!(reject(e()), (Err(e()), Response::Error(e())));
    assert_eq!(accept(Some(5)), Ok(SessionStart { size: Some(5) }));
}

#[test]
fn sessions_open_what_they_may() {
    let u = Platform::Unix;
    assert_eq!(handle(&stg(), Session::Attach(3), u), Opening::Attach { id: 3 });
    assert_eq!(
        handle(&stg(), Session::UploadFile { dest: "/data/x".to_string() }, u),
        Opening::ReceiveFile { path: "/data/x".to_string() }
    );
    assert!(matches!(
        handle(&stg(), Session::DownloadFile { src: "/etc/passwd".to_string() }, u),
        Opening::Reject(e) if e.code == ErrorCode::AccessDenied
    ));
    assert!(matches!(
        handle(&stg(), Session::DownloadArchive { paths: vec![] }, u),
        Opening::Reject(e) if e.msg == "nothing to download"
    ));
    assert_eq!(
        handle(
            &stg(),
            Session::DownloadArchive { paths: vec!["/data/a".to_string(), "/data/b".to_string()] },
            u
        ),
        Opening::SendArchive { paths: vec!["/data/a".to_string(), "/data/b".to_string()] }
    );
    assert!(matches!(
        handle(
            &stg(),
            Session::DownloadArchive { paths: vec!["/data/a".to_string(), "/data/../b".to_string()] },
            u
        ),
        Opening::Reject(_)
    ));
    assert!(matches!(
        handle(&stg(), Session::UploadArchive { dest: "/data/..".to_string() }, u),
        Opening::Reject(_)
    ));
}

#[test]
fn a_session_that_fails_is_named() {
    let failed = |opening: Opening| bridge_outcome(&opening, Err("cut".to_string()));
    let told = |r: Response| match r {
        Response::Error(e) => e.msg,
        _ => panic!("it failed"),
    };
    assert_eq!(told(failed(Opening::Attach { id: 1 })), "attach session failed: cut");
    assert_eq!(
        told(failed(Opening::SendFile { path: "/a".to_string() })),
        "download of '/a' failed: cut"
    );
    assert_eq!(
        told(failed(Opening::ReceiveArchive { dir: "/a".to_string() })),
        "archive upload into '/a' failed: cut"
    );
    assert_eq!(told(failed(Opening::ReceiveSource { id: 1 })), "source upload failed: cut");
    assert_eq!(bridge_outcome(&Opening::Attach { id: 1 }, Ok(())), Response::Done);
    assert_eq!(start_download("/a", Ok(9)), Ok(SessionStart { size: Some(9) }));
    assert_eq!(
        start_download("/a", Err("gone".to_string())).unwrap_err().msg,
        "cannot read '/a': gone"
    );
}

#[test]
fn an_attached_client_speaks_in_frames() {
    assert!(matches!(
        attach_bridge(AttachEvent::Chunk(b"out".to_vec())),
        AttachAct::Send(b) if b == data_frame(b"out")
    ));
    assert!(matches!(
        attach_bridge(AttachEvent::Frame(OwnedFrame::Data(b"in".to_vec()))),
        AttachAct::Feed(b) if b == b"in"
    ));
    assert!(matches!(
        attach_bridge(AttachEvent::Frame(OwnedFrame::Resize { cols: 1, rows: 1 })),
        AttachAct::Ignore
    ));
    assert!(matches!(
        attach_bridge(AttachEvent::Frame(OwnedFrame::Close)),
        AttachAct::Close { peer_closed: true }
    ));
    assert!(matches!(
        attach_bridge(AttachEvent::RunEnded),
        AttachAct::Close { peer_closed: false }
    ));
    assert!(matches!(attach_bridge(AttachEvent::PeerGone), AttachAct::Leave));
    assert!(matches!(
        attach_bridge(AttachEvent::ReadFailed("x".to_string())),
        AttachAct::Fail(e) if e == "x"
    ));
}

fn live_shell() -> ShellBridge {
    let (mut shell, cols, rows) = ShellBridge::new(0, 24);
    assert_eq!((cols, rows), (1, 24));
    assert!(matches!(shell.shell_bridge(ShellEvent::Ready), ShellAct::Start));
    assert!(matches!(shell.shell_bridge(ShellEvent::Ready), ShellAct::TakeOutput));
    assert!(matches!(shell.shell_bridge(ShellEvent::Ready), ShellAct::TakeInput));
    assert!(matches!(shell.shell_bridge(ShellEvent::Ready), ShellAct::Pump));
    shell
}

#[test]
fn a_shell_is_drained_before_it_ends() {
    let mut shell = live_shell();
    assert!(matches!(
        shell.shell_bridge(ShellEvent::Chunk(b"$ ".to_vec())),
        ShellAct::Send(b) if b == data_frame(b"$ ")
    ));
    assert!(matches!(
        shell.shell_bridge(ShellEvent::Frame(OwnedFrame::Resize { cols: 0, rows: 50 })),
        ShellAct::Resize { cols: 1, rows: 50 }
    ));
    assert!(matches!(shell.shell_bridge(ShellEvent::Exited), ShellAct::Drain));
    assert!(matches!(
        shell.shell_bridge(ShellEvent::Chunk(b"bye".to_vec())),
        ShellAct::Send(b) if b == data_frame(b"bye")
    ));
    assert!(matches!(
        shell.shell_bridge(ShellEvent::Drained),
        ShellAct::Close { peer_closed: false }
    ));
    assert_eq!(shell.stage, Stage::Over);
    assert!(matches!(shell.shell_bridge(ShellEvent::PeerGone), ShellAct::Ignore));
    assert_ne!(data_frame(b"x"), resize_frame(1, 1));
}

#[test]
fn a_client_that_vanished_is_not_waited_for() {
    for event in [ShellEvent::PeerGone, ShellEvent::SendFailed, ShellEvent::FeedFailed] {
        assert!(matches!(live_shell().shell_bridge(event), ShellAct::Leave));
    }
    assert!(matches!(
        live_shell().shell_bridge(ShellEvent::Frame(OwnedFrame::Close)),
        ShellAct::Close { peer_closed: true }
    ));
}

#[test]
fn a_shell_that_cannot_be_set_up_says_why() {
    let (mut shell, _, _) = ShellBridge::new(80, 24);
    let ShellAct::Fail { report, error, started } =
        shell.shell_bridge(ShellEvent::Failed("no ptys".to_string()))
    else {
        panic!("it fails")
    };
    assert_eq!(error, "failed to open a pty: no ptys");
    assert_eq!(report, data_frame(b"failed to open a pty: no ptys\r\n"));
    assert!(!started);
    let (mut shell, _, _) = ShellBridge::new(80, 24);
    shell.shell_bridge(ShellEvent::Ready);
    shell.shell_bridge(ShellEvent::Ready);
    assert!(matches!(
        shell.shell_bridge(ShellEvent::Failed("x".to_string())),
        ShellAct::Fail { error, started: true, .. } if error == "cloning the pty reader failed: x"
    ));
}

// ---- files ---------------------------------------------------------------------------

#[test]
fn requests_are_judged_by_their_absolute_paths() {
    let u = Platform::Unix;
    let ok = |s: &str| Ok::<String, String>(s.to_string());
    let roots = vec![Err("?".to_string()), ok("/data")];
    assert_eq!(judge("x", ok("/data/x"), &roots, u), Ok("/data/x".to_string()));
    assert_eq!(
        judge("x", ok("/database"), &roots, u).unwrap_err().msg,
        "path is outside the configured file roots"
    );
    assert_eq!(
        judge("x", Err("no directory".to_string()), &roots, u).unwrap_err().msg,
        "cannot resolve path: no directory"
    );
    assert_eq!(
        judge("a/../x", ok("/data/x"), &roots, u).unwrap_err().msg,
        "path must not contain '..'"
    );
    assert_eq!(target_of("/s", "a", u), "/s/a");
    assert_eq!(target_of("/s", "/a", u), "/a");
    assert_eq!(resolve_path(&stg(), "instances/1", u), Ok("/var/srv/instances/1".to_string()));
}

/// Every path below `/seen`, but for one that cannot be seen.
fn seen(path: &str) -> Result<String, String> {
    if path == "/hidden" {
        Err("out of sight".to_string())
    } else {
        Ok(format!("/seen{path}"))
    }
}

#[test]
fn targets_and_roots_are_made_absolute_alike() {
    let u = Platform::Unix;
    let roots = vec!["/hidden".to_string(), "/data".to_string()];
    let found = |requested: &str| resolve_by(seen, "/s", &roots, "/s/instances", requested, u);
    assert_eq!(found("/data/x"), Ok("/seen/data/x".to_string()));
    assert_eq!(found("instances/x"), Ok("/seen/s/instances/x".to_string()));
    assert_eq!(found("/hidden").unwrap_err().msg, "cannot resolve path: out of sight");
    assert_eq!(found("/hidden/x").unwrap_err().msg, "path is outside the configured file roots");
    assert_eq!(found("/data/..").unwrap_err().msg, "path must not contain '..'");
    assert_eq!(resolve_path_by(seen, &stg(), "/data/x", u), Ok("/seen/data/x".to_string()));
}

#[test]
fn a_session_opens_what_was_found() {
    let u = Platform::Unix;
    let opened = |session: Session| handle_by(seen, &stg(), session, u);
    let texts = |paths: &[&str]| paths.iter().map(|p| p.to_string()).collect::<Vec<String>>();
    assert_eq!(
        opened(Session::UploadFile { dest: "/data/x".to_string() }),
        Opening::ReceiveFile { path: "/seen/data/x".to_string() }
    );
    assert_eq!(
        opened(Session::DownloadFile { src: "instances/1".to_string() }),
        Opening::SendFile { path: "/seen/var/srv/instances/1".to_string() }
    );
    assert_eq!(
        opened(Session::UploadArchive { dest: "/data".to_string() }),
        Opening::ReceiveArchive { dir: "/seen/data".to_string() }
    );
    assert_eq!(
        opened(Session::DownloadArchive { paths: texts(&["/data/b", "/data/a"]) }),
        Opening::SendArchive { paths: texts(&["/seen/data/b", "/seen/data/a"]) }
    );
    let refused = opened(Session::DownloadArchive { paths: texts(&["/data/b", "/hidden", ".."]) });
    assert!(matches!(refused, Opening::Reject(e) if e.msg == "cannot resolve path: out of sight"));
}

#[test]
fn a_predecessor_s_address_is_waited_for() {
    assert!(takeover_step(0, false));
    assert!(takeover_step(TAKEOVER_TRIES - 1, false));
    assert!(!takeover_step(TAKEOVER_TRIES, false));
    assert!(!takeover_step(1, true));
}

#[test]
fn a_runaway_is_told_by_paths_made_absolute() {
    let mine = Some("server".to_string());
    let runs = |config: &str, args: &[&str]| {
        runs_with_by(seen, &process(2, args, Some("/etc")), 1, &mine, config, Platform::Unix)
    };
    assert!(runs("/etc/c.chld", &["server", "c.chld"]));
    assert!(!runs("/seen/etc/c.chld", &["server", "c.chld"]));
    assert!(runs("/hidden", &["server", "/hidden"]));
    assert!(!runs("/etc/c.chld", &["/etc/c.chld"]));
}

#[test]
fn directories_are_listed_or_it_is_said_why_not() {
    let entry = |name: &str, is_dir| DirEntry {
        name: name.to_string(),
        is_dir,
        size: 0,
        modified_secs: None,
    };
    let sorted = list_dir("/d", DirRead::Entries(vec![entry("b", false), entry("a", true)])).unwrap();
    assert_eq!(sorted[0].name, "a");
    let closed = list_dir("/d", DirRead::Closed("x".to_string())).unwrap_err();
    assert_eq!((closed.code, closed.msg.as_str()), (ErrorCode::NotFound, "cannot list '/d': x"));
    let broken = list_dir("/d", DirRead::Broken("x".to_string())).unwrap_err();
    assert_eq!((broken.code, broken.msg.as_str()), (ErrorCode::Internal, "reading '/d': x"));
}

#[test]
fn a_payload_that_is_cut_is_told() {
    assert_eq!(check_received(5, 5), Ok(()));
    assert_eq!(
        check_received(3, 5),
        Err("connection closed after 3 of 5 bytes".to_string())
    );
    let a = tmp_archive_path("/tmp", Platform::Unix);
    assert!(a.starts_with("/tmp/chld-transfer-") && a.ends_with(".tar.gz"));
    assert_eq!(a.len(), "/tmp/chld-transfer-0123456789abcdef.tar.gz".len());
    assert_ne!(a, tmp_archive_path("/tmp", Platform::Unix));
}

// ---- sources -------------------------------------------------------------------------

#[test]
fn downloads_are_named_by_their_address() {
    assert_eq!(url_file_name("https://x/a/b.tar.gz?x=/1#f"), "b.tar.gz");
    assert_eq!(url_file_name("https://x/a/"), "a");
    assert_eq!(url_file_name("https://x"), "x");
    assert_eq!(url_file_name("?q"), "download");
    assert_eq!(url_file_name("///"), "download");
}

#[test]
fn archives_are_told_by_their_ending() {
    assert_eq!(ArchiveKind::of("A.TAR.GZ"), ArchiveKind::TarGz);
    assert_eq!(ArchiveKind::of("a.tgz"), ArchiveKind::TarGz);
    assert_eq!(ArchiveKind::of("a.tar"), ArchiveKind::Tar);
    assert_eq!(ArchiveKind::of("a.Zip"), ArchiveKind::Zip);
    assert_eq!(ArchiveKind::of("azip"), ArchiveKind::Plain);
    assert_eq!(ArchiveKind::of_lower("a.zip"), ArchiveKind::Zip);
    assert_eq!(ArchiveKind::Zip.unpack_error("x"), "unpacking zip: x");
}

#[test]
fn sources_are_planned() {
    let git = Source::Git { url: "u".to_string(), branch: Some("b".to_string()) };
    assert_eq!(
        materialize(&git, "/d/repo"),
        Plan::Clone {
            url: "u".to_string(),
            branch: Some("b".to_string()),
            dest: "/d/repo".to_string()
        }
    );
    let url = Source::Url { url: "http://x/f.bin".to_string() };
    assert_eq!(
        update(&url, "/d/repo", Platform::Unix),
        Plan::Fetch { url: "http://x/f.bin".to_string(), dest: "/d/repo.tmp".to_string() }
    );
    assert_eq!(
        materialize(&Source::Upload { desc: "d".to_string() }, "/d"),
        Plan::Refuse("content is uploaded from a client; push it instead".to_string())
    );
    assert_eq!(
        materialize(&Source::Nothing, "/d"),
        Plan::Refuse("this instance has no source".to_string())
    );
    assert_eq!(materialize(&Source::Empty, "/d"), Plan::Nothing);
    let plan = fetch_url("http://x/f.bin", "/d", "/tmp", Platform::Unix);
    assert_eq!(plan.kind, ArchiveKind::Plain);
    assert_eq!(plan.target, "/d/f.bin");
    assert!(plan.tmp.starts_with("/tmp/chld-fetch-"));
    assert_eq!(draft_of("/d/repo", Platform::Unix), "/d/repo.tmp");
    assert_eq!(draft_of("/d/v1.2", Platform::Unix), "/d/v1.tmp");
    assert_eq!(draft_of("/d/repo.tmp", Platform::Unix), "/d/repo.tmp.tmp");
}

#[test]
fn failures_are_told_with_their_causes() {
    let causes = vec!["fetch failed".to_string(), "no route".to_string()];
    assert_eq!(chain("fetching 'u'", &causes), "fetching 'u': fetch failed: no route");
    assert_eq!(chain("x", &vec![]), "x");
}

// ---- setting up ----------------------------------------------------------------------

#[test]
fn whoever_follows_the_advice_is_paired() {
    let phrase = "correct horse";
    let key = initial_key(&format!("  {phrase} ")).unwrap();
    assert_eq!(key, hash_or_random(Some(phrase)).unwrap());
    assert_eq!(
        initial_advice(phrase, &key),
        "Pair a client with: `client keygen correct horse`"
    );
    assert_eq!(
        initial_advice("  correct horse ", &key),
        "Pair a client with: `client keygen   correct horse `"
    );
    assert_eq!(
        initial_advice("  ", &[0xab; 2]),
        "This key is random, so nothing can re-derive it. Pair a client with:\n\
         `client keygen --key abab`"
    );
    assert_eq!(
        pairing_advice(EitherOr::B("p")),
        "Pair a client with: `client keygen p`"
    );
    assert_ne!(initial_key("").unwrap(), initial_key(" ").unwrap());
}

#[test]
fn a_key_is_exchanged() {
    let hex = to_hex(&[7u8; KEY_LEN]);
    let (key, said) = new_key(Some("ignored"), Some(&hex)).unwrap();
    assert_eq!(key, vec![7; KEY_LEN]);
    assert!(said.contains("client keygen --key 0707"));
    assert!(new_key(None, Some("xyz")).is_err());
    let (_, said) = new_key(Some("phrase"), None).unwrap();
    assert_eq!(said, "Pair a client with: `client keygen phrase`");
    assert!(stg().has_key());
    assert!(stg().for_this_run(true).bootstrap);
    assert!(!stg().for_this_run(false).bootstrap);
}

fn process(pid: u32, args: &[&str], cwd: Option<&str>) -> Process {
    Process {
        pid,
        exe: Some("server".to_string()),
        args: args.iter().map(|a| a.to_string()).collect(),
        cwd: cwd.map(|c| c.to_string()),
    }
}

#[test]
fn a_runaway_is_another_process_with_this_config() {
    let mine = Some("server".to_string());
    let u = Platform::Unix;
    let runs = |p: &Process| runs_with(p, 1, &mine, "/etc/c.chld", u);
    assert!(runs(&process(2, &["server", "-c", "/etc/c.chld"], None)));
    assert!(runs(&process(2, &["server", "-c", "C.chld"], Some("/etc"))));
    assert!(!runs(&process(2, &["server", "-c", "c.chld"], None)));
    assert!(!runs(&process(1, &["server", "-c", "/etc/c.chld"], None)));
    assert!(!runs(&process(2, &["/etc/c.chld"], None)));
    let mut other = process(2, &["server", "/etc/c.chld"], None);
    other.exe = Some("client".to_string());
    assert!(!runs(&other));
    assert_eq!(arg_path("x", Some("/d"), u), Some("/d/x".to_string()));
    assert_eq!(arg_path("x", None, u), None);
    let paths = vec![None, Some("/A".to_string())];
    assert!(is_runaway(&process(2, &["server"], None), 1, &mine, &paths, "/a"));
    assert_eq!(stop_report(7, true), "Killed the runaway server (pid 7).");
    assert_eq!(stop_report(7, false), "Found a runaway server (pid 7) but could not kill it.");
}
