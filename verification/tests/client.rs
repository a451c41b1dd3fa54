//! The client's parts: forms, targets, answers, keys, bridges.
use container::client::book::{Book, ServerEntry};
use container::client::browse::{clamp, read_local_dir, Panel, Side};
use container::client::console::{cursor_position, entered, raw_input_mode, raw_output_mode};
use container::client::edit::{changed, editor_command, run, EditRequest, Fingerprint};
use container::client::form::{Field, Form, FormOutcome};
use container::client::instance_form::{
    build, fmt_args, fmt_env, fmt_source, parse, parse_args, parse_env, upload_location, SourceSpec,
    COMMAND, ENV, LOCATION, NAME, POLICY, RETRIES, SOURCE,
};
use container::client::keygen::{choose_key, report_lines, set_key, KeyError, KeySource};
use container::client::keys::{KeyCode, KeyEvent, KeyKind, KeyModifiers};
use container::client::ls::{no_servers, server_lines, status};
use container::client::net::{
    call_error, check, connect_error, create, create_action, done, list_dir, open_reply,
    open_reply_at, ping,
    prepare, read_answer, rpc_detail, session, stat, tail_console, Endpoint, IoKind, NetError,
    RpcFailure, Target, Vitals,
};
use container::client::poller::Poller;
use container::client::target::{pick, resolve, resolve_bare, resolve_on, Search};
use container::client::terminal::{
    attach_banner, attach_farewell, attach_step, crlf, ctrl_byte, cursor_reply, edit_row,
    encode_key, is_ctrl, shell_banner, AttachEvent, OutputFilter, ShellEvent, ShellPump,
};
use container::client::editor::LineEditor;
use container::client::transfer::{archive_name, entry_name, Download};
use container::path::Platform;
use container::protocol::auth::{sign_reply, to_hex, KEY_LEN};
use container::protocol::term::{data_frame, resize_frame};
use container::protocol::{
    Action, ApiError, AuthFailure, ConsoleLine, DirEntry, Env, ErrorCode, InstanceConfig,
    InstanceStatResponse, InstanceStatus, RepoState, Reply, Response, RetryPolicy, RunState,
    Source, Stream,
};

fn target(port: u16) -> Target {
    Target { ip: 0x7f00_0001, port }
}

fn entry(id: u128, name: &str) -> ServerEntry {
    ServerEntry { id, name: name.to_string(), addr: target(5000), key: Vec::new() }
}

fn instance(id: u128, name: &str, run: RunState) -> InstanceStatResponse {
    InstanceStatResponse {
        id,
        name: name.to_string(),
        repo: RepoState::Ready,
        run,
        self_managed: false,
    }
}

fn book(names: &[&str]) -> Book {
    Book {
        key: vec![1; KEY_LEN],
        servers: names.iter().enumerate().map(|(i, n)| entry(i as u128 + 1, n)).collect(),
    }
}

fn press(code: KeyCode) -> KeyEvent {
    KeyEvent::new(code, KeyModifiers::none())
}

// ---- forms ---------------------------------------------------------------------------

#[test]
fn arguments_are_grouped_by_quotes() {
    assert_eq!(parse_args("a  \"b c\" d\"e\"f \"\""), ["a", "b c", "def", ""]);
    assert!(parse_args("   ").is_empty());
    let args = vec!["run".to_string(), "two words".to_string(), "x".to_string()];
    assert_eq!(fmt_args(&args), "run \"two words\" x");
    assert_eq!(parse_args(&fmt_args(&args)), args);
}

#[test]
fn settings_are_read_and_written() {
    let env = parse_env(" B=2 ; A=1=x ; ").unwrap();
    assert_eq!(fmt_env(&env), "A=1=x; B=2");
    assert_eq!(parse_env(&fmt_env(&env)).map(|e| fmt_env(&e)), Ok("A=1=x; B=2".to_string()));
    assert_eq!(parse_env("A").map(|_| ()), Err("'A' is not KEY=VALUE".to_string()));
    assert_eq!(parse_env("A=1; A=2").map(|e| fmt_env(&e)), Ok("A=2".to_string()));
    assert_eq!(
        parse_env("B=2; A=1").map(|e| fmt_env(&e)),
        parse_env("A=1; B=2").map(|e| fmt_env(&e))
    );
}

fn config(source: Source) -> InstanceConfig {
    let mut env = Env::new();
    env.insert("PORT".to_string(), "80".to_string());
    InstanceConfig {
        id: 7,
        name: "web".to_string(),
        source,
        command: "node".to_string(),
        args: vec!["main.js".to_string(), "-p 1".to_string()],
        env,
        autostart: true,
        retry_policy: RetryPolicy::Retry(3),
        self_managed: false,
    }
}

#[test]
fn a_form_gives_back_what_it_was_filled_with() {
    let original = config(Source::Git {
        url: "https://x/y.git".to_string(),
        branch: Some("dev".to_string()),
    });
    let form = build(Some(&original));
    assert_eq!(form.title, "Edit instance · web");
    let parsed = parse(&form, None, true).unwrap();
    assert_eq!(parsed.name, "web");
    assert_eq!(
        parsed.source,
        SourceSpec::Git { url: "https://x/y.git".to_string(), branch: Some("dev".to_string()) }
    );
    assert_eq!(parsed.command, "node");
    assert_eq!(parsed.args, original.args);
    assert_eq!(parsed.env, original.env);
    assert!(parsed.autostart);
    assert_eq!(parsed.retry_policy, RetryPolicy::Retry(3));
    assert_eq!(parsed.source.to_source(Platform::Unix), original.source);
}

fn type_into(form: &mut Form, field: usize, text: &str) {
    form.focus = field;
    for c in text.chars() {
        form.handle_key(press(KeyCode::Char(c)));
    }
}

#[test]
fn an_incomplete_form_says_what_is_missing() {
    let mut form = build(None);
    let failed = |form: &Form| parse(form, None, true).map(|_| ()).unwrap_err();
    assert_eq!(failed(&form), "a name is required");
    type_into(&mut form, NAME, "web");
    assert_eq!(failed(&form), "a command is required");
    type_into(&mut form, COMMAND, "run");
    form.focus = SOURCE;
    form.handle_key(press(KeyCode::Right));
    assert_eq!(failed(&form), "a location is required");
    form.handle_key(press(KeyCode::Right));
    type_into(&mut form, LOCATION, "/tmp/x");
    assert_eq!(upload_location(&form), Some("/tmp/x".to_string()));
    assert_eq!(
        parse(&form, None, false).map(|_| ()).unwrap_err(),
        "'/tmp/x' does not exist here, so there is nothing to upload"
    );
    assert_eq!(
        parse(&form, Some("/tmp/x"), false).unwrap().source,
        SourceSpec::UploadKeep { desc: "/tmp/x".to_string() }
    );
    // A path that was typed is meant, though what is recorded looks much like it.
    assert_eq!(
        parse(&form, Some(" /tmp/x  "), false).map(|_| ()).unwrap_err(),
        "'/tmp/x' does not exist here, so there is nothing to upload"
    );
    assert_eq!(
        parse(&form, Some(" /tmp/x  "), true).unwrap().source,
        SourceSpec::Upload { path: "/tmp/x".to_string() }
    );
    // What is recorded may have blanks around it, and is kept where it was left.
    let desc = " an upload ".to_string();
    let left = build(Some(&config(Source::Upload { desc: desc.clone() })));
    for found in [false, true] {
        let kept = parse(&left, Some(&desc), found).unwrap().source;
        assert_eq!(kept, SourceSpec::UploadKeep { desc: desc.clone() });
        assert_eq!(kept.upload_path(), None);
    }
    form.focus = POLICY;
    form.handle_key(press(KeyCode::Left));
    while form.field(POLICY).select_index() != 3 {
        form.handle_key(press(KeyCode::Right));
    }
    while !form.field(RETRIES).text_value().is_empty() {
        form.focus = RETRIES;
        form.handle_key(press(KeyCode::Backspace));
    }
    assert_eq!(failed(&form), "the Retry policy needs a retry limit");
    type_into(&mut form, RETRIES, "many");
    assert_eq!(failed(&form), "'many' is not a whole number of retries");
    form.focus = POLICY;
    form.handle_key(press(KeyCode::Left));
    type_into(&mut form, ENV, "X");
    assert_eq!(failed(&form), "'X' is not KEY=VALUE");
}

#[test]
fn keys_move_through_a_form() {
    let mut form = Form::new("t", vec![Field::text("a", "x"), Field::toggle("b", false)]);
    assert_eq!(form.handle_key(press(KeyCode::Tab)), FormOutcome::Idle);
    assert_eq!(form.focus, 1);
    form.handle_key(press(KeyCode::Char(' ')));
    assert!(form.field(1).bool_value());
    form.handle_key(press(KeyCode::Tab));
    assert_eq!(form.focus, 0);
    form.handle_key(press(KeyCode::BackTab));
    assert_eq!(form.focus, 1);
    assert_eq!(form.handle_key(press(KeyCode::Enter)), FormOutcome::Submit);
    assert_eq!(form.handle_key(press(KeyCode::Esc)), FormOutcome::Cancel);
}

#[test]
fn sources_are_described() {
    let git = Source::Git { url: "u".to_string(), branch: None };
    assert_eq!(fmt_source(&git), "u (default branch)");
    assert_eq!(fmt_source(&Source::Url { url: "u".to_string() }), "u (download)");
    assert_eq!(fmt_source(&Source::Upload { desc: "d".to_string() }), "uploaded 'd'");
    assert_eq!(fmt_source(&Source::Empty), "empty — content is managed by hand");
    assert_eq!(fmt_source(&Source::Nothing), "—");
}

// ---- finding things ------------------------------------------------------------------

#[test]
fn addresses_are_read_and_written() {
    let t = Target::parse("127.0.0.1:5000").unwrap();
    assert_eq!(t, target(5000));
    assert_eq!(t.text(), "127.0.0.1:5000");
    assert!(Target::parse("nonsense").is_err());
    assert!(Target::parse("1.2.3.4:99999").is_err());
}

#[test]
fn instances_are_meant_by_name_or_identity() {
    let list = vec![
        instance(0xabc, "web", RunState::NotRunning),
        instance(2, "API", RunState::NotRunning),
    ];
    assert_eq!(pick(&list, "api"), Some(1));
    assert_eq!(pick(&list, &format!("{:032X}", 0xabc)), Some(0));
    assert_eq!(pick(&list, "abc"), None);
}

#[test]
fn a_reference_names_a_server_or_none() {
    let known = book(&["alpha", "beta"]);
    assert!(matches!(
        resolve(&known, "Beta/web"),
        Ok(Search::On { server: 1, instance }) if instance == "web"
    ));
    assert!(matches!(resolve(&known, "web"), Ok(Search::Everywhere)));
    assert_eq!(
        resolve(&known, "gamma/web").map(|_| ()),
        Err("no server named 'gamma' (known: alpha, beta)".to_string())
    );
    assert_eq!(
        resolve(&book(&[]), "web").map(|_| ()),
        Err("no servers configured — add one in the TUI first (run `client` with no arguments)"
            .to_string())
    );
}

#[test]
fn what_is_not_there_is_told() {
    let known = book(&["alpha", "beta"]);
    let web = || instance(5, "web", RunState::NotRunning);
    let found = resolve_on(&known, 0, "WEB", vec![web()]).unwrap();
    assert_eq!(found.label(), "alpha/web");
    assert_eq!(found.endpoint, Endpoint::new(target(5000), vec![1; KEY_LEN]));
    assert_eq!(
        resolve_on(&known, 0, "db", vec![web()]).map(|_| ()),
        Err("server 'alpha' has no instance 'db'".to_string())
    );
    assert_eq!(
        resolve_bare(&known, "web", vec![Ok(vec![]), Ok(vec![web()])]).map(|r| r.label()),
        Ok("beta/web".to_string())
    );
    assert_eq!(
        resolve_bare(&known, "web", vec![Ok(vec![web()]), Ok(vec![web()])]).map(|_| ()),
        Err("'web' is ambiguous — name the server too:\n  alpha/web\n  beta/web".to_string())
    );
    let shouted = instance(6, "WEB", RunState::NotRunning);
    assert_eq!(
        resolve_bare(&known, "web", vec![Ok(vec![web(), shouted]), Ok(vec![])]).map(|_| ()),
        Err("'web' is ambiguous — name the server too:\n  alpha/web\n  alpha/WEB".to_string())
    );
    assert_eq!(
        resolve_bare(&known, "web", vec![Ok(vec![]), Err("down".to_string())]).map(|_| ()),
        Err("no instance named 'web' on any known server\n\
             these servers could not be reached:\n  beta (127.0.0.1:5000): down"
            .to_string())
    );
}

#[test]
fn a_server_s_own_key_counts_before_the_book_s() {
    let mut known = book(&["alpha", "beta"]);
    assert_eq!(known.key_for(&known.servers[0]), Some(&[1u8; KEY_LEN][..]));
    known.servers[1].key = vec![9; KEY_LEN];
    assert_eq!(known.key_for(&known.servers[1]), Some(&[9u8; KEY_LEN][..]));
    known.key = Vec::new();
    assert_eq!(known.key_for(&known.servers[0]), None);
    assert!(known.endpoint_for(&known.servers[0]).is_none());
    assert!(known.endpoint_or_keyless(&known.servers[0]).key.is_empty());
    assert_eq!(known.index_of(2), Some(1));
    assert_eq!(known.entry(3), None);
    assert_eq!(known.find_by_name("BETA").map(|e| e.id), Some(2));
}

#[test]
fn new_servers_get_different_identities() {
    let a = ServerEntry::new("a".to_string(), target(1));
    let b = ServerEntry::new("a".to_string(), target(1));
    assert_ne!(a.id, b.id);
    assert_eq!(a.copy(), a);
}

// ---- answers -------------------------------------------------------------------------

#[test]
fn failures_are_told_in_words() {
    let io = RpcFailure::Io { kind: IoKind::ConnectionRefused, text: "refused".to_string() };
    let e = connect_error(target(5000), &io);
    assert_eq!(e.short(), "unreachable");
    assert!(e.text().starts_with("cannot connect to 127.0.0.1:5000 ("));
    assert!(e.text().ends_with(") — is the server running?"));
    let late = RpcFailure::TimedOut { phase: "reading".to_string(), after_secs: 5 };
    assert_eq!(rpc_detail(&late), "reading timed out after 5s");
    assert_eq!(
        call_error(target(5000), &late).text(),
        "127.0.0.1:5000 accepted the connection but the request failed: reading timed out after 5s"
    );
    assert_eq!(rpc_detail(&RpcFailure::ConnectionPoisoned), "connection is poisoned");
    assert_eq!(NetError::NoKey.short(), "no key — run `client keygen <phrase>`");
    assert_eq!(
        NetError::Auth(AuthFailure::BadKey).short(),
        "key rejected — run `client keygen <phrase>`"
    );
}

#[test]
fn a_call_needs_a_key_and_a_payload() {
    assert_eq!(prepare(&[], Ok(vec![1])), Err(NetError::NoKey));
    assert_eq!(prepare(&[1; KEY_LEN], Ok(vec![1])), Ok(vec![1]));
    assert_eq!(
        prepare(&[1; KEY_LEN], Err("x".to_string())),
        Err(NetError::Protocol("could not encode the request: x".to_string()))
    );
}

#[test]
fn replies_are_opened_with_the_key() {
    let key = [1u8; KEY_LEN];
    let reply = sign_reply(&key, &[3; 16], vec![5, 6]);
    assert_eq!(open_reply(&key, &[3; 16], &reply), Ok(&[5u8, 6][..]));
    let old = container::protocol::auth::sign_reply_at(&key, &[3; 16], 1, vec![5]);
    assert_eq!(open_reply_at(&key, &[3; 16], &old, 1), Ok(&[5u8][..]));
    assert_eq!(
        open_reply_at(&key, &[3; 16], &old, 10_000_000),
        Err(NetError::Auth(AuthFailure::Stale))
    );
    assert_eq!(
        open_reply(&key, &[4; 16], &reply),
        Err(NetError::Auth(AuthFailure::BadKey))
    );
    assert_eq!(
        open_reply(&key, &[3; 16], &Reply::Rejected(AuthFailure::Stale)),
        Err(NetError::Auth(AuthFailure::Stale))
    );
}

#[test]
fn answers_are_taken_for_what_they_are() {
    let refusal = || ApiError { code: ErrorCode::Conflict, msg: "no".to_string() };
    assert_eq!(read_answer(Ok(Response::Pong)), Ok(Response::Pong));
    assert_eq!(read_answer(Ok(Response::Error(refusal()))), Err(NetError::Api(refusal())));
    assert_eq!(
        read_answer(Err("x".to_string())),
        Err(NetError::Protocol("could not decode the reply: x".to_string()))
    );
    assert_eq!(ping(Response::Pong, "Pong"), Ok(()));
    assert_eq!(
        ping(Response::Done, "Done"),
        Err(NetError::Protocol("expected Pong, got Done".to_string()))
    );
    assert_eq!(done(Response::Done, ""), Ok(()));
    assert_eq!(create(Response::InstanceCreated { id: 4 }, ""), Ok(4));
    assert!(create(Response::Done, "Done").is_err());
    assert!(check(Response::Done, "Done").is_err());
    let line = ConsoleLine { at_ms: 1, stream: Stream::Stdout, text: "hi".to_string() };
    assert_eq!(
        tail_console(Response::Console { lines: vec![line.clone()], dropped: 3 }, ""),
        Ok((vec![line], 3))
    );
    assert_eq!(
        list_dir(Response::DirListing { path: "/a".to_string(), entries: vec![] }, ""),
        Ok(("/a".to_string(), vec![]))
    );
}

fn stat_response(instances: Vec<InstanceStatResponse>) -> Response {
    Response::StatResponse {
        version: 3,
        total_stg: 10,
        free_stg: 4,
        total_ram: 8,
        free_ram: 2,
        network_recv: 1,
        network_trans: 2,
        cpu_usage_bits: 12.5f64.to_bits(),
        instances,
        bootstrap: true,
    }
}

#[test]
fn vitals_come_with_their_instances_by_name() {
    let vitals = stat(
        stat_response(vec![
            instance(1, "web", RunState::NotRunning),
            instance(2, "Api", RunState::NotRunning),
        ]),
        "",
    )
    .unwrap();
    assert_eq!(vitals.version, 3);
    assert_eq!(f64::from_bits(vitals.cpu_usage_bits), 12.5);
    let names: Vec<&str> = vitals.instances.iter().map(|i| i.name.as_str()).collect();
    assert_eq!(names, ["Api", "web"]);
}

#[test]
fn a_session_ends_well_or_says_why() {
    assert_eq!(session(None, Ok(Response::Done), ""), Ok(()));
    assert_eq!(session(Some("cut".to_string()), Ok(Response::Done), ""), Err("cut".to_string()));
    assert_eq!(
        session(None, Ok(Response::Pong), "Pong"),
        Err("unexpected session reply: Pong".to_string())
    );
    let refused = ApiError { code: ErrorCode::Internal, msg: "broke".to_string() };
    assert_eq!(session(None, Ok(Response::Error(refused)), ""), Err("broke".to_string()));
    assert_eq!(
        session(None, Err(RpcFailure::ConnectionPoisoned), ""),
        Err("session failed: connection is poisoned".to_string())
    );
}

#[test]
fn a_filled_form_becomes_a_call() {
    let form = build(Some(&config(Source::Empty)));
    let action = create_action(parse(&form, None, true).unwrap(), Platform::Unix);
    let Action::CreateInstance { name, source, retry_policy, .. } = action else {
        panic!("expected a creation")
    };
    assert_eq!(name, "web");
    assert_eq!(source, Source::Empty);
    assert_eq!(retry_policy, RetryPolicy::Retry(3));
}

// ---- listing -------------------------------------------------------------------------

fn vitals(instances: Vec<InstanceStatResponse>) -> Vitals {
    stat(stat_response(instances), "").unwrap()
}

#[test]
fn servers_are_listed_with_their_instances() {
    let server = entry(1, "alpha");
    let lines = server_lines(
        &server,
        &Ok(vitals(vec![instance(0xab, "web", RunState::NotRunning)])),
        &vec!["".to_string()],
    );
    assert_eq!(
        lines,
        [
            "alpha (127.0.0.1:5000)".to_string(),
            format!("  {:<24} {:032x}  stopped", "web", 0xab),
        ]
    );
    assert_eq!(
        server_lines(&server, &Ok(vitals(vec![])), &vec![])[1],
        "  (no instances)"
    );
    assert_eq!(
        server_lines(&server, &Err(NetError::NoKey), &vec![]),
        ["alpha (127.0.0.1:5000) — no key — run `client keygen <phrase>`"]
    );
    assert!(no_servers().starts_with("no servers configured"));
}

#[test]
fn states_are_told_in_words() {
    let told = |run: RunState| status(&instance(1, "x", run), "0.4");
    assert_eq!(told(RunState::Stopped), "stopped");
    assert_eq!(told(RunState::Starting), "starting");
    assert_eq!(
        told(RunState::Exited { code: Some(-1), signal: None, restarts: 0 }),
        "exited (-1)"
    );
    assert_eq!(
        told(RunState::Exited { code: None, signal: Some(9), restarts: 0 }),
        "killed by signal 9"
    );
    assert_eq!(told(RunState::Exited { code: None, signal: None, restarts: 0 }), "exited");
    assert_eq!(told(RunState::Failed("no\nsuch".to_string())), "failed: no");
    let mut own = instance(1, "x", RunState::NotRunning);
    own.repo = RepoState::CloneFailed("bad\nurl".to_string());
    assert_eq!(status(&own, ""), "source failed: bad");
    own.repo = RepoState::Provisioning;
    assert_eq!(status(&own, ""), "preparing");
    own.self_managed = true;
    assert_eq!(status(&own, ""), "this server");
}

// ---- keys ----------------------------------------------------------------------------

#[test]
fn keys_are_copied_derived_or_drawn() {
    let hex = to_hex(&[7u8; KEY_LEN]);
    assert_eq!(choose_key(Some("p"), Some(&hex)), Ok((vec![7; KEY_LEN], KeySource::Copied)));
    assert_eq!(
        choose_key(None, Some("ab")),
        Err(KeyError::Given(
            "--key: a key is 2048 hex characters (1024 bytes); got 2".to_string()
        ))
    );
    let (a, source) = choose_key(None, None).unwrap();
    assert_eq!(source, KeySource::Random);
    assert_ne!(a, choose_key(Some(""), None).unwrap().0);
    assert_eq!(choose_key(Some("phrase"), None).unwrap().1, KeySource::Derived);
}

#[test]
fn a_key_is_set_for_one_server_or_for_all() {
    let mut known = book(&["alpha", "beta"]);
    assert_eq!(
        set_key(&mut known, Some("BETA"), &[5; KEY_LEN], "c"),
        Ok("server 'beta'".to_string())
    );
    assert_eq!(known.servers[1].name, "beta");
    assert_eq!(known.servers[1].key, vec![5; KEY_LEN]);
    assert!(known.servers[0].key.is_empty());
    assert_eq!(
        set_key(&mut known, None, &[6; KEY_LEN], "c"),
        Ok("all servers without a key of their own".to_string())
    );
    assert_eq!(known.key, vec![6; KEY_LEN]);
    assert_eq!(
        set_key(&mut known, Some("gamma"), &[6; KEY_LEN], "c"),
        Err("no server named 'gamma' in c".to_string())
    );
    let said = report_lines(KeySource::Random, "all", "c", &[0xab; 2]);
    assert_eq!(said[0], "Key (random) saved for all in c.");
    assert_eq!(said[2], "server keygen --key abab");
    assert_eq!(report_lines(KeySource::Derived, "all", "c", &[]).len(), 1);
}

#[test]
fn keys_are_sent_as_a_terminal_sends_them() {
    let sent = |code| encode_key(&press(code));
    assert_eq!(sent(KeyCode::Char('é')), Some("é".as_bytes().to_vec()));
    assert_eq!(sent(KeyCode::Enter), Some(b"\r".to_vec()));
    assert_eq!(sent(KeyCode::Up), Some(b"\x1b[A".to_vec()));
    assert_eq!(sent(KeyCode::Delete), Some(b"\x1b[3~".to_vec()));
    assert_eq!(sent(KeyCode::F(5)), Some(b"\x1b[15~".to_vec()));
    assert_eq!(sent(KeyCode::Backspace), Some(vec![0x7f]));
    assert_eq!(
        encode_key(&KeyEvent::new(KeyCode::Char('c'), KeyModifiers::control())),
        Some(vec![3])
    );
    let shifted = KeyModifiers { control: true, alt: false, shift: true };
    assert_eq!(
        encode_key(&KeyEvent::new(KeyCode::Left, shifted)),
        Some(b"\x1b[1;6D".to_vec())
    );
    assert_eq!(sent(KeyCode::Other), None);
    assert_eq!(ctrl_byte('['), Some(0x1b));
    assert_eq!(ctrl_byte('é'), None);
    assert!(is_ctrl(&KeyEvent::new(KeyCode::Char('d'), KeyModifiers::control()), 'd'));
}

#[test]
fn a_key_that_is_pressed_and_released_is_sent_once() {
    let mut pump = ShellPump::new(80, 24);
    let key = press(KeyCode::Char('a'));
    let down = pump.step(ShellEvent::Key { key, kind: KeyKind::Press });
    assert_eq!(down.send, Some(data_frame(b"a")));
    let up = pump.step(ShellEvent::Key { key, kind: KeyKind::Release });
    assert_eq!(up.send, None);
    let lone = pump.step(ShellEvent::Key { key, kind: KeyKind::Release });
    assert_eq!(lone.send, Some(data_frame(b"a")));
}

#[test]
fn a_window_s_new_size_is_sent_once() {
    let mut pump = ShellPump::new(80, 24);
    assert_eq!(pump.step(ShellEvent::Size { cols: 80, rows: 24 }).send, None);
    assert_eq!(
        pump.step(ShellEvent::Size { cols: 90, rows: 24 }).send,
        Some(resize_frame(90, 24))
    );
    assert_eq!(pump.step(ShellEvent::Size { cols: 90, rows: 24 }).send, None);
    assert!(pump.step(ShellEvent::RemoteClosed).end);
    assert!(pump.step(ShellEvent::SendFailed).end);
}

#[test]
fn a_terminal_that_answers_for_itself_gets_everything() {
    let mut pump = ShellPump::new(80, 24);
    let step = pump.step(ShellEvent::Verbatim(b"a\x1b[6nb".to_vec()));
    assert_eq!((step.print, step.queries), (b"a\x1b[6nb".to_vec(), 0));
    let step = pump.step(ShellEvent::Remote(b"a\x1b[6nb".to_vec()));
    assert_eq!((step.print, step.queries), (b"ab".to_vec(), 1));
}

#[test]
fn queries_are_taken_out_of_the_output() {
    let whole = b"a\x1b[6nb\x1b[?9001hc\x1b[31md";
    let mut filter = OutputFilter::new();
    assert_eq!(filter.feed(whole), (b"abc\x1b[31md".to_vec(), 1));
    for cut in 0..whole.len() {
        let mut filter = OutputFilter::new();
        let (mut printed, first) = filter.feed(&whole[..cut]);
        let (rest, second) = filter.feed(&whole[cut..]);
        printed.extend_from_slice(&rest);
        assert_eq!((printed, first + second), (b"abc\x1b[31md".to_vec(), 1), "cut at {cut}");
    }
    assert_eq!(cursor_reply(3, 14), data_frame(b"\x1b[3;14R"));
}

#[test]
fn attached_output_goes_above_the_line() {
    assert_eq!(crlf(b"a\nb\r\nc"), b"a\r\nb\r\nc");
    let mut editor = LineEditor::new();
    attach_step(&mut editor, AttachEvent::Begin);
    let typed = attach_step(
        &mut editor,
        AttachEvent::Key { key: press(KeyCode::Char('x')), kind: KeyKind::Press },
    );
    assert_eq!(typed.print, edit_row(&editor).into_bytes());
    let out = attach_step(&mut editor, AttachEvent::Remote(b"hi\n".to_vec()));
    let mut expected = b"\r\x1b[Khi\r\n".to_vec();
    expected.extend_from_slice(edit_row(&editor).as_bytes());
    assert_eq!(out.print, expected);
    let sent = attach_step(
        &mut editor,
        AttachEvent::Key { key: press(KeyCode::Enter), kind: KeyKind::Press },
    );
    assert_eq!(sent.send, Some("x\r\n".to_string()));
    let gone = attach_step(
        &mut editor,
        AttachEvent::Key {
            key: KeyEvent::new(KeyCode::Char('c'), KeyModifiers::control()),
            kind: KeyKind::Press,
        },
    );
    assert_eq!(gone.end, Some(false));
    assert_eq!(attach_step(&mut editor, AttachEvent::RemoteClosed).end, Some(true));
    assert!(attach_banner("a/b").contains("attached to a/b"));
    assert!(shell_banner("a/b").contains("a/b"));
    assert_ne!(attach_farewell(true), attach_farewell(false));
}

// ---- panels, polls, transfers --------------------------------------------------------

fn file(name: &str) -> DirEntry {
    DirEntry { name: name.to_string(), is_dir: false, size: 1, modified_secs: None }
}

#[test]
fn marks_stay_on_what_is_there() {
    let mut panel = Panel::new("/a".to_string());
    panel.apply("/a".to_string(), Ok(vec![file("x"), file("y")]));
    panel.toggle_selected();
    assert_eq!(panel.picked(), ["x"]);
    panel.apply("/a".to_string(), Ok(vec![file("y")]));
    assert_eq!(panel.picked(), ["y"]);
    assert_eq!(clamp(5, 3), 2);
    assert_eq!(clamp(5, 0), 0);
    assert_eq!(Side::Local.other(), Side::Remote);
}

#[test]
fn a_server_is_not_asked_again_before_it_answers() {
    let known = book(&["alpha", "beta"]);
    let mut poller = Poller::new();
    assert_eq!(poller.due(&known).len(), 2);
    assert_eq!(poller.due(&known).len(), 0);
    poller.answered(1);
    let again = poller.due(&known);
    assert_eq!(again.len(), 1);
    assert_eq!(again[0].server, 1);
}

#[test]
fn a_download_takes_exactly_what_was_announced() {
    let mut download = Download::announced(&70_000u64.to_be_bytes());
    assert_eq!(download.want(), 65_536);
    assert_eq!(download.took(65_536), Ok(()));
    assert_eq!(download.want(), 4_464);
    assert_eq!(
        download.took(0),
        Err("connection closed after 65536 of 70000 bytes".to_string())
    );
    assert_eq!(download.took(4_464), Ok(()));
    assert_eq!(download.want(), 0);
    assert_eq!(archive_name(255), "chld-transfer-00000000000000ff.tar.gz");
    assert_eq!(entry_name("/a/b", Platform::Unix), Ok("b".to_string()));
    assert_eq!(entry_name("/", Platform::Unix), Err("'/' has no file name".to_string()));
}

#[test]
fn only_a_changed_file_is_pushed_back() {
    let request = EditRequest {
        endpoint: Endpoint::new(target(1), vec![]),
        side: Side::Remote,
        path: "/a/f".to_string(),
        name: "f".to_string(),
    };
    let a = Some(Fingerprint { size: 1, modified_ns: 5 });
    let b = Some(Fingerprint { size: 1, modified_ns: 6 });
    assert!(!changed(a, a));
    assert_eq!(run(&request, a, b), (true, "uploaded changes to 'f'".to_string()));
    assert_eq!(run(&request, a, a), (false, "'f' unchanged — nothing uploaded".to_string()));
    assert_eq!(editor_command(Some("code -w"), Some("vim"), Platform::Unix, "f"), ["code", "-w", "f"]);
    assert_eq!(editor_command(None, None, Platform::Unix, "f"), ["vi", "f"]);
    assert_eq!(
        editor_command(Some(" "), Some("nano -w"), Platform::Unix, "f.txt"),
        ["nano", "-w", "f.txt"]
    );
    assert_eq!(editor_command(Some(""), Some(""), Platform::Unix, "f"), ["vi", "f"]);
    assert_eq!(editor_command(None, Some("nano"), Platform::MacOs, "f"), ["nano", "f"]);
}

#[test]
fn a_raw_console_is_put_back_as_it_was() {
    assert_eq!(raw_input_mode(0x1ff), 0x1f8);
    assert_eq!(raw_output_mode(0x3), 0xf);
    let raw = entered(Some(1), true, Some(2), false);
    assert_eq!((raw.input, raw.output), (Some(1), None));
    assert_eq!(cursor_position(5, 9, 2, 4), (6, 4));
    assert_eq!(cursor_position(0, 0, 2, 4), (1, 1));
}

#[test]
fn an_instance_in_full_is_handed_on() {
    let detail = InstanceStatus {
        config: config(Source::Empty),
        repo: RepoState::Ready,
        run: RunState::NotRunning,
        stats: None,
        repo_dir: "/srv".to_string(),
    };
    let got = check(Response::InstanceStatus(detail), "").unwrap();
    assert_eq!(got.repo_dir, "/srv");
}

#[test]
fn local_directories_are_listed_as_a_server_lists_its_own() {
    let entry = |name: &str, is_dir| DirEntry {
        name: name.to_string(),
        is_dir,
        size: 0,
        modified_secs: None,
    };
    let read = Ok(vec![entry("b", false), entry("A", false), entry("z", true)]);
    let names: Vec<String> =
        read_local_dir("/d", read).unwrap().into_iter().map(|e| e.name).collect();
    assert_eq!(names, ["z", "A", "b"]);
    assert_eq!(
        read_local_dir("/d", Err("gone".to_string())).unwrap_err(),
        "cannot list '/d': gone"
    );
}
