//! The client's desk: what keys and answers do to it, and how it looks.
use container::client::app::{
    App, AppEvent, Effect, Given, Modal, Pending, Row, RunOutcome, Screen, SessionKind, ToastKind,
};
use container::client::book::{Book, ServerEntry};
use container::client::keys::{KeyCode, KeyEvent, KeyKind, KeyModifiers};
use container::client::net::{NetError, Target, Vitals};
use container::client::ui::{
    confirm_lines, console_lines, console_title, detail_lines, empty_tree_lines, header_line,
    help_lines, instance_status, keys_line, message_lines, meter, net_line, panel_lines,
    panel_title, run_summary, server_summary, status_line, vitals_remark, Color, Line, Rates,
};
use container::path::Platform;
use container::protocol::auth::KEY_LEN;
use container::protocol::{
    Action, ConsoleLine, DirEntry, Env, InstanceConfig, InstanceStatResponse, InstanceStatus,
    RepoState, RetryPolicy, RunState, Source, Stream,
};

const VERSION: u32 = 3;

fn entry(id: u128, name: &str) -> ServerEntry {
    ServerEntry {
        id,
        name: name.to_string(),
        addr: Target { ip: 0x7f00_0001, port: 5000 },
        key: Vec::new(),
    }
}

fn app(names: &[&str]) -> App {
    let book = Book {
        key: vec![1; KEY_LEN],
        servers: names.iter().enumerate().map(|(i, n)| entry(i as u128 + 1, n)).collect(),
    };
    App::new(book, Platform::Unix, VERSION)
}

fn given() -> Given {
    Given { now: 1_000, local_cwd: "/home".to_string(), found: true }
}

fn press(app: &mut App, code: KeyCode) {
    app.on_key(KeyEvent::new(code, KeyModifiers::none()), KeyKind::Press, &given());
}

fn type_text(app: &mut App, text: &str) {
    for c in text.chars() {
        press(app, KeyCode::Char(c));
    }
}

fn instance(id: u128, name: &str) -> InstanceStatResponse {
    InstanceStatResponse {
        id,
        name: name.to_string(),
        repo: RepoState::Ready,
        run: RunState::NotRunning,
        self_managed: false,
    }
}

fn vitals(version: u32, instances: Vec<InstanceStatResponse>) -> Vitals {
    Vitals {
        version,
        total_stg: 100,
        free_stg: 50,
        total_ram: 2048,
        free_ram: 1024,
        network_recv: 0,
        network_trans: 0,
        cpu_usage_bits: 0,
        instances,
        bootstrap: false,
    }
}

fn polled(app: &mut App, server: u128, instances: Vec<InstanceStatResponse>) {
    app.on_event(AppEvent::Snapshot { server, result: Ok(vitals(VERSION, instances)) }, 500);
}

fn detail(id: u128) -> InstanceStatus {
    InstanceStatus {
        config: InstanceConfig {
            id,
            name: "web".to_string(),
            source: Source::Url { url: "http://x/y.zip".to_string() },
            command: "node".to_string(),
            args: vec!["main.js".to_string()],
            env: Env::new(),
            autostart: false,
            retry_policy: RetryPolicy::Retry(2),
            self_managed: false,
        },
        repo: RepoState::Ready,
        run: RunState::NotRunning,
        stats: None,
        repo_dir: "/srv/web".to_string(),
    }
}

fn text_of(line: &Line) -> String {
    line.spans.iter().map(|s| s.text.as_str()).collect()
}

// ---- the landing page ----------------------------------------------------------------

#[test]
fn rows_follow_the_servers_and_their_instances() {
    let mut app = app(&["alpha", "beta"]);
    assert_eq!(app.rows().len(), 2);
    polled(&mut app, 1, vec![instance(7, "web"), instance(8, "db")]);
    assert_eq!(
        app.rows(),
        [
            Row::Server { server: 0 },
            Row::Instance { server: 0, instance: 0 },
            Row::Instance { server: 0, instance: 1 },
            Row::Server { server: 1 },
        ]
    );
    press(&mut app, KeyCode::Enter);
    assert_eq!(app.rows().len(), 2);
    assert_eq!(app.selected_row(), Some(Row::Server { server: 0 }));
    press(&mut app, KeyCode::Enter);
    assert_eq!(app.rows().len(), 4);
}

#[test]
fn a_new_server_is_added_and_published() {
    let mut app = app(&[]);
    press(&mut app, KeyCode::Char('a'));
    assert!(matches!(app.modal, Some(Modal::ServerForm { editing: None, .. })));
    type_text(&mut app, "alpha");
    press(&mut app, KeyCode::Tab);
    let Some(Modal::ServerForm { form, .. }) = &app.modal else { panic!("a form is open") };
    for _ in 0..form.field(1).text_value().chars().count() {
        press(&mut app, KeyCode::Backspace);
    }
    type_text(&mut app, "nonsense");
    press(&mut app, KeyCode::Enter);
    let Some(Modal::ServerForm { form, .. }) = &app.modal else { panic!("it stays open") };
    assert!(form.error.as_deref().unwrap_or("").contains("nonsense"));
    for _ in 0..8 {
        press(&mut app, KeyCode::Backspace);
    }
    type_text(&mut app, "10.0.0.1:7000");
    press(&mut app, KeyCode::Enter);
    assert!(app.modal.is_none());
    assert_eq!(app.servers().len(), 1);
    assert_eq!(app.servers()[0].addr.text(), "10.0.0.1:7000");
    assert!(app.take_effects().iter().any(|e| matches!(e, Effect::Publish)));
    assert!(app.take_effects().is_empty());
}

#[test]
fn a_version_mismatch_waits_for_its_turn() {
    let mut app = app(&["alpha"]);
    app.version_checks.insert(1);
    press(&mut app, KeyCode::Char('?'));
    app.on_event(AppEvent::Snapshot { server: 1, result: Ok(vitals(9, vec![])) }, 1);
    assert!(matches!(app.modal, Some(Modal::Help)));
    press(&mut app, KeyCode::Esc);
    assert!(app.modal.is_none());
    app.on_event(AppEvent::Snapshot { server: 1, result: Ok(vitals(9, vec![])) }, 2);
    let Some(Modal::Notice { message, .. }) = &app.modal else { panic!("a notice is shown") };
    assert!(message.starts_with("'alpha' speaks protocol version 9, this client version 3."));
    press(&mut app, KeyCode::Char('x'));
    app.on_event(AppEvent::Snapshot { server: 1, result: Ok(vitals(9, vec![])) }, 3);
    assert!(app.modal.is_none());
}

#[test]
fn a_removed_server_is_gone_and_the_others_stay() {
    let mut app = app(&["alpha", "beta"]);
    press(&mut app, KeyCode::Char('D'));
    if app.modal.is_none() {
        press(&mut app, KeyCode::Char('d'));
    }
    assert!(matches!(
        app.modal,
        Some(Modal::Confirm { pending: Pending::RemoveServer(1), .. })
    ));
    press(&mut app, KeyCode::Char('n'));
    assert!(app.modal.is_none());
    assert_eq!(app.servers().len(), 2);
    press(&mut app, KeyCode::Char('D'));
    if app.modal.is_none() {
        press(&mut app, KeyCode::Char('d'));
    }
    press(&mut app, KeyCode::Char('y'));
    assert_eq!(app.servers().len(), 1);
    assert_eq!(app.servers()[0].name, "beta");
    assert!(app.find(1).is_none());
    assert_eq!(app.toast.as_ref().map(|t| t.text.as_str()), Some("removed 'alpha'"));
}

#[test]
fn only_a_press_counts() {
    let mut app = app(&["alpha"]);
    for kind in [KeyKind::Release, KeyKind::Repeat] {
        app.on_key(KeyEvent::new(KeyCode::Char('q'), KeyModifiers::none()), kind, &given());
        assert!(!app.should_quit);
    }
    press(&mut app, KeyCode::Char('q'));
    assert!(matches!(app.outcome(), Some(RunOutcome::Quit)));
}

// ---- one instance --------------------------------------------------------------------

fn managing() -> App {
    let mut app = app(&["alpha"]);
    polled(&mut app, 1, vec![instance(7, "db"), instance(8, "web")]);
    press(&mut app, KeyCode::Down);
    press(&mut app, KeyCode::Enter);
    app
}

#[test]
fn an_instance_is_opened_and_asked_for() {
    let mut app = managing();
    let Screen::Manage(m) = app.screen() else { panic!("an instance is shown") };
    assert_eq!((m.server, m.instance), (1, 7));
    assert!(app
        .take_effects()
        .iter()
        .any(|e| matches!(e, Effect::FetchDetail { server: 1, instance: 7, .. })));
    app.on_event(AppEvent::Detail { server: 1, instance: 8, result: Ok(detail(8)) }, 1);
    assert!(app.manage().is_some_and(|m| m.detail.is_none()));
    app.on_event(AppEvent::Detail { server: 1, instance: 7, result: Ok(detail(7)) }, 1);
    assert!(app.manage().is_some_and(|m| m.detail.is_some()));
    press(&mut app, KeyCode::Esc);
    assert!(matches!(app.screen(), Screen::Landing));
}

#[test]
fn keys_act_on_the_instance() {
    let mut app = managing();
    app.take_effects();
    press(&mut app, KeyCode::Char('r'));
    let effects = app.take_effects();
    assert!(matches!(
        &effects[..],
        [Effect::Act { action: Action::RunInstance { id: 7 }, .. }]
    ));
    press(&mut app, KeyCode::Char('k'));
    press(&mut app, KeyCode::Char('y'));
    assert!(app
        .take_effects()
        .iter()
        .any(|e| matches!(e, Effect::Act { action: Action::KillInstance { id: 7 }, .. })));
    app.on_event(
        AppEvent::ActionDone { desc: "start".to_string(), result: Err("no".to_string()) },
        10,
    );
    assert!(app.toast.as_ref().is_some_and(|t| t.kind == ToastKind::Error));
    app.expire_toast(u64::MAX);
    assert!(app.toast.is_none());
}

#[test]
fn a_shell_leaves_the_desk_for_a_while() {
    let mut app = managing();
    press(&mut app, KeyCode::Char('s'));
    let Some(RunOutcome::Session(request)) = app.outcome() else { panic!("a session is asked for") };
    assert_eq!(request.kind, SessionKind::Shell);
    assert!(app.outcome().is_none());
}

fn lines(from: u64, to: u64) -> Vec<ConsoleLine> {
    (from..to)
        .map(|n| ConsoleLine { at_ms: n * 1000, stream: Stream::Stdout, text: format!("line {n}") })
        .collect()
}

fn console(app: &mut App, all: Vec<ConsoleLine>, dropped: u64) {
    app.on_event(AppEvent::Console { server: 1, instance: 7, result: Ok((all, dropped)) }, 1);
}

#[test]
fn a_console_scrolled_back_holds_its_place() {
    let mut app = managing();
    console(&mut app, lines(0, 40), 0);
    assert!(app.manage().is_some_and(|m| m.following()));
    press(&mut app, KeyCode::PageUp);
    assert_eq!(app.manage().map(|m| m.console_scroll), Some(10));
    console(&mut app, lines(0, 45), 0);
    assert_eq!(app.manage().map(|m| m.console_scroll), Some(15));
    console(&mut app, lines(35, 50), 35);
    assert_eq!(app.manage().map(|m| m.console_scroll), Some(15));
    press(&mut app, KeyCode::End);
    console(&mut app, lines(35, 60), 35);
    assert_eq!(app.manage().map(|m| m.console_scroll), Some(0));
    press(&mut app, KeyCode::Home);
    assert_eq!(app.manage().map(|m| m.console_scroll), Some(25));
}

#[test]
fn an_instance_that_is_gone_closes_its_screen() {
    let mut app = managing();
    polled(&mut app, 1, vec![instance(8, "web")]);
    assert!(matches!(app.screen(), Screen::Landing));
    assert_eq!(
        app.toast.as_ref().map(|t| t.text.as_str()),
        Some("that instance is no longer on the server")
    );
}

// ---- files ---------------------------------------------------------------------------

fn file(name: &str) -> DirEntry {
    DirEntry { name: name.to_string(), is_dir: false, size: 1, modified_secs: None }
}

fn browsing() -> App {
    let mut app = app(&["alpha"]);
    polled(&mut app, 1, vec![instance(7, "web")]);
    app.open_browse(1, 7, "/home".to_string(), "/srv/web".to_string());
    app.on_event(
        AppEvent::LocalDir { path: "/home".to_string(), result: Ok(vec![file("a"), file("b")]) },
        1,
    );
    app.on_event(
        AppEvent::RemoteDir {
            server: 1,
            requested: "/srv/web".to_string(),
            result: Ok(("/srv/web".to_string(), vec![file("a")])),
        },
        1,
    );
    app
}

#[test]
fn a_copy_leaves_alone_what_is_there() {
    let mut app = browsing();
    app.take_effects();
    if app.browse().is_some_and(|b| b.focus != container::client::browse::Side::Local) {
        press(&mut app, KeyCode::Tab);
    }
    press(&mut app, KeyCode::Char(' '));
    press(&mut app, KeyCode::Down);
    press(&mut app, KeyCode::Char(' '));
    press(&mut app, KeyCode::Char('c'));
    let Some(Modal::Confirm { pending: Pending::Transfer(plan), .. }) = &app.modal else {
        panic!("the copy is asked about")
    };
    assert_eq!(plan.names, ["a", "b"]);
    assert_eq!(plan.conflicts, ["a"]);
    press(&mut app, KeyCode::Char('y'));
    let effects = app.take_effects();
    let Some(Effect::Copy { sources, dest_dir, .. }) = effects.first() else {
        panic!("something is copied")
    };
    assert_eq!(sources, &["/home/b"]);
    assert_eq!(dest_dir, "/srv/web");
}

#[test]
fn a_listing_that_comes_late_is_ignored() {
    let mut app = browsing();
    app.on_event(
        AppEvent::LocalDir { path: "/elsewhere".to_string(), result: Ok(vec![]) },
        2,
    );
    assert_eq!(app.browse().map(|b| b.local.entries.len()), Some(2));
}

// ---- how it looks --------------------------------------------------------------------

#[test]
fn the_header_counts_the_servers_that_are_up() {
    let mut app = app(&["alpha", "beta"]);
    polled(&mut app, 1, vec![]);
    assert_eq!(text_of(&header_line(&app)), " container   1/2 servers up");
    assert_eq!(text_of(&empty_tree_lines()[1]), "  No servers yet.");
}

#[test]
fn a_server_is_summed_up() {
    let mut app = app(&["alpha"]);
    polled(&mut app, 1, vec![]);
    let rates = Rates { cpu: "12".to_string(), recv: 2048, trans: 0 };
    let state = app.state_of(&app.servers()[0]);
    assert_eq!(
        server_summary(state, "x", &rates, 500),
        "x   cpu 12%  ram 1.0K/2.0K  ↓2.0K/s ↑0B/s"
    );
    assert_eq!(vitals_remark(state), None);
    app.on_event(
        AppEvent::Snapshot { server: 1, result: Err(NetError::NoKey) },
        5_000_000_500,
    );
    let state = app.state_of(&app.servers()[0]);
    assert_eq!(
        server_summary(state, "x", &rates, 7_000_000_500),
        "x   no key — run `client keygen <phrase>` · last seen 7s ago"
    );
    assert!(vitals_remark(state).is_some());
}

#[test]
fn instances_have_a_sign_each() {
    let mut inst = instance(1, "web");
    assert_eq!(instance_status(&inst, "").label, "stopped");
    inst.run = RunState::Running { pids: vec![42, 43], restarts: 2 };
    assert_eq!(instance_status(&inst, "").label, "running (pid 42, 2 restarts)");
    inst.run = RunState::Backoff { delay_ms: 400, restarts: 1 };
    assert_eq!(instance_status(&inst, "0.4").label, "restarting in 0.4s (1 restarts)");
    inst.run = RunState::Exited { code: Some(0), signal: None, restarts: 0 };
    assert_eq!(instance_status(&inst, "").style.fg, Some(Color::Dim));
    inst.run = RunState::Exited { code: Some(1), signal: None, restarts: 0 };
    assert_eq!(instance_status(&inst, "").style.fg, Some(Color::Red));
    inst.repo = RepoState::CloneFailed("x\ny".to_string());
    assert_eq!(instance_status(&inst, "").label, "clone failed: x");
    assert_eq!(
        run_summary(&RunState::Exited { code: None, signal: Some(9), restarts: 3 }, "").label,
        "killed by signal 9 after 3 restarts"
    );
}

#[test]
fn details_tell_everything_of_an_instance() {
    let all: Vec<String> =
        detail_lines("alpha", &detail(7), "", "").iter().map(|l| text_of(l)).collect();
    let has = |part: &str| all.iter().any(|l| l.contains(part));
    assert!(has("http://x/y.zip (download)"));
    assert!(has("node main.js"));
    assert!(has("restart up to 2× · autostart off"));
    assert!(has("client shell alpha/web"));
    assert!(has("/srv/web"));
}

#[test]
fn consoles_show_their_end_and_what_was_lost() {
    let mut app = managing();
    let m = app.manage().expect("an instance is shown");
    assert_eq!(text_of(&console_lines(m, 5)[0]), "no output yet");
    console(&mut app, lines(0, 3), 2);
    let m = app.manage().expect("an instance is shown");
    let shown: Vec<String> = console_lines(m, 10).iter().map(|l| text_of(l)).collect();
    assert_eq!(
        shown,
        [
            "… 2 earlier lines discarded",
            "00:00:00 line 0",
            "00:00:01 line 1",
            "00:00:02 line 2"
        ]
    );
    assert_eq!(console_title(m).text, " console ");
    press(&mut app, KeyCode::PageUp);
    let m = app.manage().expect("an instance is shown");
    assert_eq!(console_title(m).text, " console · scrolled back 3 ");
}

#[test]
fn small_pieces_are_put_together() {
    assert_eq!(text_of(&net_line(1024, 0)), "net  ↓1.0K/s ↑0B/s");
    let bar = text_of(&meter("ram  ", 3, Color::Green, "12%"));
    assert!(bar.starts_with("ram  "));
    assert!(bar.ends_with(" 12%"));
    let shown: Vec<String> = message_lines("a\nb").iter().map(|l| text_of(l)).collect();
    assert_eq!(shown, ["a", "b"]);
    let asked: Vec<String> = confirm_lines("a\nb", None).iter().map(|l| text_of(l)).collect();
    assert_eq!(asked, ["a", "b", "", "y confirm    n/esc cancel"]);
    let app = managing();
    assert!(!text_of(&keys_line(&app)).is_empty());
    assert!(!help_lines(&app).is_empty());
    let _ = text_of(&status_line(&app));
    let files = browsing();
    let b = files.browse().expect("files are shown");
    assert!(panel_title(b, container::client::browse::Side::Local, 40).text.contains("/home"));
    assert_eq!(panel_lines(&b.local, 40).len(), 2);
}
