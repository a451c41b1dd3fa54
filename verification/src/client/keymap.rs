//! What keys do to the client's state.
use vstd::prelude::*;

use crate::client::app::{
    App, Asked, Browsing, ConfirmToggle, Deed, Desk, Effect, Given, Handover, Manage, Managed,
    Modal, Move, Pending, Plan, Popup, Row, Scene, Screen, ServerState, SessionKind,
    SessionRequest, TransferPlan, Wish,
};
use crate::client::app;
use crate::client::book::{Known, ServerEntry};
use crate::client::book;
use crate::client::browse::{Browse, Panel, Shown, Side, Transfer};
use crate::client::browse;
use crate::client::form::{Field, Form, FormOutcome, Sheet};
use crate::client::form;
use crate::client::instance_form;
use crate::client::keys::{KeyCode, KeyEvent, KeyKind};
use crate::client::net::Target;
use crate::client::net;
use crate::chance;
use crate::path;
use crate::protocol::api::Action;
use crate::protocol::instance::Source;
use crate::protocol::instance;
use crate::text;

verus! {

broadcast use vstd::std_specs::hash::group_hash_axioms;

// ---- the landing page --------------------------------------------------------------

pub open spec fn quitting(d: Desk) -> Desk {
    Desk { should_quit: true, ..d }
}

pub open spec fn helped(d: Desk) -> Desk {
    Desk { modal: Some(Popup::Help), ..d }
}

/// The row under the cursor is opened: a server is collapsed or expanded, an
/// instance gets its screen.
pub open spec fn activated(d: Desk) -> Desk {
    match app::row_at_cursor(d) {
        Some(Row::Server { server }) => {
            let id = d.servers[server as int].id;
            let s = d.states[id];
            app::cursor_clamped(
                if d.states.contains_key(id) {
                    Desk {
                        states: d.states.insert(id, ServerState { collapsed: !s.collapsed, ..s }),
                        ..d
                    }
                } else {
                    d
                },
            )
        },
        Some(Row::Instance { server, instance }) => {
            let id = d.servers[server as int].id;
            let list = app::instances(d, id);
            if instance < list.len() {
                app::manage_opened(d, id, list[instance as int].id)
            } else {
                d
            }
        },
        None => d,
    }
}

pub open spec fn server_sheet(existing: Option<Known>) -> Sheet {
    Sheet {
        title: match existing {
            Some(_) => "Edit server"@,
            None => "Add server"@,
        },
        fields: seq![
            instance_form::hinted(
                instance_form::text_entry(
                    "Name"@,
                    match existing {
                        Some(e) => e.name,
                        None => seq![],
                    },
                ),
                "shown in the list"@,
            ),
            instance_form::hinted(
                instance_form::text_entry(
                    "Address"@,
                    match existing {
                        Some(e) => net::target_text(e.addr),
                        None => "127.0.0.1:5000"@,
                    },
                ),
                "host:port"@,
            ),
        ],
        focus: 0,
        error: None,
    }
}

pub open spec fn server_form_opened(d: Desk, editing: Option<u128>) -> Desk {
    let existing = match editing {
        Some(id) => if app::has_server(d, id) {
            Some(d.servers[app::server_at(d.servers, id, 0)])
        } else {
            None
        },
        None => None,
    };
    Desk { modal: Some(Popup::ServerForm { form: server_sheet(existing), editing }), ..d }
}

/// The details of the instance on the manage screen, where they have come in.
pub open spec fn detail_of(d: Desk, id: u128) -> Option<crate::protocol::InstanceStatus> {
    match d.screens.last() {
        Scene::Manage(m) => if m.instance == id {
            m.detail
        } else {
            None
        },
        _ => None,
    }
}

/// The form for an instance. Editing needs the details.
pub open spec fn instance_form_opened(
    d: Desk,
    server: u128,
    editing: Option<u128>,
    now: u64,
) -> Desk {
    match editing {
        None => Desk {
            modal: Some(
                Popup::InstanceForm {
                    form: instance_form::form_for(None),
                    server,
                    editing,
                    upload_desc: None,
                },
            ),
            ..d
        },
        Some(id) => match detail_of(d, id) {
            None => app::warned(
                d,
                "still loading this instance's configuration — try again in a moment"@,
                now,
            ),
            Some(detail) => Desk {
                modal: Some(
                    Popup::InstanceForm {
                        form: instance_form::form_for(Some(&detail.config)),
                        server,
                        editing,
                        upload_desc: match detail.config.source@ {
                            instance::Origin::Upload { desc } => Some(desc),
                            _ => None,
                        },
                    },
                ),
                ..d
            },
        },
    }
}

pub open spec fn confirming(
    d: Desk,
    title: Seq<char>,
    message: Seq<char>,
    toggle: Option<(Seq<char>, bool)>,
    pending: Asked,
) -> Desk {
    Desk { modal: Some(Popup::Confirm { title, message, toggle, pending }), ..d }
}

pub open spec fn server_removal_asked(d: Desk, now: u64) -> Desk {
    match app::server_at_cursor(d) {
        None => app::warned(d, "nothing selected"@, now),
        Some(i) => {
            let e = d.servers[i];
            confirming(
                d,
                "Remove server"@,
                "Remove '"@ + e.name + "' ("@ + net::target_text(e.addr)
                    + ") from this client?\nThe server itself and its instances are left untouched."@,
                None,
                Asked::RemoveServer(e.id),
            )
        },
    }
}

pub open spec fn bootstrap_asked(d: Desk, now: u64) -> Desk {
    match app::server_at_cursor(d) {
        None => app::warned(d, "nothing selected"@, now),
        Some(i) => {
            let e = d.servers[i];
            let offered = d.states.contains_key(e.id) && d.states[e.id].vitals is Some
                && d.states[e.id].vitals->0.bootstrap;
            if !offered {
                app::warned(
                    d,
                    "'"@ + e.name
                        + "' does not offer bootstrapping (not enabled, already done, or unreachable)"@,
                    now,
                )
            } else {
                confirming(
                    d,
                    "Bootstrap server"@,
                    "Hand '"@ + e.name
                        + "' over to itself?\nIt records itself as an instance, restarts once, and then appears in its own instance list."@,
                    None,
                    Asked::Bootstrap(e.id),
                )
            }
        },
    }
}

/// What a key does on the landing page.
pub open spec fn landing_keyed(d: Desk, key: KeyEvent, now: u64) -> Desk {
    let len = app::all_rows(d).len() as int;
    match key.code {
        KeyCode::Char('q') => quitting(d),
        KeyCode::Esc => quitting(d),
        KeyCode::Char('?') => helped(d),
        KeyCode::Up => Desk { cursor: cursor_up(d.cursor), ..d },
        KeyCode::Char('k') => Desk { cursor: cursor_up(d.cursor), ..d },
        KeyCode::Down => Desk { cursor: cursor_down(d.cursor, len), ..d },
        KeyCode::Char('j') => Desk { cursor: cursor_down(d.cursor, len), ..d },
        KeyCode::Home => Desk { cursor: 0, ..d },
        KeyCode::End => Desk { cursor: last_of(len), ..d },
        KeyCode::Enter => activated(d),
        KeyCode::Char(' ') => activated(d),
        KeyCode::Char('a') => server_form_opened(d, None),
        KeyCode::Char('n') => match app::server_at_cursor(d) {
            Some(i) => instance_form_opened(d, d.servers[i].id, None, now),
            None => app::warned(d, "select a server first"@, now),
        },
        KeyCode::Char('e') => match app::server_at_cursor(d) {
            Some(i) => server_form_opened(d, Some(d.servers[i].id)),
            None => app::warned(d, "nothing selected"@, now),
        },
        KeyCode::Char('d') => server_removal_asked(d, now),
        KeyCode::Char('B') => bootstrap_asked(d, now),
        KeyCode::Char('r') => app::informed(app::wishing(d, Wish::Refresh), "refreshing"@, now),
        _ => d,
    }
}

pub open spec fn last_of(len: int) -> int {
    if len == 0 {
        0
    } else {
        len - 1
    }
}

pub open spec fn cursor_up(cursor: int) -> int {
    if cursor == 0 {
        0
    } else {
        cursor - 1
    }
}

/// One row down, and never beyond the last.
pub open spec fn cursor_down(cursor: int, len: int) -> int {
    if cursor + 1 < len {
        cursor + 1
    } else {
        last_of(len)
    }
}

fn last_index(len: usize) -> (r: usize)
    ensures
        r == last_of(len as int),
{
    if len == 0 {
        0
    } else {
        len - 1
    }
}

fn step_down(cursor: usize, len: usize) -> (r: usize)
    ensures
        r == cursor_down(cursor as int, len as int),
{
    if cursor < last_index(len) {
        cursor + 1
    } else {
        last_index(len)
    }
}

fn step_up(cursor: usize) -> (r: usize)
    ensures
        r == cursor_up(cursor as int),
{
    if cursor == 0 {
        0
    } else {
        cursor - 1
    }
}

// ---- the manage screen -------------------------------------------------------------

/// The next or the previous instance of the same server takes the screen, round
/// and round.
pub open spec fn instance_stepped(d: Desk, forward: bool) -> Desk {
    match d.screens.last() {
        Scene::Manage(m) => {
            let list = app::instances(d, m.server);
            let at = app::instance_at(list, m.instance, 0);
            if list.len() < 2 || at >= list.len() {
                d
            } else {
                let next = if forward {
                    if at + 1 == list.len() {
                        0
                    } else {
                        at + 1
                    }
                } else if at == 0 {
                    list.len() - 1
                } else {
                    at - 1
                };
                app::fetching_detail(
                    app::on_top(d, Scene::Manage(app::fresh_manage(m.server, list[next].id))),
                    m.server,
                    list[next].id,
                )
            }
        },
        _ => d,
    }
}

/// How the console is scrolled.
#[derive(Clone, Copy, Debug, PartialEq, Eq, Structural)]
pub enum Scroll {
    /// A page towards older lines.
    Back,
    /// A page towards newer lines.
    On,
    /// To the oldest line.
    Oldest,
    /// To the newest line, and following from there.
    Newest,
}

pub open spec fn scrolled_to(m: Managed, scroll: Scroll) -> int {
    let max = m.console.len() as int;
    match scroll {
        Scroll::Back => if m.console_scroll + 10 < max {
            m.console_scroll + 10
        } else {
            max
        },
        Scroll::On => if m.console_scroll > 10 {
            m.console_scroll - 10
        } else {
            0
        },
        Scroll::Oldest => max,
        Scroll::Newest => 0,
    }
}

pub open spec fn console_scrolled(d: Desk, scroll: Scroll) -> Desk {
    match d.screens.last() {
        Scene::Manage(m) => app::on_top(
            d,
            Scene::Manage(Managed { console_scroll: scrolled_to(m, scroll), ..m }),
        ),
        _ => d,
    }
}

/// Restarting: the self-managed instance is the server itself, so it is asked
/// about first.
pub open spec fn restart_asked(d: Desk) -> Desk {
    match d.screens.last() {
        Scene::Manage(m) => if !is_self(d, m.server, m.instance) {
            app::acting(
                d,
                "restart"@,
                m.server,
                Deed::Plain(Action::RestartInstance { id: m.instance }),
            )
        } else {
            confirming(
                d,
                "Restart server"@,
                "Restart '"@ + app::server_name(d, m.server)
                    + "' itself?\nIt hands over to a fresh process; connections drop for a moment."@,
                None,
                Asked::RestartServer { server: m.server, instance: m.instance },
            )
        },
        _ => d,
    }
}

/// Whether an instance is reported as the server's own process.
pub open spec fn is_self(d: Desk, server: u128, instance: u128) -> bool {
    let list = app::instances(d, server);
    exists|i: int|
        0 <= i < list.len() && (#[trigger] list[i]).id == instance && list[i].self_managed
}

pub open spec fn session_asked(d: Desk, kind: SessionKind) -> Desk {
    match d.screens.last() {
        Scene::Manage(m) => match app::dest(d, m.server) {
            None => d,
            Some(endpoint) => Desk {
                pending_session: Some(
                    Handover {
                        kind,
                        endpoint,
                        instance: m.instance,
                        label: app::server_name(d, m.server) + "/"@ + app::instance_name(
                            d,
                            m.server,
                            m.instance,
                        ),
                    },
                ),
                ..d
            },
        },
        _ => d,
    }
}

pub open spec fn kill_asked(d: Desk, server: u128, instance: u128) -> Desk {
    confirming(
        d,
        "Kill instance"@,
        "Kill '"@ + app::instance_name(d, server, instance)
            + "' immediately?\nNo grace period — the process tree is terminated outright."@,
        None,
        Asked::KillInstance { server, instance },
    )
}

pub open spec fn removal_asked(d: Desk, server: u128, instance: u128) -> Desk {
    confirming(
        d,
        "Remove instance"@,
        "Remove '"@ + app::instance_name(d, server, instance)
            + "' from the server?\nIt is stopped first if it is running."@,
        Some(("also delete its files on the server"@, false)),
        Asked::RemoveInstance { server, instance },
    )
}

pub open spec fn fresh_browse(
    server: u128,
    instance: u128,
    local_cwd: Seq<char>,
    remote_root: Seq<char>,
) -> Browsing {
    Browsing {
        server,
        instance,
        remote_root,
        local: browse::fresh_panel(local_cwd),
        remote: browse::fresh_panel(remote_root),
        focus: Side::Local,
        transfer: None,
    }
}

/// The file browser is opened, both sides loading.
pub open spec fn browse_opened(
    d: Desk,
    server: u128,
    instance: u128,
    local_cwd: Seq<char>,
    remote_root: Seq<char>,
) -> Desk {
    app::fetching_remote(
        app::fetching_local(
            app::pushed(
                d,
                Scene::Browse(fresh_browse(server, instance, local_cwd, remote_root)),
            ),
            local_cwd,
        ),
        server,
        remote_root,
    )
}

pub open spec fn browse_asked(d: Desk, local_cwd: Seq<char>, now: u64) -> Desk {
    match d.screens.last() {
        Scene::Manage(m) => match m.detail {
            None => app::warned(
                d,
                "still loading this instance's checkout path — try again in a moment"@,
                now,
            ),
            Some(detail) => browse_opened(d, m.server, m.instance, local_cwd, detail.repo_dir@),
        },
        _ => d,
    }
}

/// What a key does on the manage screen.
pub open spec fn manage_keyed(
    d: Desk,
    server: u128,
    instance: u128,
    key: KeyEvent,
    given: Given,
) -> Desk {
    match key.code {
        KeyCode::Esc => app::popped(d),
        KeyCode::Backspace => app::popped(d),
        KeyCode::Char('q') => quitting(d),
        KeyCode::Char('?') => helped(d),
        KeyCode::Up => instance_stepped(d, false),
        KeyCode::Char('[') => instance_stepped(d, false),
        KeyCode::Down => instance_stepped(d, true),
        KeyCode::Char(']') => instance_stepped(d, true),
        KeyCode::PageUp => console_scrolled(d, Scroll::Back),
        KeyCode::PageDown => console_scrolled(d, Scroll::On),
        KeyCode::End => console_scrolled(d, Scroll::Newest),
        KeyCode::Home => console_scrolled(d, Scroll::Oldest),
        KeyCode::Char('r') => app::acting(
            d,
            "start"@,
            server,
            Deed::Plain(Action::RunInstance { id: instance }),
        ),
        KeyCode::Char('R') => restart_asked(d),
        KeyCode::Char('x') => app::acting(
            d,
            "stop"@,
            server,
            Deed::Plain(Action::StopInstance { id: instance }),
        ),
        KeyCode::Char('u') => app::acting(
            d,
            "update repo"@,
            server,
            Deed::Plain(Action::UpdateRepo { id: instance }),
        ),
        KeyCode::Char('k') => kill_asked(d, server, instance),
        KeyCode::Char('D') => removal_asked(d, server, instance),
        KeyCode::Char('e') => instance_form_opened(d, server, Some(instance), given.now),
        KeyCode::Char('n') => instance_form_opened(d, server, None, given.now),
        KeyCode::Char('s') => session_asked(d, SessionKind::Shell),
        KeyCode::Char('a') => session_asked(d, SessionKind::Attach),
        KeyCode::Char('b') => browse_asked(d, given.local_cwd@, given.now),
        _ => d,
    }
}

// ---- the file browser --------------------------------------------------------------

/// The top screen, where it is the browser, with another panel in focus.
pub open spec fn panel_changed(d: Desk, b: Browsing, panel: Shown) -> Desk {
    app::on_top(d, Scene::Browse(b.with(b.focus, panel)))
}

/// Where the cursor of a panel goes.
#[derive(Clone, Copy, Debug, PartialEq, Eq, Structural)]
pub enum Motion {
    Up,
    Down,
    First,
    Last,
}

pub open spec fn cursor_moved(p: Shown, motion: Motion) -> Shown {
    let len = p.entries.len() as int;
    if len == 0 {
        p
    } else {
        Shown {
            cursor: match motion {
                Motion::Up => cursor_up(p.cursor),
                Motion::Down => cursor_down(p.cursor, len),
                Motion::First => 0,
                Motion::Last => len - 1,
            },
            ..p
        }
    }
}

pub open spec fn fetching_side(d: Desk, side: Side, server: u128, dir: Seq<char>) -> Desk {
    match side {
        Side::Local => app::fetching_local(d, dir),
        Side::Remote => app::fetching_remote(d, server, dir),
    }
}

/// The directory under the cursor is entered.
pub open spec fn entered(d: Desk) -> Desk {
    match d.screens.last() {
        Scene::Browse(b) => {
            let p = b.at(b.focus);
            if p.cursor < p.entries.len() && p.entries[p.cursor].is_dir {
                let next = path::joined(p.cwd, p.entries[p.cursor].name@, d.platform);
                fetching_side(
                    panel_changed(d, b, browse::navigated(p, next)),
                    b.focus,
                    b.server,
                    next,
                )
            } else {
                d
            }
        },
        _ => d,
    }
}

/// Where going up leads; nowhere from the instance's own directory.
pub open spec fn up_from(b: Browsing, platform: path::Platform) -> Option<Seq<char>> {
    if b.focus == Side::Remote && path::parts(b.remote.cwd, platform) == path::parts(
        b.remote_root,
        platform,
    ) {
        None
    } else {
        path::parent_of(b.at(b.focus).cwd, platform)
    }
}

pub open spec fn left(d: Desk) -> Desk {
    match d.screens.last() {
        Scene::Browse(b) => match up_from(b, d.platform) {
            None => d,
            Some(up) => fetching_side(
                panel_changed(d, b, browse::navigated(b.at(b.focus), up)),
                b.focus,
                b.server,
                up,
            ),
        },
        _ => d,
    }
}

pub open spec fn described(names: Seq<Seq<char>>) -> Seq<char> {
    if names.len() == 1 {
        "'"@ + names[0] + "'"@
    } else {
        text::decimal(names.len()) + " items"@
    }
}

/// The first four of the names, and how many more there are.
pub open spec fn sampled(names: Seq<Seq<char>>) -> Seq<char> {
    let first = text::joined(
        names.take(
            if names.len() < 4 {
                names.len() as int
            } else {
                4
            },
        ),
        ", "@,
    );
    if names.len() > 4 {
        first + (" (+"@ + text::decimal((names.len() - 4) as nat) + " more)"@)
    } else {
        first
    }
}

pub open spec fn side_name(side: Side) -> Seq<char> {
    match side {
        Side::Local => "local"@,
        Side::Remote => "remote"@,
    }
}

/// What a copy from the side in focus would do.
pub open spec fn plan_of(b: Browsing) -> Plan {
    let names = browse::picked_names(b.at(b.focus));
    let to = b.at(b.focus.other());
    Plan {
        server: b.server,
        from: b.focus,
        src_dir: b.at(b.focus).cwd,
        dest_dir: to.cwd,
        names,
        conflicts: browse::also_in(names, browse::names_of(to.entries)),
    }
}

pub open spec fn plan_text(plan: Plan) -> Seq<char> {
    let ask = "Copy "@ + described(plan.names) + " to the "@ + side_name(plan.from.other())
        + " directory\n"@ + plan.dest_dir + "?"@;
    if plan.conflicts.len() == 0 {
        ask
    } else {
        ask + "\n\nAlready there: "@ + sampled(plan.conflicts)
    }
}

/// A copy is worked out and put up for confirmation.
pub open spec fn transfer_planned(d: Desk, now: u64) -> Desk {
    match d.screens.last() {
        Scene::Browse(b) => if b.transfer is Some {
            app::warned(d, "a transfer is already running"@, now)
        } else if browse::picked_names(b.at(b.focus)).len() == 0 {
            app::warned(d, "nothing selected"@, now)
        } else {
            let plan = plan_of(b);
            confirming(
                d,
                "Copy files"@,
                plan_text(plan),
                if plan.conflicts.len() == 0 {
                    None
                } else {
                    Some(("overwrite them (off: they are skipped)"@, false))
                },
                Asked::Transfer(plan),
            )
        },
        _ => d,
    }
}

/// What a key does in the file browser.
pub open spec fn browse_keyed(d: Desk, b: Browsing, key: KeyEvent, now: u64) -> Desk {
    let p = b.at(b.focus);
    match key.code {
        KeyCode::Esc => app::popped(d),
        KeyCode::Char('q') => quitting(d),
        KeyCode::Char('?') => helped(d),
        KeyCode::Tab => app::on_top(d, Scene::Browse(Browsing { focus: b.focus.other(), ..b })),
        KeyCode::Up => panel_changed(d, b, cursor_moved(p, Motion::Up)),
        KeyCode::Char('k') => panel_changed(d, b, cursor_moved(p, Motion::Up)),
        KeyCode::Down => panel_changed(d, b, cursor_moved(p, Motion::Down)),
        KeyCode::Char('j') => panel_changed(d, b, cursor_moved(p, Motion::Down)),
        KeyCode::Home => panel_changed(d, b, cursor_moved(p, Motion::First)),
        KeyCode::End => panel_changed(d, b, cursor_moved(p, Motion::Last)),
        KeyCode::Enter => entered(d),
        KeyCode::Backspace => left(d),
        KeyCode::Char(' ') => panel_changed(d, b, browse::toggled(p)),
        KeyCode::Char('c') => transfer_planned(d, now),
        KeyCode::F(5) => transfer_planned(d, now),
        KeyCode::Char('r') => app::browse_refreshed(d),
        _ => d,
    }
}

// ---- confirmations and forms -------------------------------------------------------

/// The names that do not stand on another list, in order.
pub open spec fn not_in(names: Seq<Seq<char>>, other: Seq<Seq<char>>) -> Seq<Seq<char>>
    decreases names.len(),
{
    if names.len() == 0 {
        seq![]
    } else {
        let before = not_in(names.drop_last(), other);
        if other.contains(names.last()) {
            before
        } else {
            before.push(names.last())
        }
    }
}

/// What is copied of a plan: all of it, or only what is not there yet.
pub open spec fn names_to_copy(plan: Plan, overwrite: bool) -> Seq<Seq<char>> {
    if overwrite {
        plan.names
    } else {
        not_in(plan.names, plan.conflicts)
    }
}

pub open spec fn sources_of(dir: Seq<char>, names: Seq<Seq<char>>, platform: path::Platform) -> Seq<
    Seq<char>,
> {
    names.map_values(|n: Seq<char>| path::joined(dir, n, platform))
}

pub open spec fn transfer_started(d: Desk, plan: Plan, overwrite: bool, now: u64) -> Desk {
    let names = names_to_copy(plan, overwrite);
    if names.len() == 0 {
        app::informed(d, "everything already exists there — nothing copied"@, now)
    } else {
        match app::dest(d, plan.server) {
            None => d,
            Some(endpoint) => app::wishing(
                match d.screens.last() {
                    Scene::Browse(b) => {
                        let to = plan.from.other();
                        app::on_top(
                            d,
                            Scene::Browse(
                                Browsing {
                                    transfer: Some(
                                        Move {
                                            label: described(names) + " → "@ + side_name(to),
                                            done: 0,
                                            total: None,
                                        },
                                    ),
                                    ..b.with(to, Shown { incoming: names, ..b.at(to) })
                                },
                            ),
                        )
                    },
                    _ => d,
                },
                Wish::Copy {
                    endpoint,
                    server: plan.server,
                    from: plan.from,
                    sources: sources_of(plan.src_dir, names, d.platform),
                    dest_dir: plan.dest_dir,
                    what: described(names),
                },
            ),
        }
    }
}

/// The servers without those of an identity.
pub open spec fn servers_without(servers: Seq<Known>, id: u128) -> Seq<Known>
    decreases servers.len(),
{
    if servers.len() == 0 {
        seq![]
    } else {
        let before = servers_without(servers.drop_last(), id);
        if servers.last().id == id {
            before
        } else {
            before.push(servers.last())
        }
    }
}

pub open spec fn server_removed(d: Desk, id: u128) -> Desk {
    app::cursor_clamped(
        app::wishing(
            Desk {
                servers: servers_without(d.servers, id),
                states: d.states.remove(id),
                ..d
            },
            Wish::Publish,
        ),
    )
}

/// What a confirmed question does. `checked` is its toggle.
pub open spec fn accepted(d: Desk, pending: Asked, checked: bool, now: u64) -> Desk {
    match pending {
        Asked::RemoveServer(id) => app::informed(
            server_removed(d, id),
            "removed '"@ + app::server_name(d, id) + "'"@,
            now,
        ),
        Asked::KillInstance { server, instance } => app::acting(
            d,
            "kill"@,
            server,
            Deed::Plain(Action::KillInstance { id: instance }),
        ),
        Asked::RemoveInstance { server, instance } => {
            let shown = d.screens.last() matches Scene::Manage(m) && m.instance == instance;
            app::acting(
                if shown {
                    app::popped(d)
                } else {
                    d
                },
                "remove instance"@,
                server,
                Deed::Plain(Action::RemoveInstance { id: instance, delete_files: checked }),
            )
        },
        Asked::Transfer(plan) => transfer_started(d, plan, checked, now),
        Asked::Bootstrap(server) => app::acting(
            d,
            "bootstrap"@,
            server,
            Deed::Plain(Action::Bootstrap),
        ),
        Asked::RestartServer { server, instance } => app::acting(
            d,
            "restart server"@,
            server,
            Deed::Plain(Action::RestartInstance { id: instance }),
        ),
    }
}

/// A server with another name and address. A new address may be another server
/// altogether, so its version is unknown again, and what was known of it goes.
pub open spec fn server_edited(d: Desk, id: u128, name: Seq<char>, addr: Target, now: u64) -> Desk {
    let at = app::server_at(d.servers, id, 0);
    let found = app::has_server(d, id);
    app::informed(
        app::wishing(
            app::wishing(
                Desk {
                    servers: if found {
                        d.servers.update(at, Known { name, addr, ..d.servers[at] })
                    } else {
                        d.servers
                    },
                    version_checks: if found && d.servers[at].addr != addr {
                        d.version_checks.insert(id)
                    } else {
                        d.version_checks
                    },
                    states: d.states.insert(id, app::fresh_state()),
                    ..d
                },
                Wish::Publish,
            ),
            Wish::Refresh,
        ),
        "updated '"@ + name + "'"@,
        now,
    )
}

/// A server more, under a new identity.
pub open spec fn server_added(d: Desk, id: u128, name: Seq<char>, addr: Target, now: u64) -> Desk {
    app::informed(
        app::wishing(
            app::wishing(
                Desk {
                    servers: d.servers.push(Known { id, name, addr, key: seq![] }),
                    states: d.states.insert(id, app::fresh_state()),
                    bootstrap_offers: d.bootstrap_offers.insert(id),
                    version_checks: d.version_checks.insert(id),
                    ..d
                },
                Wish::Publish,
            ),
            Wish::Refresh,
        ),
        "added '"@ + name + "' — checking reachability"@,
        now,
    )
}

pub open spec fn form_faulted(form: Sheet, error: Seq<char>) -> Sheet {
    Sheet { error: Some(error), ..form }
}

pub open spec fn not_an_address(addr: Seq<char>, e: Seq<char>) -> Seq<char> {
    "'"@ + addr + "' is not a host:port address ("@ + e + ")"@
}

pub open spec fn server_submitted(
    d: Desk,
    sheet: Sheet,
    editing: Option<u128>,
    fresh_id: u128,
    now: u64,
) -> Desk {
    let name = instance_form::trimmed_in(sheet, 0);
    let addr = instance_form::trimmed_in(sheet, 1);
    if name.len() == 0 {
        Desk {
            modal: Some(
                Popup::ServerForm { form: form_faulted(sheet, "a name is required"@), editing },
            ),
            ..d
        }
    } else {
        match net::parsed_target(addr) {
            Err(e) => Desk {
                modal: Some(
                    Popup::ServerForm { form: form_faulted(sheet, not_an_address(addr, e)), editing },
                ),
                ..d
            },
            Ok((ip, port)) => {
                let target = Target { ip, port };
                let closed = Desk { modal: None, ..d };
                match editing {
                    Some(id) => server_edited(closed, id, name, target, now),
                    None => server_added(closed, fresh_id, name, target, now),
                }
            },
        }
    }
}

pub open spec fn instance_submitted(
    d: Desk,
    sheet: Sheet,
    server: u128,
    editing: Option<u128>,
    upload_desc: Option<Seq<char>>,
    found: bool,
) -> Desk {
    match instance_form::form_read(sheet, upload_desc, found) {
        Err(e) => Desk {
            modal: Some(
                Popup::InstanceForm { form: form_faulted(sheet, e), server, editing, upload_desc },
            ),
            ..d
        },
        Ok(answers) => {
            let closed = Desk { modal: None, ..d };
            let filled = app::filled(answers, d.platform);
            let upload = match answers.source {
                instance_form::Chosen::Upload { path } => Some(path),
                _ => None,
            };
            match editing {
                Some(id) => {
                    let desc = "save '"@ + answers.name + "'"@;
                    let deed = Deed::Update(id, filled);
                    match upload {
                        None => app::acting(closed, desc, server, deed),
                        Some(path) => match app::dest(closed, server) {
                            Some(endpoint) => app::wishing(
                                closed,
                                Wish::SaveAndUpload { desc, endpoint, id, deed, path },
                            ),
                            None => closed,
                        },
                    }
                },
                None => match app::dest(closed, server) {
                    Some(endpoint) => app::wishing(
                        closed,
                        Wish::Create {
                            desc: "create '"@ + answers.name + "'"@,
                            endpoint,
                            deed: Deed::Create(filled),
                            upload,
                        },
                    ),
                    None => closed,
                },
            }
        },
    }
}

/// What a key does while something is open on top.
pub open spec fn modal_keyed(d: Desk, key: KeyEvent, given: Given, fresh_id: u128) -> Desk {
    let closed = Desk { modal: None, ..d };
    match d.modal {
        None => d,
        Some(Popup::Help) => closed,
        Some(Popup::Notice { .. }) => closed,
        Some(Popup::Confirm { title, message, toggle, pending }) => {
            if key.code == KeyCode::Char('y') || key.code == KeyCode::Enter {
                accepted(
                    closed,
                    pending,
                    match toggle {
                        Some((_, value)) => value,
                        None => false,
                    },
                    given.now,
                )
            } else if key.code == KeyCode::Char(' ') {
                Desk {
                    modal: Some(
                        Popup::Confirm {
                            title,
                            message,
                            toggle: match toggle {
                                Some((label, value)) => Some((label, !value)),
                                None => None,
                            },
                            pending,
                        },
                    ),
                    ..d
                }
            } else if key.code == KeyCode::Char('n') || key.code == KeyCode::Esc {
                closed
            } else {
                d
            }
        },
        Some(Popup::ServerForm { form, editing }) => {
            let (after, outcome) = form::form_keyed(form, key);
            match outcome {
                FormOutcome::Cancel => closed,
                FormOutcome::Idle => Desk {
                    modal: Some(Popup::ServerForm { form: after, editing }),
                    ..d
                },
                FormOutcome::Submit => server_submitted(d, after, editing, fresh_id, given.now),
            }
        },
        Some(Popup::InstanceForm { form, server, editing, upload_desc }) => {
            let (after, outcome) = form::form_keyed(form, key);
            match outcome {
                FormOutcome::Cancel => closed,
                FormOutcome::Idle => Desk {
                    modal: Some(Popup::InstanceForm { form: after, server, editing, upload_desc }),
                    ..d
                },
                FormOutcome::Submit => instance_submitted(
                    d,
                    after,
                    server,
                    editing,
                    upload_desc,
                    given.found,
                ),
            }
        },
    }
}

/// What a key does. `fresh_id` is the identity that a new server would get.
pub open spec fn keyed(d: Desk, key: KeyEvent, kind: KeyKind, given: Given, fresh_id: u128) -> Desk {
    if kind != KeyKind::Press {
        d
    } else if d.modal is Some {
        modal_keyed(d, key, given, fresh_id)
    } else if key.modifiers.control && key.code == KeyCode::Char('c') {
        quitting(d)
    } else {
        match d.screens.last() {
            Scene::Landing => landing_keyed(d, key, given.now),
            Scene::Manage(m) => manage_keyed(d, m.server, m.instance, key, given),
            Scene::Browse(b) => browse_keyed(d, b, key, given.now),
        }
    }
}

// ---- the code ----------------------------------------------------------------------

fn describe(names: &Vec<String>) -> (r: String)
    ensures
        r@ == described(text::views(names@)),
{
    if names.len() == 1 {
        assert(text::views(names@)[0] == names@[0]@);
        text::cat3("'", &names[0], "'")
    } else {
        text::cat2(&text::decimal_of(names.len() as u128), " items")
    }
}

fn copies(names: &Vec<String>, n: usize) -> (r: Vec<String>)
    requires
        n <= names@.len(),
    ensures
        text::views(r@) == text::views(names@).take(n as int),
{
    let mut out: Vec<String> = Vec::new();
    let mut i: usize = 0;
    while i < n
        invariant
            i <= n <= names@.len(),
            out@.len() == i,
            forall|k: int| 0 <= k < i ==> (#[trigger] out@[k])@ == names@[k]@,
        decreases n - i,
    {
        out.push(names[i].clone());
        i = i + 1;
    }
    assert(text::views(out@) =~= text::views(names@).take(n as int));
    out
}

fn sample(names: &Vec<String>) -> (r: String)
    ensures
        r@ == sampled(text::views(names@)),
{
    let n: usize = if names.len() < 4 {
        names.len()
    } else {
        4
    };
    let first: Vec<String> = copies(names, n);
    let mut out: String = text::join(&first, ", ");
    if names.len() > 4 {
        out.append(
            &text::cat3(" (+", &text::decimal_of((names.len() - 4) as u128), " more)"),
        );
    }
    out
}

/// The names that stand on another list too, in order.
fn shared(names: &Vec<String>, other: &Vec<String>) -> (r: Vec<String>)
    ensures
        text::views(r@) == browse::also_in(text::views(names@), text::views(other@)),
{
    let ghost all = text::views(names@);
    let mut out: Vec<String> = Vec::new();
    let mut i: usize = 0;
    assert(all.take(0) =~= seq![]);
    assert(text::views(out@) =~= seq![]);
    while i < names.len()
        invariant
            i <= names.len(),
            all == text::views(names@),
            text::views(out@) == browse::also_in(all.take(i as int), text::views(other@)),
        decreases names.len() - i,
    {
        assert(all.take(i as int + 1).drop_last() =~= all.take(i as int));
        assert(all.take(i as int + 1).last() == names@[i as int]@);
        if browse::holds(other, &names[i]) {
            let ghost before = text::views(out@);
            out.push(names[i].clone());
            assert(text::views(out@) =~= before.push(names@[i as int]@));
        }
        i = i + 1;
    }
    assert(all.take(i as int) =~= all);
    out
}

/// The names that do not stand on another list, in order.
fn missing(names: &Vec<String>, other: &Vec<String>) -> (r: Vec<String>)
    ensures
        text::views(r@) == not_in(text::views(names@), text::views(other@)),
{
    let ghost all = text::views(names@);
    let mut out: Vec<String> = Vec::new();
    let mut i: usize = 0;
    assert(all.take(0) =~= seq![]);
    assert(text::views(out@) =~= seq![]);
    while i < names.len()
        invariant
            i <= names.len(),
            all == text::views(names@),
            text::views(out@) == not_in(all.take(i as int), text::views(other@)),
        decreases names.len() - i,
    {
        assert(all.take(i as int + 1).drop_last() =~= all.take(i as int));
        assert(all.take(i as int + 1).last() == names@[i as int]@);
        if !browse::holds(other, &names[i]) {
            let ghost before = text::views(out@);
            out.push(names[i].clone());
            assert(text::views(out@) =~= before.push(names@[i as int]@));
        }
        i = i + 1;
    }
    assert(all.take(i as int) =~= all);
    out
}

fn sources(dir: &str, names: &Vec<String>, platform: path::Platform) -> (r: Vec<String>)
    ensures
        text::views(r@) == sources_of(dir@, text::views(names@), platform),
{
    let mut out: Vec<String> = Vec::new();
    let mut i: usize = 0;
    while i < names.len()
        invariant
            i <= names.len(),
            out@.len() == i,
            forall|k: int|
                0 <= k < i ==> (#[trigger] out@[k])@ == path::joined(dir@, names@[k]@, platform),
        decreases names.len() - i,
    {
        out.push(path::join(dir, &names[i], platform));
        i = i + 1;
    }
    assert(text::views(out@) =~= sources_of(dir@, text::views(names@), platform));
    out
}

fn listed_names(p: &Panel) -> (r: Vec<String>)
    ensures
        text::views(r@) == browse::names_of(p.entries@),
{
    let mut out: Vec<String> = Vec::new();
    let mut i: usize = 0;
    while i < p.entries.len()
        invariant
            i <= p.entries.len(),
            out@.len() == i,
            forall|k: int| 0 <= k < i ==> (#[trigger] out@[k])@ == p.entries@[k].name@,
        decreases p.entries.len() - i,
    {
        out.push(p.entries[i].name.clone());
        i = i + 1;
    }
    assert(text::views(out@) =~= browse::names_of(p.entries@));
    out
}

/// What a copy from the side in focus would do.
fn make_plan(b: &Browse) -> (r: TransferPlan)
    ensures
        r@ == plan_of(b@),
{
    let from: Side = b.focus;
    let src: &Panel = b.panel(from);
    let to: &Panel = b.panel(from.other());
    let names: Vec<String> = src.picked();
    let conflicts: Vec<String> = shared(&names, &listed_names(to));
    TransferPlan {
        server: b.server,
        from,
        src_dir: src.cwd.clone(),
        dest_dir: to.cwd.clone(),
        names,
        conflicts,
    }
}

fn plan_message(plan: &TransferPlan) -> (r: String)
    ensures
        r@ == plan_text(plan@),
{
    let mut out: String = text::cat4(
        "Copy ",
        &describe(&plan.names),
        " to the ",
        plan.from.other().name(),
    );
    out.append(" directory\n");
    out.append(&plan.dest_dir);
    out.append("?");
    if plan.conflicts.len() > 0 {
        out.append("\n\nAlready there: ");
        out.append(&sample(&plan.conflicts));
    }
    out
}

impl App {
    fn confirm(&mut self, title: &str, message: String, toggle: Option<&str>, pending: Pending)
        ensures
            final(self)@ == confirming(
                old(self)@,
                title@,
                message@,
                match toggle {
                    Some(label) => Some((label@, false)),
                    None => None,
                },
                pending@,
            ),
    {
        let toggle: Option<ConfirmToggle> = match toggle {
            Some(label) => Some(ConfirmToggle { label: label.to_string(), value: false }),
            None => None,
        };
        self.modal = Some(Modal::Confirm { title: title.to_string(), message, toggle, pending });
    }

    fn activate(&mut self)
        requires
            old(self)@.wf(),
        ensures
            final(self)@ == activated(old(self)@),
            final(self)@.wf(),
    {
        let row: Option<Row> = self.selected_row();
        let at: usize = match self.selected_server() {
            Some(i) => i,
            None => {
                return ;
            },
        };
        let id: u128 = self.book.servers[at].id;
        assert(self@.servers[at as int] == self.book.servers@[at as int]@);
        match row {
            Some(Row::Server { .. }) => {
                match self.states.remove(&id) {
                    Some(state) => {
                        let mut state = state;
                        state.collapsed = !state.collapsed;
                        let ghost after = state;
                        self.states.insert(id, state);
                        assert(self.states@ =~= old(self).states@.insert(id, after));
                    },
                    None => {
                        assert(self.states@ =~= old(self).states@);
                    },
                }
                self.clamp_cursor();
            },
            Some(Row::Instance { instance, .. }) => {
                let found: Option<u128> = match self.instances_of(id) {
                    Some(list) => if instance < list.len() {
                        Some(list[instance].id)
                    } else {
                        None
                    },
                    None => None,
                };
                match found {
                    Some(instance) => self.open_manage(id, instance),
                    None => {},
                }
            },
            None => {},
        }
    }

    fn open_server_form(&mut self, editing: Option<u128>)
        requires
            old(self)@.wf(),
        ensures
            final(self)@ == server_form_opened(old(self)@, editing),
            final(self)@.wf(),
    {
        let found: Option<usize> = match editing {
            Some(id) => self.find(id),
            None => None,
        };
        let (title, name, addr): (&str, String, String) = match found {
            Some(i) => {
                assert(self@.servers[i as int] == self.book.servers@[i as int]@);
                (
                    "Edit server",
                    self.book.servers[i].name.clone(),
                    self.book.servers[i].addr.text(),
                )
            },
            None => {
                let name: String = String::new();
                assert(name@ =~= seq![]);
                ("Add server", name, "127.0.0.1:5000".to_string())
            },
        };
        let fields: Vec<Field> = vec![
            Field::text("Name", &name).hint("shown in the list"),
            Field::text("Address", &addr).hint("host:port"),
        ];
        let ghost existing = match found {
            Some(i) => Some(self@.servers[i as int]),
            None => None,
        };
        assert(form::entries(fields@) =~= server_sheet(existing).fields);
        let form: Form = Form::new(title, fields);
        self.modal = Some(Modal::ServerForm { form, editing });
    }

    fn open_instance_form(&mut self, server: u128, editing: Option<u128>, now: u64)
        requires
            old(self)@.wf(),
        ensures
            final(self)@ == instance_form_opened(old(self)@, server, editing, now),
            final(self)@.wf(),
    {
        match editing {
            None => {
                let form: Form = instance_form::build(None);
                self.modal =
                Some(Modal::InstanceForm { form, server, editing, upload_desc: None });
            },
            Some(id) => {
                let made: Option<(Form, Option<String>)> = match self.manage() {
                    Some(m) => if m.instance == id {
                        match &m.detail {
                            Some(detail) => {
                                let desc: Option<String> = match &detail.config.source {
                                    Source::Upload { desc } => Some(desc.clone()),
                                    _ => None,
                                };
                                Some((instance_form::build(Some(&detail.config)), desc))
                            },
                            None => None,
                        }
                    } else {
                        None
                    },
                    None => None,
                };
                match made {
                    Some((form, upload_desc)) => {
                        self.modal =
                        Some(Modal::InstanceForm { form, server, editing, upload_desc });
                    },
                    None => self.error(
                        "still loading this instance's configuration — try again in a moment".to_string(),
                        now,
                    ),
                }
            },
        }
    }

    fn confirm_remove_server(&mut self, now: u64)
        requires
            old(self)@.wf(),
        ensures
            final(self)@ == server_removal_asked(old(self)@, now),
            final(self)@.wf(),
    {
        match self.selected_server() {
            None => self.error("nothing selected".to_string(), now),
            Some(i) => {
                assert(self@.servers[i as int] == self.book.servers@[i as int]@);
                let message: String = text::cat5(
                    "Remove '",
                    &self.book.servers[i].name,
                    "' (",
                    &self.book.servers[i].addr.text(),
                    ") from this client?\nThe server itself and its instances are left untouched.",
                );
                let id: u128 = self.book.servers[i].id;
                self.confirm("Remove server", message, None, Pending::RemoveServer(id));
            },
        }
    }

    fn request_bootstrap(&mut self, now: u64)
        requires
            old(self)@.wf(),
        ensures
            final(self)@ == bootstrap_asked(old(self)@, now),
            final(self)@.wf(),
    {
        match self.selected_server() {
            None => self.error("nothing selected".to_string(), now),
            Some(i) => {
                assert(self@.servers[i as int] == self.book.servers@[i as int]@);
                let server: u128 = self.book.servers[i].id;
                let offered: bool = match self.states.get(&server) {
                    Some(s) => match &s.vitals {
                        Some(v) => v.bootstrap,
                        None => false,
                    },
                    None => false,
                };
                if !offered {
                    let said: String = text::cat3(
                        "'",
                        &self.book.servers[i].name,
                        "' does not offer bootstrapping (not enabled, already done, or unreachable)",
                    );
                    self.error(said, now);
                } else {
                    let message: String = text::cat3(
                        "Hand '",
                        &self.book.servers[i].name,
                        "' over to itself?\nIt records itself as an instance, restarts once, and then appears in its own instance list.",
                    );
                    self.confirm("Bootstrap server", message, None, Pending::Bootstrap(server));
                }
            },
        }
    }

    fn on_key_landing(&mut self, key: KeyEvent, now: u64)
        requires
            old(self)@.wf(),
        ensures
            final(self)@ == landing_keyed(old(self)@, key, now),
            final(self)@.wf(),
    {
        match key.code {
            KeyCode::Char('q') | KeyCode::Esc => {
                self.should_quit = true;
            },
            KeyCode::Char('?') => {
                self.modal = Some(Modal::Help);
            },
            KeyCode::Up | KeyCode::Char('k') => {
                self.cursor = step_up(self.cursor);
            },
            KeyCode::Down | KeyCode::Char('j') => {
                let len: usize = self.rows().len();
                self.cursor = step_down(self.cursor, len);
            },
            KeyCode::Home => {
                self.cursor = 0;
            },
            KeyCode::End => {
                let len: usize = self.rows().len();
                self.cursor = last_index(len);
            },
            KeyCode::Enter | KeyCode::Char(' ') => self.activate(),
            KeyCode::Char('a') => self.open_server_form(None),
            KeyCode::Char('n') => match self.selected_server() {
                Some(i) => {
                    assert(self@.servers[i as int] == self.book.servers@[i as int]@);
                    let server: u128 = self.book.servers[i].id;
                    self.open_instance_form(server, None, now);
                },
                None => self.error("select a server first".to_string(), now),
            },
            KeyCode::Char('e') => match self.selected_server() {
                Some(i) => {
                    assert(self@.servers[i as int] == self.book.servers@[i as int]@);
                    let server: u128 = self.book.servers[i].id;
                    self.open_server_form(Some(server));
                },
                None => self.error("nothing selected".to_string(), now),
            },
            KeyCode::Char('d') => self.confirm_remove_server(now),
            KeyCode::Char('B') => self.request_bootstrap(now),
            KeyCode::Char('r') => {
                self.wish(Effect::Refresh);
                self.info("refreshing".to_string(), now);
            },
            _ => {},
        }
    }

    fn step_instance(&mut self, forward: bool)
        requires
            old(self)@.wf(),
        ensures
            final(self)@ == instance_stepped(old(self)@, forward),
            final(self)@.wf(),
    {
        let (server, current): (u128, u128) = match self.manage() {
            Some(m) => (m.server, m.instance),
            None => {
                return ;
            },
        };
        let found: Option<usize> = self.find_instance(server, current);
        let next: u128 = match self.instances_of(server) {
            Some(list) => match found {
                Some(at) => {
                    if list.len() < 2 {
                        return ;
                    }
                    let to: usize = if forward {
                        if at + 1 == list.len() {
                            0
                        } else {
                            at + 1
                        }
                    } else if at == 0 {
                        list.len() - 1
                    } else {
                        at - 1
                    };
                    list[to].id
                },
                None => {
                    return ;
                },
            },
            None => {
                return ;
            },
        };
        self.replace_top(Screen::Manage(Manage::new(server, next)));
        self.fetch_detail(server, next);
    }

    fn scroll_console(&mut self, scroll: Scroll)
        requires
            old(self)@.wf(),
        ensures
            final(self)@ == console_scrolled(old(self)@, scroll),
            final(self)@.wf(),
    {
        if self.manage().is_none() {
            return ;
        }
        match self.take_top() {
            Screen::Manage(m) => {
                let mut m = m;
                let max: usize = m.console.len();
                m.console_scroll =
                match scroll {
                    Scroll::Back => if m.console_scroll < max && max - m.console_scroll > 10 {
                        m.console_scroll + 10
                    } else {
                        max
                    },
                    Scroll::On => if m.console_scroll > 10 {
                        m.console_scroll - 10
                    } else {
                        0
                    },
                    Scroll::Oldest => max,
                    Scroll::Newest => 0,
                };
                self.replace_top(Screen::Manage(m));
            },
            _ => {},
        }
        assert(self@.screens =~= console_scrolled(old(self)@, scroll).screens);
    }

    /// Whether an instance is reported as the server's own process.
    pub fn is_self_managed(&self, server: u128, instance: u128) -> (r: bool)
        ensures
            r == is_self(self@, server, instance),
    {
        match self.instances_of(server) {
            Some(list) => {
                let mut i: usize = 0;
                while i < list.len()
                    invariant
                        i <= list.len(),
                        list@ == app::instances(self@, server),
                        forall|k: int|
                            0 <= k < i ==> !((#[trigger] list@[k]).id == instance
                                && list@[k].self_managed),
                    decreases list.len() - i,
                {
                    if list[i].id == instance && list[i].self_managed {
                        return true;
                    }
                    i = i + 1;
                }
                false
            },
            None => false,
        }
    }

    fn request_restart(&mut self)
        requires
            old(self)@.wf(),
        ensures
            final(self)@ == restart_asked(old(self)@),
            final(self)@.wf(),
    {
        let (server, instance): (u128, u128) = match self.manage() {
            Some(m) => (m.server, m.instance),
            None => {
                return ;
            },
        };
        if !self.is_self_managed(server, instance) {
            self.spawn_action("restart", server, Action::RestartInstance { id: instance });
            return ;
        }
        let message: String = text::cat3(
            "Restart '",
            &self.name_of(server),
            "' itself?\nIt hands over to a fresh process; connections drop for a moment.",
        );
        self.confirm("Restart server", message, None, Pending::RestartServer { server, instance });
    }

    fn request_session(&mut self, kind: SessionKind)
        requires
            old(self)@.wf(),
        ensures
            final(self)@ == session_asked(old(self)@, kind),
            final(self)@.wf(),
    {
        let (server, instance): (u128, u128) = match self.manage() {
            Some(m) => (m.server, m.instance),
            None => {
                return ;
            },
        };
        match self.endpoint(server) {
            Some(endpoint) => {
                let label: String = text::cat3(
                    &self.name_of(server),
                    "/",
                    &self.instance_name(server, instance),
                );
                self.pending_session = Some(SessionRequest { kind, endpoint, instance, label });
            },
            None => {},
        }
    }

    fn confirm_kill(&mut self, server: u128, instance: u128)
        requires
            old(self)@.wf(),
        ensures
            final(self)@ == kill_asked(old(self)@, server, instance),
            final(self)@.wf(),
    {
        let message: String = text::cat3(
            "Kill '",
            &self.instance_name(server, instance),
            "' immediately?\nNo grace period — the process tree is terminated outright.",
        );
        self.confirm("Kill instance", message, None, Pending::KillInstance { server, instance });
    }

    fn confirm_remove_instance(&mut self, server: u128, instance: u128)
        requires
            old(self)@.wf(),
        ensures
            final(self)@ == removal_asked(old(self)@, server, instance),
            final(self)@.wf(),
    {
        let message: String = text::cat3(
            "Remove '",
            &self.instance_name(server, instance),
            "' from the server?\nIt is stopped first if it is running.",
        );
        self.confirm(
            "Remove instance",
            message,
            Some("also delete its files on the server"),
            Pending::RemoveInstance { server, instance },
        );
    }

    /// Opens the file browser, both sides loading.
    pub fn open_browse(
        &mut self,
        server: u128,
        instance: u128,
        local_cwd: String,
        remote_root: String,
    )
        requires
            old(self)@.wf(),
        ensures
            final(self)@ == browse_opened(
                old(self)@,
                server,
                instance,
                local_cwd@,
                remote_root@,
            ),
            final(self)@.wf(),
    {
        let b: Browse = Browse::new(server, instance, local_cwd.clone(), remote_root.clone());
        assert(b@ == fresh_browse(server, instance, local_cwd@, remote_root@));
        self.push_screen(Screen::Browse(b));
        self.fetch_local(local_cwd);
        self.fetch_remote(server, remote_root);
    }

    fn open_browse_for_manage(&mut self, given: &Given)
        requires
            old(self)@.wf(),
        ensures
            final(self)@ == browse_asked(old(self)@, given.local_cwd@, given.now),
            final(self)@.wf(),
    {
        let found: Option<(u128, u128, Option<String>)> = match self.manage() {
            Some(m) => Some(
                (
                    m.server,
                    m.instance,
                    match &m.detail {
                        Some(detail) => Some(detail.repo_dir.clone()),
                        None => None,
                    },
                ),
            ),
            None => None,
        };
        match found {
            None => {},
            Some((server, instance, root)) => match root {
                Some(root) => self.open_browse(server, instance, given.local_cwd.clone(), root),
                None => self.error(
                    "still loading this instance's checkout path — try again in a moment".to_string(),
                    given.now,
                ),
            },
        }
    }

    fn on_key_manage(&mut self, server: u128, instance: u128, key: KeyEvent, given: &Given)
        requires
            old(self)@.wf(),
        ensures
            final(self)@ == manage_keyed(old(self)@, server, instance, key, *given),
            final(self)@.wf(),
    {
        match key.code {
            KeyCode::Esc | KeyCode::Backspace => self.pop_screen(),
            KeyCode::Char('q') => {
                self.should_quit = true;
            },
            KeyCode::Char('?') => {
                self.modal = Some(Modal::Help);
            },
            KeyCode::Up | KeyCode::Char('[') => self.step_instance(false),
            KeyCode::Down | KeyCode::Char(']') => self.step_instance(true),
            KeyCode::PageUp => self.scroll_console(Scroll::Back),
            KeyCode::PageDown => self.scroll_console(Scroll::On),
            KeyCode::End => self.scroll_console(Scroll::Newest),
            KeyCode::Home => self.scroll_console(Scroll::Oldest),
            KeyCode::Char('r') => self.spawn_action(
                "start",
                server,
                Action::RunInstance { id: instance },
            ),
            KeyCode::Char('R') => self.request_restart(),
            KeyCode::Char('x') => self.spawn_action(
                "stop",
                server,
                Action::StopInstance { id: instance },
            ),
            KeyCode::Char('u') => self.spawn_action(
                "update repo",
                server,
                Action::UpdateRepo { id: instance },
            ),
            KeyCode::Char('k') => self.confirm_kill(server, instance),
            KeyCode::Char('D') => self.confirm_remove_instance(server, instance),
            KeyCode::Char('e') => self.open_instance_form(server, Some(instance), given.now),
            KeyCode::Char('n') => self.open_instance_form(server, None, given.now),
            KeyCode::Char('s') => self.request_session(SessionKind::Shell),
            KeyCode::Char('a') => self.request_session(SessionKind::Attach),
            KeyCode::Char('b') => self.open_browse_for_manage(given),
            _ => {},
        }
    }

    fn browse_move(&mut self, motion: Motion)
        requires
            old(self)@.wf(),
            old(self)@.screens.last() is Browse,
        ensures
            ({
                let b = old(self)@.screens.last()->Browse_0;
                final(self)@ == panel_changed(
                    old(self)@,
                    b,
                    cursor_moved(b.at(b.focus), motion),
                )
            }),
            final(self)@.wf(),
    {
        match self.take_top() {
            Screen::Browse(b) => {
                let mut b = b;
                let ghost before = b@;
                let focus: Side = b.focus;
                let panel = b.panel_mut(focus);
                let len: usize = panel.entries.len();
                if len > 0 {
                    panel.cursor =
                    match motion {
                        Motion::Up => step_up(panel.cursor),
                        Motion::Down => step_down(panel.cursor, len),
                        Motion::First => 0,
                        Motion::Last => len - 1,
                    };
                }
                assert(b@ == before.with(
                    before.focus,
                    cursor_moved(before.at(before.focus), motion),
                ));
                self.replace_top(Screen::Browse(b));
                assert(self@.screens =~= panel_changed(
                    old(self)@,
                    before,
                    cursor_moved(before.at(before.focus), motion),
                ).screens);
            },
            _ => {},
        }
    }

    fn browse_toggle(&mut self)
        requires
            old(self)@.wf(),
            old(self)@.screens.last() is Browse,
        ensures
            ({
                let b = old(self)@.screens.last()->Browse_0;
                final(self)@ == panel_changed(old(self)@, b, browse::toggled(b.at(b.focus)))
            }),
            final(self)@.wf(),
    {
        match self.take_top() {
            Screen::Browse(b) => {
                let mut b = b;
                let ghost before = b@;
                let focus: Side = b.focus;
                b.panel_mut(focus).toggle_selected();
                assert(b@ == before.with(
                    before.focus,
                    browse::toggled(before.at(before.focus)),
                ));
                self.replace_top(Screen::Browse(b));
                assert(self@.screens =~= panel_changed(
                    old(self)@,
                    before,
                    browse::toggled(before.at(before.focus)),
                ).screens);
            },
            _ => {},
        }
    }

    fn navigate(&mut self, dir: String)
        requires
            old(self)@.wf(),
            old(self)@.screens.last() is Browse,
        ensures
            ({
                let b = old(self)@.screens.last()->Browse_0;
                final(self)@ == fetching_side(
                    panel_changed(
                        old(self)@,
                        b,
                        browse::navigated(b.at(b.focus), dir@),
                    ),
                    b.focus,
                    b.server,
                    dir@,
                )
            }),
            final(self)@.wf(),
    {
        match self.take_top() {
            Screen::Browse(b) => {
                let mut b = b;
                let ghost before = b@;
                let focus: Side = b.focus;
                let server: u128 = b.server;
                b.panel_mut(focus).navigate(dir.clone());
                assert(b@ == before.with(
                    before.focus,
                    browse::navigated(before.at(before.focus), dir@),
                ));
                self.replace_top(Screen::Browse(b));
                assert(self@.screens =~= panel_changed(
                    old(self)@,
                    before,
                    browse::navigated(before.at(before.focus), dir@),
                ).screens);
                match focus {
                    Side::Local => self.fetch_local(dir),
                    Side::Remote => self.fetch_remote(server, dir),
                }
            },
            _ => {},
        }
    }

    fn browse_enter(&mut self)
        requires
            old(self)@.wf(),
        ensures
            final(self)@ == entered(old(self)@),
            final(self)@.wf(),
    {
        let next: Option<String> = match self.browse() {
            Some(b) => {
                let panel: &Panel = b.panel(b.focus);
                match panel.under_cursor() {
                    Some(entry) => if entry.is_dir {
                        Some(path::join(&panel.cwd, &entry.name, self.platform))
                    } else {
                        None
                    },
                    None => None,
                }
            },
            None => None,
        };
        match next {
            Some(dir) => self.navigate(dir),
            None => {},
        }
    }

    fn browse_parent(&mut self)
        requires
            old(self)@.wf(),
        ensures
            final(self)@ == left(old(self)@),
            final(self)@.wf(),
    {
        let up: Option<String> = match self.browse() {
            Some(b) => b.parent_of(b.focus, self.platform),
            None => None,
        };
        match up {
            Some(dir) => self.navigate(dir),
            None => {},
        }
    }

    fn plan_transfer(&mut self, now: u64)
        requires
            old(self)@.wf(),
        ensures
            final(self)@ == transfer_planned(old(self)@, now),
            final(self)@.wf(),
    {
        let (busy, plan): (bool, TransferPlan) = match self.browse() {
            Some(b) => (b.transfer.is_some(), make_plan(b)),
            None => {
                return ;
            },
        };
        if busy {
            self.error("a transfer is already running".to_string(), now);
            return ;
        }
        assert(text::views(plan.names@).len() == plan.names@.len());
        assert(text::views(plan.conflicts@).len() == plan.conflicts@.len());
        if plan.names.len() == 0 {
            self.error("nothing selected".to_string(), now);
            return ;
        }
        let message: String = plan_message(&plan);
        let toggle: Option<&str> = if plan.conflicts.len() == 0 {
            None
        } else {
            Some("overwrite them (off: they are skipped)")
        };
        self.confirm("Copy files", message, toggle, Pending::Transfer(plan));
    }

    fn browse_switch(&mut self)
        requires
            old(self)@.wf(),
            old(self)@.screens.last() is Browse,
        ensures
            ({
                let b = old(self)@.screens.last()->Browse_0;
                final(self)@ == app::on_top(
                    old(self)@,
                    Scene::Browse(Browsing { focus: b.focus.other(), ..b }),
                )
            }),
            final(self)@.wf(),
    {
        match self.take_top() {
            Screen::Browse(b) => {
                let mut b = b;
                let ghost before = b@;
                b.focus = b.focus.other();
                self.replace_top(Screen::Browse(b));
                assert(self@.screens =~= app::on_top(
                    old(self)@,
                    Scene::Browse(Browsing { focus: before.focus.other(), ..before }),
                ).screens);
            },
            _ => {},
        }
    }

    fn on_key_browse(&mut self, key: KeyEvent, now: u64)
        requires
            old(self)@.wf(),
            old(self)@.screens.last() is Browse,
        ensures
            final(self)@ == browse_keyed(
                old(self)@,
                old(self)@.screens.last()->Browse_0,
                key,
                now,
            ),
            final(self)@.wf(),
    {
        match key.code {
            KeyCode::Esc => self.pop_screen(),
            KeyCode::Char('q') => {
                self.should_quit = true;
            },
            KeyCode::Char('?') => {
                self.modal = Some(Modal::Help);
            },
            KeyCode::Tab => self.browse_switch(),
            KeyCode::Up | KeyCode::Char('k') => self.browse_move(Motion::Up),
            KeyCode::Down | KeyCode::Char('j') => self.browse_move(Motion::Down),
            KeyCode::Home => self.browse_move(Motion::First),
            KeyCode::End => self.browse_move(Motion::Last),
            KeyCode::Enter => self.browse_enter(),
            KeyCode::Backspace => self.browse_parent(),
            KeyCode::Char(' ') => self.browse_toggle(),
            KeyCode::Char('c') | KeyCode::F(5) => self.plan_transfer(now),
            KeyCode::Char('r') => self.browse_refresh(),
            _ => {},
        }
    }

    fn show_transfer(&mut self, to: Side, names: &Vec<String>)
        requires
            old(self)@.wf(),
            old(self)@.screens.last() is Browse,
        ensures
            ({
                let b = old(self)@.screens.last()->Browse_0;
                let all = text::views(names@);
                final(self)@ == app::on_top(
                    old(self)@,
                    Scene::Browse(
                        Browsing {
                            transfer: Some(
                                Move {
                                    label: described(all) + " → "@ + side_name(to),
                                    done: 0,
                                    total: None,
                                },
                            ),
                            ..b.with(to, Shown { incoming: all, ..b.at(to) })
                        },
                    ),
                )
            }),
            final(self)@.wf(),
    {
        match self.take_top() {
            Screen::Browse(b) => {
                let mut b = b;
                let ghost before = b@;
                let ghost all = text::views(names@);
                let label: String = text::cat3(&describe(names), " → ", to.name());
                b.transfer = Some(Transfer { label, done: 0, total: None });
                let panel = b.panel_mut(to);
                let same: Vec<String> = copies(names, names.len());
                assert(all.take(all.len() as int) =~= all);
                assert(text::views(names@).len() == names@.len());
                panel.incoming = same;
                let ghost wanted = Browsing {
                    transfer: Some(
                        Move {
                            label: described(all) + " → "@ + side_name(to),
                            done: 0,
                            total: None,
                        },
                    ),
                    ..before.with(to, Shown { incoming: all, ..before.at(to) })
                };
                assert(b@ == wanted);
                self.replace_top(Screen::Browse(b));
                assert(self@.screens =~= app::on_top(old(self)@, Scene::Browse(wanted)).screens);
            },
            _ => {},
        }
    }

    fn start_transfer(&mut self, plan: TransferPlan, overwrite: bool, now: u64)
        requires
            old(self)@.wf(),
        ensures
            final(self)@ == transfer_started(old(self)@, plan@, overwrite, now),
            final(self)@.wf(),
    {
        let names: Vec<String> = if overwrite {
            copies(&plan.names, plan.names.len())
        } else {
            missing(&plan.names, &plan.conflicts)
        };
        proof {
            let all = text::views(plan.names@);
            assert(all.take(all.len() as int) =~= all);
            assert(all.len() == plan.names@.len());
            assert(text::views(names@) == names_to_copy(plan@, overwrite));
            assert(text::views(names@).len() == names@.len());
        }
        if names.len() == 0 {
            self.info("everything already exists there — nothing copied".to_string(), now);
            return ;
        }
        match self.endpoint(plan.server) {
            None => {},
            Some(endpoint) => {
                let to: Side = plan.from.other();
                if self.browse().is_some() {
                    self.show_transfer(to, &names);
                }
                let what: String = describe(&names);
                let from_paths: Vec<String> = sources(&plan.src_dir, &names, self.platform);
                self.wish(
                    Effect::Copy {
                        endpoint,
                        server: plan.server,
                        from: plan.from,
                        sources: from_paths,
                        dest_dir: plan.dest_dir,
                        what,
                    },
                );
            },
        }
    }

    fn drop_servers(&mut self, id: u128)
        requires
            old(self)@.wf(),
        ensures
            final(self)@ == (Desk {
                servers: servers_without(old(self)@.servers, id),
                states: old(self)@.states.remove(id),
                ..old(self)@
            }),
            final(self)@.wf(),
    {
        let ghost all = app::known(self.book.servers@);
        let mut kept: Vec<ServerEntry> = Vec::new();
        let mut i: usize = 0;
        assert(all.take(0) =~= seq![]);
        assert(app::known(kept@) =~= seq![]);
        while i < self.book.servers.len()
            invariant
                i <= self.book.servers.len(),
                self == old(self),
                self@.wf(),
                all == app::known(self.book.servers@),
                app::known(kept@) == servers_without(all.take(i as int), id),
                forall|k: int|
                    0 <= k < kept@.len() ==> (#[trigger] kept@[k]).id != id
                        && self@.states.contains_key(kept@[k].id),
            decreases self.book.servers.len() - i,
        {
            assert(all.take(i as int + 1).drop_last() =~= all.take(i as int));
            assert(all.take(i as int + 1).last() == self.book.servers@[i as int]@);
            assert(self@.servers[i as int] == self.book.servers@[i as int]@);
            if self.book.servers[i].id != id {
                let ghost before = app::known(kept@);
                let copy: ServerEntry = self.book.servers[i].copy();
                let ghost k = copy@;
                kept.push(copy);
                assert(app::known(kept@) =~= before.push(k));
            }
            i = i + 1;
        }
        assert(all.take(i as int) =~= all);
        self.book.servers = kept;
        self.states.remove(&id);
        assert(self.states@ =~= old(self).states@.remove(id));
        assert forall|k: int| 0 <= k < self@.servers.len() implies self@.states.contains_key(
            (#[trigger] self@.servers[k]).id,
        ) by {
            assert(self@.servers[k].id == kept@[k].id);
        }
    }

    fn remove_server(&mut self, id: u128)
        requires
            old(self)@.wf(),
        ensures
            final(self)@ == server_removed(old(self)@, id),
            final(self)@.wf(),
    {
        self.drop_servers(id);
        self.wish(Effect::Publish);
        self.clamp_cursor();
    }

    fn confirm_accept(&mut self, pending: Pending, checked: bool, now: u64)
        requires
            old(self)@.wf(),
        ensures
            final(self)@ == accepted(old(self)@, pending@, checked, now),
            final(self)@.wf(),
    {
        match pending {
            Pending::RemoveServer(id) => {
                let name: String = self.name_of(id);
                self.remove_server(id);
                self.info(text::cat3("removed '", &name, "'"), now);
            },
            Pending::KillInstance { server, instance } => self.spawn_action(
                "kill",
                server,
                Action::KillInstance { id: instance },
            ),
            Pending::RemoveInstance { server, instance } => {
                let shown: bool = match self.manage() {
                    Some(m) => m.instance == instance,
                    None => false,
                };
                if shown {
                    self.pop_screen();
                }
                self.spawn_action(
                    "remove instance",
                    server,
                    Action::RemoveInstance { id: instance, delete_files: checked },
                );
            },
            Pending::Transfer(plan) => self.start_transfer(plan, checked, now),
            Pending::Bootstrap(server) => self.spawn_action(
                "bootstrap",
                server,
                Action::Bootstrap,
            ),
            Pending::RestartServer { server, instance } => self.spawn_action(
                "restart server",
                server,
                Action::RestartInstance { id: instance },
            ),
        }
    }

    fn edit_server(&mut self, id: u128, name: String, addr: Target, now: u64)
        requires
            old(self)@.wf(),
        ensures
            final(self)@ == server_edited(old(self)@, id, name@, addr, now),
            final(self)@.wf(),
    {
        let said: String = text::cat3("updated '", &name, "'");
        let ghost all = self@.servers;
        match self.find(id) {
            Some(i) => {
                assert(all[i as int] == self.book.servers@[i as int]@);
                let moved: bool = self.book.servers[i].addr.ip != addr.ip
                    || self.book.servers[i].addr.port != addr.port;
                if moved {
                    self.version_checks.insert(id);
                }
                let ghost wanted = Known { name: name@, addr, ..all[i as int] };
                self.book.servers[i].name = name;
                self.book.servers[i].addr = addr;
                assert(self@.servers =~= all.update(i as int, wanted));
                assert(all[i as int].addr != addr <==> moved);
            },
            None => {},
        }
        self.states.insert(id, ServerState::default());
        assert forall|k: int| 0 <= k < self@.servers.len() implies self@.states.contains_key(
            (#[trigger] self@.servers[k]).id,
        ) by {
            assert(self@.servers[k].id == all[k].id);
        }
        self.wish(Effect::Publish);
        self.wish(Effect::Refresh);
        self.info(said, now);
    }

    fn add_server(&mut self, entry: ServerEntry, now: u64)
        requires
            old(self)@.wf(),
            entry.key@.len() == 0,
        ensures
            final(self)@ == server_added(
                old(self)@,
                entry.id,
                entry.name@,
                entry.addr,
                now,
            ),
            final(self)@.wf(),
    {
        let said: String = text::cat3("added '", &entry.name, "' — checking reachability");
        let ghost all = self@.servers;
        let ghost new = entry@;
        assert(entry.key@ =~= seq![]);
        self.states.insert(entry.id, ServerState::default());
        self.bootstrap_offers.insert(entry.id);
        self.version_checks.insert(entry.id);
        self.book.servers.push(entry);
        assert(self@.servers =~= all.push(new));
        assert forall|k: int| 0 <= k < self@.servers.len() implies self@.states.contains_key(
            (#[trigger] self@.servers[k]).id,
        ) by {
            if k < all.len() {
                assert(self@.servers[k].id == all[k].id);
            }
        }
        self.wish(Effect::Publish);
        self.wish(Effect::Refresh);
        self.info(said, now);
    }

    fn submit_server(&mut self, form: Form, editing: Option<u128>, fresh: ServerEntry, now: u64)
        requires
            old(self)@.wf(),
            form@.wf(),
            form@.fields.len() == 2,
            fresh.key@.len() == 0,
        ensures
            final(self)@ == server_submitted(
                old(self)@,
                form@,
                editing,
                fresh.id,
                now,
            ),
            final(self)@.wf(),
    {
        let mut form = form;
        let name: String = text::trim(&form.field(0).text_value());
        let addr_text: String = text::trim(&form.field(1).text_value());
        if name.as_str().is_empty() {
            form.error = Some("a name is required".to_string());
            self.modal = Some(Modal::ServerForm { form, editing });
            return ;
        }
        match Target::parse(&addr_text) {
            Err(e) => {
                form.error = Some(
                    text::cat5("'", &addr_text, "' is not a host:port address (", &e, ")"),
                );
                self.modal = Some(Modal::ServerForm { form, editing });
            },
            Ok(addr) => {
                self.modal = None;
                match editing {
                    Some(id) => self.edit_server(id, name, addr, now),
                    None => {
                        let mut entry = fresh;
                        entry.name = name;
                        entry.addr = addr;
                        self.add_server(entry, now);
                    },
                }
            },
        }
    }

    fn submit_instance(
        &mut self,
        form: Form,
        server: u128,
        editing: Option<u128>,
        upload_desc: Option<String>,
        found: bool,
    )
        requires
            old(self)@.wf(),
            form@.wf(),
            form@.fields.len() == 10,
        ensures
            final(self)@ == instance_submitted(
                old(self)@,
                form@,
                server,
                editing,
                form::opt_text(upload_desc),
                found,
            ),
            final(self)@.wf(),
    {
        let mut form = form;
        let keep: Option<&str> = match &upload_desc {
            Some(desc) => Some(desc.as_str()),
            None => None,
        };
        match instance_form::parse(&form, keep, found) {
            Err(e) => {
                form.error = Some(e);
                self.modal =
                Some(Modal::InstanceForm { form, server, editing, upload_desc });
            },
            Ok(parsed) => {
                self.modal = None;
                let name: String = parsed.name.clone();
                let upload: Option<String> = parsed.source.upload_path();
                let ghost filled = app::filled(parsed@, self@.platform);
                match editing {
                    Some(id) => {
                        let source: Source = parsed.source.to_source(self.platform);
                        let action: Action = Action::UpdateInstance {
                            id,
                            name: Some(parsed.name),
                            source: Some(source),
                            command: Some(parsed.command),
                            args: Some(parsed.args),
                            env: Some(parsed.env),
                            autostart: Some(parsed.autostart),
                            retry_policy: Some(parsed.retry_policy),
                        };
                        assert(app::deed_of(action) == Deed::Update(id, filled));
                        let desc: String = text::cat3("save '", &name, "'");
                        match upload {
                            None => self.spawn_action(&desc, server, action),
                            Some(path) => match self.endpoint(server) {
                                Some(endpoint) => self.wish(
                                    Effect::SaveAndUpload { desc, endpoint, id, action, path },
                                ),
                                None => {},
                            },
                        }
                    },
                    None => match self.endpoint(server) {
                        Some(endpoint) => {
                            let action: Action = net::create_action(parsed, self.platform);
                            assert(app::deed_of(action) == Deed::Create(filled));
                            let desc: String = text::cat3("create '", &name, "'");
                            self.wish(Effect::Create { desc, endpoint, action, upload });
                        },
                        None => {},
                    },
                }
            },
        }
    }

    fn on_key_modal(&mut self, key: KeyEvent, given: &Given, fresh: ServerEntry)
        requires
            old(self)@.wf(),
            fresh.key@.len() == 0,
        ensures
            final(self)@ == modal_keyed(old(self)@, key, *given, fresh.id),
            final(self)@.wf(),
    {
        match self.modal.take() {
            None => {},
            Some(Modal::Help) => {},
            Some(Modal::Notice { .. }) => {},
            Some(Modal::Confirm { title, message, toggle, pending }) => match key.code {
                KeyCode::Char('y') | KeyCode::Enter => {
                    let checked: bool = match toggle {
                        Some(t) => t.value,
                        None => false,
                    };
                    self.confirm_accept(pending, checked, given.now);
                },
                KeyCode::Char(' ') => {
                    let turned: Option<ConfirmToggle> = match toggle {
                        Some(t) => Some(ConfirmToggle { label: t.label, value: !t.value }),
                        None => None,
                    };
                    self.modal = Some(Modal::Confirm { title, message, toggle: turned, pending });
                },
                KeyCode::Char('n') | KeyCode::Esc => {},
                _ => {
                    self.modal = Some(Modal::Confirm { title, message, toggle, pending });
                },
            },
            Some(Modal::ServerForm { form, editing }) => {
                let mut form = form;
                match form.handle_key(key) {
                    FormOutcome::Cancel => {},
                    FormOutcome::Idle => {
                        self.modal = Some(Modal::ServerForm { form, editing });
                    },
                    FormOutcome::Submit => {
                        self.submit_server(form, editing, fresh, given.now);
                    },
                }
            },
            Some(Modal::InstanceForm { form, server, editing, upload_desc }) => {
                let mut form = form;
                match form.handle_key(key) {
                    FormOutcome::Cancel => {},
                    FormOutcome::Idle => {
                        self.modal =
                        Some(Modal::InstanceForm { form, server, editing, upload_desc });
                    },
                    FormOutcome::Submit => {
                        self.submit_instance(form, server, editing, upload_desc, given.found);
                    },
                }
            },
        }
    }

    /// Takes in a key. A server that is added gets the identity of `fresh`.
    pub fn on_key_with(
        &mut self,
        key: KeyEvent,
        kind: KeyKind,
        given: &Given,
        fresh: ServerEntry,
    )
        requires
            old(self)@.wf(),
            fresh.key@.len() == 0,
        ensures
            final(self)@ == keyed(old(self)@, key, kind, *given, fresh.id),
            final(self)@.wf(),
    {
        if !matches!(kind, KeyKind::Press) {
            return ;
        }
        if self.modal.is_some() {
            self.on_key_modal(key, given, fresh);
            return ;
        }
        if key.modifiers.control && matches!(key.code, KeyCode::Char('c')) {
            self.should_quit = true;
            return ;
        }
        let (landing, managed): (bool, Option<(u128, u128)>) = match self.screen() {
            Screen::Landing => (true, None),
            Screen::Manage(m) => (false, Some((m.server, m.instance))),
            Screen::Browse(_) => (false, None),
        };
        match managed {
            Some((server, instance)) => self.on_key_manage(server, instance, key, given),
            None => {
                if landing {
                    self.on_key_landing(key, given.now);
                } else {
                    self.on_key_browse(key, given.now);
                }
            },
        }
    }

    /// Takes in a key. A server that is added gets a random identity.
    pub fn on_key(&mut self, key: KeyEvent, kind: KeyKind, given: &Given)
        requires
            old(self)@.wf(),
        ensures
            exists|id: u128|
                chance::drawn(id) && final(self)@ == #[trigger] keyed(
                    old(self)@,
                    key,
                    kind,
                    *given,
                    id,
                ),
            final(self)@.wf(),
    {
        let fresh: ServerEntry = ServerEntry::new(String::new(), Target { ip: 0, port: 0 });
        self.on_key_with(key, kind, given, fresh);
    }

    /// The path that must be looked up before a key is taken in: the one that
    /// the open form would upload.
    pub fn path_to_find(&self) -> (r: Option<String>)
        requires
            self@.wf(),
        ensures
            form::opt_text(r) == (match self@.modal {
                Some(Popup::InstanceForm { form, .. }) => if instance_form::choice_in(
                    form,
                    instance_form::SOURCE as int,
                ) == 2 {
                    Some(instance_form::trimmed_in(form, instance_form::LOCATION as int))
                } else {
                    None
                },
                _ => None,
            }),
    {
        match &self.modal {
            Some(Modal::InstanceForm { form, .. }) => instance_form::upload_location(form),
            _ => None,
        }
    }
}

} // verus!
