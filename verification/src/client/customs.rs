//! What the keys of the client do, screen by screen: what goes out, what is asked
//! first, and what stays as it was.
use vstd::prelude::*;

use crate::client::app::{
    Asked, Browsing, Deed, Desk, Given, Handover, Managed, Plan, Popup, Row, Scene, SessionKind,
    ToastKind, Wish,
};
use crate::client::book::Known;
use crate::client::browse::{Shown, Side};
use crate::client::form::{FormOutcome, Sheet};
use crate::client::instance_form::{Answers, Chosen};
use crate::client::keymap::Scroll;
use crate::client::keys::{KeyCode, KeyEvent, KeyKind};
use crate::client::net::{Dest, Target};
use crate::client::{app, browse, form, instance_form, keymap, net};
use crate::protocol::api::Action;
use crate::protocol::auth::KEY_LEN;
use crate::protocol::instance::InstanceStatResponse;
use crate::protocol::{instance, InstanceStatus};
use crate::{path, text};

verus! {

/// Whether a key goes to the screen: nothing is open on top, and it is not the one that
/// quits everywhere.
pub open spec fn for_the_screen(d: Desk, key: KeyEvent) -> bool {
    d.modal is None && !(key.modifiers.control && key.code == KeyCode::Char('c'))
}

/// Whether a call would end or remove something.
pub open spec fn is_drastic(wish: Wish) -> bool {
    wish matches Wish::Act { deed: Deed::Plain(action), .. } && (action is KillInstance
        || action is RemoveInstance || action is Bootstrap)
}

// ---- where calls go ------------------------------------------------------------------

/// A call to a server goes to the address of the server that has this identity, signed
/// with its own key where it has one, and else with the key of all.
pub proof fn calls_go_to_the_server_meant(d: Desk, i: int)
    requires
        0 <= i < d.servers.len(),
        forall|j: int| 0 <= j < i ==> (#[trigger] d.servers[j]).id != d.servers[i].id,
    ensures
        app::has_server(d, d.servers[i].id),
        app::server_name(d, d.servers[i].id) == d.servers[i].name,
        ({
            let r = app::dest(d, d.servers[i].id);
            &&& r is Some
            &&& r->0.addr == d.servers[i].addr
            &&& d.servers[i].key.len() == KEY_LEN ==> r->0.key == d.servers[i].key
            &&& d.servers[i].key.len() != KEY_LEN && d.key.len() == KEY_LEN ==> r->0.key == d.key
            &&& d.servers[i].key.len() != KEY_LEN && d.key.len() != KEY_LEN ==> r->0.key.len() == 0
        }),
{
    found_first(d.servers, d.servers[i].id, 0, i);
}

proof fn found_first(servers: Seq<Known>, id: u128, from: int, i: int)
    requires
        0 <= from <= i < servers.len(),
        servers[i].id == id,
        forall|j: int| from <= j < i ==> (#[trigger] servers[j]).id != id,
    ensures
        app::server_at(servers, id, from) == i,
    decreases i - from,
{
    if from < i {
        assert(servers[from].id != id);
        found_first(servers, id, from + 1, i);
    }
}

/// A server that is not in the book has no name and cannot be called.
pub proof fn unknown_servers_are_not_called(d: Desk, id: u128)
    requires
        forall|j: int| 0 <= j < d.servers.len() ==> (#[trigger] d.servers[j]).id != id,
    ensures
        !app::has_server(d, id),
        app::dest(d, id) is None,
        app::server_name(d, id).len() == 0,
{
    found_nowhere(d.servers, id, 0);
}

proof fn found_nowhere(servers: Seq<Known>, id: u128, from: int)
    requires
        0 <= from <= servers.len(),
        forall|j: int| 0 <= j < servers.len() ==> (#[trigger] servers[j]).id != id,
    ensures
        app::server_at(servers, id, from) == servers.len(),
    decreases servers.len() - from,
{
    if from < servers.len() {
        found_nowhere(servers, id, from + 1);
    }
}

/// The instances of a server are those of its last answer, and one of them is called by
/// its name, or by its identity where it is not among them.
pub proof fn instances_are_those_last_told(d: Desk, server: u128, i: int)
    requires
        d.states.contains_key(server),
        d.states[server].vitals is Some,
        0 <= i < d.states[server].vitals->0.instances@.len(),
        forall|j: int|
            0 <= j < i ==> (#[trigger] d.states[server].vitals->0.instances@[j]).id
                != d.states[server].vitals->0.instances@[i].id,
    ensures
        app::instances(d, server) == d.states[server].vitals->0.instances@,
        app::instance_name(d, server, d.states[server].vitals->0.instances@[i].id)
            == d.states[server].vitals->0.instances@[i].name@,
{
    instance_found_first(
        d.states[server].vitals->0.instances@,
        d.states[server].vitals->0.instances@[i].id,
        0,
        i,
    );
}

proof fn instance_found_first(list: Seq<InstanceStatResponse>, id: u128, from: int, i: int)
    requires
        0 <= from <= i < list.len(),
        list[i].id == id,
        forall|j: int| from <= j < i ==> (#[trigger] list[j]).id != id,
    ensures
        app::instance_at(list, id, from) == i,
    decreases i - from,
{
    if from < i {
        assert(list[from].id != id);
        instance_found_first(list, id, from + 1, i);
    }
}

/// Where nothing is known of an instance it is called by the 32 digits of its identity.
pub proof fn unknown_instances_are_called_by_identity(d: Desk, server: u128, id: u128)
    requires
        forall|j: int|
            0 <= j < app::instances(d, server).len() ==> (#[trigger] app::instances(
                d,
                server,
            )[j]).id != id,
    ensures
        app::instance_name(d, server, id) == text::hex(id as nat, 32),
        !d.states.contains_key(server) || d.states[server].vitals is None ==> app::instances(
            d,
            server,
        ).len() == 0,
{
    instance_found_nowhere(app::instances(d, server), id, 0);
}

proof fn instance_found_nowhere(list: Seq<InstanceStatResponse>, id: u128, from: int)
    requires
        0 <= from <= list.len(),
        forall|j: int| 0 <= j < list.len() ==> (#[trigger] list[j]).id != id,
    ensures
        app::instance_at(list, id, from) == list.len(),
    decreases list.len() - from,
{
    if from < list.len() {
        instance_found_nowhere(list, id, from + 1);
    }
}

// ---- every screen --------------------------------------------------------------------

/// No single key on any screen ends or removes anything, nor hands a server over to
/// itself: nothing of the kind goes out, and what was to go out still does.
pub proof fn no_key_alone_is_drastic(d: Desk, key: KeyEvent, given: Given, fresh: u128)
    requires
        d.screens.len() > 0,
        d.modal is None,
    ensures
        ({
            let after = keymap::keyed(d, key, KeyKind::Press, given, fresh);
            &&& d.effects.len() <= after.effects.len()
            &&& forall|i: int|
                0 <= i < d.effects.len() ==> #[trigger] after.effects[i] == d.effects[i]
            &&& forall|i: int|
                d.effects.len() <= i < after.effects.len() ==> !is_drastic(
                    #[trigger] after.effects[i],
                )
            &&& after.servers == d.servers
            &&& after.key == d.key
        }),
{
}

/// What ends or removes something goes out only from a question about that very thing,
/// answered with yes.
pub proof fn drastic_calls_were_confirmed(d: Desk, key: KeyEvent, given: Given, fresh: u128, i: int)
    requires
        d.screens.len() > 0,
        d.effects.len() <= i < keymap::keyed(d, key, KeyKind::Press, given, fresh).effects.len(),
        is_drastic(keymap::keyed(d, key, KeyKind::Press, given, fresh).effects[i]),
    ensures
        key.code == KeyCode::Char('y') || key.code == KeyCode::Enter,
        d.modal matches Some(Popup::Confirm { toggle, pending, .. }) && ({
            let wish = keymap::keyed(d, key, KeyKind::Press, given, fresh).effects[i];
            let checked = toggle matches Some((_, true));
            match pending {
                Asked::KillInstance { server, instance } => app::dest(d, server) is Some && wish == (
                Wish::Act {
                    desc: "kill"@,
                    endpoint: app::dest(d, server)->0,
                    deed: Deed::Plain(Action::KillInstance { id: instance }),
                }),
                Asked::RemoveInstance { server, instance } => app::dest(d, server) is Some && wish
                    == (Wish::Act {
                    desc: "remove instance"@,
                    endpoint: app::dest(d, server)->0,
                    deed: Deed::Plain(
                        Action::RemoveInstance { id: instance, delete_files: checked },
                    ),
                }),
                Asked::Bootstrap(server) => app::dest(d, server) is Some && wish == (Wish::Act {
                    desc: "bootstrap"@,
                    endpoint: app::dest(d, server)->0,
                    deed: Deed::Plain(Action::Bootstrap),
                }),
                _ => false,
            }
        }),
{
}

/// Ctrl+C quits from every screen, `q` too, and nothing else happens; neither does
/// anything while something is open on top. `?` shows the help.
pub proof fn quitting_and_help_work_everywhere(d: Desk, key: KeyEvent, given: Given, fresh: u128)
    requires
        d.modal is None,
    ensures
        key.code == KeyCode::Char('q') || (key.modifiers.control && key.code == KeyCode::Char('c'))
            ==> keymap::keyed(d, key, KeyKind::Press, given, fresh) == (Desk {
            should_quit: true,
            ..d
        }),
        key.code == KeyCode::Char('?') ==> keymap::keyed(d, key, KeyKind::Press, given, fresh) == (
        Desk { modal: Some(Popup::Help), ..d }),
{
}

/// Only these keys quit: everything else leaves the client running.
pub proof fn only_quitting_quits(d: Desk, key: KeyEvent, given: Given, fresh: u128)
    requires
        !d.should_quit,
        d.screens.len() > 0,
        keymap::keyed(d, key, KeyKind::Press, given, fresh).should_quit,
    ensures
        d.modal is None || d.screens.len() == 1,
        d.modal is None ==> key.code == KeyCode::Char('q') || key.code == KeyCode::Char('c')
            || key.code == KeyCode::Esc || key.code == KeyCode::Backspace,
        d.screens.len() > 1 ==> key.code == KeyCode::Char('q') || key.code == KeyCode::Char('c')
            || d.screens.last() is Landing,
{
}

/// Escape goes back one screen; from the first it quits.
pub proof fn escape_goes_back(d: Desk, key: KeyEvent, given: Given, fresh: u128)
    requires
        for_the_screen(d, key),
        d.screens.len() > 0,
        key.code == KeyCode::Esc,
    ensures
        ({
            let after = keymap::keyed(d, key, KeyKind::Press, given, fresh);
            if d.screens.last() is Landing || d.screens.len() == 1 {
                after == (Desk { should_quit: true, ..d })
            } else {
                after == (Desk { screens: d.screens.drop_last(), ..d })
            }
        }),
{
}

// ---- the list of servers -------------------------------------------------------------

/// Each server has one row, and below it, where it is not folded and has answered, one
/// for each of its instances, in the order in which it told them.
pub proof fn rows_show_servers_and_instances(d: Desk, n: int)
    requires
        0 < n <= d.servers.len(),
        d.servers.len() <= usize::MAX,
        forall|i: int|
            0 <= i < d.servers.len() ==> d.states[(#[trigger] d.servers[i]).id].vitals is Some
                ==> d.states[d.servers[i].id].vitals->0.instances@.len() <= usize::MAX,
    ensures
        ({
            let before = app::rows_of(d, n - 1);
            let rows = app::rows_of(d, n);
            let s = d.states[d.servers[n - 1].id];
            let open = !s.collapsed && s.vitals is Some;
            let below = if open {
                s.vitals->0.instances@.len() as int
            } else {
                0
            };
            &&& rows.len() == before.len() + 1 + below
            &&& forall|i: int| 0 <= i < before.len() ==> #[trigger] rows[i] == before[i]
            &&& rows[before.len() as int] matches Row::Server { server } && server == n - 1
            &&& forall|k: int|
                0 <= k < below ==> (#[trigger] rows[before.len() + 1 + k] matches Row::Instance {
                    server,
                    instance,
                } && server == n - 1 && instance == k)
        }),
        app::rows_of(d, 0).len() == 0,
        app::all_rows(d) == app::rows_of(d, d.servers.len() as int),
{
}

/// The cursor is on the row that it counts, and on the server of that row.
pub proof fn the_cursor_picks_its_row(d: Desk)
    requires
        0 <= d.cursor,
    ensures
        d.cursor < app::all_rows(d).len() ==> app::row_at_cursor(d) == Some(
            app::all_rows(d)[d.cursor],
        ),
        d.cursor >= app::all_rows(d).len() ==> app::row_at_cursor(d) is None
            && app::server_at_cursor(d) is None,
        app::row_at_cursor(d) matches Some(Row::Server { server }) ==> app::server_at_cursor(d)
            == Some(server as int),
        app::row_at_cursor(d) matches Some(Row::Instance { server, .. }) ==> app::server_at_cursor(d)
            == Some(server as int),
{
}

/// The cursor moves by one row and stops at both ends; Home and End go to the ends.
/// Nothing else changes.
pub proof fn the_list_cursor_moves(d: Desk, key: KeyEvent, given: Given, fresh: u128)
    requires
        for_the_screen(d, key),
        d.screens.len() > 0,
        d.screens.last() is Landing,
        0 <= d.cursor,
    ensures
        ({
            let after = keymap::keyed(d, key, KeyKind::Press, given, fresh);
            let rows = app::all_rows(d).len() as int;
            let up = key.code == KeyCode::Up || key.code == KeyCode::Char('k');
            let down = key.code == KeyCode::Down || key.code == KeyCode::Char('j');
            &&& up && d.cursor > 0 ==> after == (Desk { cursor: d.cursor - 1, ..d })
            &&& up && d.cursor == 0 ==> after == d
            &&& down && d.cursor + 1 < rows ==> after == (Desk { cursor: d.cursor + 1, ..d })
            &&& down && d.cursor + 1 >= rows && rows > 0 ==> after == (Desk {
                cursor: rows - 1,
                ..d
            })
            &&& key.code == KeyCode::Home ==> after == (Desk { cursor: 0, ..d })
            &&& key.code == KeyCode::End && rows > 0 ==> after == (Desk { cursor: rows - 1, ..d })
            &&& (down || key.code == KeyCode::End) && rows == 0 ==> after == (Desk {
                cursor: 0,
                ..d
            })
        }),
{
}

/// Enter, or space, on a server folds or unfolds it, and touches nothing else that is
/// known of it or of any other; on an instance it opens that instance.
pub proof fn enter_folds_or_opens(d: Desk, key: KeyEvent, given: Given, fresh: u128)
    requires
        for_the_screen(d, key),
        d.wf(),
        d.screens.last() is Landing,
        key.code == KeyCode::Enter || key.code == KeyCode::Char(' '),
    ensures
        ({
            let after = keymap::keyed(d, key, KeyKind::Press, given, fresh);
            match app::row_at_cursor(d) {
                Some(Row::Server { server }) => server < d.servers.len() ==> {
                    let id = d.servers[server as int].id;
                    &&& after.states.contains_key(id)
                    &&& after.states[id].collapsed == !d.states[id].collapsed
                    &&& after.states[id].vitals == d.states[id].vitals
                    &&& after.states[id].error == d.states[id].error
                    &&& after.states[id].last_ok == d.states[id].last_ok
                    &&& after.screens == d.screens
                    &&& after.effects == d.effects
                    &&& after.servers == d.servers
                    &&& after.modal is None
                    &&& forall|other: u128|
                        other != id ==> (#[trigger] after.states.contains_key(other)
                            <==> d.states.contains_key(other)) && after.states[other]
                            == d.states[other]
                },
                Some(Row::Instance { server, instance }) => server < d.servers.len() ==> {
                    let id = d.servers[server as int].id;
                    let list = app::instances(d, id);
                    &&& instance < list.len() ==> {
                        &&& after.screens.len() == d.screens.len() + 1
                        &&& after.screens.drop_last() =~= d.screens
                        &&& after.screens.last() matches Scene::Manage(m) && m.server == id
                            && m.instance == list[instance as int].id && m.detail is None
                            && m.console.len() == 0 && m.console_scroll == 0
                        &&& after.states == d.states && after.servers == d.servers
                        &&& app::dest(d, id) matches Some(endpoint) ==> after.effects
                            == d.effects.push(
                            Wish::FetchDetail {
                                endpoint,
                                server: id,
                                instance: list[instance as int].id,
                            },
                        )
                    }
                    &&& instance >= list.len() ==> after == d
                },
                None => after == d,
            }
        }),
{
}

/// `a` opens an empty form for a server and `e` one for the server under the cursor,
/// with its name and address; `n` one for an instance on that server.
pub proof fn forms_open_for_what_is_selected(d: Desk, key: KeyEvent, given: Given, fresh: u128)
    requires
        for_the_screen(d, key),
        d.wf(),
        d.screens.last() is Landing,
    ensures
        ({
            let after = keymap::keyed(d, key, KeyKind::Press, given, fresh);
            &&& key.code == KeyCode::Char('a') ==> {
                &&& after.modal matches Some(Popup::ServerForm { form, editing }) && editing is None
                    && form.fields.len() == 2 && form::content_text(form.fields[0].kind).len() == 0
                    && form::content_text(form.fields[1].kind) == "127.0.0.1:5000"@ && form.focus
                    == 0 && form.error is None
                &&& after == (Desk { modal: after.modal, ..d })
            }
            &&& key.code == KeyCode::Char('e') ==> match app::server_at_cursor(d) {
                Some(i) => 0 <= i < d.servers.len() ==> {
                    &&& after == (Desk { modal: after.modal, ..d })
                    &&& after.modal matches Some(Popup::ServerForm { form, editing }) && editing
                        == Some(d.servers[i].id) && form.fields.len() == 2 && form.focus == 0
                        && form::content_text(form.fields[0].kind)
                        == d.servers[app::server_at(d.servers, d.servers[i].id, 0)].name
                        && form::content_text(form.fields[1].kind) == net::target_text(
                        d.servers[app::server_at(d.servers, d.servers[i].id, 0)].addr,
                    )
                },
                None => complained(d, after, given.now),
            }
            &&& key.code == KeyCode::Char('n') ==> match app::server_at_cursor(d) {
                Some(i) => 0 <= i < d.servers.len() ==> {
                    &&& after == (Desk { modal: after.modal, ..d })
                    &&& after.modal matches Some(
                        Popup::InstanceForm { server, editing, upload_desc, form },
                    ) && server == d.servers[i].id && editing is None && upload_desc is None
                        && form == instance_form::form_for(None)
                },
                None => complained(d, after, given.now),
            }
        }),
{
    if let Some(i) = app::server_at_cursor(d) {
        if 0 <= i < d.servers.len() {
            is_found(d.servers, d.servers[i].id, 0, i);
        }
    }
}

proof fn is_found(servers: Seq<Known>, id: u128, from: int, i: int)
    requires
        0 <= from <= i < servers.len(),
        servers[i].id == id,
    ensures
        app::server_at(servers, id, from) <= i,
        from <= app::server_at(servers, id, from),
        servers[app::server_at(servers, id, from)].id == id,
    decreases i - from,
{
    if servers[from].id != id {
        is_found(servers, id, from + 1, i);
    }
}

/// Whether nothing happened but that something was said, in the tone of an error.
pub open spec fn complained(d: Desk, after: Desk, now: u64) -> bool {
    &&& after == (Desk { toast: after.toast, ..d })
    &&& after.toast matches Some(t) && t.kind == ToastKind::Error && t.until >= now
}

/// `d` asks before a server is removed, and `B` before it is handed over to itself, each
/// about the server under the cursor; a hand-over only where the server offers it.
pub proof fn servers_are_asked_about(d: Desk, key: KeyEvent, given: Given, fresh: u128)
    requires
        for_the_screen(d, key),
        d.wf(),
        d.screens.last() is Landing,
    ensures
        ({
            let after = keymap::keyed(d, key, KeyKind::Press, given, fresh);
            &&& key.code == KeyCode::Char('d') ==> match app::server_at_cursor(d) {
                Some(i) => after == (Desk { modal: after.modal, ..d }) && (
                after.modal matches Some(Popup::Confirm { pending, toggle, .. }) && pending
                    == Asked::RemoveServer(d.servers[i].id) && toggle is None),
                None => complained(d, after, given.now),
            }
            &&& key.code == KeyCode::Char('B') ==> match app::server_at_cursor(d) {
                Some(i) => if d.states.contains_key(d.servers[i].id)
                    && d.states[d.servers[i].id].vitals is Some
                    && d.states[d.servers[i].id].vitals->0.bootstrap {
                    after == (Desk { modal: after.modal, ..d }) && (
                    after.modal matches Some(Popup::Confirm { pending, toggle, .. }) && pending
                        == Asked::Bootstrap(d.servers[i].id) && toggle is None)
                } else {
                    complained(d, after, given.now)
                },
                None => complained(d, after, given.now),
            }
            &&& key.code == KeyCode::Char('r') ==> {
                &&& after.effects == d.effects.push(Wish::Refresh)
                &&& after == (Desk { effects: after.effects, toast: after.toast, ..d })
                &&& after.toast matches Some(t) && t.kind == ToastKind::Info
            }
        }),
{
}

/// Any other key does nothing on the list of servers.
pub proof fn other_keys_do_nothing_on_the_list(d: Desk, key: KeyEvent, given: Given, fresh: u128)
    requires
        for_the_screen(d, key),
        d.screens.len() > 0,
        d.screens.last() is Landing,
        match key.code {
            KeyCode::Char(c) => c != 'q' && c != '?' && c != 'k' && c != 'j' && c != ' ' && c != 'a'
                && c != 'n' && c != 'e' && c != 'd' && c != 'B' && c != 'r',
            KeyCode::Esc | KeyCode::Up | KeyCode::Down | KeyCode::Home | KeyCode::End
            | KeyCode::Enter => false,
            _ => true,
        },
    ensures
        keymap::keyed(d, key, KeyKind::Press, given, fresh) == d,
{
}

// ---- one instance --------------------------------------------------------------------

/// On the screen of an instance, one key sends one call, about that instance, to its
/// server, and changes nothing else: `r` starts it, `x` stops it, `u` brings its files in
/// anew, and `R` restarts it, unless it is the server itself.
pub proof fn instance_keys_send_one_call(
    d: Desk,
    m: Managed,
    key: KeyEvent,
    given: Given,
    fresh: u128,
    endpoint: Dest,
)
    requires
        for_the_screen(d, key),
        d.screens.len() > 0,
        d.screens.last() == Scene::Manage(m),
        app::dest(d, m.server) == Some(endpoint),
    ensures
        ({
            let after = keymap::keyed(d, key, KeyKind::Press, given, fresh);
            &&& key.code == KeyCode::Char('x') ==> after == (Desk {
                effects: d.effects.push(
                    Wish::Act {
                        desc: "stop"@,
                        endpoint,
                        deed: Deed::Plain(Action::StopInstance { id: m.instance }),
                    },
                ),
                ..d
            })
            &&& key.code == KeyCode::Char('r') ==> after == (Desk {
                effects: d.effects.push(
                    Wish::Act {
                        desc: "start"@,
                        endpoint,
                        deed: Deed::Plain(Action::RunInstance { id: m.instance }),
                    },
                ),
                ..d
            })
            &&& key.code == KeyCode::Char('u') ==> after == (Desk {
                effects: d.effects.push(
                    Wish::Act {
                        desc: "update repo"@,
                        endpoint,
                        deed: Deed::Plain(Action::UpdateRepo { id: m.instance }),
                    },
                ),
                ..d
            })
            &&& key.code == KeyCode::Char('R') && !(exists|i: int|
                0 <= i < app::instances(d, m.server).len() && (#[trigger] app::instances(
                    d,
                    m.server,
                )[i]).id == m.instance && app::instances(d, m.server)[i].self_managed) ==> after == (
            Desk {
                effects: d.effects.push(
                    Wish::Act {
                        desc: "restart"@,
                        endpoint,
                        deed: Deed::Plain(Action::RestartInstance { id: m.instance }),
                    },
                ),
                ..d
            })
        }),
{
}

/// `k` and `D` only ask, about the instance shown: nothing goes out. Its files are left
/// alone unless that is chosen. `R` asks too where the instance is the server itself.
pub proof fn instance_keys_ask_first(
    d: Desk,
    m: Managed,
    key: KeyEvent,
    given: Given,
    fresh: u128,
)
    requires
        for_the_screen(d, key),
        d.screens.len() > 0,
        d.screens.last() == Scene::Manage(m),
    ensures
        ({
            let after = keymap::keyed(d, key, KeyKind::Press, given, fresh);
            &&& key.code == KeyCode::Char('k') ==> after == (Desk { modal: after.modal, ..d }) && (
            after.modal matches Some(Popup::Confirm { pending, toggle, .. }) && pending == (
            Asked::KillInstance { server: m.server, instance: m.instance }) && toggle is None)
            &&& key.code == KeyCode::Char('D') ==> after == (Desk { modal: after.modal, ..d }) && (
            after.modal matches Some(Popup::Confirm { pending, toggle, .. }) && pending == (
            Asked::RemoveInstance { server: m.server, instance: m.instance })
                && toggle matches Some((_, false)))
            &&& key.code == KeyCode::Char('R') && (exists|i: int|
                0 <= i < app::instances(d, m.server).len() && (#[trigger] app::instances(
                    d,
                    m.server,
                )[i]).id == m.instance && app::instances(d, m.server)[i].self_managed) ==> after == (
            Desk { modal: after.modal, ..d }) && (after.modal matches Some(
                Popup::Confirm { pending, .. },
            ) && pending == (Asked::RestartServer { server: m.server, instance: m.instance }))
        }),
{
}

/// `s` asks for a shell and `a` to attach, on the instance shown, under the name by
/// which the command line would find it.
pub proof fn sessions_are_for_the_instance_shown(
    d: Desk,
    m: Managed,
    key: KeyEvent,
    given: Given,
    fresh: u128,
    endpoint: Dest,
)
    requires
        for_the_screen(d, key),
        d.screens.len() > 0,
        d.screens.last() == Scene::Manage(m),
        app::dest(d, m.server) == Some(endpoint),
        key.code == KeyCode::Char('s') || key.code == KeyCode::Char('a'),
    ensures
        keymap::keyed(d, key, KeyKind::Press, given, fresh) == (Desk {
            pending_session: Some(
                Handover {
                    kind: if key.code == KeyCode::Char('s') {
                        SessionKind::Shell
                    } else {
                        SessionKind::Attach
                    },
                    endpoint,
                    instance: m.instance,
                    label: app::server_name(d, m.server) + "/"@ + app::instance_name(
                        d,
                        m.server,
                        m.instance,
                    ),
                },
            ),
            ..d
        }),
{
}

/// Where the server of an instance is not in the book any more, nothing goes out to it.
pub proof fn nothing_goes_to_a_lost_server(
    d: Desk,
    m: Managed,
    key: KeyEvent,
    given: Given,
    fresh: u128,
)
    requires
        for_the_screen(d, key),
        d.screens.len() > 0,
        d.screens.last() == Scene::Manage(m),
        app::dest(d, m.server) is None,
    ensures
        ({
            let after = keymap::keyed(d, key, KeyKind::Press, given, fresh);
            &&& after.pending_session == d.pending_session
            &&& forall|i: int|
                d.effects.len() <= i < after.effects.len() ==> (#[trigger] after.effects[i]) is
                    FetchLocal
        }),
{
}

/// `b` shows the files of the instance beside the local ones, once its directory is
/// known, with the local side in front.
pub proof fn files_open_at_the_instance(
    d: Desk,
    m: Managed,
    key: KeyEvent,
    given: Given,
    fresh: u128,
)
    requires
        for_the_screen(d, key),
        d.screens.len() > 0,
        d.screens.last() == Scene::Manage(m),
        key.code == KeyCode::Char('b'),
    ensures
        ({
            let after = keymap::keyed(d, key, KeyKind::Press, given, fresh);
            match m.detail {
                None => complained(d, after, given.now),
                Some(detail) => {
                    &&& after.screens.len() == d.screens.len() + 1
                    &&& after.screens.drop_last() =~= d.screens
                    &&& after.screens.last() matches Scene::Browse(b) && b.server == m.server
                        && b.instance == m.instance && b.remote_root == detail.repo_dir@
                        && b.remote.cwd == detail.repo_dir@ && b.local.cwd == given.local_cwd@
                        && b.focus == Side::Local && b.transfer is None && b.local.loading
                        && b.remote.loading && b.local.entries.len() == 0 && b.remote.entries.len()
                        == 0 && b.local.selected.len() == 0 && b.remote.selected.len() == 0
                    &&& after.modal == d.modal && after.states == d.states && after.servers
                        == d.servers
                    &&& after.effects.len() > d.effects.len() && after.effects[d.effects.len() as int]
                        == (Wish::FetchLocal { path: given.local_cwd@ })
                    &&& app::dest(d, m.server) matches Some(endpoint) ==> after.effects
                        == d.effects.push(Wish::FetchLocal { path: given.local_cwd@ }).push(
                        Wish::FetchRemote {
                            endpoint,
                            server: m.server,
                            path: detail.repo_dir@,
                        },
                    )
                },
            }
        }),
{
}

/// `e` opens the form of the instance shown, filled in with its configuration once that
/// is known, and `n` an empty one for its server.
pub proof fn instance_forms_open(d: Desk, m: Managed, key: KeyEvent, given: Given, fresh: u128)
    requires
        for_the_screen(d, key),
        d.screens.len() > 0,
        d.screens.last() == Scene::Manage(m),
    ensures
        ({
            let after = keymap::keyed(d, key, KeyKind::Press, given, fresh);
            &&& key.code == KeyCode::Char('n') ==> after == (Desk { modal: after.modal, ..d }) && (
            after.modal matches Some(Popup::InstanceForm { form, server, editing, upload_desc })
                && server == m.server && editing is None && upload_desc is None && form
                == instance_form::form_for(None))
            &&& key.code == KeyCode::Char('e') ==> match m.detail {
                None => complained(d, after, given.now),
                Some(detail) => after == (Desk { modal: after.modal, ..d }) && (
                after.modal matches Some(Popup::InstanceForm { form, server, editing, upload_desc })
                    && server == m.server && editing == Some(m.instance) && form
                    == instance_form::form_for(Some(&detail.config)) && (
                detail.config.source@ matches instance::Origin::Upload { desc } ==> upload_desc
                    == Some(desc)) && (!(detail.config.source@ is Upload) ==> upload_desc is None)),
            }
        }),
{
}

/// Up and Down go through the instances of the server one by one, round the ends; the
/// next one is shown afresh, and asked about. One step forward and one back return.
pub proof fn instances_are_stepped_through(
    d: Desk,
    m: Managed,
    key: KeyEvent,
    given: Given,
    fresh: u128,
    at: int,
)
    requires
        for_the_screen(d, key),
        d.screens.len() > 0,
        d.screens.last() == Scene::Manage(m),
        app::instances(d, m.server).len() >= 2,
        0 <= at < app::instances(d, m.server).len(),
        app::instances(d, m.server)[at].id == m.instance,
        forall|j: int|
            0 <= j < at ==> (#[trigger] app::instances(d, m.server)[j]).id != m.instance,
    ensures
        ({
            let after = keymap::keyed(d, key, KeyKind::Press, given, fresh);
            let list = app::instances(d, m.server);
            let n = list.len() as int;
            let down = key.code == KeyCode::Down || key.code == KeyCode::Char(']');
            let up = key.code == KeyCode::Up || key.code == KeyCode::Char('[');
            down || up ==> {
                let next = if down {
                    (at + 1) % n
                } else {
                    (at + n - 1) % n
                };
                &&& after.screens.len() == d.screens.len()
                &&& after.screens.drop_last() =~= d.screens.drop_last()
                &&& after.screens.last() matches Scene::Manage(shown) && shown.server == m.server
                    && shown.instance == list[next].id && shown.detail is None
                    && shown.console.len() == 0 && shown.console_scroll == 0
                    && shown.detail_error is None && shown.console_error is None
                    && shown.console_dropped == 0
                &&& app::dest(d, m.server) matches Some(endpoint) ==> after.effects
                    == d.effects.push(
                    Wish::FetchDetail { endpoint, server: m.server, instance: list[next].id },
                )
                &&& after.servers == d.servers && after.states == d.states && after.modal is None
            }
        }),
{
    let list = app::instances(d, m.server);
    instance_found_first(list, m.instance, 0, at);
    let n = list.len() as int;
    if at + 1 < n {
        vstd::arithmetic::div_mod::lemma_small_mod((at + 1) as nat, n as nat);
    } else {
        vstd::arithmetic::div_mod::lemma_mod_self_0(n);
    }
    if at > 0 {
        assert((at + n - 1) % n == at - 1) by {
            vstd::arithmetic::div_mod::lemma_mod_add_multiples_vanish(at - 1, n);
            vstd::arithmetic::div_mod::lemma_small_mod((at - 1) as nat, n as nat);
        }
    } else {
        vstd::arithmetic::div_mod::lemma_small_mod((n - 1) as nat, n as nat);
    }
}

/// The console is scrolled by ten lines, towards the older ones with PageUp and towards
/// the newer ones with PageDown, as far as there are lines; Home goes to the oldest and
/// End to the newest. Only the place changes.
pub proof fn the_console_is_scrolled(
    d: Desk,
    m: Managed,
    key: KeyEvent,
    given: Given,
    fresh: u128,
)
    requires
        for_the_screen(d, key),
        d.screens.len() > 0,
        d.screens.last() == Scene::Manage(m),
        0 <= m.console_scroll <= m.console.len(),
        key.code == KeyCode::PageUp || key.code == KeyCode::PageDown || key.code == KeyCode::Home
            || key.code == KeyCode::End,
    ensures
        ({
            let after = keymap::keyed(d, key, KeyKind::Press, given, fresh);
            let lines = m.console.len() as int;
            &&& after == (Desk { screens: after.screens, ..d })
            &&& after.screens.len() == d.screens.len()
            &&& after.screens.drop_last() =~= d.screens.drop_last()
            &&& after.screens.last() matches Scene::Manage(shown) && shown == (Managed {
                console_scroll: shown.console_scroll,
                ..m
            }) && (key.code == KeyCode::PageUp ==> shown.console_scroll == if m.console_scroll + 10
                <= lines {
                m.console_scroll + 10
            } else {
                lines
            }) && (key.code == KeyCode::PageDown ==> shown.console_scroll == if m.console_scroll
                >= 10 {
                m.console_scroll - 10
            } else {
                0
            }) && (key.code == KeyCode::Home ==> shown.console_scroll == lines) && (key.code
                == KeyCode::End ==> shown.console_scroll == 0)
        }),
{
}

/// Backspace goes back like Escape; any other key does nothing on the screen of an
/// instance.
pub proof fn other_keys_do_nothing_on_an_instance(
    d: Desk,
    m: Managed,
    key: KeyEvent,
    given: Given,
    fresh: u128,
)
    requires
        for_the_screen(d, key),
        d.screens.len() > 0,
        d.screens.last() == Scene::Manage(m),
    ensures
        key.code == KeyCode::Backspace && d.screens.len() > 1 ==> keymap::keyed(
            d,
            key,
            KeyKind::Press,
            given,
            fresh,
        ) == (Desk { screens: d.screens.drop_last(), ..d }),
        (match key.code {
            KeyCode::Char(c) => c != 'q' && c != '?' && c != '[' && c != ']' && c != 'r' && c != 'R'
                && c != 'x' && c != 'u' && c != 'k' && c != 'D' && c != 'e' && c != 'n' && c != 's'
                && c != 'a' && c != 'b',
            KeyCode::Esc | KeyCode::Backspace | KeyCode::Up | KeyCode::Down | KeyCode::PageUp
            | KeyCode::PageDown | KeyCode::End | KeyCode::Home => false,
            _ => true,
        }) ==> keymap::keyed(d, key, KeyKind::Press, given, fresh) == d,
{
}

// ---- files ---------------------------------------------------------------------------

/// The panel of a side, and the other one.
pub open spec fn panel_of(b: Browsing, side: Side) -> Shown {
    match side {
        Side::Local => b.local,
        Side::Remote => b.remote,
    }
}

/// Whether only the panel in front may have changed.
pub open spec fn only_in_front(b: Browsing, after: Browsing) -> bool {
    &&& after.server == b.server
    &&& after.instance == b.instance
    &&& after.remote_root == b.remote_root
    &&& after.focus == b.focus
    &&& after.transfer == b.transfer
    &&& b.focus == Side::Local ==> after.remote == b.remote
    &&& b.focus == Side::Remote ==> after.local == b.local
}

/// Whether nothing changed but the browser on top, which is now `b`.
pub open spec fn browser_is(d: Desk, after: Desk, b: Browsing) -> bool {
    &&& after.screens.len() == d.screens.len()
    &&& after.screens.drop_last() =~= d.screens.drop_last()
    &&& after.screens.last() == Scene::Browse(b)
    &&& after == (Desk { screens: after.screens, effects: after.effects, ..d })
}

/// Tab goes to the other panel, and twice back to the first; nothing else changes.
pub proof fn tab_changes_panels(d: Desk, b: Browsing, key: KeyEvent, given: Given, fresh: u128)
    requires
        for_the_screen(d, key),
        d.screens.len() > 0,
        d.screens.last() == Scene::Browse(b),
        key.code == KeyCode::Tab,
    ensures
        ({
            let after = keymap::keyed(d, key, KeyKind::Press, given, fresh);
            let other = if b.focus == Side::Local {
                Side::Remote
            } else {
                Side::Local
            };
            &&& browser_is(d, after, Browsing { focus: other, ..b })
            &&& after.effects == d.effects
            &&& keymap::keyed(after, key, KeyKind::Press, given, fresh).screens.last()
                == d.screens.last()
        }),
{
}

/// The cursor of the panel in front moves by one entry and stops at both ends; Home and
/// End go there. Nothing else changes.
pub proof fn the_panel_cursor_moves(
    d: Desk,
    b: Browsing,
    key: KeyEvent,
    given: Given,
    fresh: u128,
)
    requires
        for_the_screen(d, key),
        d.screens.len() > 0,
        d.screens.last() == Scene::Browse(b),
        b.wf(),
    ensures
        ({
            let after = keymap::keyed(d, key, KeyKind::Press, given, fresh);
            let p = panel_of(b, b.focus);
            let n = p.entries.len() as int;
            let up = key.code == KeyCode::Up || key.code == KeyCode::Char('k');
            let down = key.code == KeyCode::Down || key.code == KeyCode::Char('j');
            up || down || key.code == KeyCode::Home || key.code == KeyCode::End ==> {
                &&& after.screens.last() is Browse
                &&& {
                    let now = after.screens.last()->Browse_0;
                    let q = panel_of(now, b.focus);
                    &&& browser_is(d, after, now)
                    &&& after.effects == d.effects
                    &&& only_in_front(b, now)
                    &&& q == (Shown { cursor: q.cursor, ..p })
                    &&& n == 0 ==> q.cursor == p.cursor
                    &&& n > 0 && up ==> q.cursor == if p.cursor > 0 {
                        p.cursor - 1
                    } else {
                        0
                    }
                    &&& n > 0 && down ==> q.cursor == if p.cursor + 1 < n {
                        p.cursor + 1
                    } else {
                        n - 1
                    }
                    &&& n > 0 && key.code == KeyCode::Home ==> q.cursor == 0
                    &&& n > 0 && key.code == KeyCode::End ==> q.cursor == n - 1
                }
            }
        }),
{
}

/// Enter goes into the directory under the cursor and asks for its listing on the side
/// in front; on a file, or where nothing is listed, it does nothing.
pub proof fn enter_goes_into_directories(
    d: Desk,
    b: Browsing,
    key: KeyEvent,
    given: Given,
    fresh: u128,
)
    requires
        for_the_screen(d, key),
        d.screens.len() > 0,
        d.screens.last() == Scene::Browse(b),
        b.wf(),
        key.code == KeyCode::Enter,
    ensures
        ({
            let after = keymap::keyed(d, key, KeyKind::Press, given, fresh);
            let p = panel_of(b, b.focus);
            if p.cursor < p.entries.len() && p.entries[p.cursor].is_dir {
                let dir = path::joined(p.cwd, p.entries[p.cursor].name@, d.platform);
                went_to(d, b, after, dir)
            } else {
                after == d
            }
        }),
{
}

/// Whether the panel in front went to a directory, with nothing marked there, and its
/// listing was asked for on that side.
pub open spec fn went_to(d: Desk, b: Browsing, after: Desk, dir: Seq<char>) -> bool {
    &&& after.screens.last() is Browse
    &&& {
        let now = after.screens.last()->Browse_0;
        let p = panel_of(b, b.focus);
        let q = panel_of(now, b.focus);
        &&& browser_is(d, after, now)
        &&& only_in_front(b, now)
        &&& q.cwd == dir && q.cursor == 0 && q.selected.len() == 0 && q.loading
        &&& q.entries == p.entries && q.error == p.error && q.incoming == p.incoming
        &&& b.focus == Side::Local ==> after.effects == d.effects.push(
            Wish::FetchLocal { path: dir },
        )
        &&& b.focus == Side::Remote ==> (app::dest(d, b.server) matches Some(endpoint)
            ==> after.effects == d.effects.push(
            Wish::FetchRemote { endpoint, server: b.server, path: dir },
        ))
    }
}

/// Backspace goes to the directory above, but on the remote side never above the
/// directory of the instance.
pub proof fn backspace_goes_up(d: Desk, b: Browsing, key: KeyEvent, given: Given, fresh: u128)
    requires
        for_the_screen(d, key),
        d.screens.len() > 0,
        d.screens.last() == Scene::Browse(b),
        key.code == KeyCode::Backspace,
    ensures
        ({
            let after = keymap::keyed(d, key, KeyKind::Press, given, fresh);
            let p = panel_of(b, b.focus);
            let at_the_root = b.focus == Side::Remote && path::parts(b.remote.cwd, d.platform)
                == path::parts(b.remote_root, d.platform);
            match path::parent_of(p.cwd, d.platform) {
                Some(up) => if at_the_root {
                    after == d
                } else {
                    went_to(d, b, after, up)
                },
                None => after == d,
            }
        }),
{
}

/// Space marks the entry under the cursor, or takes its mark away; all other marks stay.
pub proof fn space_marks(d: Desk, b: Browsing, key: KeyEvent, given: Given, fresh: u128)
    requires
        for_the_screen(d, key),
        d.screens.len() > 0,
        d.screens.last() == Scene::Browse(b),
        b.wf(),
        key.code == KeyCode::Char(' '),
    ensures
        ({
            let after = keymap::keyed(d, key, KeyKind::Press, given, fresh);
            let p = panel_of(b, b.focus);
            &&& after.screens.last() is Browse
            &&& {
                let now = after.screens.last()->Browse_0;
                let q = panel_of(now, b.focus);
                &&& browser_is(d, after, now)
                &&& after.effects == d.effects
                &&& only_in_front(b, now)
                &&& q == (Shown { selected: q.selected, ..p })
                &&& p.cursor < p.entries.len() ==> {
                    let name = p.entries[p.cursor].name@;
                    &&& q.selected.contains(name) <==> !p.selected.contains(name)
                    &&& forall|other: Seq<char>|
                        other != name ==> (#[trigger] q.selected.contains(other)
                            <==> p.selected.contains(other))
                }
                &&& p.cursor >= p.entries.len() ==> q.selected == p.selected
            }
        }),
{
    let p = panel_of(b, b.focus);
    if p.cursor < p.entries.len() {
        let name = p.entries[p.cursor].name@;
        let s = p.selected;
        if s.contains(name) {
            let at = s.index_of(name);
            assert(0 <= at < s.len() && s[at] == name);
            let r = s.remove(at);
            assert forall|other: Seq<char>| #[trigger] r.contains(other) <==> s.contains(other)
                && other != name by {
                if r.contains(other) {
                    let i = choose|i: int| 0 <= i < r.len() && r[i] == other;
                    let k = if i < at {
                        i
                    } else {
                        i + 1
                    };
                    assert(s[k] == other);
                    if other == name {
                        if k < at {
                            assert(s[k] != s[at]);
                        } else {
                            assert(s[at] != s[k]);
                        }
                    }
                }
                if s.contains(other) && other != name {
                    let k = choose|k: int| 0 <= k < s.len() && s[k] == other;
                    let i = if k < at {
                        k
                    } else {
                        k - 1
                    };
                    assert(r[i] == other);
                }
            }
        } else {
            let r = s.push(name);
            assert(r[s.len() as int] == name);
            assert forall|other: Seq<char>| other != name implies (#[trigger] r.contains(other)
                <==> s.contains(other)) by {
                if s.contains(other) {
                    let k = choose|k: int| 0 <= k < s.len() && s[k] == other;
                    assert(r[k] == other);
                }
            }
        }
    }
}

/// `c`, or F5, asks before anything is copied: what is marked, or else what is under the
/// cursor, from the panel in front into the directory of the other one. What is there
/// already is named, and is left alone unless that is chosen. While a copy runs, or with
/// nothing to copy, it only says so.
pub proof fn copies_are_asked_about(d: Desk, b: Browsing, key: KeyEvent, given: Given, fresh: u128)
    requires
        for_the_screen(d, key),
        d.screens.len() > 0,
        d.screens.last() == Scene::Browse(b),
        b.wf(),
        key.code == KeyCode::Char('c') || key.code == KeyCode::F(5),
    ensures
        ({
            let after = keymap::keyed(d, key, KeyKind::Press, given, fresh);
            let p = panel_of(b, b.focus);
            let q = panel_of(
                b,
                if b.focus == Side::Local {
                    Side::Remote
                } else {
                    Side::Local
                },
            );
            &&& b.transfer is Some ==> complained(d, after, given.now)
            &&& b.transfer is None && p.selected.len() == 0 && p.cursor >= p.entries.len()
                ==> complained(d, after, given.now)
            &&& after.effects == d.effects
            &&& after.screens == d.screens
            &&& after.modal matches Some(Popup::Confirm { pending, toggle, .. }) ==> (
            pending matches Asked::Transfer(plan) && plan.server == b.server && plan.from == b.focus
                && plan.src_dir == p.cwd && plan.dest_dir == q.cwd && plan.names.len() > 0 && (
            forall|name: Seq<char>| #[trigger]
                plan.names.contains(name) ==> browse::names_of(p.entries).contains(name)
                    && if p.selected.len() > 0 {
                    p.selected.contains(name)
                } else {
                    name == p.entries[p.cursor].name@
                }) && (p.selected.len() > 0 ==> forall|name: Seq<char>|
                browse::names_of(p.entries).contains(name) && p.selected.contains(name)
                    ==> #[trigger] plan.names.contains(name)) && (p.selected.len() == 0
                ==> plan.names == seq![p.entries[p.cursor].name@]) && (forall|name: Seq<char>|
                #[trigger] plan.conflicts.contains(name) <==> plan.names.contains(name)
                    && browse::names_of(q.entries).contains(name)) && (toggle is Some
                <==> plan.conflicts.len() > 0) && !(toggle matches Some((_, true))))
            &&& b.transfer is None && (p.selected.len() == 0 && p.cursor < p.entries.len()
                || exists|name: Seq<char>| #[trigger]
                browse::names_of(p.entries).contains(name) && p.selected.contains(name))
                ==> after.modal is Some
        }),
{
    let p = panel_of(b, b.focus);
    let names = browse::names_of(p.entries);
    also_in_tells(names, p.selected);
    let plan = keymap::plan_of(b);
    let there = browse::names_of(b.at(b.focus.other()).entries);
    also_in_tells(plan.names, there);
    if p.cursor < p.entries.len() {
        assert(names[p.cursor] == p.entries[p.cursor].name@);
        let one = seq![p.entries[p.cursor].name@];
        assert(one[0] == p.entries[p.cursor].name@);
    }
    if exists|name: Seq<char>| #[trigger] names.contains(name) && p.selected.contains(name) {
        let name = choose|name: Seq<char>| #[trigger]
            names.contains(name) && p.selected.contains(name);
        assert(browse::also_in(names, p.selected).contains(name));
    }
}

proof fn also_in_tells(list: Seq<Seq<char>>, other: Seq<Seq<char>>)
    ensures
        forall|name: Seq<char>| #[trigger]
            browse::also_in(list, other).contains(name) <==> list.contains(name)
                && other.contains(name),
    decreases list.len(),
{
    if list.len() > 0 {
        let front = list.drop_last();
        also_in_tells(front, other);
        let before = browse::also_in(front, other);
        let all = browse::also_in(list, other);
        assert forall|name: Seq<char>| #[trigger] all.contains(name) <==> list.contains(name)
            && other.contains(name) by {
            if all.contains(name) {
                let i = choose|i: int| 0 <= i < all.len() && all[i] == name;
                if i < before.len() {
                    assert(before[i] == name);
                    assert(before.contains(name));
                    let k = choose|k: int| 0 <= k < front.len() && front[k] == name;
                    assert(list[k] == name);
                } else {
                    assert(list[list.len() - 1] == name);
                }
            }
            if list.contains(name) && other.contains(name) {
                let k = choose|k: int| 0 <= k < list.len() && list[k] == name;
                if k < front.len() {
                    assert(front[k] == name);
                    assert(before.contains(name));
                    let i = choose|i: int| 0 <= i < before.len() && before[i] == name;
                    assert(all[i] == name);
                } else {
                    assert(all[all.len() - 1] == name);
                }
            }
        }
    }
}

/// `r` asks for both listings anew, of the directories that are shown, and keeps
/// everything else meanwhile.
pub proof fn reloading_asks_for_both(d: Desk, b: Browsing, key: KeyEvent, given: Given, fresh: u128)
    requires
        for_the_screen(d, key),
        d.screens.len() > 0,
        d.screens.last() == Scene::Browse(b),
        key.code == KeyCode::Char('r'),
    ensures
        ({
            let after = keymap::keyed(d, key, KeyKind::Press, given, fresh);
            &&& browser_is(
                d,
                after,
                Browsing {
                    local: Shown { loading: true, ..b.local },
                    remote: Shown { loading: true, ..b.remote },
                    ..b
                },
            )
            &&& app::dest(d, b.server) matches Some(endpoint) ==> after.effects == d.effects.push(
                Wish::FetchLocal { path: b.local.cwd },
            ).push(Wish::FetchRemote { endpoint, server: b.server, path: b.remote.cwd })
            &&& app::dest(d, b.server) is None ==> after.effects == d.effects.push(
                Wish::FetchLocal { path: b.local.cwd },
            )
        }),
{
}

/// Any other key does nothing among the files.
pub proof fn other_keys_do_nothing_among_files(
    d: Desk,
    b: Browsing,
    key: KeyEvent,
    given: Given,
    fresh: u128,
)
    requires
        for_the_screen(d, key),
        d.screens.len() > 0,
        d.screens.last() == Scene::Browse(b),
        match key.code {
            KeyCode::Char(c) => c != 'q' && c != '?' && c != 'k' && c != 'j' && c != ' ' && c != 'c'
                && c != 'r',
            KeyCode::F(n) => n != 5,
            KeyCode::Esc | KeyCode::Tab | KeyCode::Up | KeyCode::Down | KeyCode::Home
            | KeyCode::End | KeyCode::Enter | KeyCode::Backspace => false,
            _ => true,
        },
    ensures
        keymap::keyed(d, key, KeyKind::Press, given, fresh) == d,
{
}

// ---- questions -----------------------------------------------------------------------

/// A question is answered with `y` or Enter, and closed by that. A yes sends what was
/// asked about, to the server that it was about: a kill kills, a restart restarts; a
/// removal removes, with the files only where that was chosen, and leaves the screen of
/// what is removed; a server that is removed is forgotten, and the book is saved.
pub proof fn a_yes_does_what_was_asked(
    d: Desk,
    key: KeyEvent,
    given: Given,
    fresh: u128,
    title: Seq<char>,
    message: Seq<char>,
    toggle: Option<(Seq<char>, bool)>,
    pending: Asked,
    endpoint: Dest,
)
    requires
        d.screens.len() > 0,
        d.modal == Some(Popup::Confirm { title, message, toggle, pending }),
        key.code == KeyCode::Char('y') || key.code == KeyCode::Enter,
    ensures
        ({
            let after = keymap::keyed(d, key, KeyKind::Press, given, fresh);
            let closed = Desk { modal: None, ..d };
            &&& after.modal is None
            &&& match pending {
                Asked::KillInstance { server, instance } => app::dest(d, server) == Some(endpoint)
                    ==> after == (Desk {
                    effects: d.effects.push(
                        Wish::Act {
                            desc: "kill"@,
                            endpoint,
                            deed: Deed::Plain(Action::KillInstance { id: instance }),
                        },
                    ),
                    ..closed
                }),
                Asked::RestartServer { server, instance } => app::dest(d, server) == Some(endpoint)
                    ==> after == (Desk {
                    effects: d.effects.push(
                        Wish::Act {
                            desc: "restart server"@,
                            endpoint,
                            deed: Deed::Plain(Action::RestartInstance { id: instance }),
                        },
                    ),
                    ..closed
                }),
                Asked::Bootstrap(server) => app::dest(d, server) == Some(endpoint) ==> after == (
                Desk {
                    effects: d.effects.push(
                        Wish::Act {
                            desc: "bootstrap"@,
                            endpoint,
                            deed: Deed::Plain(Action::Bootstrap),
                        },
                    ),
                    ..closed
                }),
                Asked::RemoveInstance { server, instance } => app::dest(d, server) == Some(
                    endpoint,
                ) ==> {
                    &&& after.effects == d.effects.push(
                        Wish::Act {
                            desc: "remove instance"@,
                            endpoint,
                            deed: Deed::Plain(
                                Action::RemoveInstance {
                                    id: instance,
                                    delete_files: toggle matches Some((_, true)),
                                },
                            ),
                        },
                    )
                    &&& after.servers == d.servers && after.states == d.states
                    &&& if d.screens.len() > 1 && (d.screens.last() matches Scene::Manage(m)
                        && m.instance == instance) {
                        after.screens == d.screens.drop_last()
                    } else {
                        after.screens == d.screens
                    }
                },
                Asked::RemoveServer(id) => {
                    &&& after.effects == d.effects.push(Wish::Publish)
                    &&& !after.states.contains_key(id)
                    &&& after.screens == d.screens
                    &&& after.key == d.key
                    &&& forall|i: int|
                        0 <= i < after.servers.len() ==> (#[trigger] after.servers[i]).id != id
                            && d.servers.contains(after.servers[i])
                    &&& forall|i: int|
                        0 <= i < d.servers.len() && (#[trigger] d.servers[i]).id != id
                            ==> after.servers.contains(d.servers[i])
                    &&& after.toast matches Some(t) && t.kind == ToastKind::Info
                },
                Asked::Transfer(_) => true,
            }
        }),
{
    if let Asked::RemoveServer(id) = pending {
        servers_without_tells(d.servers, id);
    }
}

proof fn servers_without_tells(servers: Seq<Known>, id: u128)
    ensures
        forall|i: int|
            0 <= i < keymap::servers_without(servers, id).len() ==> (
            #[trigger] keymap::servers_without(servers, id)[i]).id != id && servers.contains(
                keymap::servers_without(servers, id)[i],
            ),
        forall|i: int|
            0 <= i < servers.len() && (#[trigger] servers[i]).id != id ==> keymap::servers_without(
                servers,
                id,
            ).contains(servers[i]),
    decreases servers.len(),
{
    if servers.len() > 0 {
        let front = servers.drop_last();
        servers_without_tells(front, id);
        let before = keymap::servers_without(front, id);
        let all = keymap::servers_without(servers, id);
        assert forall|i: int| 0 <= i < all.len() implies (#[trigger] all[i]).id != id
            && servers.contains(all[i]) by {
            if i < before.len() {
                assert(all[i] == before[i]);
                assert(front.contains(before[i]));
                let k = choose|k: int| 0 <= k < front.len() && front[k] == before[i];
                assert(servers[k] == all[i]);
            } else {
                assert(servers[servers.len() - 1] == all[i]);
            }
        }
        assert forall|i: int| 0 <= i < servers.len() && (#[trigger] servers[i]).id
            != id implies all.contains(servers[i]) by {
            if i < front.len() {
                assert(front[i] == servers[i]);
                assert(before.contains(front[i]));
                let k = choose|k: int| 0 <= k < before.len() && before[k] == front[i];
                assert(all[k] == servers[i]);
            } else {
                assert(all[all.len() - 1] == servers[i]);
            }
        }
    }
}

/// Space changes the choice that comes with a question, and twice changes it back; `n`
/// and Escape only close it, and any other key leaves it open as it is.
pub proof fn questions_stay_until_answered(
    d: Desk,
    key: KeyEvent,
    given: Given,
    fresh: u128,
    title: Seq<char>,
    message: Seq<char>,
    toggle: Option<(Seq<char>, bool)>,
    pending: Asked,
)
    requires
        d.modal == Some(Popup::Confirm { title, message, toggle, pending }),
        key.code != KeyCode::Char('y'),
        key.code != KeyCode::Enter,
    ensures
        ({
            let after = keymap::keyed(d, key, KeyKind::Press, given, fresh);
            if key.code == KeyCode::Char('n') || key.code == KeyCode::Esc {
                after == (Desk { modal: None, ..d })
            } else if key.code == KeyCode::Char(' ') {
                &&& after == (Desk { modal: after.modal, ..d })
                &&& after.modal matches Some(
                    Popup::Confirm { title: t, message: m, toggle: now, pending: p },
                ) && t == title && m == message && p == pending && (toggle is None <==> now is None)
                    && (toggle matches Some((label, value)) ==> now == Some((label, !value)))
                &&& keymap::keyed(after, key, KeyKind::Press, given, fresh) == d
            } else {
                after == d
            }
        }),
{
}

/// Any key closes the help, and a notice, and does nothing else.
pub proof fn any_key_closes_what_only_tells(d: Desk, key: KeyEvent, given: Given, fresh: u128)
    requires
        d.modal == Some(Popup::Help) || d.modal matches Some(Popup::Notice { .. }),
    ensures
        keymap::keyed(d, key, KeyKind::Press, given, fresh) == (Desk { modal: None, ..d }),
{
}

/// A copy that was agreed to names each file by its own path, goes into the directory
/// that was shown, and comes from the side that it was asked on; it is announced on the
/// other side. What is there already is copied only where that was chosen.
pub proof fn agreed_copies_are_made(
    d: Desk,
    key: KeyEvent,
    given: Given,
    fresh: u128,
    title: Seq<char>,
    message: Seq<char>,
    toggle: Option<(Seq<char>, bool)>,
    plan: Plan,
    endpoint: Dest,
)
    requires
        d.screens.len() > 0,
        d.modal == Some(
            Popup::Confirm { title, message, toggle, pending: Asked::Transfer(plan) },
        ),
        key.code == KeyCode::Char('y') || key.code == KeyCode::Enter,
        app::dest(d, plan.server) == Some(endpoint),
    ensures
        ({
            let after = keymap::keyed(d, key, KeyKind::Press, given, fresh);
            let overwrite = toggle matches Some((_, true));
            let names = keymap::names_to_copy(plan, overwrite);
            &&& after.modal is None
            &&& names.len() == 0 ==> after.effects == d.effects && after.screens == d.screens && (
            after.toast matches Some(t) && t.kind == ToastKind::Info)
            &&& names.len() > 0 ==> {
                &&& after.effects.len() == d.effects.len() + 1
                &&& after.effects.drop_last() =~= d.effects
                &&& after.effects.last() matches Wish::Copy {
                    endpoint: e,
                    server,
                    from,
                    sources,
                    dest_dir,
                    what,
                } && e == endpoint && server == plan.server && from == plan.from && dest_dir
                    == plan.dest_dir && sources.len() == names.len() && (forall|i: int|
                    0 <= i < names.len() ==> #[trigger] sources[i] == path::joined(
                        plan.src_dir,
                        names[i],
                        d.platform,
                    ))
                &&& d.screens.last() matches Scene::Browse(b) ==> (
                after.screens.last() matches Scene::Browse(now) && now.transfer is Some
                    && now.transfer->0.done == 0 && now.transfer->0.total is None && panel_of(
                    now,
                    plan.from,
                ) == panel_of(b, plan.from) && panel_of(
                    now,
                    if plan.from == Side::Local {
                        Side::Remote
                    } else {
                        Side::Local
                    },
                ).incoming == names)
            }
        }),
{
}

// ---- forms ---------------------------------------------------------------------------

/// What is written in a field, white space around it aside.
pub open spec fn entered(s: Sheet, i: int) -> Seq<char> {
    text::trimmed(form::content_text(s.fields[i].kind))
}

/// A server's form is saved with Enter, where it has a name and an address that can be
/// read. A new server comes last in the book, under a fresh identity, without a key of
/// its own; one that is edited keeps its identity, its key and its place. The book is
/// saved and the servers are asked anew.
pub proof fn server_forms_are_saved(
    d: Desk,
    key: KeyEvent,
    given: Given,
    fresh: u128,
    sheet: Sheet,
    editing: Option<u128>,
    ip: u32,
    port: u16,
)
    requires
        d.modal == Some(Popup::ServerForm { form: sheet, editing }),
        key.code == KeyCode::Enter,
        entered(sheet, 0).len() > 0,
        net::parsed_target(entered(sheet, 1)) == Ok::<(u32, u16), Seq<char>>((ip, port)),
    ensures
        ({
            let after = keymap::keyed(d, key, KeyKind::Press, given, fresh);
            let addr = Target { ip, port };
            &&& after.modal is None
            &&& after.effects == d.effects.push(Wish::Publish).push(Wish::Refresh)
            &&& after.screens == d.screens && after.cursor == d.cursor && after.key == d.key
            &&& after.toast matches Some(t) && t.kind == ToastKind::Info
            &&& editing is None ==> {
                &&& after.servers.len() == d.servers.len() + 1
                &&& after.servers.drop_last() =~= d.servers
                &&& after.servers.last() == (Known {
                    id: fresh,
                    name: entered(sheet, 0),
                    addr,
                    key: seq![],
                })
                &&& after.states.contains_key(fresh) && after.states[fresh].vitals is None
                    && after.states[fresh].error is None && !after.states[fresh].collapsed
                &&& after.version_checks.contains(fresh)
                &&& after.bootstrap_offers.contains(fresh)
            }
            &&& editing matches Some(id) ==> {
                &&& after.servers.len() == d.servers.len()
                &&& after.states.contains_key(id) && after.states[id].vitals is None
                    && after.states[id].error is None
                &&& forall|i: int|
                    0 <= i < d.servers.len() && i != app::server_at(d.servers, id, 0)
                        ==> #[trigger] after.servers[i] == d.servers[i]
                &&& app::has_server(d, id) ==> {
                    let at = app::server_at(d.servers, id, 0);
                    &&& after.servers[at].name == entered(sheet, 0)
                    &&& after.servers[at].addr == addr
                    &&& after.servers[at].id == d.servers[at].id
                    &&& after.servers[at].key == d.servers[at].key
                    &&& d.servers[at].addr != addr ==> after.version_checks.contains(id)
                }
                &&& after.bootstrap_offers == d.bootstrap_offers
            }
        }),
{
    if let Some(id) = editing {
        searching_goes_on(d.servers, id, 0);
    }
}

proof fn searching_goes_on(servers: Seq<Known>, id: u128, from: int)
    requires
        0 <= from <= servers.len(),
    ensures
        from <= app::server_at(servers, id, from) <= servers.len(),
    decreases servers.len() - from,
{
    if from < servers.len() && servers[from].id != id {
        searching_goes_on(servers, id, from + 1);
    }
}

/// A server's form without a name, or with an address that cannot be read, stays open
/// with what is wrong; nothing else changes.
pub proof fn bad_server_forms_stay_open(
    d: Desk,
    key: KeyEvent,
    given: Given,
    fresh: u128,
    sheet: Sheet,
    editing: Option<u128>,
)
    requires
        d.modal == Some(Popup::ServerForm { form: sheet, editing }),
        key.code == KeyCode::Enter,
        entered(sheet, 0).len() == 0 || net::parsed_target(entered(sheet, 1)) is Err,
    ensures
        ({
            let after = keymap::keyed(d, key, KeyKind::Press, given, fresh);
            &&& after == (Desk { modal: after.modal, ..d })
            &&& after.modal matches Some(Popup::ServerForm { form, editing: e }) && e == editing
                && form == (Sheet { error: form.error, ..sheet }) && form.error is Some && (entered(
                sheet,
                0,
            ).len() == 0 ==> form.error == Some("a name is required"@))
        }),
{
}

/// An instance's form is saved with Enter where it can be read. A new instance is
/// created on its server and an edited one updated there under its identity, each with
/// just what the form says; content that is to be uploaded goes along. A form that cannot
/// be read stays open with what is wrong.
pub proof fn instance_forms_are_saved(
    d: Desk,
    key: KeyEvent,
    given: Given,
    fresh: u128,
    sheet: Sheet,
    server: u128,
    editing: Option<u128>,
    upload_desc: Option<Seq<char>>,
    endpoint: Dest,
)
    requires
        d.modal == Some(Popup::InstanceForm { form: sheet, server, editing, upload_desc }),
        key.code == KeyCode::Enter,
        app::dest(d, server) == Some(endpoint),
    ensures
        ({
            let after = keymap::keyed(d, key, KeyKind::Press, given, fresh);
            match instance_form::form_read(sheet, upload_desc, given.found) {
                Err(e) => after == (Desk { modal: after.modal, ..d }) && after.modal == Some(
                    Popup::InstanceForm {
                        form: Sheet { error: Some(e), ..sheet },
                        server,
                        editing,
                        upload_desc,
                    },
                ),
                Ok(a) => {
                    &&& after == (Desk { modal: None, effects: after.effects, ..d })
                    &&& after.effects.len() == d.effects.len() + 1
                    &&& after.effects.drop_last() =~= d.effects
                    &&& match editing {
                        None => after.effects.last() matches Wish::Create {
                            endpoint: e,
                            deed: Deed::Create(f),
                            upload,
                            ..
                        } && e == endpoint && as_answered(a, f, d.platform) && (match a.source {
                            Chosen::Upload { path } => upload == Some(path),
                            _ => upload is None,
                        }),
                        Some(id) => match a.source {
                            Chosen::Upload { path } => after.effects.last() matches
                                Wish::SaveAndUpload {
                                endpoint: e,
                                id: i,
                                deed: Deed::Update(j, f),
                                path: p,
                                ..
                            } && e == endpoint && i == id && j == id && p == path && as_answered(
                                a,
                                f,
                                d.platform,
                            ),
                            _ => after.effects.last() matches Wish::Act {
                                endpoint: e,
                                deed: Deed::Update(j, f),
                                ..
                            } && e == endpoint && j == id && as_answered(a, f, d.platform),
                        },
                    }
                },
            }
        }),
{
}

/// Whether a call carries what a form was answered with.
pub open spec fn as_answered(a: Answers, f: app::Filled, platform: path::Platform) -> bool {
    &&& f.name == a.name
    &&& f.command == a.command
    &&& f.args == a.args
    &&& f.env == a.env
    &&& f.autostart == a.autostart
    &&& f.retry_policy == a.retry_policy
    &&& match a.source {
        Chosen::Git { url, branch } => f.source == (instance::Origin::Git { url, branch }),
        Chosen::Url { url } => f.source == (instance::Origin::Url { url }),
        Chosen::UploadKeep { desc } => f.source == (instance::Origin::Upload { desc }),
        Chosen::Upload { path } => f.source matches instance::Origin::Upload { desc } && (
        path::name_of(path, platform) matches Some(name) ==> desc == name) && (path::name_of(
            path,
            platform,
        ) is None ==> desc == path),
        Chosen::Nothing => f.source is Empty,
    }
}

/// What is typed into a form goes to its field and nowhere else: the form stays open and
/// nothing goes out, until it is saved or given up.
pub proof fn typing_stays_in_the_form(d: Desk, key: KeyEvent, given: Given, fresh: u128)
    requires
        d.modal matches Some(Popup::ServerForm { .. }) || d.modal matches Some(
            Popup::InstanceForm { .. },
        ),
        key.code != KeyCode::Enter,
        key.code != KeyCode::Esc,
    ensures
        ({
            let after = keymap::keyed(d, key, KeyKind::Press, given, fresh);
            &&& after == (Desk { modal: after.modal, ..d })
            &&& d.modal matches Some(Popup::ServerForm { form, editing }) ==> (
            after.modal matches Some(Popup::ServerForm { form: f, editing: e }) && e == editing && f
                == form::form_keyed(form, key).0)
            &&& d.modal matches Some(Popup::InstanceForm { form, server, editing, upload_desc })
                ==> (after.modal matches Some(
                Popup::InstanceForm { form: f, server: s, editing: e, upload_desc: u },
            ) && s == server && e == editing && u == upload_desc && f == form::form_keyed(
                form,
                key,
            ).0)
        }),
{
}

} // verus!
