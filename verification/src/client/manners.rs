//! What can be relied on at the client's desk, whatever comes in and whatever is
//! pressed.
use vstd::prelude::*;

use crate::client::app::{Desk, Given, Managed, Plan, Popup, Row, Scene, ServerState};
use crate::client::keymap::Scroll;
use crate::client::keys::{KeyCode, KeyEvent, KeyKind};
use crate::client::net::{NetError, Vitals};
use crate::client::{app, keymap};
use crate::protocol::instance::{ConsoleLine, InstanceStatus};

verus! {

/// A key counts when it is pressed, and at no other time.
pub proof fn only_presses_count(
    d: Desk,
    key: KeyEvent,
    kind: KeyKind,
    given: Given,
    fresh_id: u128,
)
    requires
        kind != KeyKind::Press,
    ensures
        keymap::keyed(d, key, kind, given, fresh_id) == d,
{
}

/// Escape closes whatever is open on top, and does nothing else.
pub proof fn escape_only_closes(d: Desk, key: KeyEvent, given: Given, fresh_id: u128)
    requires
        d.modal is Some,
        key.code == KeyCode::Esc,
    ensures
        keymap::keyed(d, key, KeyKind::Press, given, fresh_id) == (Desk { modal: None, ..d }),
{
}

/// A question that is declined has no effect: nothing happens but that it closes.
pub proof fn declining_only_closes(d: Desk, key: KeyEvent, given: Given, fresh_id: u128)
    requires
        d.modal matches Some(Popup::Confirm { .. }),
        key.code == KeyCode::Char('n') || key.code == KeyCode::Esc,
    ensures
        keymap::keyed(d, key, KeyKind::Press, given, fresh_id) == (Desk { modal: None, ..d }),
{
}

/// What comes in for an instance that is no longer on the screen changes nothing.
pub proof fn late_answers_change_nothing(
    d: Desk,
    server: u128,
    instance: u128,
    detail: Result<InstanceStatus, String>,
    console: Result<(Vec<ConsoleLine>, u64), String>,
)
    requires
        d.screens.last() matches Scene::Manage(m) ==> m.server != server || m.instance != instance,
    ensures
        app::detail_taken(d, server, instance, detail) == d,
        app::console_taken(d, server, instance, console) == d,
{
}

/// The place, counted from the first line that there ever was, of the line below
/// the last one that a console shows.
pub open spec fn shown_up_to(m: Managed) -> int {
    m.console_dropped + m.console.len() - m.console_scroll
}

/// A console that is scrolled back holds its place against what arrives below: it
/// shows the same lines as before, or the oldest that are left.
pub proof fn scrolled_consoles_hold_their_place(
    m: Managed,
    lines: Seq<ConsoleLine>,
    dropped: u64,
)
    requires
        0 < m.console_scroll <= m.console.len(),
        m.console_dropped + m.console.len() <= dropped + lines.len(),
    ensures
        shown_up_to(app::console_shown(m, lines, dropped)) == if shown_up_to(m) > dropped {
            shown_up_to(m)
        } else {
            dropped as int
        },
{
}

/// A console at its end follows what arrives, and the End key brings any console
/// there.
pub proof fn consoles_at_the_end_follow(m: Managed, lines: Seq<ConsoleLine>, dropped: u64)
    ensures
        m.console_scroll == 0 ==> app::console_shown(m, lines, dropped).console_scroll == 0,
        keymap::scrolled_to(m, Scroll::Newest) == 0,
{
}

/// However a console is scrolled, it stays within its lines.
pub proof fn scrolling_stays_within_the_lines(m: Managed, scroll: Scroll)
    requires
        0 <= m.console_scroll <= m.console.len(),
    ensures
        0 <= keymap::scrolled_to(m, scroll) <= m.console.len(),
{
}

/// A poll's result never disturbs what is open on top.
pub proof fn polls_do_not_disturb(d: Desk, server: u128, result: Result<Vitals, NetError>, now: u64)
    requires
        d.modal is Some,
    ensures
        app::snapshot_taken(d, server, result, now).modal == d.modal,
{
}

/// Without a leave to overwrite, nothing that is there already is copied, and
/// everything else is; with it, everything is.
pub proof fn conflicts_are_left_alone(plan: Plan)
    ensures
        keymap::names_to_copy(plan, true) == plan.names,
        forall|name: Seq<char>| #[trigger]
            keymap::names_to_copy(plan, false).contains(name) <==> plan.names.contains(name)
                && !plan.conflicts.contains(name),
{
    the_rest_is_kept(plan.names, plan.conflicts);
}

proof fn the_rest_is_kept(names: Seq<Seq<char>>, other: Seq<Seq<char>>)
    ensures
        forall|name: Seq<char>| #[trigger]
            keymap::not_in(names, other).contains(name) <==> names.contains(name)
                && !other.contains(name),
    decreases names.len(),
{
    if names.len() > 0 {
        let front = names.drop_last();
        the_rest_is_kept(front, other);
        let before = keymap::not_in(front, other);
        let after = keymap::not_in(names, other);
        assert forall|name: Seq<char>| #[trigger] after.contains(name) <==> names.contains(name)
            && !other.contains(name) by {
            if after.contains(name) {
                let k = choose|k: int| 0 <= k < after.len() && after[k] == name;
                if k < before.len() {
                    assert(before[k] == name);
                    assert(before.contains(name));
                    let j = choose|j: int| 0 <= j < front.len() && front[j] == name;
                    assert(names[j] == name);
                } else {
                    assert(names[names.len() - 1] == name);
                }
            }
            if names.contains(name) && !other.contains(name) {
                let j = choose|j: int| 0 <= j < names.len() && names[j] == name;
                if j < front.len() {
                    assert(front[j] == name);
                    assert(before.contains(name));
                    let k = choose|k: int| 0 <= k < before.len() && before[k] == name;
                    assert(after[k] == name);
                } else {
                    assert(after[after.len() - 1] == name);
                }
            }
        }
    }
}

/// A server that is removed is gone, and every other is still there.
pub proof fn removing_takes_one_server(d: Desk, id: u128)
    ensures
        forall|i: int|
            0 <= i < keymap::server_removed(d, id).servers.len() ==> (
            #[trigger] keymap::server_removed(d, id).servers[i]).id != id,
        forall|i: int|
            0 <= i < d.servers.len() && (#[trigger] d.servers[i]).id != id
                ==> keymap::server_removed(d, id).servers.contains(d.servers[i]),
        keymap::server_removed(d, id).states == d.states.remove(id),
        keymap::server_removed(d, id).key == d.key,
{
    without_has_the_others(d.servers, id);
}

proof fn without_has_the_others(servers: Seq<crate::client::book::Known>, id: u128)
    ensures
        forall|i: int|
            0 <= i < keymap::servers_without(servers, id).len() ==> (
            #[trigger] keymap::servers_without(servers, id)[i]).id != id,
        forall|i: int|
            0 <= i < servers.len() && (#[trigger] servers[i]).id != id ==> keymap::servers_without(
                servers,
                id,
            ).contains(servers[i]),
    decreases servers.len(),
{
    if servers.len() > 0 {
        let front = servers.drop_last();
        without_has_the_others(front, id);
        let before = keymap::servers_without(front, id);
        let after = keymap::servers_without(servers, id);
        assert forall|i: int| 0 <= i < after.len() implies (#[trigger] after[i]).id != id by {
            if i < before.len() {
                assert(after[i] == before[i]);
            }
        }
        assert forall|i: int| 0 <= i < servers.len() && (#[trigger] servers[i]).id
            != id implies after.contains(servers[i]) by {
            if i < front.len() {
                assert(front[i] == servers[i]);
                assert(before.contains(front[i]));
                let k = choose|k: int| 0 <= k < before.len() && before[k] == front[i];
                assert(after[k] == servers[i]);
            } else {
                assert(after[after.len() - 1] == servers[i]);
            }
        }
    }
}

// ---- collapsing and expanding --------------------------------------------------------

/// No two servers share an identity.
pub open spec fn ids_apart(d: Desk) -> bool {
    forall|i: int, j: int|
        0 <= i < j < d.servers.len() ==> (#[trigger] d.servers[i]).id != (
        #[trigger] d.servers[j]).id
}

proof fn server_rows_stand_in_order(d: Desk, n: int, c: int, server: usize)
    requires
        0 <= n <= d.servers.len() <= usize::MAX,
        0 <= c < app::rows_of(d, n).len(),
        app::rows_of(d, n)[c] == (Row::Server { server }),
    ensures
        server < n,
        c == app::rows_of(d, server as int).len(),
    decreases n,
{
    let before = app::rows_of(d, n - 1);
    if c < before.len() {
        assert(app::rows_of(d, n)[c] == before[c]);
        server_rows_stand_in_order(d, n - 1, c, server);
    } else {
        assert(app::rows_of(d, n)[c] == app::server_rows(d, n - 1)[c - before.len()]);
    }
}

proof fn rows_go_by_the_states(d: Desk, e: Desk, n: int)
    requires
        0 <= n <= d.servers.len(),
        d.servers == e.servers,
        forall|i: int| 0 <= i < n ==> d.states[(#[trigger] d.servers[i]).id] == e.states[d.servers[i].id],
    ensures
        app::rows_of(d, n) == app::rows_of(e, n),
    decreases n,
{
    if n > 0 {
        rows_go_by_the_states(d, e, n - 1);
        assert(d.states[d.servers[n - 1].id] == e.states[d.servers[n - 1].id]);
        assert(app::server_rows(d, n - 1) =~= app::server_rows(e, n - 1));
    }
}

proof fn each_server_has_its_row(d: Desk, n: int, server: usize)
    requires
        server < n <= d.servers.len(),
    ensures
        app::rows_of(d, server as int).len() < app::rows_of(d, n).len(),
        app::rows_of(d, n)[app::rows_of(d, server as int).len() as int] == (Row::Server { server }),
    decreases n,
{
    if server < n - 1 {
        each_server_has_its_row(d, n - 1, server);
    }
}

/// A server that is collapsed or expanded keeps the cursor, and doing it once more
/// leaves everything as it was.
pub proof fn toggling_a_server_twice_changes_nothing(d: Desk, server: usize)
    requires
        d.wf(),
        ids_apart(d),
        d.servers.len() <= usize::MAX,
        0 <= d.cursor,
        app::row_at_cursor(d) == Some(Row::Server { server }),
    ensures
        app::row_at_cursor(keymap::activated(d)) == Some(Row::Server { server }),
        keymap::activated(keymap::activated(d)) == d,
{
    let n = d.servers.len() as int;
    server_rows_stand_in_order(d, n, d.cursor, server);
    let id = d.servers[server as int].id;
    let s = d.states[id];
    let e = Desk {
        states: d.states.insert(id, ServerState { collapsed: !s.collapsed, ..s }),
        ..d
    };
    assert forall|i: int| 0 <= i < server implies d.states[(#[trigger] d.servers[i]).id]
        == e.states[d.servers[i].id] by {
        assert(d.servers[i].id != d.servers[server as int].id);
    }
    rows_go_by_the_states(d, e, server as int);
    each_server_has_its_row(e, n, server);
    assert(keymap::activated(d) == e);
    assert(e.states.insert(id, s) =~= d.states);
    assert(ServerState {
        collapsed: !e.states[id].collapsed,
        ..e.states[id]
    } == s);
}

} // verus!
