//! What the client makes of what comes back: answers to polls and calls, listings, and
//! the ends of transfers.
use vstd::prelude::*;

use crate::client::app::{
    AppEvent, Browsing, Desk, Managed, NetCount, Note, Popup, Scene, ServerState, ToastKind, Wish,
};
use crate::client::browse::{Shown, Side};
use crate::client::net::{NetError, Vitals};
use crate::client::{app, browse};
use crate::path;
use crate::protocol::api::{Action, DirEntry};
use crate::protocol::instance::{ConsoleLine, InstanceStatus};
use crate::text;

verus! {

// ---- polls ---------------------------------------------------------------------------

/// A server that answered is up, shows the answer, and was last seen then; how it is
/// folded is kept.
pub proof fn answers_are_shown(s: ServerState, v: Vitals, now: u64)
    ensures
        ({
            let after = app::state_after(s, Ok(v), now);
            &&& after.vitals == Some(v)
            &&& after.error is None
            &&& after.last_ok == Some(now)
            &&& after.collapsed == s.collapsed
            &&& app::up(after)
            &&& after.prev_net == Some(
                NetCount { recv: v.network_recv, trans: v.network_trans, at: now },
            )
        }),
{
}

/// What went over the network is what the counters gained since the answer before, and
/// the time that it took; too short a time, or none to compare with, changes nothing.
pub proof fn rates_are_gains_over_time(s: ServerState, v: Vitals, now: u64)
    ensures
        ({
            let after = app::state_after(s, Ok(v), now);
            match s.prev_net {
                Some(p) => if now > p.at && now - p.at > 50_000_000 {
                    &&& after.rate_over == now - p.at
                    &&& after.recv_bytes == if v.network_recv > p.recv {
                        v.network_recv - p.recv
                    } else {
                        0
                    }
                    &&& after.trans_bytes == if v.network_trans > p.trans {
                        v.network_trans - p.trans
                    } else {
                        0
                    }
                } else {
                    after.rate_over == s.rate_over && after.recv_bytes == s.recv_bytes
                        && after.trans_bytes == s.trans_bytes
                },
                None => after.rate_over == s.rate_over && after.recv_bytes == s.recv_bytes
                    && after.trans_bytes == s.trans_bytes,
            }
        }),
{
}

/// A server that did not answer is down, and why is kept. What it last said stays, and
/// when that was; its rates do not.
pub proof fn failures_keep_what_was_known(s: ServerState, e: NetError, now: u64)
    ensures
        ({
            let after = app::state_after(s, Err(e), now);
            &&& after.error == Some(e)
            &&& !app::up(after)
            &&& after.vitals == s.vitals
            &&& after.last_ok == s.last_ok
            &&& after.collapsed == s.collapsed
            &&& after.recv_bytes == 0 && after.trans_bytes == 0 && after.rate_over == 0
            &&& after.prev_net is None
        }),
{
}

/// A server is up exactly where its last poll was answered.
pub proof fn up_means_answered(s: ServerState)
    ensures
        app::up(s) <==> s.error is None && s.vitals is Some,
{
}

/// A poll changes what is known of its own server only; of a server that is not known it
/// changes nothing. The book is never touched, and nothing is stopped by it.
pub proof fn polls_concern_one_server(
    d: Desk,
    server: u128,
    result: Result<Vitals, NetError>,
    now: u64,
)
    requires
        d.screens.len() > 0,
    ensures
        ({
            let after = app::evented(d, AppEvent::Snapshot { server, result }, now);
            &&& after.servers == d.servers && after.key == d.key
            &&& forall|other: u128|
                other != server ==> (#[trigger] after.states.contains_key(other)
                    <==> d.states.contains_key(other)) && after.states[other] == d.states[other]
            &&& d.states.contains_key(server) ==> after.states.contains_key(server)
                && after.states[server] == app::state_after(d.states[server], result, now)
            &&& !d.states.contains_key(server) ==> !after.states.contains_key(server)
            &&& after.pending_session == d.pending_session
            &&& d.effects.len() <= after.effects.len()
            &&& forall|i: int|
                0 <= i < d.effects.len() ==> #[trigger] after.effects[i] == d.effects[i]
            &&& forall|i: int|
                d.effects.len() <= i < after.effects.len() ==> (
                #[trigger] after.effects[i]) is FetchDetail
        }),
{
}

/// Whether a server answered, and named no such instance.
pub open spec fn told_without(result: Result<Vitals, NetError>, id: u128) -> bool {
    result matches Ok(v) && forall|i: int|
        0 <= i < v.instances@.len() ==> (#[trigger] v.instances@[i]).id != id
}

/// While an instance is shown, each poll of its server asks for its details anew. Where
/// the server answered without it, its screen is left, and that is said.
pub proof fn shown_instances_are_kept_up_to_date(
    d: Desk,
    m: Managed,
    result: Result<Vitals, NetError>,
    now: u64,
)
    requires
        d.screens.len() > 1,
        d.screens.last() == Scene::Manage(m),
        d.states.contains_key(m.server),
        app::has_server(d, m.server),
    ensures
        ({
            let after = app::evented(d, AppEvent::Snapshot { server: m.server, result }, now);
            let gone = told_without(result, m.instance);
            &&& gone ==> after.screens == d.screens.drop_last()
            &&& !gone ==> {
                &&& after.screens == d.screens
                &&& app::dest(d, m.server) matches Some(endpoint) ==> after.effects
                    == d.effects.push(
                    Wish::FetchDetail { endpoint, server: m.server, instance: m.instance },
                )
            }
        }),
{
    let s = app::state_after(d.states[m.server], result, now);
    if let Ok(v) = result {
        let list = v.instances@;
        place_tells(list, m.instance, 0);
        let at = app::instance_at(list, m.instance, 0);
        if at < list.len() {
            assert(v.instances@[at].id == m.instance);
        }
    }
}

proof fn place_tells(
    list: Seq<crate::protocol::instance::InstanceStatResponse>,
    id: u128,
    from: int,
)
    requires
        0 <= from <= list.len(),
    ensures
        from <= app::instance_at(list, id, from) <= list.len(),
        app::instance_at(list, id, from) < list.len() ==> list[app::instance_at(
            list,
            id,
            from,
        )].id == id,
        app::instance_at(list, id, from) == list.len() ==> forall|i: int|
            from <= i < list.len() ==> (#[trigger] list[i]).id != id,
    decreases list.len() - from,
{
    if from < list.len() && list[from].id != id {
        place_tells(list, id, from + 1);
    }
}

/// The version of a server is compared once, at its first answer while nothing is open
/// on top: a notice says so where it differs, and which side is older, and nothing does
/// where it agrees.
pub proof fn versions_are_compared_once(d: Desk, server: u128)
    ensures
        ({
            let after = app::version_checked(d, server);
            let due = d.version_checks.contains(server) && d.modal is None
                && d.states.contains_key(server) && d.states[server].vitals is Some;
            &&& !due ==> after == d
            &&& due ==> {
                let theirs = d.states[server].vitals->0.version;
                &&& !after.version_checks.contains(server)
                &&& forall|other: u128|
                    other != server ==> (#[trigger] after.version_checks.contains(other)
                        <==> d.version_checks.contains(other))
                &&& theirs == d.version ==> after.modal is None
                &&& theirs != d.version ==> (after.modal matches Some(Popup::Notice { message, .. })
                    && message == app::mismatch_text(app::server_name(d, server), theirs, d.version))
                &&& after == (Desk { modal: after.modal, version_checks: after.version_checks, ..d })
            }
        }),
{
}

/// Which side is said to be older: the one with the smaller version.
pub proof fn the_older_side_is_named(name: Seq<char>, theirs: u32, ours: u32)
    ensures
        theirs > ours ==> app::mismatch_text(name, theirs, ours) == "'"@ + name
            + "' speaks protocol version "@ + text::decimal(theirs as nat)
            + ", this client version "@ + text::decimal(ours as nat) + ".\n"@
            + "The client is older — update this client to manage that server."@,
        theirs < ours ==> app::mismatch_text(name, theirs, ours) == "'"@ + name
            + "' speaks protocol version "@ + text::decimal(theirs as nat)
            + ", this client version "@ + text::decimal(ours as nat) + ".\n"@
            + "The server is older — update the server before managing it from here."@,
{
}

/// A server that was added is mentioned once as one that could be handed over to itself,
/// at its first answer, where it offers that.
pub proof fn hand_overs_are_mentioned_once(d: Desk, server: u128, now: u64)
    ensures
        ({
            let after = app::bootstrap_offered(d, server, now);
            let due = d.bootstrap_offers.contains(server) && d.states.contains_key(server)
                && d.states[server].vitals is Some;
            &&& !due ==> after == d
            &&& due ==> {
                &&& !after.bootstrap_offers.contains(server)
                &&& d.states[server].vitals->0.bootstrap ==> (after.toast matches Some(t) && t.kind
                    == ToastKind::Info)
                &&& !d.states[server].vitals->0.bootstrap ==> after.toast == d.toast
                &&& after == (Desk {
                    toast: after.toast,
                    bootstrap_offers: after.bootstrap_offers,
                    ..d
                })
            }
        }),
{
}

// ---- one instance --------------------------------------------------------------------

/// The details and the console of the instance shown are shown when they come; where
/// they cannot be had, why, beside what was there before.
pub proof fn details_are_shown(
    d: Desk,
    m: Managed,
    detail: Result<InstanceStatus, String>,
    now: u64,
)
    requires
        d.screens.len() > 0,
        d.screens.last() == Scene::Manage(m),
    ensures
        ({
            let after = app::evented(
                d,
                AppEvent::Detail { server: m.server, instance: m.instance, result: detail },
                now,
            );
            &&& after == (Desk { screens: after.screens, ..d })
            &&& after.screens.len() == d.screens.len()
            &&& after.screens.drop_last() =~= d.screens.drop_last()
            &&& after.screens.last() == Scene::Manage(
                Managed {
                    detail: match detail {
                        Ok(status) => Some(status),
                        Err(_) => m.detail,
                    },
                    detail_error: match detail {
                        Ok(_) => None,
                        Err(e) => Some(e@),
                    },
                    ..m
                },
            )
        }),
{
}

/// The console of the instance shown holds the lines that came; one that was followed is
/// still followed, and one that was scrolled back still is.
pub proof fn consoles_hold_what_came(
    d: Desk,
    m: Managed,
    result: Result<(Vec<ConsoleLine>, u64), String>,
    now: u64,
)
    requires
        d.screens.len() > 0,
        d.screens.last() == Scene::Manage(m),
        0 <= m.console_scroll,
    ensures
        ({
            let after = app::evented(
                d,
                AppEvent::Console { server: m.server, instance: m.instance, result },
                now,
            );
            &&& after == (Desk { screens: after.screens, ..d })
            &&& after.screens.len() == d.screens.len()
            &&& after.screens.last() matches Scene::Manage(shown) && match result {
                Ok((lines, dropped)) => {
                    &&& shown.console == lines@
                    &&& shown.console_dropped == dropped
                    &&& shown.console_error is None
                    &&& m.console_scroll == 0 ==> shown.console_scroll == 0
                    &&& m.console_scroll > 0 && lines@.len() > 0 ==> shown.console_scroll > 0
                    &&& 0 <= shown.console_scroll <= lines@.len()
                    &&& shown.detail == m.detail && shown.detail_error == m.detail_error
                    &&& shown.server == m.server && shown.instance == m.instance
                },
                Err(e) => shown == (Managed { console_error: Some(e@), ..m }),
            }
        }),
{
}

/// How a call went is said: that it was done, or what went wrong.
pub proof fn outcomes_are_told(d: Desk, desc: String, result: Result<(), String>, now: u64)
    ensures
        ({
            let after = app::evented(d, AppEvent::ActionDone { desc, result }, now);
            &&& after == (Desk { toast: after.toast, ..d })
            &&& after.toast matches Some(t) && match result {
                Ok(_) => t.kind == ToastKind::Info && t.text == desc@ + ": ok"@,
                Err(e) => t.kind == ToastKind::Error && t.text == desc@ + " failed — "@ + e@,
            }
        }),
{
}

/// What is said stays for six seconds.
pub proof fn toasts_stay_for_a_while(d: Desk, words: Seq<char>, now: u64)
    ensures
        app::informed(d, words, now).toast matches Some(t) && t.text == words && t.kind
            == ToastKind::Info && (now + 6_000_000_000 <= u64::MAX ==> t.until == now
            + 6_000_000_000) && t.until >= now,
        app::warned(d, words, now).toast matches Some(t) && t.text == words && t.kind
            == ToastKind::Error && (now + 6_000_000_000 <= u64::MAX ==> t.until == now
            + 6_000_000_000) && t.until >= now,
{
}

// ---- files ---------------------------------------------------------------------------

/// A listing fills the panel that it was asked for: its entries are shown, and what was
/// wrong is forgotten. Marks stay on what is still there, and the cursor stays where it
/// was or goes to the last entry. A failure empties the panel and says why.
pub proof fn listings_fill_their_panel(
    p: Shown,
    cwd: Seq<char>,
    result: Result<Seq<DirEntry>, Seq<char>>,
)
    requires
        p.wf(),
    ensures
        ({
            let after = browse::applied(p, cwd, result);
            &&& after.cwd == cwd
            &&& !after.loading
            &&& after.incoming == p.incoming
            &&& match result {
                Ok(entries) => {
                    &&& after.entries == entries
                    &&& after.error is None
                    &&& after.cursor == if p.cursor < entries.len() {
                        p.cursor
                    } else if entries.len() > 0 {
                        entries.len() - 1
                    } else {
                        0
                    }
                    &&& forall|name: Seq<char>| #[trigger]
                        after.selected.contains(name) <==> p.selected.contains(name)
                            && exists|i: int|
                            0 <= i < entries.len() && (#[trigger] entries[i]).name@ == name
                },
                Err(e) => {
                    &&& after.entries.len() == 0
                    &&& after.selected.len() == 0
                    &&& after.cursor == 0
                    &&& after.error == Some(e)
                },
            }
        }),
{
    if let Ok(entries) = result {
        let names = browse::names_of(entries);
        kept_marks(p.selected, names);
        let after = browse::applied(p, cwd, result);
        assert forall|name: Seq<char>| #[trigger]
            after.selected.contains(name) <==> p.selected.contains(name) && exists|i: int|
                0 <= i < entries.len() && (#[trigger] entries[i]).name@ == name by {
            if names.contains(name) {
                let i = choose|i: int| 0 <= i < names.len() && names[i] == name;
                assert(entries[i].name@ == name);
            }
            if exists|i: int| 0 <= i < entries.len() && (#[trigger] entries[i]).name@ == name {
                let i = choose|i: int|
                    0 <= i < entries.len() && (#[trigger] entries[i]).name@ == name;
                assert(names[i] == name);
            }
        }
    }
}

proof fn kept_marks(list: Seq<Seq<char>>, other: Seq<Seq<char>>)
    ensures
        forall|name: Seq<char>| #[trigger]
            browse::also_in(list, other).contains(name) <==> list.contains(name)
                && other.contains(name),
    decreases list.len(),
{
    if list.len() > 0 {
        let front = list.drop_last();
        kept_marks(front, other);
        let before = browse::also_in(front, other);
        let all = browse::also_in(list, other);
        assert forall|name: Seq<char>| #[trigger] all.contains(name) <==> list.contains(name)
            && other.contains(name) by {
            if all.contains(name) {
                let i = choose|i: int| 0 <= i < all.len() && all[i] == name;
                if i < before.len() {
                    assert(before[i] == name);
                    assert(before.contains(name));
                    let k = choose|k: int| 0 <= k < front.len() && front[k] == name;
                    assert(list[k] == name);
                } else {
                    assert(list[list.len() - 1] == name);
                }
            }
            if list.contains(name) && other.contains(name) {
                let k = choose|k: int| 0 <= k < list.len() && list[k] == name;
                if k < front.len() {
                    assert(front[k] == name);
                    assert(before.contains(name));
                    let i = choose|i: int| 0 <= i < before.len() && before[i] == name;
                    assert(all[i] == name);
                } else {
                    assert(all[all.len() - 1] == name);
                }
            }
        }
    }
}

/// A local listing goes to the local panel and a remote one to the remote panel, each
/// only where it is of the directory shown there; the other panel stays. The remote one
/// takes the server's spelling of the directory.
pub proof fn listings_find_their_side(
    d: Desk,
    b: Browsing,
    p: String,
    local: Result<Vec<DirEntry>, String>,
    server: u128,
    remote: Result<(String, Vec<DirEntry>), String>,
    now: u64,
)
    requires
        d.screens.len() > 0,
        d.screens.last() == Scene::Browse(b),
    ensures
        ({
            let after = app::evented(d, AppEvent::LocalDir { path: p, result: local }, now);
            let meant = path::parts(b.local.cwd, d.platform) == path::parts(p@, d.platform);
            &&& !meant ==> after == d
            &&& meant ==> {
                &&& after == (Desk { screens: after.screens, ..d })
                &&& after.screens.len() == d.screens.len()
                &&& after.screens.last() matches Scene::Browse(now) && now == (Browsing {
                    local: now.local,
                    ..b
                }) && now.local.cwd == p@ && (local matches Ok(entries) ==> now.local.entries
                    == entries@ && now.local.error is None) && (local matches Err(e)
                    ==> now.local.error == Some(e@))
            }
        }),
        ({
            let after = app::evented(
                d,
                AppEvent::RemoteDir { server, requested: p, result: remote },
                now,
            );
            let meant = b.server == server && path::parts(b.remote.cwd, d.platform) == path::parts(
                p@,
                d.platform,
            );
            let at_the_root = path::parts(b.remote.cwd, d.platform) == path::parts(
                b.remote_root,
                d.platform,
            );
            &&& !meant ==> after == d
            &&& meant ==> {
                &&& after == (Desk { screens: after.screens, ..d })
                &&& after.screens.len() == d.screens.len()
                &&& after.screens.last() matches Scene::Browse(now) && now == (Browsing {
                    remote: now.remote,
                    remote_root: now.remote_root,
                    ..b
                }) && (remote matches Ok((dir, entries)) ==> now.remote.cwd == dir@
                    && now.remote.entries == entries@ && now.remote.error is None
                    && now.remote_root == if at_the_root {
                    dir@
                } else {
                    b.remote_root
                }) && (remote matches Err(e) ==> now.remote.error == Some(e@) && now.remote.cwd
                    == p@ && now.remote_root == b.remote_root)
            }
        }),
{
}

/// When a transfer has ended it is no longer shown, nor what it was to bring; how it
/// went is said, and both listings are asked for anew.
pub proof fn ended_transfers_are_cleared(
    d: Desk,
    b: Browsing,
    result: Result<String, String>,
    now: u64,
)
    requires
        d.screens.len() > 0,
        d.screens.last() == Scene::Browse(b),
    ensures
        ({
            let after = app::evented(d, AppEvent::TransferDone { server: b.server, result }, now);
            &&& after.screens.len() == d.screens.len()
            &&& after.screens.last() matches Scene::Browse(shown) && shown.transfer is None
                && shown.local == (Shown { loading: true, incoming: seq![], ..b.local })
                && shown.remote == (Shown { loading: true, incoming: seq![], ..b.remote })
                && shown.focus == b.focus && shown.server == b.server && shown.instance
                == b.instance && shown.remote_root == b.remote_root
            &&& after.toast matches Some(t) && match result {
                Ok(words) => t.kind == ToastKind::Info && t.text == words@,
                Err(e) => t.kind == ToastKind::Error && t.text == "transfer failed — "@ + e@,
            }
            &&& app::dest(d, b.server) matches Some(endpoint) ==> after.effects == d.effects.push(
                Wish::FetchLocal { path: b.local.cwd },
            ).push(Wish::FetchRemote { endpoint, server: b.server, path: b.remote.cwd })
            &&& after.servers == d.servers && after.states == d.states && after.modal == d.modal
        }),
{
}

/// A transfer on another server leaves the one that is shown alone.
pub proof fn other_transfers_are_let_be(
    d: Desk,
    b: Browsing,
    server: u128,
    result: Result<String, String>,
    now: u64,
)
    requires
        d.screens.len() > 0,
        d.screens.last() == Scene::Browse(b),
        server != b.server,
    ensures
        app::evented(d, AppEvent::TransferDone { server, result }, now).screens.last() matches
            Scene::Browse(shown) && shown.transfer == b.transfer && shown.local.incoming
            == b.local.incoming && shown.remote.incoming == b.remote.incoming,
{
}

// ---- what is asked and what goes out ---------------------------------------------------

/// A question stands for what it is about, on the server and the instance that it names.
pub proof fn questions_are_themselves(question: app::Pending)
    ensures
        question matches app::Pending::KillInstance { server, instance } ==> question@ == (
        app::Asked::KillInstance { server, instance }),
        question matches app::Pending::RemoveInstance { server, instance } ==> question@ == (
        app::Asked::RemoveInstance { server, instance }),
        question matches app::Pending::RestartServer { server, instance } ==> question@ == (
        app::Asked::RestartServer { server, instance }),
        question matches app::Pending::RemoveServer(server) ==> question@
            == app::Asked::RemoveServer(server),
        question matches app::Pending::Bootstrap(server) ==> question@ == app::Asked::Bootstrap(
            server,
        ),
{
}

/// A call that goes out is the one that was made, to the address and under the key that it
/// was made with.
pub proof fn calls_are_themselves(effect: app::Effect, action: Action)
    ensures
        effect matches app::Effect::Act { desc, endpoint, action: sent } ==> effect@ == (Wish::Act {
            desc: desc@,
            endpoint: endpoint@,
            deed: app::deed_of(sent),
        }) && endpoint@.addr == endpoint.addr && endpoint@.key == endpoint.key@,
        action is StopInstance || action is KillInstance || action is RunInstance
            || action is RestartInstance || action is UpdateRepo || action is RemoveInstance
            || action is Bootstrap ==> app::deed_of(action) == app::Deed::Plain(action),
        effect is Publish <==> effect@ is Publish,
        effect is Refresh <==> effect@ is Refresh,
{
}

/// A call that creates or changes an instance carries its parts under their own names.
pub proof fn calls_carry_their_parts(action: Action)
    ensures
        action is CreateInstance ==> (app::deed_of(action) matches app::Deed::Create(f) && f.name
            == action->CreateInstance_name@ && f.source == action->CreateInstance_source@
            && f.command == action->CreateInstance_command@ && f.args == text::views(
            action->CreateInstance_args@,
        ) && f.env == action->CreateInstance_env@ && f.autostart
            == action->CreateInstance_autostart && f.retry_policy
            == action->CreateInstance_retry_policy),
        action is UpdateInstance && action->UpdateInstance_name is Some
            && action->UpdateInstance_source is Some && action->UpdateInstance_command is Some
            && action->UpdateInstance_args is Some && action->UpdateInstance_env is Some
            && action->UpdateInstance_autostart is Some && action->UpdateInstance_retry_policy
            is Some ==> (app::deed_of(action) matches app::Deed::Update(i, f) && i
            == action->UpdateInstance_id && f.name == action->UpdateInstance_name->0@ && f.source
            == action->UpdateInstance_source->0@ && f.command
            == action->UpdateInstance_command->0@ && f.args == text::views(
            action->UpdateInstance_args->0@,
        ) && f.env == action->UpdateInstance_env->0@ && f.autostart
            == action->UpdateInstance_autostart->0 && f.retry_policy
            == action->UpdateInstance_retry_policy->0),
{
}

} // verus!
