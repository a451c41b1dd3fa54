//! The client's state, and what happens to it.
//!
//! The state changes at once and nothing waits here: whatever has to be asked of
//! a server or of the file system is put on a list of effects, and the answer
//! comes back as an event. An unreachable server therefore slows nothing down.
use std::collections::{HashMap, HashSet};

use vstd::prelude::*;

use crate::client::book::{Book, Known, ServerEntry};
use crate::client::book;
use crate::client::browse::{Browse, Shown, Side, Transfer};
use crate::client::browse;
use crate::client::edit::EditRequest;
use crate::client::form::{Form, Sheet};
use crate::client::form;
use crate::client::instance_form;
use crate::client::net::{Dest, Endpoint, NetError, Vitals};
use crate::path;
use crate::path::Platform;
use crate::protocol::api::{Action, DirEntry};
use crate::protocol::instance::{ConsoleLine, InstanceStatResponse, InstanceStatus, RetryPolicy};
use crate::protocol::instance;
use crate::text;

verus! {

broadcast use vstd::std_specs::hash::group_hash_axioms;

/// Nanoseconds between two polls of a server.
pub const POLL_INTERVAL: u64 = 2_000_000_000;

/// Nanoseconds between two looks at the clock.
pub const TICK: u64 = 250_000_000;

/// Nanoseconds for which a toast stays.
pub const TOAST_TTL: u64 = 6_000_000_000;

/// How many console lines the manage screen asks for.
pub const CONSOLE_TAIL: u32 = 400;

/// Counters this close to the previous ones say nothing about a rate.
pub const RATE_FLOOR: u64 = 50_000_000;

// ---- servers -----------------------------------------------------------------------

/// The network counters at some time.
#[derive(Clone, Copy, Debug, PartialEq, Eq, Structural)]
pub struct NetCount {
    pub recv: u64,
    pub trans: u64,
    pub at: u64,
}

/// What is known of a server. Times are nanoseconds of a clock that only goes
/// forward. A rate is a number of bytes over a stretch of time; where that
/// stretch is zero, so is the rate.
#[derive(Debug)]
pub struct ServerState {
    pub vitals: Option<Vitals>,
    pub error: Option<NetError>,
    pub last_ok: Option<u64>,
    pub recv_bytes: u64,
    pub trans_bytes: u64,
    pub rate_over: u64,
    pub collapsed: bool,
    /// The counters before, to turn totals into rates.
    pub prev_net: Option<NetCount>,
}

/// A server of which nothing is known yet.
pub open spec fn fresh_state() -> ServerState {
    ServerState {
        vitals: None,
        error: None,
        last_ok: None,
        recv_bytes: 0,
        trans_bytes: 0,
        rate_over: 0,
        collapsed: false,
        prev_net: None,
    }
}

impl Default for ServerState {
    fn default() -> (r: ServerState)
        ensures
            r == fresh_state(),
    {
        ServerState {
            vitals: None,
            error: None,
            last_ok: None,
            recv_bytes: 0,
            trans_bytes: 0,
            rate_over: 0,
            collapsed: false,
            prev_net: None,
        }
    }
}

pub open spec fn less(a: u64, b: u64) -> u64 {
    if a >= b {
        (a - b) as u64
    } else {
        0
    }
}

fn saturating_less(a: u64, b: u64) -> (r: u64)
    ensures
        r == less(a, b),
{
    if a >= b {
        a - b
    } else {
        0
    }
}

/// A server's state after a poll. Counters that went backwards, as after a
/// restart, give a rate of zero. After a failed poll the last good figures stay,
/// so that stale data can be shown rather than none.
pub open spec fn state_after(s: ServerState, result: Result<Vitals, NetError>, now: u64) -> ServerState {
    match result {
        Ok(v) => {
            let measured = s.prev_net is Some && less(now, (s.prev_net->0).at) > RATE_FLOOR;
            ServerState {
                recv_bytes: if measured {
                    less(v.network_recv, (s.prev_net->0).recv)
                } else {
                    s.recv_bytes
                },
                trans_bytes: if measured {
                    less(v.network_trans, (s.prev_net->0).trans)
                } else {
                    s.trans_bytes
                },
                rate_over: if measured {
                    less(now, (s.prev_net->0).at)
                } else {
                    s.rate_over
                },
                prev_net: Some(NetCount { recv: v.network_recv, trans: v.network_trans, at: now }),
                vitals: Some(v),
                error: None,
                last_ok: Some(now),
                collapsed: s.collapsed,
            }
        },
        Err(e) => ServerState {
            error: Some(e),
            recv_bytes: 0,
            trans_bytes: 0,
            rate_over: 0,
            prev_net: None,
            ..s
        },
    }
}

/// Whether the last poll succeeded.
pub open spec fn up(s: ServerState) -> bool {
    s.error is None && s.vitals is Some
}

impl ServerState {
    /// Takes in the result of a poll.
    pub fn apply(&mut self, result: Result<Vitals, NetError>, now: u64)
        ensures
            *final(self) == state_after(*old(self), result, now),
    {
        match result {
            Ok(vitals) => {
                match self.prev_net {
                    Some(NetCount { recv, trans, at }) => {
                        let over: u64 = saturating_less(now, at);
                        if over > RATE_FLOOR {
                            self.recv_bytes = saturating_less(vitals.network_recv, recv);
                            self.trans_bytes = saturating_less(vitals.network_trans, trans);
                            self.rate_over = over;
                        }
                    },
                    None => {},
                }
                self.prev_net = Some(
                    NetCount { recv: vitals.network_recv, trans: vitals.network_trans, at: now },
                );
                self.vitals = Some(vitals);
                self.error = None;
                self.last_ok = Some(now);
            },
            Err(e) => {
                self.error = Some(e);
                self.recv_bytes = 0;
                self.trans_bytes = 0;
                self.rate_over = 0;
                self.prev_net = None;
            },
        }
    }

    pub fn is_up(&self) -> (r: bool)
        ensures
            r == up(*self),
    {
        self.error.is_none() && self.vitals.is_some()
    }
}

// ---- what is on the screen ---------------------------------------------------------

/// A row of the landing page: the tree of servers and instances, flattened.
#[derive(Clone, Copy, Debug, PartialEq, Eq, Structural)]
pub enum Row {
    Server { server: usize },
    Instance { server: usize, instance: usize },
}

/// Screens form a stack; only the top one is drawn and takes keys.
#[derive(Debug)]
pub enum Screen {
    Landing,
    Manage(Manage),
    Browse(Browse),
}

#[derive(Debug)]
pub struct Manage {
    pub server: u128,
    pub instance: u128,
    pub detail: Option<InstanceStatus>,
    pub detail_error: Option<String>,
    pub console: Vec<ConsoleLine>,
    /// Lines that the server has already discarded.
    pub console_dropped: u64,
    pub console_error: Option<String>,
    /// Lines scrolled back from the bottom; zero follows the newest output.
    pub console_scroll: usize,
}

#[verifier::ext_equal]
pub struct Managed {
    pub server: u128,
    pub instance: u128,
    pub detail: Option<InstanceStatus>,
    pub detail_error: Option<Seq<char>>,
    pub console: Seq<ConsoleLine>,
    pub console_dropped: u64,
    pub console_error: Option<Seq<char>>,
    pub console_scroll: int,
}

impl View for Manage {
    type V = Managed;

    open spec fn view(&self) -> Managed {
        Managed {
            server: self.server,
            instance: self.instance,
            detail: self.detail,
            detail_error: form::opt_text(self.detail_error),
            console: self.console@,
            console_dropped: self.console_dropped,
            console_error: form::opt_text(self.console_error),
            console_scroll: self.console_scroll as int,
        }
    }
}

/// The manage screen of an instance of which nothing has been fetched yet.
pub open spec fn fresh_manage(server: u128, instance: u128) -> Managed {
    Managed {
        server,
        instance,
        detail: None,
        detail_error: None,
        console: seq![],
        console_dropped: 0,
        console_error: None,
        console_scroll: 0,
    }
}

impl Manage {
    pub fn new(server: u128, instance: u128) -> (r: Manage)
        ensures
            r@ == fresh_manage(server, instance),
    {
        Manage {
            server,
            instance,
            detail: None,
            detail_error: None,
            console: Vec::new(),
            console_dropped: 0,
            console_error: None,
            console_scroll: 0,
        }
    }

    /// Whether the newest output is in view.
    pub fn following(&self) -> (r: bool)
        ensures
            r == (self@.console_scroll == 0),
    {
        self.console_scroll == 0
    }
}

#[verifier::ext_equal]
pub struct Move {
    pub label: Seq<char>,
    pub done: u64,
    pub total: Option<u64>,
}

#[verifier::ext_equal]
pub struct Browsing {
    pub server: u128,
    pub instance: u128,
    pub remote_root: Seq<char>,
    pub local: Shown,
    pub remote: Shown,
    pub focus: Side,
    pub transfer: Option<Move>,
}

impl Browsing {
    pub open spec fn at(self, side: Side) -> Shown {
        match side {
            Side::Local => self.local,
            Side::Remote => self.remote,
        }
    }

    /// The same with another panel on one side.
    pub open spec fn with(self, side: Side, panel: Shown) -> Browsing {
        match side {
            Side::Local => Browsing { local: panel, ..self },
            Side::Remote => Browsing { remote: panel, ..self },
        }
    }

    pub open spec fn wf(self) -> bool {
        self.local.wf() && self.remote.wf()
    }
}

impl View for Browse {
    type V = Browsing;

    open spec fn view(&self) -> Browsing {
        Browsing {
            server: self.server,
            instance: self.instance,
            remote_root: self.remote_root@,
            local: self.local@,
            remote: self.remote@,
            focus: self.focus,
            transfer: match self.transfer {
                Some(t) => Some(Move { label: t.label@, done: t.done, total: t.total }),
                None => None,
            },
        }
    }
}

#[verifier::ext_equal]
pub enum Scene {
    Landing,
    Manage(Managed),
    Browse(Browsing),
}

impl View for Screen {
    type V = Scene;

    open spec fn view(&self) -> Scene {
        match *self {
            Screen::Landing => Scene::Landing,
            Screen::Manage(m) => Scene::Manage(m@),
            Screen::Browse(b) => Scene::Browse(b@),
        }
    }
}

pub open spec fn scenes(screens: Seq<Screen>) -> Seq<Scene> {
    screens.map_values(|s: Screen| s@)
}

/// A copy that waits for confirmation: the names to take from one directory, and
/// those of them that the other already has.
#[derive(Debug)]
pub struct TransferPlan {
    pub server: u128,
    /// The side that is copied from.
    pub from: Side,
    pub src_dir: String,
    pub dest_dir: String,
    pub names: Vec<String>,
    pub conflicts: Vec<String>,
}

#[verifier::ext_equal]
pub struct Plan {
    pub server: u128,
    pub from: Side,
    pub src_dir: Seq<char>,
    pub dest_dir: Seq<char>,
    pub names: Seq<Seq<char>>,
    pub conflicts: Seq<Seq<char>>,
}

impl View for TransferPlan {
    type V = Plan;

    open spec fn view(&self) -> Plan {
        Plan {
            server: self.server,
            from: self.from,
            src_dir: self.src_dir@,
            dest_dir: self.dest_dir@,
            names: text::views(self.names@),
            conflicts: text::views(self.conflicts@),
        }
    }
}

/// What a confirmation is about.
#[derive(Debug)]
pub enum Pending {
    RemoveServer(u128),
    KillInstance { server: u128, instance: u128 },
    RemoveInstance { server: u128, instance: u128 },
    Transfer(TransferPlan),
    Bootstrap(u128),
    /// Restart the self-managed instance, that is, the server itself.
    RestartServer { server: u128, instance: u128 },
}

#[verifier::ext_equal]
#[allow(inconsistent_fields)]
pub enum Asked {
    RemoveServer(u128),
    KillInstance { server: u128, instance: u128 },
    RemoveInstance { server: u128, instance: u128 },
    Transfer(Plan),
    Bootstrap(u128),
    RestartServer { server: u128, instance: u128 },
}

impl View for Pending {
    type V = Asked;

    open spec fn view(&self) -> Asked {
        match *self {
            Pending::RemoveServer(id) => Asked::RemoveServer(id),
            Pending::KillInstance { server, instance } => Asked::KillInstance { server, instance },
            Pending::RemoveInstance { server, instance } => Asked::RemoveInstance {
                server,
                instance,
            },
            Pending::Transfer(plan) => Asked::Transfer(plan@),
            Pending::Bootstrap(id) => Asked::Bootstrap(id),
            Pending::RestartServer { server, instance } => Asked::RestartServer {
                server,
                instance,
            },
        }
    }
}

#[derive(Clone, Copy, Debug, PartialEq, Eq, Structural)]
pub enum SessionKind {
    Shell,
    Attach,
}

impl SessionKind {
    pub fn verb(self) -> (r: &'static str)
        ensures
            r@ == (match self {
                SessionKind::Shell => "shell"@,
                SessionKind::Attach => "attach"@,
            }),
    {
        match self {
            SessionKind::Shell => "shell",
            SessionKind::Attach => "attach",
        }
    }
}

/// Everything that a session needs once the screen has been given up for it.
#[derive(Debug)]
pub struct SessionRequest {
    pub kind: SessionKind,
    pub endpoint: Endpoint,
    pub instance: u128,
    pub label: String,
}

#[verifier::ext_equal]
pub struct Handover {
    pub kind: SessionKind,
    pub endpoint: Dest,
    pub instance: u128,
    pub label: Seq<char>,
}

impl View for SessionRequest {
    type V = Handover;

    open spec fn view(&self) -> Handover {
        Handover {
            kind: self.kind,
            endpoint: self.endpoint@,
            instance: self.instance,
            label: self.label@,
        }
    }
}

/// Why the client gives up the screen: for good, for a session, or for the user's
/// editor.
#[derive(Debug)]
pub enum RunOutcome {
    Quit,
    Session(SessionRequest),
    Edit(EditRequest),
}

#[derive(Debug)]
pub struct ConfirmToggle {
    pub label: String,
    pub value: bool,
}

#[derive(Debug)]
pub enum Modal {
    /// The server being edited; none for a new one.
    ServerForm { form: Form, editing: Option<u128> },
    /// The instance being edited; none for a new one. `upload_desc` is what is
    /// recorded of an upload: a location left at it keeps the content.
    InstanceForm {
        form: Form,
        server: u128,
        editing: Option<u128>,
        upload_desc: Option<String>,
    },
    Confirm {
        title: String,
        message: String,
        toggle: Option<ConfirmToggle>,
        pending: Pending,
    },
    /// Any key dismisses it.
    Notice { title: String, message: String },
    Help,
}

#[verifier::ext_equal]
#[allow(inconsistent_fields)]
pub enum Popup {
    ServerForm { form: Sheet, editing: Option<u128> },
    InstanceForm {
        form: Sheet,
        server: u128,
        editing: Option<u128>,
        upload_desc: Option<Seq<char>>,
    },
    Confirm {
        title: Seq<char>,
        message: Seq<char>,
        toggle: Option<(Seq<char>, bool)>,
        pending: Asked,
    },
    Notice { title: Seq<char>, message: Seq<char> },
    Help,
}

impl View for Modal {
    type V = Popup;

    open spec fn view(&self) -> Popup {
        match *self {
            Modal::ServerForm { form, editing } => Popup::ServerForm { form: form@, editing },
            Modal::InstanceForm { form, server, editing, upload_desc } => Popup::InstanceForm {
                form: form@,
                server,
                editing,
                upload_desc: form::opt_text(upload_desc),
            },
            Modal::Confirm { title, message, toggle, pending } => Popup::Confirm {
                title: title@,
                message: message@,
                toggle: match toggle {
                    Some(t) => Some((t.label@, t.value)),
                    None => None,
                },
                pending: pending@,
            },
            Modal::Notice { title, message } => Popup::Notice {
                title: title@,
                message: message@,
            },
            Modal::Help => Popup::Help,
        }
    }
}

#[derive(Clone, Copy, Debug, PartialEq, Eq, Structural)]
pub enum ToastKind {
    Info,
    Error,
}

#[derive(Debug)]
pub struct Toast {
    pub text: String,
    pub kind: ToastKind,
    pub until: u64,
}

#[verifier::ext_equal]
pub struct Note {
    pub text: Seq<char>,
    pub kind: ToastKind,
    pub until: u64,
}

// ---- effects -----------------------------------------------------------------------

/// Something that has to be done outside.
#[derive(Debug)]
pub enum Effect {
    /// The server list has changed: save it and tell the poller.
    Publish,
    /// Poll now.
    Refresh,
    /// Fire an action at a server and report it under `desc`.
    Act { desc: String, endpoint: Endpoint, action: Action },
    /// Save an instance, push its new content, and report the pair under `desc`.
    SaveAndUpload { desc: String, endpoint: Endpoint, id: u128, action: Action, path: String },
    /// Create an instance, push its content where there is any, and report the
    /// pair under `desc`.
    Create { desc: String, endpoint: Endpoint, action: Action, upload: Option<String> },
    /// Ask for an instance's details, and then for its console.
    FetchDetail { endpoint: Endpoint, server: u128, instance: u128 },
    FetchLocal { path: String },
    FetchRemote { endpoint: Endpoint, server: u128, path: String },
    /// Copy files; `what` describes them.
    Copy {
        endpoint: Endpoint,
        server: u128,
        from: Side,
        sources: Vec<String>,
        dest_dir: String,
        what: String,
    },
}

/// What a filled-in form makes of an instance.
#[verifier::ext_equal]
pub struct Filled {
    pub name: Seq<char>,
    pub source: instance::Origin,
    pub command: Seq<char>,
    pub args: Seq<Seq<char>>,
    pub env: Map<Seq<char>, Seq<char>>,
    pub autostart: bool,
    pub retry_policy: RetryPolicy,
}

/// An action, as what it asks for.
#[verifier::ext_equal]
pub enum Deed {
    Plain(Action),
    Create(Filled),
    Update(u128, Filled),
}

pub open spec fn deed_of(action: Action) -> Deed {
    match action {
        Action::CreateInstance { name, source, command, args, env, autostart, retry_policy } => {
            Deed::Create(
                Filled {
                    name: name@,
                    source: source@,
                    command: command@,
                    args: text::views(args@),
                    env: env@,
                    autostart,
                    retry_policy,
                },
            )
        },
        Action::UpdateInstance {
            id,
            name: Some(name),
            source: Some(source),
            command: Some(command),
            args: Some(args),
            env: Some(env),
            autostart: Some(autostart),
            retry_policy: Some(retry_policy),
        } => Deed::Update(
            id,
            Filled {
                name: name@,
                source: source@,
                command: command@,
                args: text::views(args@),
                env: env@,
                autostart,
                retry_policy,
            },
        ),
        _ => Deed::Plain(action),
    }
}

/// What the answers in a form make of an instance.
pub open spec fn filled(a: instance_form::Answers, platform: Platform) -> Filled {
    Filled {
        name: a.name,
        source: instance_form::recorded(a.source, platform),
        command: a.command,
        args: a.args,
        env: a.env,
        autostart: a.autostart,
        retry_policy: a.retry_policy,
    }
}

#[verifier::ext_equal]
#[allow(inconsistent_fields)]
pub enum Wish {
    Publish,
    Refresh,
    Act { desc: Seq<char>, endpoint: Dest, deed: Deed },
    SaveAndUpload { desc: Seq<char>, endpoint: Dest, id: u128, deed: Deed, path: Seq<char> },
    Create { desc: Seq<char>, endpoint: Dest, deed: Deed, upload: Option<Seq<char>> },
    FetchDetail { endpoint: Dest, server: u128, instance: u128 },
    FetchLocal { path: Seq<char> },
    FetchRemote { endpoint: Dest, server: u128, path: Seq<char> },
    Copy {
        endpoint: Dest,
        server: u128,
        from: Side,
        sources: Seq<Seq<char>>,
        dest_dir: Seq<char>,
        what: Seq<char>,
    },
}

impl View for Effect {
    type V = Wish;

    open spec fn view(&self) -> Wish {
        match *self {
            Effect::Publish => Wish::Publish,
            Effect::Refresh => Wish::Refresh,
            Effect::Act { desc, endpoint, action } => Wish::Act {
                desc: desc@,
                endpoint: endpoint@,
                deed: deed_of(action),
            },
            Effect::SaveAndUpload { desc, endpoint, id, action, path } => Wish::SaveAndUpload {
                desc: desc@,
                endpoint: endpoint@,
                id,
                deed: deed_of(action),
                path: path@,
            },
            Effect::Create { desc, endpoint, action, upload } => Wish::Create {
                desc: desc@,
                endpoint: endpoint@,
                deed: deed_of(action),
                upload: form::opt_text(upload),
            },
            Effect::FetchDetail { endpoint, server, instance } => Wish::FetchDetail {
                endpoint: endpoint@,
                server,
                instance,
            },
            Effect::FetchLocal { path } => Wish::FetchLocal { path: path@ },
            Effect::FetchRemote { endpoint, server, path } => Wish::FetchRemote {
                endpoint: endpoint@,
                server,
                path: path@,
            },
            Effect::Copy { endpoint, server, from, sources, dest_dir, what } => Wish::Copy {
                endpoint: endpoint@,
                server,
                from,
                sources: text::views(sources@),
                dest_dir: dest_dir@,
                what: what@,
            },
        }
    }
}

// ---- events ------------------------------------------------------------------------

/// What comes back from outside.
#[derive(Debug)]
pub enum AppEvent {
    /// The result of a poll.
    Snapshot { server: u128, result: Result<Vitals, NetError> },
    /// Everything about the instance on the manage screen.
    Detail { server: u128, instance: u128, result: Result<InstanceStatus, String> },
    /// The end of its console, and how many lines before that are gone.
    Console { server: u128, instance: u128, result: Result<(Vec<ConsoleLine>, u64), String> },
    /// How a single action went; `desc` is what was asked for.
    ActionDone { desc: String, result: Result<(), String> },
    LocalDir { path: String, result: Result<Vec<DirEntry>, String> },
    /// `requested` is what was asked for; the result has the server's spelling.
    RemoteDir { server: u128, requested: String, result: Result<(String, Vec<DirEntry>), String> },
    /// A transfer has ended, in words.
    TransferDone { server: u128, result: Result<String, String> },
}

/// What was looked up before a key is taken in.
#[derive(Debug)]
pub struct Given {
    pub now: u64,
    /// The directory that the local side of the browser opens in.
    pub local_cwd: String,
    /// Whether the path that the instance form is about exists here.
    pub found: bool,
}

// ---- the whole state ---------------------------------------------------------------

pub struct App {
    pub book: Book,
    pub states: HashMap<u128, ServerState>,
    pub screens: Vec<Screen>,
    pub cursor: usize,
    pub modal: Option<Modal>,
    pub toast: Option<Toast>,
    pub should_quit: bool,
    /// A session that the screen is to be given up for.
    pub pending_session: Option<SessionRequest>,
    /// Servers added since the start: the first poll that says so offers to
    /// bootstrap them, once.
    pub bootstrap_offers: HashSet<u128>,
    /// Servers whose protocol version has not been compared yet.
    pub version_checks: HashSet<u128>,
    /// What has to be done outside, in order.
    pub effects: Vec<Effect>,
    pub platform: Platform,
    /// The protocol version of this client.
    pub version: u32,
}

/// The whole state, as what it holds.
#[verifier::ext_equal]
pub struct Desk {
    pub key: Seq<u8>,
    pub servers: Seq<Known>,
    pub states: Map<u128, ServerState>,
    pub screens: Seq<Scene>,
    pub cursor: int,
    pub modal: Option<Popup>,
    pub toast: Option<Note>,
    pub should_quit: bool,
    pub pending_session: Option<Handover>,
    pub bootstrap_offers: Set<u128>,
    pub version_checks: Set<u128>,
    pub effects: Seq<Wish>,
    pub platform: Platform,
    pub version: u32,
}

pub open spec fn known(servers: Seq<ServerEntry>) -> Seq<Known> {
    servers.map_values(|s: ServerEntry| s@)
}

pub open spec fn wishes(effects: Seq<Effect>) -> Seq<Wish> {
    effects.map_values(|e: Effect| e@)
}

impl View for App {
    type V = Desk;

    open spec fn view(&self) -> Desk {
        Desk {
            key: self.book.key@,
            servers: known(self.book.servers@),
            states: self.states@,
            screens: scenes(self.screens@),
            cursor: self.cursor as int,
            modal: match self.modal {
                Some(m) => Some(m@),
                None => None,
            },
            toast: match self.toast {
                Some(t) => Some(Note { text: t.text@, kind: t.kind, until: t.until }),
                None => None,
            },
            should_quit: self.should_quit,
            pending_session: match self.pending_session {
                Some(s) => Some(s@),
                None => None,
            },
            bootstrap_offers: self.bootstrap_offers@,
            version_checks: self.version_checks@,
            effects: wishes(self.effects@),
            platform: self.platform,
            version: self.version,
        }
    }
}

pub open spec fn popup_wf(modal: Option<Popup>) -> bool {
    match modal {
        Some(Popup::ServerForm { form, .. }) => form.wf() && form.fields.len() == 2,
        Some(Popup::InstanceForm { form, .. }) => form.wf() && form.fields.len() == 10,
        _ => true,
    }
}

pub open spec fn scene_wf(s: Scene) -> bool {
    s matches Scene::Browse(b) ==> b.wf()
}

impl Desk {
    /// There is always a screen; every server has a state; the forms and the
    /// panels are sound.
    pub open spec fn wf(self) -> bool {
        &&& self.screens.len() > 0
        &&& forall|i: int|
            0 <= i < self.servers.len() ==> self.states.contains_key((#[trigger] self.servers[i]).id)
        &&& popup_wf(self.modal)
        &&& forall|i: int| 0 <= i < self.screens.len() ==> scene_wf(#[trigger] self.screens[i])
    }
}

// ---- looking things up -------------------------------------------------------------

/// The place of the first server with an identity, from `from` on; the number of
/// servers where there is none.
pub open spec fn server_at(servers: Seq<Known>, id: u128, from: int) -> int
    decreases servers.len() - from,
{
    if 0 <= from < servers.len() && servers[from].id != id {
        server_at(servers, id, from + 1)
    } else {
        from
    }
}

pub open spec fn has_server(d: Desk, id: u128) -> bool {
    server_at(d.servers, id, 0) < d.servers.len()
}

/// A server's name; empty where it is gone.
pub open spec fn server_name(d: Desk, id: u128) -> Seq<char> {
    if has_server(d, id) {
        d.servers[server_at(d.servers, id, 0)].name
    } else {
        seq![]
    }
}

/// How to reach a server.
pub open spec fn dest(d: Desk, id: u128) -> Option<Dest> {
    if has_server(d, id) {
        Some(book::dest_of(d.key, d.servers[server_at(d.servers, id, 0)]))
    } else {
        None
    }
}

/// The instances that a server last reported.
pub open spec fn instances(d: Desk, id: u128) -> Seq<InstanceStatResponse> {
    if d.states.contains_key(id) && d.states[id].vitals is Some {
        d.states[id].vitals->0.instances@
    } else {
        seq![]
    }
}

/// The place of the first instance with an identity, from `from` on.
pub open spec fn instance_at(list: Seq<InstanceStatResponse>, id: u128, from: int) -> int
    decreases list.len() - from,
{
    if 0 <= from < list.len() && list[from].id != id {
        instance_at(list, id, from + 1)
    } else {
        from
    }
}

/// An instance's name; its identity in hexadecimal where it is not known.
pub open spec fn instance_name(d: Desk, server: u128, id: u128) -> Seq<char> {
    let list = instances(d, server);
    let at = instance_at(list, id, 0);
    if at < list.len() {
        list[at].name@
    } else {
        text::hex(id as nat, 32)
    }
}

/// The rows of one server: itself, and its instances unless it is collapsed.
pub open spec fn server_rows(d: Desk, i: int) -> Seq<Row> {
    let s = d.states[d.servers[i].id];
    seq![Row::Server { server: i as usize }] + if !s.collapsed && s.vitals is Some {
        Seq::new(
            s.vitals->0.instances@.len(),
            |k: int| Row::Instance { server: i as usize, instance: k as usize },
        )
    } else {
        seq![]
    }
}

/// The rows of the first `n` servers.
pub open spec fn rows_of(d: Desk, n: int) -> Seq<Row>
    decreases n,
{
    if n <= 0 {
        seq![]
    } else {
        rows_of(d, n - 1) + server_rows(d, n - 1)
    }
}

pub open spec fn all_rows(d: Desk) -> Seq<Row> {
    rows_of(d, d.servers.len() as int)
}

/// The row under the cursor.
pub open spec fn row_at_cursor(d: Desk) -> Option<Row> {
    if d.cursor < all_rows(d).len() {
        Some(all_rows(d)[d.cursor])
    } else {
        None
    }
}

/// The server that the cursor is on, whichever kind of row that is.
pub open spec fn server_at_cursor(d: Desk) -> Option<int> {
    match row_at_cursor(d) {
        Some(Row::Server { server }) => Some(server as int),
        Some(Row::Instance { server, .. }) => Some(server as int),
        None => None,
    }
}

pub open spec fn row_in_range(row: Row, n: int) -> bool {
    match row {
        Row::Server { server } => server < n,
        Row::Instance { server, .. } => server < n,
    }
}

proof fn rows_are_in_range(d: Desk, n: int)
    requires
        0 <= n <= d.servers.len(),
        n <= usize::MAX,
    ensures
        forall|i: int| 0 <= i < rows_of(d, n).len() ==> row_in_range(#[trigger] rows_of(d, n)[i], n),
    decreases n,
{
    if n > 0 {
        rows_are_in_range(d, n - 1);
        let before = rows_of(d, n - 1);
        let more = server_rows(d, n - 1);
        assert forall|i: int| 0 <= i < rows_of(d, n).len() implies row_in_range(
            #[trigger] rows_of(d, n)[i],
            n,
        ) by {
            if i < before.len() {
                assert(rows_of(d, n)[i] == before[i]);
                assert(row_in_range(before[i], n - 1));
            } else {
                assert(rows_of(d, n)[i] == more[i - before.len()]);
            }
        }
    }
}

// ---- small changes -----------------------------------------------------------------

/// When a toast that appears now goes away.
pub open spec fn toast_end(now: u64) -> u64 {
    if now + TOAST_TTL > u64::MAX {
        u64::MAX
    } else {
        (now + TOAST_TTL) as u64
    }
}

pub open spec fn told(d: Desk, text: Seq<char>, kind: ToastKind, now: u64) -> Desk {
    Desk { toast: Some(Note { text, kind, until: toast_end(now) }), ..d }
}

pub open spec fn informed(d: Desk, text: Seq<char>, now: u64) -> Desk {
    told(d, text, ToastKind::Info, now)
}

pub open spec fn warned(d: Desk, text: Seq<char>, now: u64) -> Desk {
    told(d, text, ToastKind::Error, now)
}

pub open spec fn wishing(d: Desk, wish: Wish) -> Desk {
    Desk { effects: d.effects.push(wish), ..d }
}

/// An action is fired at a server, where that still exists.
pub open spec fn acting(d: Desk, desc: Seq<char>, server: u128, deed: Deed) -> Desk {
    match dest(d, server) {
        Some(endpoint) => wishing(d, Wish::Act { desc, endpoint, deed }),
        None => d,
    }
}

pub open spec fn fetching_detail(d: Desk, server: u128, instance: u128) -> Desk {
    match dest(d, server) {
        Some(endpoint) => wishing(d, Wish::FetchDetail { endpoint, server, instance }),
        None => d,
    }
}

pub open spec fn fetching_local(d: Desk, path: Seq<char>) -> Desk {
    wishing(d, Wish::FetchLocal { path })
}

pub open spec fn fetching_remote(d: Desk, server: u128, path: Seq<char>) -> Desk {
    match dest(d, server) {
        Some(endpoint) => wishing(d, Wish::FetchRemote { endpoint, server, path }),
        None => d,
    }
}

/// The top screen goes; from the last one the client quits.
pub open spec fn popped(d: Desk) -> Desk {
    if d.screens.len() > 1 {
        Desk { screens: d.screens.drop_last(), ..d }
    } else {
        Desk { should_quit: true, ..d }
    }
}

/// The cursor on the last row where it was beyond it.
pub open spec fn cursor_clamped(d: Desk) -> Desk {
    Desk { cursor: browse::clamped(d.cursor, all_rows(d).len() as int), ..d }
}

/// The top screen replaced.
pub open spec fn on_top(d: Desk, scene: Scene) -> Desk {
    Desk { screens: d.screens.update(d.screens.len() - 1, scene), ..d }
}

/// A screen more.
pub open spec fn pushed(d: Desk, scene: Scene) -> Desk {
    Desk { screens: d.screens.push(scene), ..d }
}

pub open spec fn manage_opened(d: Desk, server: u128, instance: u128) -> Desk {
    fetching_detail(pushed(d, Scene::Manage(fresh_manage(server, instance))), server, instance)
}

// ---- what events do ----------------------------------------------------------------

/// The manage screen after a poll of its server: it goes where the instance is
/// gone, and is refreshed otherwise.
pub open spec fn manage_synced(d: Desk, server: u128, now: u64) -> Desk {
    match d.screens.last() {
        Scene::Manage(m) => if m.server != server {
            d
        } else {
            let list = instances(d, server);
            let gone = !has_server(d, server) || (d.states.contains_key(server) && up(
                d.states[server],
            ) && instance_at(list, m.instance, 0) >= list.len());
            if gone {
                warned(popped(d), "that instance is no longer on the server"@, now)
            } else {
                fetching_detail(d, server, m.instance)
            }
        },
        _ => d,
    }
}

pub open spec fn mismatch_text(name: Seq<char>, theirs: u32, ours: u32) -> Seq<char> {
    "'"@ + name + "' speaks protocol version "@ + text::decimal(theirs as nat)
        + ", this client version "@ + text::decimal(ours as nat) + ".\n"@ + (if theirs > ours {
        "The client is older — update this client to manage that server."@
    } else {
        "The server is older — update the server before managing it from here."@
    })
}

/// The versions are compared once for a server that was added or moved. A
/// mismatch is shown, but never on top of something else: then the next poll
/// tries again.
pub open spec fn version_checked(d: Desk, server: u128) -> Desk {
    if !d.version_checks.contains(server) || d.modal is Some || !d.states.contains_key(server)
        || d.states[server].vitals is None {
        d
    } else {
        let theirs = d.states[server].vitals->0.version;
        let after = Desk { version_checks: d.version_checks.remove(server), ..d };
        if theirs == d.version {
            after
        } else {
            Desk {
                modal: Some(
                    Popup::Notice {
                        title: "Version mismatch"@,
                        message: mismatch_text(server_name(d, server), theirs, d.version),
                    },
                ),
                ..after
            }
        }
    }
}

/// Bootstrapping is pointed out once for a server that was added.
pub open spec fn bootstrap_offered(d: Desk, server: u128, now: u64) -> Desk {
    if !d.bootstrap_offers.contains(server) || !d.states.contains_key(server)
        || d.states[server].vitals is None {
        d
    } else {
        let after = Desk { bootstrap_offers: d.bootstrap_offers.remove(server), ..d };
        if d.states[server].vitals->0.bootstrap {
            informed(
                after,
                "'"@ + server_name(d, server)
                    + "' supports bootstrapping — press B on it to set that up"@,
                now,
            )
        } else {
            after
        }
    }
}

pub open spec fn snapshot_taken(
    d: Desk,
    server: u128,
    result: Result<Vitals, NetError>,
    now: u64,
) -> Desk {
    let applied = if d.states.contains_key(server) {
        Desk {
            states: d.states.insert(server, state_after(d.states[server], result, now)),
            ..d
        }
    } else {
        d
    };
    let synced = manage_synced(cursor_clamped(applied), server, now);
    bootstrap_offered(version_checked(synced, server), server, now)
}

/// The manage screen after details have come in. Those of an instance that is no
/// longer on the screen change nothing.
pub open spec fn detail_taken(
    d: Desk,
    server: u128,
    instance: u128,
    result: Result<InstanceStatus, String>,
) -> Desk {
    match d.screens.last() {
        Scene::Manage(m) => if m.server == server && m.instance == instance {
            on_top(
                d,
                Scene::Manage(
                    match result {
                        Ok(detail) => Managed {
                            detail: Some(detail),
                            detail_error: None,
                            ..m
                        },
                        Err(e) => Managed { detail_error: Some(e@), ..m },
                    },
                ),
            )
        } else {
            d
        },
        _ => d,
    }
}

/// How far the console has grown since the lines that are shown.
pub open spec fn console_growth(m: Managed, lines: nat, dropped: u64) -> int {
    let now = dropped + lines;
    let before = m.console_dropped + m.console.len();
    if now >= before {
        now - before
    } else {
        0
    }
}

/// The console after new lines have come in. Scrolled back, it holds its place
/// against what arrived below.
pub open spec fn console_shown(m: Managed, lines: Seq<ConsoleLine>, dropped: u64) -> Managed {
    let scrolled = m.console_scroll + console_growth(m, lines.len(), dropped);
    Managed {
        console: lines,
        console_dropped: dropped,
        console_error: None,
        console_scroll: if m.console_scroll == 0 {
            0
        } else if scrolled < lines.len() {
            scrolled
        } else {
            lines.len() as int
        },
        ..m
    }
}

pub open spec fn console_taken(
    d: Desk,
    server: u128,
    instance: u128,
    result: Result<(Vec<ConsoleLine>, u64), String>,
) -> Desk {
    match d.screens.last() {
        Scene::Manage(m) => if m.server == server && m.instance == instance {
            on_top(
                d,
                Scene::Manage(
                    match result {
                        Ok((lines, dropped)) => console_shown(m, lines@, dropped),
                        Err(e) => Managed { console_error: Some(e@), ..m },
                    },
                ),
            )
        } else {
            d
        },
        _ => d,
    }
}

pub open spec fn local_taken(d: Desk, p: Seq<char>, result: Result<Vec<DirEntry>, String>) -> Desk {
    match d.screens.last() {
        Scene::Browse(b) => if path::parts(b.local.cwd, d.platform) == path::parts(p, d.platform) {
            on_top(
                d,
                Scene::Browse(
                    Browsing {
                        local: browse::applied(
                            b.local,
                            p,
                            match result {
                                Ok(entries) => Ok(entries@),
                                Err(e) => Err(e@),
                            },
                        ),
                        ..b
                    },
                ),
            )
        } else {
            d
        },
        _ => d,
    }
}

/// The remote side after a listing has come in. The server's spelling is taken
/// over, and for the floor too where this was the floor.
pub open spec fn remote_taken(
    d: Desk,
    server: u128,
    requested: Seq<char>,
    result: Result<(String, Vec<DirEntry>), String>,
) -> Desk {
    match d.screens.last() {
        Scene::Browse(b) => if b.server == server && path::parts(b.remote.cwd, d.platform)
            == path::parts(requested, d.platform) {
            on_top(
                d,
                Scene::Browse(
                    match result {
                        Ok((resolved, entries)) => Browsing {
                            remote_root: if path::parts(b.remote.cwd, d.platform) == path::parts(
                                b.remote_root,
                                d.platform,
                            ) {
                                resolved@
                            } else {
                                b.remote_root
                            },
                            remote: browse::applied(b.remote, resolved@, Ok(entries@)),
                            ..b
                        },
                        Err(e) => Browsing {
                            remote: browse::applied(b.remote, requested, Err(e@)),
                            ..b
                        },
                    },
                ),
            )
        } else {
            d
        },
        _ => d,
    }
}

pub open spec fn browse_refreshed(d: Desk) -> Desk {
    match d.screens.last() {
        Scene::Browse(b) => fetching_remote(
            fetching_local(
                on_top(
                    d,
                    Scene::Browse(
                        Browsing {
                            local: Shown { loading: true, ..b.local },
                            remote: Shown { loading: true, ..b.remote },
                            ..b
                        },
                    ),
                ),
                b.local.cwd,
            ),
            b.server,
            b.remote.cwd,
        ),
        _ => d,
    }
}

pub open spec fn transfer_ended(d: Desk, server: u128) -> Desk {
    match d.screens.last() {
        Scene::Browse(b) => if b.server == server {
            on_top(
                d,
                Scene::Browse(
                    Browsing {
                        transfer: None,
                        local: Shown { incoming: seq![], ..b.local },
                        remote: Shown { incoming: seq![], ..b.remote },
                        ..b
                    },
                ),
            )
        } else {
            d
        },
        _ => d,
    }
}

/// What an event does.
pub open spec fn evented(d: Desk, event: AppEvent, now: u64) -> Desk {
    match event {
        AppEvent::Snapshot { server, result } => snapshot_taken(d, server, result, now),
        AppEvent::Detail { server, instance, result } => detail_taken(d, server, instance, result),
        AppEvent::Console { server, instance, result } => console_taken(
            d,
            server,
            instance,
            result,
        ),
        AppEvent::ActionDone { desc, result } => match result {
            Ok(_) => informed(d, desc@ + ": ok"@, now),
            Err(e) => warned(d, desc@ + " failed — "@ + e@, now),
        },
        AppEvent::LocalDir { path, result } => local_taken(d, path@, result),
        AppEvent::RemoteDir { server, requested, result } => remote_taken(
            d,
            server,
            requested@,
            result,
        ),
        AppEvent::TransferDone { server, result } => browse_refreshed(
            match result {
                Ok(desc) => informed(transfer_ended(d, server), desc@, now),
                Err(e) => warned(transfer_ended(d, server), "transfer failed — "@ + e@, now),
            },
        ),
    }
}

// ---- the code ----------------------------------------------------------------------

impl App {
    pub fn new(book: Book, platform: Platform, version: u32) -> (r: App)
        ensures
            r@.wf(),
            r.book == book,
            r@.screens == seq![Scene::Landing],
            r@.cursor == 0,
            r@.modal is None,
            r@.toast is None,
            !r@.should_quit,
            r@.pending_session is None,
            r@.bootstrap_offers == Set::<u128>::empty(),
            r@.version_checks == Set::<u128>::empty(),
            r@.effects == Seq::<Wish>::empty(),
            r@.platform == platform,
            r@.version == version,
            forall|id: u128|
                #![trigger r@.states.contains_key(id)]
                r@.states.contains_key(id) <==> has_server(r@, id),
            forall|id: u128|
                #![trigger r@.states[id]]
                r@.states.contains_key(id) ==> r@.states[id] == fresh_state(),
    {
        let mut states: HashMap<u128, ServerState> = HashMap::new();
        let mut i: usize = 0;
        while i < book.servers.len()
            invariant
                i <= book.servers.len(),
                forall|k: int| 0 <= k < i ==> states@.contains_key((#[trigger] book.servers@[k]).id),
                forall|id: u128| #[trigger]
                    states@.contains_key(id) ==> states@[id] == fresh_state() && exists|k: int|
                        0 <= k < i && (#[trigger] book.servers@[k]).id == id,
            decreases book.servers.len() - i,
        {
            let id: u128 = book.servers[i].id;
            states.insert(id, ServerState::default());
            assert(book.servers@[i as int].id == id);
            i = i + 1;
        }
        let mut screens: Vec<Screen> = Vec::new();
        screens.push(Screen::Landing);
        let out = App {
            book,
            states,
            screens,
            cursor: 0,
            modal: None,
            toast: None,
            should_quit: false,
            pending_session: None,
            bootstrap_offers: HashSet::new(),
            version_checks: HashSet::new(),
            effects: Vec::new(),
            platform,
            version,
        };
        proof {
            assert(out@.screens =~= seq![Scene::Landing]);
            assert(out@.effects =~= Seq::<Wish>::empty());
            assert forall|k: int| 0 <= k < out@.servers.len() implies out@.states.contains_key(
                (#[trigger] out@.servers[k]).id,
            ) by {
                assert(out@.servers[k].id == book.servers@[k].id);
            }
            assert forall|id: u128| #[trigger] out@.states.contains_key(id) <==> has_server(
                out@,
                id,
            ) by {
                server_at_finds(out@.servers, id, 0);
                if out@.states.contains_key(id) {
                    let k = choose|k: int|
                        0 <= k < book.servers@.len() && (#[trigger] book.servers@[k]).id == id;
                    assert(out@.servers[k].id == id);
                }
                if has_server(out@, id) {
                    let k = server_at(out@.servers, id, 0);
                    assert(out@.servers[k].id == book.servers@[k].id);
                }
            }
        }
        out
    }

    /// Everything that has to be done outside since this was last asked.
    pub fn take_effects(&mut self) -> (r: Vec<Effect>)
        ensures
            wishes(r@) == old(self)@.effects,
            final(self)@ == (Desk { effects: seq![], ..old(self)@ }),
    {
        let mut out: Vec<Effect> = Vec::new();
        std::mem::swap(&mut out, &mut self.effects);
        assert(wishes(self.effects@) =~= seq![]);
        out
    }

    pub fn servers(&self) -> (r: &Vec<ServerEntry>)
        ensures
            *r == self.book.servers,
    {
        &self.book.servers
    }

    /// The screen on top.
    pub fn screen(&self) -> (r: &Screen)
        requires
            self@.wf(),
        ensures
            r@ == self@.screens.last(),
            *r == self.screens@.last(),
    {
        let n: usize = self.screens.len();
        assert(self@.screens.len() == n);
        &self.screens[n - 1]
    }

    pub fn manage(&self) -> (r: Option<&Manage>)
        requires
            self@.wf(),
        ensures
            match self@.screens.last() {
                Scene::Manage(m) => r matches Some(x) && x@ == m,
                _ => r is None,
            },
    {
        match self.screen() {
            Screen::Manage(m) => Some(m),
            _ => None,
        }
    }

    pub fn browse(&self) -> (r: Option<&Browse>)
        requires
            self@.wf(),
        ensures
            match self@.screens.last() {
                Scene::Browse(b) => r matches Some(x) && x@ == b,
                _ => r is None,
            },
    {
        match self.screen() {
            Screen::Browse(b) => Some(b),
            _ => None,
        }
    }

    /// The landing page, row by row.
    pub fn rows(&self) -> (r: Vec<Row>)
        requires
            self@.wf(),
        ensures
            r@ == all_rows(self@),
    {
        let ghost d = self@;
        let mut out: Vec<Row> = Vec::new();
        let mut i: usize = 0;
        while i < self.book.servers.len()
            invariant
                i <= self.book.servers.len(),
                d == self@,
                d.wf(),
                out@ == rows_of(d, i as int),
            decreases self.book.servers.len() - i,
        {
            let ghost before = out@;
            let id: u128 = self.book.servers[i].id;
            assert(d.servers[i as int].id == id);
            out.push(Row::Server { server: i });
            let mut count: usize = 0;
            match self.states.get(&id) {
                Some(s) => {
                    if !s.collapsed {
                        match &s.vitals {
                            Some(v) => {
                                count = v.instances.len();
                            },
                            None => {},
                        }
                    }
                },
                None => {},
            }
            let mut k: usize = 0;
            while k < count
                invariant
                    k <= count,
                    out@ == before.push(Row::Server { server: i }) + Seq::new(
                        k as nat,
                        |j: int| Row::Instance { server: i, instance: j as usize },
                    ),
                decreases count - k,
            {
                let ghost so_far = out@;
                out.push(Row::Instance { server: i, instance: k });
                k = k + 1;
                assert(out@ =~= before.push(Row::Server { server: i }) + Seq::new(
                    k as nat,
                    |j: int| Row::Instance { server: i, instance: j as usize },
                ));
            }
            i = i + 1;
            assert(out@ =~= rows_of(d, i as int));
        }
        out
    }

    pub fn selected_row(&self) -> (r: Option<Row>)
        requires
            self@.wf(),
        ensures
            r == row_at_cursor(self@),
    {
        let rows: Vec<Row> = self.rows();
        if self.cursor < rows.len() {
            Some(rows[self.cursor])
        } else {
            None
        }
    }

    /// The place of the server that the cursor is on.
    pub fn selected_server(&self) -> (r: Option<usize>)
        requires
            self@.wf(),
        ensures
            match r {
                Some(i) => server_at_cursor(self@) == Some(i as int) && i < self.book.servers@.len(),
                None => server_at_cursor(self@) is None,
            },
    {
        proof {
            assert(self@.servers.len() == self.book.servers.len());
            rows_are_in_range(self@, self@.servers.len() as int);
        }
        match self.selected_row() {
            Some(row) => {
                assert(row_in_range(row, self@.servers.len() as int));
                match row {
                    Row::Server { server } => Some(server),
                    Row::Instance { server, .. } => Some(server),
                }
            },
            None => None,
        }
    }

    /// What is known of a server in the book.
    pub fn state_of(&self, entry: &ServerEntry) -> (r: &ServerState)
        requires
            self.states@.contains_key(entry.id),
        ensures
            *r == self.states@[entry.id],
    {
        match self.states.get(&entry.id) {
            Some(s) => s,
            None => {
                proof {
                    assert(false);
                }
                vstd::pervasive::unreached()
            },
        }
    }

    /// The place of a server in the book.
    pub fn find(&self, id: u128) -> (r: Option<usize>)
        ensures
            match r {
                Some(i) => i < self.book.servers@.len() && server_at(self@.servers, id, 0) == i,
                None => !has_server(self@, id),
            },
    {
        let mut i: usize = 0;
        while i < self.book.servers.len()
            invariant
                i <= self.book.servers.len(),
                server_at(self@.servers, id, 0) == server_at(self@.servers, id, i as int),
            decreases self.book.servers.len() - i,
        {
            assert(self@.servers[i as int] == self.book.servers@[i as int]@);
            if self.book.servers[i].id == id {
                return Some(i);
            }
            i = i + 1;
        }
        None
    }

    pub fn entry(&self, server: u128) -> (r: Option<&ServerEntry>)
        ensures
            match r {
                Some(e) => has_server(self@, server) && e@ == self@.servers[server_at(
                    self@.servers,
                    server,
                    0,
                )],
                None => !has_server(self@, server),
            },
    {
        match self.find(server) {
            Some(i) => {
                assert(self@.servers[i as int] == self.book.servers@[i as int]@);
                Some(&self.book.servers[i])
            },
            None => None,
        }
    }

    pub fn name_of(&self, server: u128) -> (r: String)
        ensures
            r@ == server_name(self@, server),
    {
        match self.entry(server) {
            Some(e) => e.name.clone(),
            None => {
                let out: String = String::new();
                assert(out@ =~= seq![]);
                out
            },
        }
    }

    /// The instances that a server last reported; none where it has not.
    pub fn instances_of(&self, server: u128) -> (r: Option<&Vec<InstanceStatResponse>>)
        ensures
            match r {
                Some(list) => list@ == instances(self@, server),
                None => instances(self@, server).len() == 0,
            },
    {
        match self.states.get(&server) {
            Some(s) => match &s.vitals {
                Some(v) => Some(&v.instances),
                None => None,
            },
            None => None,
        }
    }

    /// The place of an instance among those that its server last reported.
    pub fn find_instance(&self, server: u128, instance: u128) -> (r: Option<usize>)
        ensures
            ({
                let list = instances(self@, server);
                match r {
                    Some(i) => i < list.len() && instance_at(list, instance, 0) == i,
                    None => instance_at(list, instance, 0) >= list.len(),
                }
            }),
    {
        match self.instances_of(server) {
            Some(list) => {
                let ghost all = instances(self@, server);
                let mut i: usize = 0;
                while i < list.len()
                    invariant
                        i <= list.len(),
                        list@ == all,
                        all == instances(self@, server),
                        instance_at(all, instance, 0) == instance_at(all, instance, i as int),
                    decreases list.len() - i,
                {
                    if list[i].id == instance {
                        return Some(i);
                    }
                    i = i + 1;
                }
                None
            },
            None => None,
        }
    }

    pub fn instance_name(&self, server: u128, instance: u128) -> (r: String)
        ensures
            r@ == instance_name(self@, server, instance),
    {
        match self.find_instance(server, instance) {
            Some(i) => match self.instances_of(server) {
                Some(list) => list[i].name.clone(),
                None => text::hex_of(instance, 32),
            },
            None => text::hex_of(instance, 32),
        }
    }

    /// How to reach a server.
    pub fn endpoint(&self, server: u128) -> (r: Option<Endpoint>)
        ensures
            match r {
                Some(e) => dest(self@, server) == Some(e@),
                None => dest(self@, server) is None,
            },
    {
        match self.entry(server) {
            Some(e) => Some(self.book.endpoint_or_keyless(e)),
            None => None,
        }
    }

    fn note(&mut self, text: String, kind: ToastKind, now: u64)
        ensures
            final(self)@ == told(old(self)@, text@, kind, now),
    {
        let until: u64 = if now > u64::MAX - TOAST_TTL {
            u64::MAX
        } else {
            now + TOAST_TTL
        };
        self.toast = Some(Toast { text, kind, until });
    }

    pub fn info(&mut self, text: String, now: u64)
        ensures
            final(self)@ == informed(old(self)@, text@, now),
    {
        self.note(text, ToastKind::Info, now);
    }

    pub fn error(&mut self, text: String, now: u64)
        ensures
            final(self)@ == warned(old(self)@, text@, now),
    {
        self.note(text, ToastKind::Error, now);
    }

    pub(crate) fn wish(&mut self, effect: Effect)
        ensures
            final(self)@ == wishing(old(self)@, effect@),
    {
        let ghost before = wishes(self.effects@);
        let ghost w = effect@;
        self.effects.push(effect);
        assert(wishes(self.effects@) =~= before.push(w));
    }

    pub(crate) fn spawn_action(&mut self, desc: &str, server: u128, action: Action)
        ensures
            final(self)@ == acting(old(self)@, desc@, server, deed_of(action)),
    {
        match self.endpoint(server) {
            Some(endpoint) => {
                self.wish(Effect::Act { desc: desc.to_string(), endpoint, action });
            },
            None => {},
        }
    }

    pub(crate) fn fetch_detail(&mut self, server: u128, instance: u128)
        ensures
            final(self)@ == fetching_detail(old(self)@, server, instance),
    {
        match self.endpoint(server) {
            Some(endpoint) => {
                self.wish(Effect::FetchDetail { endpoint, server, instance });
            },
            None => {},
        }
    }

    pub(crate) fn fetch_local(&mut self, path: String)
        ensures
            final(self)@ == fetching_local(old(self)@, path@),
    {
        self.wish(Effect::FetchLocal { path });
    }

    pub(crate) fn fetch_remote(&mut self, server: u128, path: String)
        ensures
            final(self)@ == fetching_remote(old(self)@, server, path@),
    {
        match self.endpoint(server) {
            Some(endpoint) => {
                self.wish(Effect::FetchRemote { endpoint, server, path });
            },
            None => {},
        }
    }

    pub(crate) fn push_screen(&mut self, screen: Screen)
        requires
            old(self)@.wf(),
            scene_wf(screen@),
        ensures
            final(self)@ == pushed(old(self)@, screen@),
            final(self)@.wf(),
    {
        let ghost before = scenes(self.screens@);
        let ghost s = screen@;
        self.screens.push(screen);
        assert(scenes(self.screens@) =~= before.push(s));
    }

    pub(crate) fn open_manage(&mut self, server: u128, instance: u128)
        requires
            old(self)@.wf(),
        ensures
            final(self)@ == manage_opened(old(self)@, server, instance),
            final(self)@.wf(),
    {
        self.push_screen(Screen::Manage(Manage::new(server, instance)));
        self.fetch_detail(server, instance);
    }

    pub(crate) fn pop_screen(&mut self)
        requires
            old(self)@.wf(),
        ensures
            final(self)@ == popped(old(self)@),
            final(self)@.wf(),
    {
        let ghost before = scenes(self.screens@);
        assert(before.len() == self.screens@.len());
        if self.screens.len() > 1 {
            let _ = self.screens.pop();
            assert(scenes(self.screens@) =~= before.drop_last());
            assert forall|i: int| 0 <= i < self@.screens.len() implies scene_wf(
                #[trigger] self@.screens[i],
            ) by {
                assert(self@.screens[i] == before[i]);
            }
        } else {
            self.should_quit = true;
        }
    }

    pub(crate) fn clamp_cursor(&mut self)
        requires
            old(self)@.wf(),
        ensures
            final(self)@ == cursor_clamped(old(self)@),
            final(self)@.wf(),
    {
        let len: usize = self.rows().len();
        self.cursor = browse::clamp(self.cursor, len);
    }

    /// Puts another screen in the place of the top one.
    pub(crate) fn replace_top(&mut self, screen: Screen)
        requires
            old(self)@.wf(),
            scene_wf(screen@),
        ensures
            final(self)@ == on_top(old(self)@, screen@),
            final(self)@.wf(),
    {
        let ghost before = scenes(self.screens@);
        let ghost s = screen@;
        let n: usize = self.screens.len();
        assert(before.len() == n);
        self.screens.set(n - 1, screen);
        assert(scenes(self.screens@) =~= before.update(n - 1, s));
        assert forall|i: int| 0 <= i < self@.screens.len() implies scene_wf(
            #[trigger] self@.screens[i],
        ) by {
            if i < n - 1 {
                assert(self@.screens[i] == before[i]);
            }
        }
    }

    /// Takes the top screen out, leaving the landing page in its place.
    pub(crate) fn take_top(&mut self) -> (r: Screen)
        requires
            old(self)@.wf(),
        ensures
            r@ == old(self)@.screens.last(),
            scene_wf(r@),
            final(self)@ == on_top(old(self)@, Scene::Landing),
            final(self)@.wf(),
    {
        let ghost before = scenes(self.screens@);
        let n: usize = self.screens.len();
        assert(before.len() == n);
        assert(scene_wf(self@.screens[n - 1]));
        let mut top = Screen::Landing;
        std::mem::swap(&mut self.screens[n - 1], &mut top);
        assert(scenes(self.screens@) =~= before.update(n - 1, Scene::Landing));
        assert forall|i: int| 0 <= i < self@.screens.len() implies scene_wf(
            #[trigger] self@.screens[i],
        ) by {
            if i < n - 1 {
                assert(self@.screens[i] == before[i]);
            }
        }
        top
    }

    fn sync_manage(&mut self, server: u128, now: u64)
        requires
            old(self)@.wf(),
        ensures
            final(self)@ == manage_synced(old(self)@, server, now),
            final(self)@.wf(),
    {
        let instance: u128 = match self.manage() {
            Some(m) => {
                if m.server != server {
                    return ;
                }
                m.instance
            },
            None => {
                return ;
            },
        };
        let is_up: bool = match self.states.get(&server) {
            Some(s) => s.is_up(),
            None => false,
        };
        let gone: bool = self.find(server).is_none() || (is_up && self.find_instance(
            server,
            instance,
        ).is_none());
        if gone {
            self.pop_screen();
            self.error("that instance is no longer on the server".to_string(), now);
        } else {
            self.fetch_detail(server, instance);
        }
    }

    fn check_version(&mut self, server: u128)
        requires
            old(self)@.wf(),
        ensures
            final(self)@ == version_checked(old(self)@, server),
            final(self)@.wf(),
    {
        if !self.version_checks.contains(&server) || self.modal.is_some() {
            return ;
        }
        let theirs: u32 = match self.states.get(&server) {
            Some(s) => match &s.vitals {
                Some(v) => v.version,
                None => {
                    return ;
                },
            },
            None => {
                return ;
            },
        };
        self.version_checks.remove(&server);
        if theirs == self.version {
            return ;
        }
        let advice: &str = if theirs > self.version {
            "The client is older — update this client to manage that server."
        } else {
            "The server is older — update the server before managing it from here."
        };
        let mut message: String = text::cat3(
            "'",
            &self.name_of(server),
            "' speaks protocol version ",
        );
        message.append(&text::decimal_of(theirs as u128));
        message.append(", this client version ");
        message.append(&text::decimal_of(self.version as u128));
        message.append(".\n");
        message.append(advice);
        assert(message@ =~= mismatch_text(
            server_name(old(self)@, server),
            theirs,
            old(self)@.version,
        ));
        self.modal = Some(Modal::Notice { title: "Version mismatch".to_string(), message });
    }

    fn offer_bootstrap(&mut self, server: u128, now: u64)
        requires
            old(self)@.wf(),
        ensures
            final(self)@ == bootstrap_offered(old(self)@, server, now),
            final(self)@.wf(),
    {
        if !self.bootstrap_offers.contains(&server) {
            return ;
        }
        let offered: bool = match self.states.get(&server) {
            Some(s) => match &s.vitals {
                Some(v) => v.bootstrap,
                None => {
                    return ;
                },
            },
            None => {
                return ;
            },
        };
        self.bootstrap_offers.remove(&server);
        if offered {
            let name: String = self.name_of(server);
            self.info(
                text::cat3("'", &name, "' supports bootstrapping — press B on it to set that up"),
                now,
            );
        }
    }

    fn take_snapshot(&mut self, server: u128, result: Result<Vitals, NetError>, now: u64)
        requires
            old(self)@.wf(),
        ensures
            final(self)@ == snapshot_taken(old(self)@, server, result, now),
            final(self)@.wf(),
    {
        match self.states.remove(&server) {
            Some(state) => {
                let mut state = state;
                state.apply(result, now);
                let ghost after = state;
                self.states.insert(server, state);
                assert(self.states@ =~= old(self).states@.insert(server, after));
            },
            None => {
                assert(self.states@ =~= old(self).states@);
            },
        }
        self.clamp_cursor();
        self.sync_manage(server, now);
        self.check_version(server);
        self.offer_bootstrap(server, now);
    }

    fn take_detail(&mut self, server: u128, instance: u128, result: Result<InstanceStatus, String>)
        requires
            old(self)@.wf(),
        ensures
            final(self)@ == detail_taken(old(self)@, server, instance, result),
            final(self)@.wf(),
    {
        let meant: bool = match self.manage() {
            Some(m) => m.server == server && m.instance == instance,
            None => false,
        };
        if meant {
            match self.take_top() {
                Screen::Manage(m) => {
                    let mut m = m;
                    match result {
                        Ok(detail) => {
                            m.detail = Some(detail);
                            m.detail_error = None;
                        },
                        Err(e) => {
                            m.detail_error = Some(e);
                        },
                    }
                    self.replace_top(Screen::Manage(m));
                },
                _ => {},
            }
            assert(self@.screens =~= detail_taken(old(self)@, server, instance, result).screens);
        }
    }

    fn take_console(
        &mut self,
        server: u128,
        instance: u128,
        result: Result<(Vec<ConsoleLine>, u64), String>,
    )
        requires
            old(self)@.wf(),
        ensures
            final(self)@ == console_taken(old(self)@, server, instance, result),
            final(self)@.wf(),
    {
        let meant: bool = match self.manage() {
            Some(m) => m.server == server && m.instance == instance,
            None => false,
        };
        if meant {
            match self.take_top() {
                Screen::Manage(m) => {
                    let mut m = m;
                    match result {
                        Ok((lines, dropped)) => {
                            if !m.following() {
                                let now: u128 = dropped as u128 + lines.len() as u128;
                                let before: u128 = m.console_dropped as u128
                                    + m.console.len() as u128;
                                let grew: u128 = if now >= before {
                                    now - before
                                } else {
                                    0
                                };
                                let scrolled: u128 = m.console_scroll as u128 + grew;
                                m.console_scroll =
                                if scrolled < lines.len() as u128 {
                                    scrolled as usize
                                } else {
                                    lines.len()
                                };
                            }
                            m.console = lines;
                            m.console_dropped = dropped;
                            m.console_error = None;
                        },
                        Err(e) => {
                            m.console_error = Some(e);
                        },
                    }
                    self.replace_top(Screen::Manage(m));
                },
                _ => {},
            }
            assert(self@.screens =~= console_taken(old(self)@, server, instance, result).screens);
        }
    }

    fn take_local(&mut self, listed: String, result: Result<Vec<DirEntry>, String>)
        requires
            old(self)@.wf(),
        ensures
            final(self)@ == local_taken(old(self)@, listed@, result),
            final(self)@.wf(),
    {
        let meant: bool = match self.browse() {
            Some(b) => path::same_path(&b.local.cwd, &listed, self.platform),
            None => false,
        };
        if meant {
            match self.take_top() {
                Screen::Browse(b) => {
                    let mut b = b;
                    b.local.apply(listed, result);
                    self.replace_top(Screen::Browse(b));
                },
                _ => {},
            }
            assert(self@.screens =~= local_taken(old(self)@, listed@, result).screens);
        }
    }

    fn take_remote(
        &mut self,
        server: u128,
        requested: String,
        result: Result<(String, Vec<DirEntry>), String>,
    )
        requires
            old(self)@.wf(),
        ensures
            final(self)@ == remote_taken(old(self)@, server, requested@, result),
            final(self)@.wf(),
    {
        let meant: bool = match self.browse() {
            Some(b) => b.server == server && path::same_path(
                &b.remote.cwd,
                &requested,
                self.platform,
            ),
            None => false,
        };
        if meant {
            match self.take_top() {
                Screen::Browse(b) => {
                    let mut b = b;
                    match result {
                        Ok((resolved, entries)) => {
                            if path::same_path(&b.remote.cwd, &b.remote_root, self.platform) {
                                b.remote_root = resolved.clone();
                            }
                            b.remote.apply(resolved, Ok(entries));
                        },
                        Err(e) => {
                            b.remote.apply(requested, Err(e));
                        },
                    }
                    self.replace_top(Screen::Browse(b));
                },
                _ => {},
            }
            assert(self@.screens =~= remote_taken(old(self)@, server, requested@, result).screens);
        }
    }

    /// Fetches both panels anew.
    pub fn browse_refresh(&mut self)
        requires
            old(self)@.wf(),
        ensures
            final(self)@ == browse_refreshed(old(self)@),
            final(self)@.wf(),
    {
        if self.browse().is_none() {
            return ;
        }
        match self.take_top() {
            Screen::Browse(b) => {
                let mut b = b;
                let server: u128 = b.server;
                let local: String = b.local.cwd.clone();
                let remote: String = b.remote.cwd.clone();
                b.local.loading = true;
                b.remote.loading = true;
                let ghost shown = b@;
                self.replace_top(Screen::Browse(b));
                assert(self@.screens =~= on_top(old(self)@, Scene::Browse(shown)).screens);
                self.fetch_local(local);
                self.fetch_remote(server, remote);
            },
            _ => {},
        }
    }

    fn end_transfer(&mut self, server: u128)
        requires
            old(self)@.wf(),
        ensures
            final(self)@ == transfer_ended(old(self)@, server),
            final(self)@.wf(),
    {
        let meant: bool = match self.browse() {
            Some(b) => b.server == server,
            None => false,
        };
        if meant {
            match self.take_top() {
                Screen::Browse(b) => {
                    let mut b = b;
                    b.transfer = None;
                    b.local.incoming = Vec::new();
                    b.remote.incoming = Vec::new();
                    assert(text::views(b.local.incoming@) =~= seq![]);
                    assert(text::views(b.remote.incoming@) =~= seq![]);
                    self.replace_top(Screen::Browse(b));
                },
                _ => {},
            }
            assert(self@.screens =~= transfer_ended(old(self)@, server).screens);
        }
    }

    /// Takes in what came back from outside.
    pub fn on_event(&mut self, event: AppEvent, now: u64)
        requires
            old(self)@.wf(),
        ensures
            final(self)@ == evented(old(self)@, event, now),
            final(self)@.wf(),
    {
        match event {
            AppEvent::Snapshot { server, result } => self.take_snapshot(server, result, now),
            AppEvent::Detail { server, instance, result } => self.take_detail(
                server,
                instance,
                result,
            ),
            AppEvent::Console { server, instance, result } => self.take_console(
                server,
                instance,
                result,
            ),
            AppEvent::ActionDone { desc, result } => match result {
                Ok(_) => self.info(text::cat2(&desc, ": ok"), now),
                Err(e) => self.error(text::cat3(&desc, " failed — ", &e), now),
            },
            AppEvent::LocalDir { path, result } => self.take_local(path, result),
            AppEvent::RemoteDir { server, requested, result } => self.take_remote(
                server,
                requested,
                result,
            ),
            AppEvent::TransferDone { server, result } => {
                self.end_transfer(server);
                match result {
                    Ok(desc) => self.info(desc, now),
                    Err(e) => self.error(text::cat2("transfer failed — ", &e), now),
                }
                self.browse_refresh();
            },
        }
    }

    /// Lets a toast go whose time has come.
    pub fn expire_toast(&mut self, now: u64)
        ensures
            final(self)@ == (Desk {
                toast: match old(self)@.toast {
                    Some(t) => if now >= t.until {
                        None
                    } else {
                        Some(t)
                    },
                    None => None,
                },
                ..old(self)@
            }),
    {
        let over: bool = match &self.toast {
            Some(t) => now >= t.until,
            None => false,
        };
        if over {
            self.toast = None;
        }
    }

    /// Whether the screen is to be given up, and what for.
    pub fn outcome(&mut self) -> (r: Option<RunOutcome>)
        ensures
            old(self)@.should_quit ==> r == Some(RunOutcome::Quit) && *final(self) == *old(self),
            !old(self)@.should_quit ==> final(self)@ == (Desk {
                pending_session: None,
                ..old(self)@
            }),
            !old(self)@.should_quit ==> match old(self)@.pending_session {
                Some(s) => r matches Some(RunOutcome::Session(request)) && request@ == s,
                None => r is None,
            },
    {
        if self.should_quit {
            return Some(RunOutcome::Quit);
        }
        match self.pending_session.take() {
            Some(request) => Some(RunOutcome::Session(request)),
            None => None,
        }
    }
}

proof fn server_at_finds(servers: Seq<Known>, id: u128, from: int)
    requires
        0 <= from <= servers.len(),
    ensures
        from <= server_at(servers, id, from) <= servers.len(),
        server_at(servers, id, from) < servers.len() ==> servers[server_at(servers, id, from)].id
            == id,
        forall|k: int|
            from <= k < server_at(servers, id, from) ==> (#[trigger] servers[k]).id != id,
        (exists|k: int| from <= k < servers.len() && (#[trigger] servers[k]).id == id) ==> server_at(
            servers,
            id,
            from,
        ) < servers.len(),
    decreases servers.len() - from,
{
    if from < servers.len() && servers[from].id != id {
        server_at_finds(servers, id, from + 1);
        if exists|k: int| from <= k < servers.len() && (#[trigger] servers[k]).id == id {
            let k = choose|k: int| from <= k < servers.len() && (#[trigger] servers[k]).id == id;
            assert(from + 1 <= k);
        }
    }
}

} // verus!
