//! What is drawn, as lines of styled text. Where it goes on the screen is left
//! to the caller, and so are the figures that are worked out in floating point:
//! those come in as texts.
use vstd::prelude::*;

use crate::client::app::{App, ConfirmToggle, Manage, Row, Screen, ServerState, ToastKind};
use crate::client::app;
use crate::client::browse::{Browse, Panel, Side};
use crate::client::browse;
use crate::client::figures;
use crate::client::form::{Field, FieldKind, Form};
use crate::client::form;
use crate::client::instance_form;
use crate::client::keymap;
use crate::client::net;
use crate::order;
use crate::protocol::api::DirEntry;
use crate::protocol::instance::{
    ConsoleLine, GroupStats, InstanceConfig, InstanceStatResponse, InstanceStatus, RepoState,
    RetryPolicy, RunState, Stream,
};
use crate::protocol::instance;
use crate::text;

verus! {

// ---- styled text -------------------------------------------------------------------

#[derive(Clone, Copy, Debug, PartialEq, Eq, Structural)]
pub enum Color {
    /// What stands out.
    Accent,
    /// What stands back.
    Dim,
    Red,
    Green,
    Yellow,
    Black,
}

#[derive(Clone, Copy, Debug, PartialEq, Eq, Structural)]
pub struct Style {
    pub fg: Option<Color>,
    pub bg: Option<Color>,
    pub bold: bool,
    pub faint: bool,
    pub italic: bool,
    pub reversed: bool,
}

/// No style at all.
pub open spec fn bare() -> Style {
    Style { fg: None, bg: None, bold: false, faint: false, italic: false, reversed: false }
}

/// In one colour.
pub open spec fn ink(c: Color) -> Style {
    Style { fg: Some(c), ..bare() }
}

pub open spec fn bold(s: Style) -> Style {
    Style { bold: true, ..s }
}

pub open spec fn italic(s: Style) -> Style {
    Style { italic: true, ..s }
}

pub open spec fn faint(s: Style) -> Style {
    Style { faint: true, ..s }
}

pub open spec fn on_accent() -> Style {
    Style { fg: Some(Color::Black), bg: Some(Color::Accent), ..bare() }
}

impl Style {
    pub fn plain() -> (r: Style)
        ensures
            r == bare(),
    {
        Style { fg: None, bg: None, bold: false, faint: false, italic: false, reversed: false }
    }

    pub fn of(c: Color) -> (r: Style)
        ensures
            r == ink(c),
    {
        Style {
            fg: Some(c),
            bg: None,
            bold: false,
            faint: false,
            italic: false,
            reversed: false,
        }
    }

    pub fn bold(self) -> (r: Style)
        ensures
            r == bold(self),
    {
        Style { bold: true, ..self }
    }

    pub fn italic(self) -> (r: Style)
        ensures
            r == italic(self),
    {
        Style { italic: true, ..self }
    }

    pub fn faint(self) -> (r: Style)
        ensures
            r == faint(self),
    {
        Style { faint: true, ..self }
    }
}

/// Text in one style.
#[derive(Debug, PartialEq, Eq)]
pub struct Span {
    pub text: String,
    pub style: Style,
}

#[verifier::ext_equal]
pub struct Piece {
    pub text: Seq<char>,
    pub style: Style,
}

impl View for Span {
    type V = Piece;

    open spec fn view(&self) -> Piece {
        Piece { text: self.text@, style: self.style }
    }
}

#[derive(Debug, PartialEq, Eq)]
pub struct Line {
    pub spans: Vec<Span>,
}

pub open spec fn pieces(spans: Seq<Span>) -> Seq<Piece> {
    spans.map_values(|s: Span| s@)
}

impl View for Line {
    type V = Seq<Piece>;

    open spec fn view(&self) -> Seq<Piece> {
        pieces(self.spans@)
    }
}

pub open spec fn strips(lines: Seq<Line>) -> Seq<Seq<Piece>> {
    lines.map_values(|l: Line| l@)
}

/// A piece of text in a style.
pub open spec fn piece(text: Seq<char>, style: Style) -> Piece {
    Piece { text, style }
}

/// A piece of text without one.
pub open spec fn raw(text: Seq<char>) -> Piece {
    Piece { text, style: bare() }
}

fn span(s: &str, style: Style) -> (r: Span)
    ensures
        r@ == piece(s@, style),
{
    Span { text: s.to_string(), style }
}

fn raw_span(s: &str) -> (r: Span)
    ensures
        r@ == raw(s@),
{
    Span { text: s.to_string(), style: Style::plain() }
}

fn add_span(line: &mut Line, s: Span)
    ensures
        final(line)@ == old(line)@.push(s@),
{
    let ghost before = line@;
    let ghost p = s@;
    line.spans.push(s);
    assert(line@ =~= before.push(p));
}

fn no_spans() -> (r: Line)
    ensures
        r@ == Seq::<Piece>::empty(),
{
    let out = Line { spans: Vec::new() };
    assert(out@ =~= seq![]);
    out
}

fn line1(a: Span) -> (r: Line)
    ensures
        r@ == seq![a@],
{
    let mut out = no_spans();
    add_span(&mut out, a);
    out
}

fn line2(a: Span, b: Span) -> (r: Line)
    ensures
        r@ == seq![a@, b@],
{
    let mut out = line1(a);
    add_span(&mut out, b);
    out
}

fn line3(a: Span, b: Span, c: Span) -> (r: Line)
    ensures
        r@ == seq![a@, b@, c@],
{
    let mut out = line2(a, b);
    add_span(&mut out, c);
    out
}

fn line4(a: Span, b: Span, c: Span, d: Span) -> (r: Line)
    ensures
        r@ == seq![a@, b@, c@, d@],
{
    let mut out = line3(a, b, c);
    add_span(&mut out, d);
    out
}

fn line5(a: Span, b: Span, c: Span, d: Span, e: Span) -> (r: Line)
    ensures
        r@ == seq![a@, b@, c@, d@, e@],
{
    let mut out = line4(a, b, c, d);
    add_span(&mut out, e);
    out
}

fn line6(a: Span, b: Span, c: Span, d: Span, e: Span, f: Span) -> (r: Line)
    ensures
        r@ == seq![a@, b@, c@, d@, e@, f@],
{
    let mut out = line5(a, b, c, d, e);
    add_span(&mut out, f);
    out
}

fn add_line(lines: &mut Vec<Line>, l: Line)
    ensures
        strips(final(lines)@) == strips(old(lines)@).push(l@),
{
    let ghost before = strips(lines@);
    let ghost s = l@;
    lines.push(l);
    assert(strips(lines@) =~= before.push(s));
}

fn no_lines() -> (r: Vec<Line>)
    ensures
        strips(r@) == Seq::<Seq<Piece>>::empty(),
{
    let out: Vec<Line> = Vec::new();
    assert(strips(out@) =~= seq![]);
    out
}

/// An empty line.
pub open spec fn blank() -> Seq<Piece> {
    seq![raw(""@)]
}

fn blank_line() -> (r: Line)
    ensures
        r@ == blank(),
{
    line1(raw_span(""))
}

// ---- the header --------------------------------------------------------------------

pub open spec fn badge() -> Seq<Piece> {
    seq![piece(" container "@, bold(on_accent())), raw("  "@)]
}

/// How many of the first `n` servers answered their last poll.
pub open spec fn ups(d: app::Desk, n: int) -> nat
    decreases n,
{
    if n <= 0 {
        0
    } else {
        ups(d, n - 1) + if app::up(d.states[d.servers[n - 1].id]) {
            1nat
        } else {
            0
        }
    }
}

pub open spec fn place(d: app::Desk, server: u128, instance: u128) -> Seq<Piece> {
    seq![
        piece(app::server_name(d, server), ink(Color::Dim)),
        piece(" / "@, ink(Color::Dim)),
        piece(app::instance_name(d, server, instance), bold(bare())),
    ]
}

/// Where the user is.
pub open spec fn header(d: app::Desk) -> Seq<Piece> {
    match d.screens.last() {
        app::Scene::Landing => badge().push(
            piece(
                text::decimal(ups(d, d.servers.len() as int)) + "/"@ + text::decimal(
                    d.servers.len(),
                ) + " servers up"@,
                ink(Color::Dim),
            ),
        ),
        app::Scene::Manage(m) => badge() + place(d, m.server, m.instance),
        app::Scene::Browse(b) => (badge() + place(d, b.server, b.instance)).push(
            piece(" · files"@, ink(Color::Dim)),
        ),
    }
}

fn count_up(a: &App) -> (r: usize)
    requires
        a@.wf(),
    ensures
        r == ups(a@, a@.servers.len() as int),
{
    let mut n: usize = 0;
    let mut i: usize = 0;
    while i < a.book.servers.len()
        invariant
            i <= a.book.servers.len(),
            a@.wf(),
            n <= i,
            n == ups(a@, i as int),
        decreases a.book.servers.len() - i,
    {
        assert(a@.servers[i as int] == a.book.servers@[i as int]@);
        if a.state_of(&a.book.servers[i]).is_up() {
            n = n + 1;
        }
        i = i + 1;
    }
    n
}

pub fn header_line(a: &App) -> (r: Line)
    requires
        a@.wf(),
    ensures
        r@ == header(a@),
{
    let badge_style: Style = Style {
        fg: Some(Color::Black),
        bg: Some(Color::Accent),
        bold: true,
        faint: false,
        italic: false,
        reversed: false,
    };
    let mut out: Line = line2(span(" container ", badge_style), raw_span("  "));
    let (server, instance, files): (u128, u128, bool) = match a.screen() {
        Screen::Landing => {
            let up: usize = count_up(a);
            assert(a@.servers.len() == a.book.servers@.len());
            let said: String = text::cat4(
                &text::decimal_of(up as u128),
                "/",
                &text::decimal_of(a.book.servers.len() as u128),
                " servers up",
            );
            add_span(&mut out, span(&said, Style::of(Color::Dim)));
            return out;
        },
        Screen::Manage(m) => (m.server, m.instance, false),
        Screen::Browse(b) => (b.server, b.instance, true),
    };
    add_span(&mut out, span(&a.name_of(server), Style::of(Color::Dim)));
    add_span(&mut out, span(" / ", Style::of(Color::Dim)));
    add_span(&mut out, span(&a.instance_name(server, instance), Style::plain().bold()));
    assert(out@ =~= badge() + place(a@, server, instance));
    if files {
        add_span(&mut out, span(" · files", Style::of(Color::Dim)));
    }
    out
}

// ---- the tree ----------------------------------------------------------------------

/// What is shown where there is no server yet.
pub open spec fn empty_tree() -> Seq<Seq<Piece>> {
    seq![
        blank(),
        seq![piece("  No servers yet."@, ink(Color::Dim))],
        blank(),
        seq![
            raw("  Press "@),
            piece("a"@, bold(ink(Color::Accent))),
            raw(" to add one."@),
        ],
    ]
}

pub fn empty_tree_lines() -> (r: Vec<Line>)
    ensures
        strips(r@) == empty_tree(),
{
    let mut out: Vec<Line> = no_lines();
    add_line(&mut out, blank_line());
    add_line(&mut out, line1(span("  No servers yet.", Style::of(Color::Dim))));
    add_line(&mut out, blank_line());
    add_line(
        &mut out,
        line3(
            raw_span("  Press "),
            span("a", Style::of(Color::Accent).bold()),
            raw_span(" to add one."),
        ),
    );
    assert(strips(out@) =~= empty_tree());
    out
}

/// The figures of a server that are worked out in floating point.
#[derive(Debug)]
pub struct Rates {
    /// The processor load in percent, flush right in three characters.
    pub cpu: String,
    /// Bytes a second.
    pub recv: u64,
    pub trans: u64,
}

pub open spec fn summary(s: ServerState, addr: Seq<char>, rates: Rates, now: u64) -> Seq<char> {
    match s.error {
        None => match s.vitals {
            Some(v) => addr + "   cpu "@ + rates.cpu@ + "%  ram "@ + figures::size_text(
                app::less(v.total_ram, v.free_ram),
            ) + "/"@ + figures::size_text(v.total_ram) + "  ↓"@ + figures::size_text(rates.recv)
                + "/s ↑"@ + figures::size_text(rates.trans) + "/s"@,
            None => addr + "   connecting…"@,
        },
        Some(e) => match s.last_ok {
            Some(at) => addr + "   "@ + net::trouble_short(e@) + " · last seen "@
                + figures::ago_text((app::less(now, at) / 1_000_000_000) as u64) + " ago"@,
            None => addr + "   "@ + net::trouble_short(e@),
        },
    }
}

fn minus(a: u64, b: u64) -> (r: u64)
    ensures
        r == app::less(a, b),
{
    if a >= b {
        a - b
    } else {
        0
    }
}

/// One line about a server.
pub fn server_summary(s: &ServerState, addr: &str, rates: &Rates, now: u64) -> (r: String)
    ensures
        r@ == summary(*s, addr@, *rates, now),
{
    match &s.error {
        None => match &s.vitals {
            Some(v) => {
                let mut out: String = text::cat4(addr, "   cpu ", &rates.cpu, "%  ram ");
                out.append(&figures::fmt_bytes(minus(v.total_ram, v.free_ram)));
                out.append("/");
                out.append(&figures::fmt_bytes(v.total_ram));
                out.append("  ↓");
                out.append(&figures::fmt_bytes(rates.recv));
                out.append("/s ↑");
                out.append(&figures::fmt_bytes(rates.trans));
                out.append("/s");
                out
            },
            None => text::cat2(addr, "   connecting…"),
        },
        Some(e) => match s.last_ok {
            Some(at) => {
                let ago: String = figures::fmt_ago(minus(now, at) / 1_000_000_000);
                let mut out: String = text::cat5(addr, "   ", e.short(), " · last seen ", &ago);
                out.append(" ago");
                out
            },
            None => text::cat3(addr, "   ", e.short()),
        },
    }
}

/// A sign, a few words and a style for how something is doing.
#[derive(Debug)]
pub struct Status {
    pub glyph: &'static str,
    pub label: String,
    pub style: Style,
}

#[verifier::ext_equal]
pub struct Sign {
    pub glyph: Seq<char>,
    pub label: Seq<char>,
    pub style: Style,
}

impl View for Status {
    type V = Sign;

    open spec fn view(&self) -> Sign {
        Sign { glyph: self.glyph@, label: self.label@, style: self.style }
    }
}

pub open spec fn sign(glyph: Seq<char>, label: Seq<char>, style: Style) -> Sign {
    Sign { glyph, label, style }
}

fn status(glyph: &'static str, label: String, style: Style) -> (r: Status)
    ensures
        r@ == sign(glyph@, label@, style),
{
    Status { glyph, label, style }
}

pub open spec fn pid_text(pids: Seq<u32>) -> Seq<char> {
    if pids.len() > 0 {
        "pid "@ + text::decimal(pids[0] as nat)
    } else {
        "no pids"@
    }
}

pub open spec fn running_text(pids: Seq<u32>, restarts: u32) -> Seq<char> {
    if restarts > 0 {
        "running ("@ + pid_text(pids) + ", "@ + text::decimal(restarts as nat) + " restarts)"@
    } else {
        "running ("@ + pid_text(pids) + ")"@
    }
}

/// `secs` is the delay in seconds, with one decimal.
pub open spec fn backoff_text(secs: Seq<char>, restarts: u32) -> Seq<char> {
    "restarting in "@ + secs + "s ("@ + text::decimal(restarts as nat) + " restarts)"@
}

fn pid_label(pids: &Vec<u32>) -> (r: String)
    ensures
        r@ == pid_text(pids@),
{
    if pids.len() > 0 {
        text::cat2("pid ", &text::decimal_of(pids[0] as u128))
    } else {
        "no pids".to_string()
    }
}

pub(crate) fn running_label(pids: &Vec<u32>, restarts: u32) -> (r: String)
    ensures
        r@ == running_text(pids@, restarts),
{
    if restarts > 0 {
        text::cat5(
            "running (",
            &pid_label(pids),
            ", ",
            &text::decimal_of(restarts as u128),
            " restarts)",
        )
    } else {
        text::cat3("running (", &pid_label(pids), ")")
    }
}

pub(crate) fn backoff_label(secs: &str, restarts: u32) -> (r: String)
    ensures
        r@ == backoff_text(secs@, restarts),
{
    text::cat5(
        "restarting in ",
        secs,
        "s (",
        &text::decimal_of(restarts as u128),
        " restarts)",
    )
}

/// How an instance is doing, its files first: one that is half there cannot be
/// said to be stopped.
pub open spec fn instance_sign(inst: InstanceStatResponse, secs: Seq<char>) -> Sign {
    match inst.repo {
        RepoState::Provisioning => sign("⋯"@, "cloning…"@, ink(Color::Accent)),
        RepoState::CloneFailed(e) => sign(
            "✗"@,
            "clone failed: "@ + figures::headline(e@),
            ink(Color::Red),
        ),
        RepoState::Ready => match inst.run {
            RunState::NotRunning => sign("■"@, "stopped"@, ink(Color::Dim)),
            RunState::Starting => sign("↻"@, "starting…"@, ink(Color::Yellow)),
            RunState::Running { pids, restarts } => sign(
                "▶"@,
                running_text(pids@, restarts),
                ink(Color::Green),
            ),
            RunState::Backoff { restarts, .. } => sign(
                "↻"@,
                backoff_text(secs, restarts),
                ink(Color::Yellow),
            ),
            RunState::Exited { code, signal, .. } => match code {
                Some(c) => if c == 0 {
                    sign("■"@, "exited (0)"@, ink(Color::Dim))
                } else {
                    sign("✗"@, "exited ("@ + text::decimal_int(c as int) + ")"@, ink(Color::Red))
                },
                None => match signal {
                    Some(s) => sign(
                        "✗"@,
                        "killed by signal "@ + text::decimal_int(s as int),
                        ink(Color::Red),
                    ),
                    None => sign("✗"@, "exited"@, ink(Color::Red)),
                },
            },
            RunState::Stopped => sign("■"@, "stopped"@, ink(Color::Dim)),
            RunState::Failed(e) => sign("✗"@, "failed: "@ + figures::headline(e@), ink(Color::Red)),
        },
    }
}

pub fn instance_status(inst: &InstanceStatResponse, secs: &str) -> (r: Status)
    ensures
        r@ == instance_sign(*inst, secs@),
{
    match &inst.repo {
        RepoState::Provisioning => {
            return status("⋯", "cloning…".to_string(), Style::of(Color::Accent));
        },
        RepoState::CloneFailed(e) => {
            return status(
                "✗",
                text::cat2("clone failed: ", &figures::first_line(e)),
                Style::of(Color::Red),
            );
        },
        RepoState::Ready => {},
    }
    match &inst.run {
        RunState::NotRunning => status("■", "stopped".to_string(), Style::of(Color::Dim)),
        RunState::Starting => status("↻", "starting…".to_string(), Style::of(Color::Yellow)),
        RunState::Running { pids, restarts } => status(
            "▶",
            running_label(pids, *restarts),
            Style::of(Color::Green),
        ),
        RunState::Backoff { restarts, .. } => status(
            "↻",
            backoff_label(secs, *restarts),
            Style::of(Color::Yellow),
        ),
        RunState::Exited { code, signal, .. } => match code {
            Some(c) => if *c == 0 {
                status("■", "exited (0)".to_string(), Style::of(Color::Dim))
            } else {
                status(
                    "✗",
                    text::cat3("exited (", &text::decimal_of_i32(*c), ")"),
                    Style::of(Color::Red),
                )
            },
            None => match signal {
                Some(s) => status(
                    "✗",
                    text::cat2("killed by signal ", &text::decimal_of_i32(*s)),
                    Style::of(Color::Red),
                ),
                None => status("✗", "exited".to_string(), Style::of(Color::Red)),
            },
        },
        RunState::Stopped => status("■", "stopped".to_string(), Style::of(Color::Dim)),
        RunState::Failed(e) => status(
            "✗",
            text::cat2("failed: ", &figures::first_line(e)),
            Style::of(Color::Red),
        ),
    }
}

pub open spec fn minus_or_zero(a: int, b: int) -> nat {
    if a > b {
        (a - b) as nat
    } else {
        0
    }
}

/// The row of a server, its summary flush right in the given width.
pub open spec fn server_row(
    name: Seq<char>,
    addr: Seq<char>,
    s: ServerState,
    rates: Rates,
    now: u64,
    width: nat,
) -> Seq<Piece> {
    let arrow = if s.collapsed {
        "▸"@
    } else {
        "▾"@
    };
    let glyph = if app::up(s) {
        "●"@
    } else {
        "✗"@
    };
    let right = summary(s, addr, rates, now);
    let left = " "@ + arrow + " "@ + glyph + " "@ + name;
    let pad = minus_or_zero(width as int, (left.len() + right.len() + 1) as int);
    seq![
        piece(" "@ + arrow + " "@, ink(Color::Dim)),
        piece(
            glyph,
            ink(
                if app::up(s) {
                    Color::Green
                } else {
                    Color::Red
                },
            ),
        ),
        raw(" "@),
        piece(name, bold(bare())),
        raw(text::run(' ', pad + 1)),
        piece(right, ink(Color::Dim)),
    ]
}

/// The column in which the status of an instance starts.
pub const NAME_COL: usize = 30;

/// The row of an instance: its status starts in a fixed column, so that a column
/// of instances can be looked down.
pub open spec fn instance_row(inst: InstanceStatResponse, secs: Seq<char>) -> Seq<Piece> {
    let s = instance_sign(inst, secs);
    let gap = minus_or_zero(NAME_COL as int, inst.name@.len() as int);
    seq![
        raw("     "@),
        piece(s.glyph, s.style),
        raw(" "@),
        raw(inst.name@),
        raw(
            text::run(
                ' ',
                if gap < 1 {
                    1
                } else {
                    gap
                },
            ),
        ),
        piece(s.label, faint(s.style)),
    ]
}

/// A row of the landing page.
pub open spec fn row_strip(
    d: app::Desk,
    row: Row,
    rates: Rates,
    secs: Seq<char>,
    now: u64,
    width: nat,
) -> Seq<Piece> {
    match row {
        Row::Server { server } => {
            let e = d.servers[server as int];
            server_row(e.name, net::target_text(e.addr), d.states[e.id], rates, now, width)
        },
        Row::Instance { server, instance } => {
            let list = app::instances(d, d.servers[server as int].id);
            if instance < list.len() {
                instance_row(list[instance as int], secs)
            } else {
                blank()
            }
        },
    }
}

fn gap(a: usize, b: usize) -> (r: usize)
    ensures
        r == minus_or_zero(a as int, b as int),
{
    if a > b {
        a - b
    } else {
        0
    }
}

fn render_server(
    name: &str,
    addr: &str,
    s: &ServerState,
    rates: &Rates,
    now: u64,
    width: usize,
) -> (r: Line)
    requires
        width < usize::MAX,
    ensures
        r@ == server_row(name@, addr@, *s, *rates, now, width as nat),
{
    let arrow: &str = if s.collapsed {
        "▸"
    } else {
        "▾"
    };
    let up: bool = s.is_up();
    let glyph: &str = if up {
        "●"
    } else {
        "✗"
    };
    let right: String = server_summary(s, addr, rates, now);
    let mut left: String = text::cat5(" ", arrow, " ", glyph, " ");
    left.append(name);
    let m: usize = text::chars_of(&left).len();
    let n: usize = text::chars_of(&right).len();
    let used: u128 = m as u128 + n as u128 + 1;
    let pad: usize = if width as u128 > used {
        (width as u128 - used) as usize
    } else {
        0
    };
    line6(
        span(&text::cat3(" ", arrow, " "), Style::of(Color::Dim)),
        span(
            glyph,
            Style::of(
                if up {
                    Color::Green
                } else {
                    Color::Red
                },
            ),
        ),
        raw_span(" "),
        span(name, Style::plain().bold()),
        raw_span(&text::repeat(' ', pad + 1)),
        span(&right, Style::of(Color::Dim)),
    )
}

fn render_instance(inst: &InstanceStatResponse, secs: &str) -> (r: Line)
    ensures
        r@ == instance_row(*inst, secs@),
{
    let s: Status = instance_status(inst, secs);
    let len: usize = text::chars_of(&inst.name).len();
    let space: usize = gap(NAME_COL, len);
    let pad: usize = if space < 1 {
        1
    } else {
        space
    };
    line6(
        raw_span("     "),
        span(s.glyph, s.style),
        raw_span(" "),
        raw_span(&inst.name),
        raw_span(&text::repeat(' ', pad)),
        span(&s.label, s.style.faint()),
    )
}

/// One row of the landing page. `rates` are those of the row's server, `secs` the
/// restart delay of its instance.
pub fn render_row(a: &App, row: Row, rates: &Rates, secs: &str, now: u64, width: usize) -> (r: Line)
    requires
        a@.wf(),
        app::row_in_range(row, a@.servers.len() as int),
        width < usize::MAX,
    ensures
        r@ == row_strip(a@, row, *rates, secs@, now, width as nat),
{
    let at: usize = match row {
        Row::Server { server } => server,
        Row::Instance { server, .. } => server,
    };
    assert(a@.servers[at as int] == a.book.servers@[at as int]@);
    match row {
        Row::Server { .. } => {
            let e = &a.book.servers[at];
            render_server(&e.name, &e.addr.text(), a.state_of(e), rates, now, width)
        },
        Row::Instance { instance, .. } => match a.instances_of(a.book.servers[at].id) {
            Some(list) => if instance < list.len() {
                render_instance(&list[instance], secs)
            } else {
                blank_line()
            },
            None => blank_line(),
        },
    }
}

// ---- the console -------------------------------------------------------------------

pub open spec fn console_heading(m: app::Managed) -> Piece {
    if m.console_scroll == 0 {
        piece(" console "@, ink(Color::Dim))
    } else {
        piece(
            " console · scrolled back "@ + text::decimal(m.console_scroll as nat) + " "@,
            ink(Color::Accent),
        )
    }
}

pub fn console_title(m: &Manage) -> (r: Span)
    ensures
        r@ == console_heading(m@),
{
    if m.following() {
        span(" console ", Style::of(Color::Dim))
    } else {
        span(
            &text::cat3(
                " console · scrolled back ",
                &text::decimal_of(m.console_scroll as u128),
                " ",
            ),
            Style::of(Color::Accent),
        )
    }
}

pub open spec fn console_strip(l: ConsoleLine) -> Seq<Piece> {
    seq![
        piece(figures::clock_text(l.at_ms) + " "@, ink(Color::Dim)),
        piece(
            l.text@,
            match l.stream {
                Stream::Stdout => bare(),
                Stream::Stderr => ink(Color::Red),
            },
        ),
    ]
}

pub fn console_line(l: &ConsoleLine) -> (r: Line)
    ensures
        r@ == console_strip(*l),
{
    line2(
        span(&text::cat2(&figures::fmt_clock(l.at_ms), " "), Style::of(Color::Dim)),
        span(
            &l.text,
            match l.stream {
                Stream::Stdout => Style::plain(),
                Stream::Stderr => Style::of(Color::Red),
            },
        ),
    )
}

/// Where the lines in view end: as many lines back as was scrolled.
pub open spec fn view_end(m: app::Managed) -> int {
    if m.console.len() > m.console_scroll {
        m.console.len() - m.console_scroll
    } else {
        0
    }
}

/// Where they start, given the rows that there are for them.
pub open spec fn view_start(m: app::Managed, rows: nat) -> int {
    let capacity = if m.console_dropped > 0 && rows > 0 {
        rows - 1
    } else {
        rows as int
    };
    if view_end(m) > capacity {
        view_end(m) - capacity
    } else {
        0
    }
}

/// What the console shows: a note of what is gone, and as many lines as fit.
pub open spec fn console_view(m: app::Managed, rows: nat) -> Seq<Seq<Piece>> {
    match m.console_error {
        Some(e) => seq![seq![piece("no console: "@ + e, ink(Color::Red))]],
        None => {
            let note = if m.console_dropped > 0 {
                seq![
                    seq![
                        piece(
                            "… "@ + text::decimal(m.console_dropped as nat)
                                + " earlier lines discarded"@,
                            italic(ink(Color::Dim)),
                        ),
                    ],
                ]
            } else {
                seq![]
            };
            let none = if m.console.len() == 0 {
                seq![seq![piece("no output yet"@, ink(Color::Dim))]]
            } else {
                seq![]
            };
            note + none + m.console.subrange(view_start(m, rows), view_end(m)).map_values(
                |l: ConsoleLine| console_strip(l),
            )
        },
    }
}

pub fn console_lines(m: &Manage, rows: usize) -> (r: Vec<Line>)
    ensures
        strips(r@) == console_view(m@, rows as nat),
{
    let mut out: Vec<Line> = no_lines();
    match &m.console_error {
        Some(e) => {
            add_line(
                &mut out,
                line1(span(&text::cat2("no console: ", e), Style::of(Color::Red))),
            );
            assert(strips(out@) =~= console_view(m@, rows as nat));
            return out;
        },
        None => {},
    }
    let noted: bool = m.console_dropped > 0;
    if noted {
        add_line(
            &mut out,
            line1(
                span(
                    &text::cat3(
                        "… ",
                        &text::decimal_of(m.console_dropped as u128),
                        " earlier lines discarded",
                    ),
                    Style::of(Color::Dim).italic(),
                ),
            ),
        );
    }
    let capacity: usize = if noted && rows > 0 {
        rows - 1
    } else {
        rows
    };
    let end: usize = gap(m.console.len(), m.console_scroll);
    let start: usize = gap(end, capacity);
    if m.console.len() == 0 {
        add_line(&mut out, line1(span("no output yet", Style::of(Color::Dim))));
    }
    let ghost head = strips(out@);
    let ghost show = |l: ConsoleLine| console_strip(l);
    let mut i: usize = start;
    assert(m.console@.subrange(start as int, start as int).map_values(show) =~= seq![]);
    assert(head + Seq::<Seq<Piece>>::empty() =~= head);
    while i < end
        invariant
            start <= i <= end,
            end <= m.console@.len(),
            show == (|l: ConsoleLine| console_strip(l)),
            strips(out@) == head + m.console@.subrange(start as int, i as int).map_values(show),
        decreases end - i,
    {
        let ghost before = strips(out@);
        add_line(&mut out, console_line(&m.console[i]));
        i = i + 1;
        assert(strips(out@) =~= head + m.console@.subrange(start as int, i as int).map_values(
            show,
        ));
    }
    assert(strips(out@) =~= console_view(m@, rows as nat));
    out
}

// ---- the side bar ------------------------------------------------------------------

/// A labelled bar: so many of eight cells are filled.
pub open spec fn meter_strip(label: Seq<char>, filled: nat, color: Color, value: Seq<char>) -> Seq<
    Piece,
> {
    seq![
        piece(text::column(label, 5), ink(Color::Dim)),
        piece(text::run('▓', filled), ink(color)),
        piece(text::run('░', (8 - filled) as nat), ink(Color::Dim)),
        raw(" "@ + value),
    ]
}

pub fn meter(label: &str, filled: usize, color: Color, value: &str) -> (r: Line)
    requires
        filled <= 8,
    ensures
        r@ == meter_strip(label@, filled as nat, color, value@),
{
    line4(
        span(&text::in_column(label, 5), Style::of(Color::Dim)),
        span(&text::repeat('▓', filled), Style::of(color)),
        span(&text::repeat('░', 8 - filled), Style::of(Color::Dim)),
        raw_span(&text::cat2(" ", value)),
    )
}

pub open spec fn net_strip(recv: u64, trans: u64) -> Seq<Piece> {
    seq![
        piece("net  "@, ink(Color::Dim)),
        raw(
            "↓"@ + figures::size_text(recv) + "/s ↑"@ + figures::size_text(trans) + "/s"@,
        ),
    ]
}

/// The network line of the side bar.
pub fn net_line(recv: u64, trans: u64) -> (r: Line)
    ensures
        r@ == net_strip(recv, trans),
{
    line2(
        span("net  ", Style::of(Color::Dim)),
        raw_span(
            &text::cat5(
                "↓",
                &figures::fmt_bytes(recv),
                "/s ↑",
                &figures::fmt_bytes(trans),
                "/s",
            ),
        ),
    )
}

/// What is said below the meters, or in their place.
pub open spec fn vitals_note(s: ServerState) -> Option<Piece> {
    match s.error {
        Some(e) => if s.vitals is Some {
            Some(piece("stale — server unreachable"@, ink(Color::Red)))
        } else {
            Some(piece(net::trouble_short(e@), ink(Color::Red)))
        },
        None => if s.vitals is Some {
            None
        } else {
            Some(piece("connecting…"@, ink(Color::Dim)))
        },
    }
}

pub fn vitals_remark(s: &ServerState) -> (r: Option<Span>)
    ensures
        match r {
            Some(p) => vitals_note(*s) == Some(p@),
            None => vitals_note(*s) is None,
        },
{
    match &s.error {
        Some(e) => if s.vitals.is_some() {
            Some(span("stale — server unreachable", Style::of(Color::Red)))
        } else {
            Some(span(e.short(), Style::of(Color::Red)))
        },
        None => if s.vitals.is_some() {
            None
        } else {
            Some(span("connecting…", Style::of(Color::Dim)))
        },
    }
}

pub open spec fn sidebar_strip(inst: InstanceStatResponse, secs: Seq<char>) -> Seq<Piece> {
    let s = instance_sign(inst, secs);
    seq![piece(" "@ + s.glyph + " "@, s.style), raw(inst.name@)]
}

/// An instance in the side bar.
pub fn sidebar_line(inst: &InstanceStatResponse, secs: &str) -> (r: Line)
    ensures
        r@ == sidebar_strip(*inst, secs@),
{
    let s: Status = instance_status(inst, secs);
    line2(span(&text::cat3(" ", s.glyph, " "), s.style), raw_span(&inst.name))
}

// ---- the details -------------------------------------------------------------------

pub open spec fn field_strip(label: Seq<char>, value: Seq<char>, style: Style) -> Seq<Piece> {
    seq![piece(text::column(label, 10), ink(Color::Dim)), piece(value, style)]
}

fn styled_field(label: &str, value: &str, style: Style) -> (r: Line)
    ensures
        r@ == field_strip(label@, value@, style),
{
    line2(span(&text::in_column(label, 10), Style::of(Color::Dim)), span(value, style))
}

/// How a run is doing, at more length.
pub open spec fn run_sign(run: RunState, secs: Seq<char>) -> Sign {
    match run {
        RunState::NotRunning => sign("■"@, "not running"@, ink(Color::Dim)),
        RunState::Starting => sign("↻"@, "starting…"@, ink(Color::Yellow)),
        RunState::Running { restarts, .. } => sign(
            "▶"@,
            if restarts > 0 {
                "running after "@ + text::decimal(restarts as nat) + " restarts"@
            } else {
                "running"@
            },
            ink(Color::Green),
        ),
        RunState::Backoff { restarts, .. } => sign(
            "↻"@,
            backoff_text(secs, restarts),
            ink(Color::Yellow),
        ),
        RunState::Exited { code, signal, restarts } => {
            let how = match code {
                Some(c) => if c == 0 {
                    "exited cleanly"@
                } else {
                    "exited with code "@ + text::decimal_int(c as int)
                },
                None => match signal {
                    Some(s) => "killed by signal "@ + text::decimal_int(s as int),
                    None => "exited"@,
                },
            };
            let clean = code == Some(0i32);
            sign(
                if clean {
                    "■"@
                } else {
                    "✗"@
                },
                how + " after "@ + text::decimal(restarts as nat) + " restarts"@,
                ink(
                    if clean {
                        Color::Dim
                    } else {
                        Color::Red
                    },
                ),
            )
        },
        RunState::Stopped => sign("■"@, "stopped"@, ink(Color::Dim)),
        RunState::Failed(e) => sign("✗"@, "failed to start: "@ + e@, ink(Color::Red)),
    }
}

pub fn run_summary(run: &RunState, secs: &str) -> (r: Status)
    ensures
        r@ == run_sign(*run, secs@),
{
    match run {
        RunState::NotRunning => status("■", "not running".to_string(), Style::of(Color::Dim)),
        RunState::Starting => status("↻", "starting…".to_string(), Style::of(Color::Yellow)),
        RunState::Running { restarts, .. } => {
            let label: String = if *restarts > 0 {
                text::cat3("running after ", &text::decimal_of(*restarts as u128), " restarts")
            } else {
                "running".to_string()
            };
            status("▶", label, Style::of(Color::Green))
        },
        RunState::Backoff { restarts, .. } => status(
            "↻",
            backoff_label(secs, *restarts),
            Style::of(Color::Yellow),
        ),
        RunState::Exited { code, signal, restarts } => {
            let mut clean: bool = false;
            let how: String = match code {
                Some(c) => if *c == 0 {
                    clean = true;
                    "exited cleanly".to_string()
                } else {
                    text::cat2("exited with code ", &text::decimal_of_i32(*c))
                },
                None => match signal {
                    Some(s) => text::cat2("killed by signal ", &text::decimal_of_i32(*s)),
                    None => "exited".to_string(),
                },
            };
            let label: String = text::cat4(
                &how,
                " after ",
                &text::decimal_of(*restarts as u128),
                " restarts",
            );
            if clean {
                status("■", label, Style::of(Color::Dim))
            } else {
                status("✗", label, Style::of(Color::Red))
            }
        },
        RunState::Stopped => status("■", "stopped".to_string(), Style::of(Color::Dim)),
        RunState::Failed(e) => status(
            "✗",
            text::cat2("failed to start: ", e),
            Style::of(Color::Red),
        ),
    }
}

pub open spec fn checkout_strip(repo: RepoState) -> Seq<Piece> {
    match repo {
        RepoState::Ready => field_strip("checkout"@, "ready"@, ink(Color::Green)),
        RepoState::Provisioning => field_strip("checkout"@, "cloning…"@, ink(Color::Accent)),
        RepoState::CloneFailed(e) => field_strip(
            "checkout"@,
            "clone failed: "@ + e@,
            ink(Color::Red),
        ),
    }
}

pub open spec fn policy_text(policy: RetryPolicy, autostart: bool) -> Seq<char> {
    let how = match policy {
        RetryPolicy::Never => "never restart"@,
        RetryPolicy::OnCrash => "restart on crash"@,
        RetryPolicy::Always => "always restart"@,
        RetryPolicy::Retry(n) => "restart up to "@ + text::decimal(n as nat) + "×"@,
    };
    how + " · "@ + (if autostart {
        "autostart on"@
    } else {
        "autostart off"@
    })
}

pub open spec fn command_text(c: InstanceConfig) -> Seq<char> {
    if c.args@.len() == 0 {
        c.command@
    } else {
        c.command@ + " "@ + instance_form::args_written(text::views(c.args@))
    }
}

/// The process numbers, one after another.
pub open spec fn pid_list(pids: Seq<u32>) -> Seq<char> {
    text::joined(pids.map_values(|p: u32| text::decimal(p as nat)), ", "@)
}

/// `cpu` is the processor time in seconds, with one decimal.
pub open spec fn usage_text(stats: GroupStats, cpu: Seq<char>) -> Seq<char> {
    text::decimal(stats.processes as nat) + " processes"@ + (match stats.cpu_time_ms {
        Some(_) => " · cpu "@ + cpu + "s"@,
        None => seq![],
    }) + (match stats.peak_memory_bytes {
        Some(b) => " · peak "@ + figures::size_text(b),
        None => seq![],
    })
}

/// What is said of terminals.
pub open spec fn terminal_strips(label: Seq<char>) -> Seq<Seq<Piece>> {
    seq![
        blank(),
        seq![
            piece("terminals — "@, ink(Color::Dim)),
            piece("s"@, ink(Color::Accent)),
            piece(" shell · "@, ink(Color::Dim)),
            piece("a"@, ink(Color::Accent)),
            piece(" attach, or from another console:"@, ink(Color::Dim)),
        ],
        seq![
            raw("  "@),
            piece("client shell "@ + label, ink(Color::Accent)),
            piece("    new shell in the checkout"@, ink(Color::Dim)),
        ],
        seq![
            raw("  "@),
            piece("client attach "@ + label, ink(Color::Accent)),
            piece("   the running process"@, ink(Color::Dim)),
        ],
        blank(),
    ]
}

/// Everything about an instance. `secs` is its restart delay and `cpu` its
/// processor time, in seconds with one decimal.
pub open spec fn detail_view(
    server: Seq<char>,
    detail: InstanceStatus,
    secs: Seq<char>,
    cpu: Seq<char>,
) -> Seq<Seq<Piece>> {
    let c = detail.config;
    let run = run_sign(detail.run, secs);
    let pids = match detail.run {
        RunState::Running { pids, .. } => if pids@.len() > 0 {
            seq![field_strip("pids"@, pid_list(pids@), bare())]
        } else {
            seq![]
        },
        _ => seq![],
    };
    let usage = match detail.stats {
        Some(stats) => seq![field_strip("usage"@, usage_text(stats, cpu), bare())],
        None => seq![],
    };
    let env = if c.env.entries@.len() > 0 {
        seq![
            field_strip(
                "env"@,
                instance_form::settings(instance::env_pairs(order::sorted(c.env.entries@))),
                bare(),
            ),
        ]
    } else {
        seq![]
    };
    seq![
        field_strip("repo"@, instance_form::source_line(c.source@), bare()),
        checkout_strip(detail.repo),
        field_strip("command"@, command_text(c), bare()),
        field_strip("state"@, run.glyph + " "@ + run.label, run.style),
    ] + pids + usage + seq![
        field_strip("policy"@, policy_text(c.retry_policy, c.autostart), bare()),
    ] + env + terminal_strips(server + "/"@ + c.name@) + seq![
        field_strip("dir"@, detail.repo_dir@, bare()),
    ]
}

fn pid_texts(pids: &Vec<u32>) -> (r: String)
    ensures
        r@ == pid_list(pids@),
{
    let mut out: Vec<String> = Vec::new();
    let mut i: usize = 0;
    while i < pids.len()
        invariant
            i <= pids.len(),
            out@.len() == i,
            forall|k: int| 0 <= k < i ==> (#[trigger] out@[k])@ == text::decimal(pids@[k] as nat),
        decreases pids.len() - i,
    {
        out.push(text::decimal_of(pids[i] as u128));
        i = i + 1;
    }
    assert(text::views(out@) =~= pids@.map_values(|p: u32| text::decimal(p as nat)));
    text::join(&out, ", ")
}

fn usage(stats: &GroupStats, cpu: &str) -> (r: String)
    ensures
        r@ == usage_text(*stats, cpu@),
{
    let mut out: String = text::cat2(&text::decimal_of(stats.processes as u128), " processes");
    match stats.cpu_time_ms {
        Some(_) => {
            out.append(&text::cat3(" · cpu ", cpu, "s"));
        },
        None => {},
    }
    match stats.peak_memory_bytes {
        Some(b) => {
            out.append(&text::cat2(" · peak ", &figures::fmt_bytes(b)));
        },
        None => {},
    }
    assert(out@ =~= usage_text(*stats, cpu@));
    out
}

fn policy(p: RetryPolicy, autostart: bool) -> (r: String)
    ensures
        r@ == policy_text(p, autostart),
{
    let how: String = match p {
        RetryPolicy::Never => "never restart".to_string(),
        RetryPolicy::OnCrash => "restart on crash".to_string(),
        RetryPolicy::Always => "always restart".to_string(),
        RetryPolicy::Retry(n) => text::cat3("restart up to ", &text::decimal_of(n as u128), "×"),
    };
    text::cat3(
        &how,
        " · ",
        if autostart {
            "autostart on"
        } else {
            "autostart off"
        },
    )
}

fn checkout_line(repo: &RepoState) -> (r: Line)
    ensures
        r@ == checkout_strip(*repo),
{
    match repo {
        RepoState::Ready => styled_field("checkout", "ready", Style::of(Color::Green)),
        RepoState::Provisioning => styled_field("checkout", "cloning…", Style::of(Color::Accent)),
        RepoState::CloneFailed(e) => styled_field(
            "checkout",
            &text::cat2("clone failed: ", e),
            Style::of(Color::Red),
        ),
    }
}

fn add_terminal_lines(out: &mut Vec<Line>, label: &str)
    ensures
        strips(final(out)@) == strips(old(out)@) + terminal_strips(label@),
{
    add_line(out, blank_line());
    add_line(
        out,
        line5(
            span("terminals — ", Style::of(Color::Dim)),
            span("s", Style::of(Color::Accent)),
            span(" shell · ", Style::of(Color::Dim)),
            span("a", Style::of(Color::Accent)),
            span(" attach, or from another console:", Style::of(Color::Dim)),
        ),
    );
    add_line(
        out,
        line3(
            raw_span("  "),
            span(&text::cat2("client shell ", label), Style::of(Color::Accent)),
            span("    new shell in the checkout", Style::of(Color::Dim)),
        ),
    );
    add_line(
        out,
        line3(
            raw_span("  "),
            span(&text::cat2("client attach ", label), Style::of(Color::Accent)),
            span("   the running process", Style::of(Color::Dim)),
        ),
    );
    add_line(out, blank_line());
    assert(strips(out@) =~= strips(old(out)@) + terminal_strips(label@));
}

/// Everything about an instance, line by line.
pub fn detail_lines(server: &str, detail: &InstanceStatus, secs: &str, cpu: &str) -> (r: Vec<Line>)
    ensures
        strips(r@) == detail_view(server@, *detail, secs@, cpu@),
{
    let c: &InstanceConfig = &detail.config;
    let mut out: Vec<Line> = no_lines();
    add_line(&mut out, styled_field("repo", &instance_form::fmt_source(&c.source), Style::plain()));
    add_line(&mut out, checkout_line(&detail.repo));
    let command: String = if c.args.len() == 0 {
        c.command.clone()
    } else {
        text::cat3(&c.command, " ", &instance_form::fmt_args(&c.args))
    };
    add_line(&mut out, styled_field("command", &command, Style::plain()));
    let run: Status = run_summary(&detail.run, secs);
    add_line(
        &mut out,
        styled_field("state", &text::cat3(run.glyph, " ", &run.label), run.style),
    );
    match &detail.run {
        RunState::Running { pids, .. } => {
            if pids.len() > 0 {
                add_line(&mut out, styled_field("pids", &pid_texts(pids), Style::plain()));
            }
        },
        _ => {},
    }
    match &detail.stats {
        Some(stats) => {
            add_line(&mut out, styled_field("usage", &usage(stats, cpu), Style::plain()));
        },
        None => {},
    }
    add_line(
        &mut out,
        styled_field("policy", &policy(c.retry_policy, c.autostart), Style::plain()),
    );
    if c.env.entries.len() > 0 {
        add_line(&mut out, styled_field("env", &instance_form::fmt_env(&c.env), Style::plain()));
    }
    add_terminal_lines(&mut out, &text::cat3(server, "/", &c.name));
    add_line(&mut out, styled_field("dir", &detail.repo_dir, Style::plain()));
    assert(strips(out@) =~= detail_view(server@, *detail, secs@, cpu@));
    out
}

/// What the detail pane shows.
pub open spec fn detail_pane(
    d: app::Desk,
    m: app::Managed,
    secs: Seq<char>,
    cpu: Seq<char>,
) -> Seq<Seq<Piece>> {
    match m.detail {
        Some(detail) => detail_view(app::server_name(d, m.server), detail, secs, cpu),
        None => match m.detail_error {
            Some(e) => seq![seq![piece("could not read this instance: "@ + e, ink(Color::Red))]],
            None => seq![seq![piece("loading…"@, ink(Color::Dim))]],
        },
    }
}

pub fn detail_pane_lines(a: &App, m: &Manage, secs: &str, cpu: &str) -> (r: Vec<Line>)
    ensures
        strips(r@) == detail_pane(a@, m@, secs@, cpu@),
{
    match &m.detail {
        Some(detail) => detail_lines(&a.name_of(m.server), detail, secs, cpu),
        None => {
            let mut out: Vec<Line> = no_lines();
            match &m.detail_error {
                Some(e) => add_line(
                    &mut out,
                    line1(
                        span(&text::cat2("could not read this instance: ", e), Style::of(Color::Red)),
                    ),
                ),
                None => add_line(&mut out, line1(span("loading…", Style::of(Color::Dim)))),
            }
            assert(strips(out@) =~= detail_pane(a@, m@, secs@, cpu@));
            out
        },
    }
}

// ---- the file browser --------------------------------------------------------------

/// The heading of a panel, in the given width.
pub open spec fn panel_heading(b: app::Browsing, side: Side, width: nat) -> Piece {
    let p = b.at(side);
    let focused = b.focus == side;
    let color = ink(
        if focused {
            Color::Accent
        } else {
            Color::Dim
        },
    );
    let title = " "@ + keymap::side_name(side) + " · "@ + figures::shortened(
        p.cwd,
        minus_or_zero(width as int, 14),
    ) + " "@;
    piece(
        if p.loading {
            title + "… "@
        } else {
            title
        },
        if focused {
            bold(color)
        } else {
            color
        },
    )
}

pub fn panel_title(b: &Browse, side: Side, width: usize) -> (r: Span)
    ensures
        r@ == panel_heading(b@, side, width as nat),
{
    let p: &Panel = b.panel(side);
    let focused: bool = b.focus == side;
    let style: Style = if focused {
        Style::of(Color::Accent).bold()
    } else {
        Style::of(Color::Dim)
    };
    let mut title: String = text::cat5(
        " ",
        side.name(),
        " · ",
        &figures::shorten_path(&p.cwd, gap(width, 14)),
        " ",
    );
    if p.loading {
        title.append("… ");
    }
    span(&title, style)
}

/// How many names are marked, where some are.
pub fn panel_footer(p: &Panel) -> (r: Option<Span>)
    ensures
        match r {
            Some(s) => p@.selected.len() > 0 && s@ == piece(
                " "@ + text::decimal(p@.selected.len()) + " marked "@,
                ink(Color::Accent),
            ),
            None => p@.selected.len() == 0,
        },
{
    assert(p@.selected.len() == p.selected@.len());
    if p.selected.len() == 0 {
        None
    } else {
        Some(
            span(
                &text::cat3(" ", &text::decimal_of(p.selected.len() as u128), " marked "),
                Style::of(Color::Accent),
            ),
        )
    }
}

pub open spec fn entry_strip(e: DirEntry, marked: bool, width: nat) -> Seq<Piece> {
    let name = if e.is_dir {
        e.name@ + "/"@
    } else {
        e.name@
    };
    let size = if e.is_dir {
        ""@
    } else {
        figures::size_text(e.size)
    };
    let space = minus_or_zero(width as int, (2 + name.len() + size.len()) as int);
    seq![
        piece(
            (if marked {
                "▪"@
            } else {
                " "@
            }) + " "@,
            ink(Color::Accent),
        ),
        piece(
            name,
            if e.is_dir {
                ink(Color::Accent)
            } else {
                bare()
            },
        ),
        raw(
            text::run(
                ' ',
                if space < 1 {
                    1
                } else {
                    space
                },
            ),
        ),
        piece(size, ink(Color::Dim)),
    ]
}

pub fn panel_row(e: &DirEntry, marked: bool, width: usize) -> (r: Line)
    ensures
        r@ == entry_strip(*e, marked, width as nat),
{
    let name: String = if e.is_dir {
        text::cat2(&e.name, "/")
    } else {
        e.name.clone()
    };
    let size: String = if e.is_dir {
        "".to_string()
    } else {
        figures::fmt_bytes(e.size)
    };
    let m: usize = text::chars_of(&name).len();
    let n: usize = text::chars_of(&size).len();
    let used: u128 = 2 + m as u128 + n as u128;
    let pad: usize = if width as u128 > used {
        (width as u128 - used) as usize
    } else {
        1
    };
    let marker: &str = if marked {
        "▪"
    } else {
        " "
    };
    line4(
        span(&text::cat2(marker, " "), Style::of(Color::Accent)),
        span(
            &name,
            if e.is_dir {
                Style::of(Color::Accent)
            } else {
                Style::plain()
            },
        ),
        raw_span(&text::repeat(' ', pad)),
        span(&size, Style::of(Color::Dim)),
    )
}

/// The names that are on their way here and not yet listed.
pub open spec fn ghosts(p: browse::Shown, n: int) -> Seq<Seq<Piece>>
    decreases n,
{
    if n <= 0 {
        seq![]
    } else {
        let before = ghosts(p, n - 1);
        if browse::names_of(p.entries).contains(p.incoming[n - 1]) {
            before
        } else {
            before.push(seq![piece("⇣ "@ + p.incoming[n - 1], italic(ink(Color::Dim)))])
        }
    }
}

/// What a panel lists.
pub open spec fn panel_view(p: browse::Shown, width: nat) -> Seq<Seq<Piece>> {
    match p.error {
        Some(e) => seq![seq![piece(figures::headline(e), ink(Color::Red))]],
        None => {
            let listed = p.entries.map_values(
                |e: DirEntry| entry_strip(e, p.selected.contains(e.name@), width),
            );
            let all = listed + ghosts(p, p.incoming.len() as int);
            if all.len() == 0 {
                seq![
                    seq![
                        piece(
                            if p.loading {
                                "loading…"@
                            } else {
                                "empty"@
                            },
                            ink(Color::Dim),
                        ),
                    ],
                ]
            } else {
                all
            }
        },
    }
}

fn lists(entries: &Vec<DirEntry>, name: &str) -> (r: bool)
    ensures
        r == browse::names_of(entries@).contains(name@),
{
    let mut i: usize = 0;
    while i < entries.len()
        invariant
            i <= entries.len(),
            forall|k: int| 0 <= k < i ==> (#[trigger] entries@[k]).name@ != name@,
        decreases entries.len() - i,
    {
        if text::same(&entries[i].name, name) {
            assert(browse::names_of(entries@)[i as int] == name@);
            return true;
        }
        i = i + 1;
    }
    assert forall|k: int| 0 <= k < browse::names_of(entries@).len() implies browse::names_of(
        entries@,
    )[k] != name@ by {
        assert(browse::names_of(entries@)[k] == entries@[k].name@);
    }
    false
}

/// What a panel lists, line by line.
pub fn panel_lines(p: &Panel, width: usize) -> (r: Vec<Line>)
    ensures
        strips(r@) == panel_view(p@, width as nat),
{
    let mut out: Vec<Line> = no_lines();
    match &p.error {
        Some(e) => {
            add_line(&mut out, line1(span(&figures::first_line(e), Style::of(Color::Red))));
            assert(strips(out@) =~= panel_view(p@, width as nat));
            return out;
        },
        None => {},
    }
    let ghost show = |e: DirEntry| entry_strip(e, p@.selected.contains(e.name@), width as nat);
    let mut i: usize = 0;
    assert(p.entries@.take(0).map_values(show) =~= seq![]);
    while i < p.entries.len()
        invariant
            i <= p.entries.len(),
            show == (|e: DirEntry|
                entry_strip(e, p@.selected.contains(e.name@), width as nat)),
            strips(out@) == p.entries@.take(i as int).map_values(show),
        decreases p.entries.len() - i,
    {
        let marked: bool = browse::holds(&p.selected, &p.entries[i].name);
        add_line(&mut out, panel_row(&p.entries[i], marked, width));
        i = i + 1;
        assert(strips(out@) =~= p.entries@.take(i as int).map_values(show));
    }
    assert(p.entries@.take(i as int) =~= p.entries@);
    let ghost listed = strips(out@);
    let mut j: usize = 0;
    assert(listed + Seq::<Seq<Piece>>::empty() =~= listed);
    while j < p.incoming.len()
        invariant
            j <= p.incoming.len(),
            strips(out@) == listed + ghosts(p@, j as int),
        decreases p.incoming.len() - j,
    {
        assert(p@.incoming[j as int] == p.incoming@[j as int]@);
        let ghost before = ghosts(p@, j as int);
        if !lists(&p.entries, &p.incoming[j]) {
            add_line(
                &mut out,
                line1(span(&text::cat2("⇣ ", &p.incoming[j]), Style::of(Color::Dim).italic())),
            );
        }
        j = j + 1;
        assert(strips(out@) =~= listed + ghosts(p@, j as int));
    }
    assert(p@.incoming.len() == p.incoming@.len());
    assert(strips(out@).len() == out@.len());
    if out.len() == 0 {
        let said: &str = if p.loading {
            "loading…"
        } else {
            "empty"
        };
        add_line(&mut out, line1(span(said, Style::of(Color::Dim))));
        assert(strips(out@) =~= panel_view(p@, width as nat));
    }
    out
}

/// How far a transfer is. Of 24 cells `filled` are full; `percent` is flush right
/// in three characters.
pub open spec fn transfer_strip(t: Option<app::Move>, filled: nat, percent: Seq<char>) -> Seq<Piece> {
    match t {
        None => seq![
            piece(
                " tab switches panels · space marks · c copies to the other panel"@,
                ink(Color::Dim),
            ),
        ],
        Some(t) => match t.total {
            Some(total) => if total > 0 {
                seq![
                    piece(" "@ + t.label + "  "@, ink(Color::Accent)),
                    piece(text::run('▓', filled), ink(Color::Accent)),
                    piece(text::run('░', (24 - filled) as nat), ink(Color::Dim)),
                    raw(
                        " "@ + percent + "%  "@ + (if t.done >= total {
                            "unpacking…"@
                        } else {
                            figures::size_text(t.done) + "/"@ + figures::size_text(total)
                        }),
                    ),
                ]
            } else {
                seq![piece(" "@ + t.label + "  packing…"@, ink(Color::Accent))]
            },
            None => seq![piece(" "@ + t.label + "  packing…"@, ink(Color::Accent))],
        },
    }
}

pub fn transfer_line(b: &Browse, filled: usize, percent: &str) -> (r: Line)
    requires
        filled <= 24,
    ensures
        r@ == transfer_strip(b@.transfer, filled as nat, percent@),
{
    match &b.transfer {
        None => line1(
            span(
                " tab switches panels · space marks · c copies to the other panel",
                Style::of(Color::Dim),
            ),
        ),
        Some(t) => {
            let total: u64 = match t.total {
                Some(total) => total,
                None => 0,
            };
            if total > 0 {
                let tail: String = if t.done >= total {
                    "unpacking…".to_string()
                } else {
                    text::cat3(&figures::fmt_bytes(t.done), "/", &figures::fmt_bytes(total))
                };
                line4(
                    span(&text::cat3(" ", &t.label, "  "), Style::of(Color::Accent)),
                    span(&text::repeat('▓', filled), Style::of(Color::Accent)),
                    span(&text::repeat('░', 24 - filled), Style::of(Color::Dim)),
                    raw_span(&text::cat4(" ", percent, "%  ", &tail)),
                )
            } else {
                line1(span(&text::cat3(" ", &t.label, "  packing…"), Style::of(Color::Accent)))
            }
        },
    }
}

// ---- the bottom of the screen ------------------------------------------------------

pub open spec fn status_strip(toast: Option<app::Note>) -> Seq<Piece> {
    match toast {
        Some(t) => {
            let (marker, color) = match t.kind {
                ToastKind::Info => ("·"@, Color::Accent),
                ToastKind::Error => ("!"@, Color::Red),
            };
            seq![
                piece(" "@ + marker + " "@, bold(ink(color))),
                piece(text::on_one_line(t.text), ink(color)),
            ]
        },
        None => blank(),
    }
}

pub fn status_line(a: &App) -> (r: Line)
    ensures
        r@ == status_strip(a@.toast),
{
    match &a.toast {
        Some(t) => {
            let (marker, color): (&str, Color) = match t.kind {
                ToastKind::Info => ("·", Color::Accent),
                ToastKind::Error => ("!", Color::Red),
            };
            line2(
                span(&text::cat3(" ", marker, " "), Style::of(color).bold()),
                span(&text::flatten(&t.text), Style::of(color)),
            )
        },
        None => blank_line(),
    }
}

/// Keys with what they do.
pub type KeyTable = Vec<(&'static str, &'static str)>;

pub open spec fn table_view(t: Seq<(&'static str, &'static str)>) -> Seq<(Seq<char>, Seq<char>)> {
    t.map_values(|e: (&'static str, &'static str)| (e.0@, e.1@))
}

pub open spec fn screen_keys(s: app::Scene) -> Seq<(Seq<char>, Seq<char>)> {
    match s {
        app::Scene::Landing => seq![
            ("↑↓"@, "move"@),
            ("enter"@, "open"@),
            ("a"@, "add server"@),
            ("n"@, "new instance"@),
            ("e"@, "edit"@),
            ("d"@, "remove"@),
            ("r"@, "refresh"@),
            ("?"@, "help"@),
            ("q"@, "quit"@),
        ],
        app::Scene::Manage(_) => seq![
            ("↑↓"@, "instance"@),
            ("pgup/pgdn"@, "console"@),
            ("r"@, "start"@),
            ("x"@, "stop"@),
            ("k"@, "kill"@),
            ("u"@, "update repo"@),
            ("s"@, "shell"@),
            ("a"@, "attach"@),
            ("b"@, "files"@),
            ("e"@, "edit"@),
            ("D"@, "remove"@),
            ("?"@, "help"@),
            ("esc"@, "back"@),
        ],
        app::Scene::Browse(_) => seq![
            ("tab"@, "panel"@),
            ("↑↓"@, "move"@),
            ("enter"@, "open"@),
            ("bksp"@, "up"@),
            ("space"@, "mark"@),
            ("c"@, "copy"@),
            ("r"@, "reload"@),
            ("?"@, "help"@),
            ("esc"@, "back"@),
        ],
    }
}

fn keys_of(s: &Screen) -> (r: KeyTable)
    ensures
        table_view(r@) == screen_keys(s@),
{
    let out: KeyTable = match s {
        Screen::Landing => vec![
            ("↑↓", "move"),
            ("enter", "open"),
            ("a", "add server"),
            ("n", "new instance"),
            ("e", "edit"),
            ("d", "remove"),
            ("r", "refresh"),
            ("?", "help"),
            ("q", "quit"),
        ],
        Screen::Manage(_) => vec![
            ("↑↓", "instance"),
            ("pgup/pgdn", "console"),
            ("r", "start"),
            ("x", "stop"),
            ("k", "kill"),
            ("u", "update repo"),
            ("s", "shell"),
            ("a", "attach"),
            ("b", "files"),
            ("e", "edit"),
            ("D", "remove"),
            ("?", "help"),
            ("esc", "back"),
        ],
        Screen::Browse(_) => vec![
            ("tab", "panel"),
            ("↑↓", "move"),
            ("enter", "open"),
            ("bksp", "up"),
            ("space", "mark"),
            ("c", "copy"),
            ("r", "reload"),
            ("?", "help"),
            ("esc", "back"),
        ],
    };
    assert(table_view(out@) =~= screen_keys(s@));
    out
}

/// The keys on one line, each with what it does.
pub open spec fn keys_strip(t: Seq<(Seq<char>, Seq<char>)>, n: int) -> Seq<Piece>
    decreases n,
{
    if n <= 0 {
        seq![raw(" "@)]
    } else {
        keys_strip(t, n - 1).push(piece(t[n - 1].0, ink(Color::Accent))).push(
            piece(" "@ + t[n - 1].1 + "   "@, ink(Color::Dim)),
        )
    }
}

pub fn keys_line(a: &App) -> (r: Line)
    requires
        a@.wf(),
    ensures
        ({
            let t = screen_keys(a@.screens.last());
            r@ == keys_strip(t, t.len() as int)
        }),
{
    let table: KeyTable = keys_of(a.screen());
    let ghost t = table_view(table@);
    let mut out: Line = line1(raw_span(" "));
    let mut i: usize = 0;
    while i < table.len()
        invariant
            i <= table.len(),
            t == table_view(table@),
            out@ == keys_strip(t, i as int),
        decreases table.len() - i,
    {
        assert(t[i as int] == (table@[i as int].0@, table@[i as int].1@));
        add_span(&mut out, span(table[i].0, Style::of(Color::Accent)));
        add_span(
            &mut out,
            span(&text::cat3(" ", table[i].1, "   "), Style::of(Color::Dim)),
        );
        i = i + 1;
    }
    assert(t.len() == table@.len());
    out
}

// ---- what opens on top -------------------------------------------------------------

pub open spec fn label_strip(e: form::Entry, focused: bool) -> Seq<Piece> {
    let label = seq![
        piece(
            e.label,
            if focused {
                bold(ink(Color::Accent))
            } else {
                ink(Color::Dim)
            },
        ),
    ];
    match e.hint {
        Some(hint) => label.push(piece("  "@ + hint, ink(Color::Dim))),
        None => label,
    }
}

pub open spec fn option_strip(options: Seq<Seq<char>>, index: int, n: int) -> Seq<Piece>
    decreases n,
{
    if n <= 0 {
        seq![]
    } else {
        option_strip(options, index, n - 1).push(
            piece(
                " "@ + options[n - 1] + " "@,
                if n - 1 == index {
                    on_accent()
                } else {
                    ink(Color::Dim)
                },
            ),
        ).push(raw(" "@))
    }
}

/// The content of a field. In the one that is in focus, the character under the
/// cursor is reversed: a block where there is none.
pub open spec fn value_strip(kind: form::Content, focused: bool) -> Seq<Piece> {
    match kind {
        form::Content::Text { value, cursor } => if focused {
            let at = if cursor < value.len() {
                seq![value[cursor]]
            } else {
                " "@
            };
            let rest = if cursor < value.len() {
                value.skip(cursor + 1)
            } else {
                ""@
            };
            seq![raw(value.take(cursor)), piece(at, Style { reversed: true, ..bare() }), raw(rest)]
        } else {
            seq![raw(value)]
        },
        form::Content::Toggle(b) => seq![
            if b {
                piece("[x] yes"@, ink(Color::Green))
            } else {
                piece("[ ] no"@, ink(Color::Dim))
            },
            piece("   space toggles"@, ink(Color::Dim)),
        ],
        form::Content::Select { options, index } => option_strip(
            options,
            index,
            options.len() as int,
        ),
    }
}

/// The first `n` fields of a form, two lines each.
pub open spec fn field_strips(s: form::Sheet, n: int) -> Seq<Seq<Piece>>
    decreases n,
{
    if n <= 0 {
        seq![]
    } else {
        field_strips(s, n - 1).push(label_strip(s.fields[n - 1], n - 1 == s.focus)).push(
            value_strip(s.fields[n - 1].kind, n - 1 == s.focus),
        )
    }
}

/// What a form shows.
pub open spec fn form_view(s: form::Sheet) -> Seq<Seq<Piece>> {
    field_strips(s, s.fields.len() as int) + seq![
        blank(),
        seq![
            match s.error {
                Some(e) => piece(e, ink(Color::Red)),
                None => piece("tab/↑↓ field   enter save   esc cancel"@, ink(Color::Dim)),
            },
        ],
    ]
}

fn label_line(f: &Field, focused: bool) -> (r: Line)
    ensures
        r@ == label_strip(f@, focused),
{
    let style: Style = if focused {
        Style::of(Color::Accent).bold()
    } else {
        Style::of(Color::Dim)
    };
    let mut out: Line = line1(span(&f.label, style));
    match &f.hint {
        Some(hint) => add_span(&mut out, span(&text::cat2("  ", hint), Style::of(Color::Dim))),
        None => {},
    }
    out
}

fn option_line(options: &Vec<String>, index: usize) -> (r: Line)
    ensures
        r@ == option_strip(text::views(options@), index as int, options@.len() as int),
{
    let mut out: Line = no_spans();
    let mut i: usize = 0;
    while i < options.len()
        invariant
            i <= options.len(),
            out@ == option_strip(text::views(options@), index as int, i as int),
        decreases options.len() - i,
    {
        let style: Style = if i == index {
            Style {
                fg: Some(Color::Black),
                bg: Some(Color::Accent),
                bold: false,
                faint: false,
                italic: false,
                reversed: false,
            }
        } else {
            Style::of(Color::Dim)
        };
        assert(text::views(options@)[i as int] == options@[i as int]@);
        add_span(&mut out, span(&text::cat3(" ", &options[i], " "), style));
        add_span(&mut out, raw_span(" "));
        i = i + 1;
    }
    out
}

fn value_line(f: &Field, focused: bool) -> (r: Line)
    requires
        f@.kind.wf(),
    ensures
        r@ == value_strip(f@.kind, focused),
{
    match &f.kind {
        FieldKind::Text { value, cursor } => {
            if !focused {
                return line1(raw_span(&text::string_of(value)));
            }
            let before: String = text::string_of(&value[0..*cursor]);
            assert(before@ =~= value@.take(*cursor as int));
            let reversed: Style = Style {
                fg: None,
                bg: None,
                bold: false,
                faint: false,
                italic: false,
                reversed: true,
            };
            if *cursor < value.len() {
                let mut at: String = String::new();
                at.push(value[*cursor]);
                assert(at@ =~= seq![value@[*cursor as int]]);
                let rest: String = text::string_of(&value[*cursor + 1..value.len()]);
                assert(rest@ =~= value@.skip(*cursor as int + 1));
                line3(raw_span(&before), span(&at, reversed), raw_span(&rest))
            } else {
                line3(raw_span(&before), span(" ", reversed), raw_span(""))
            }
        },
        FieldKind::Toggle(b) => line2(
            if *b {
                span("[x] yes", Style::of(Color::Green))
            } else {
                span("[ ] no", Style::of(Color::Dim))
            },
            span("   space toggles", Style::of(Color::Dim)),
        ),
        FieldKind::Select { options, index } => {
            assert(text::views(options@).len() == options@.len());
            option_line(options, *index)
        },
    }
}

/// What a form shows, line by line.
pub fn form_lines(f: &Form) -> (r: Vec<Line>)
    requires
        f@.wf(),
    ensures
        strips(r@) == form_view(f@),
{
    let mut out: Vec<Line> = no_lines();
    let mut i: usize = 0;
    while i < f.fields.len()
        invariant
            i <= f.fields.len(),
            f@.wf(),
            strips(out@) == field_strips(f@, i as int),
        decreases f.fields.len() - i,
    {
        assert(f@.fields[i as int] == f.fields@[i as int]@);
        assert(f@.fields[i as int].kind.wf());
        let focused: bool = i == f.focus;
        add_line(&mut out, label_line(&f.fields[i], focused));
        add_line(&mut out, value_line(&f.fields[i], focused));
        i = i + 1;
    }
    add_line(&mut out, blank_line());
    add_line(
        &mut out,
        match &f.error {
            Some(e) => line1(span(e, Style::of(Color::Red))),
            None => line1(
                span("tab/↑↓ field   enter save   esc cancel", Style::of(Color::Dim)),
            ),
        },
    );
    assert(f@.fields.len() == f.fields@.len());
    assert(strips(out@) =~= form_view(f@));
    out
}

/// A message, line by line.
pub open spec fn message_view(message: Seq<char>) -> Seq<Seq<Piece>> {
    text::lines_of(message).map_values(|l: Seq<char>| seq![raw(l)])
}

pub fn message_lines(message: &str) -> (r: Vec<Line>)
    ensures
        strips(r@) == message_view(message@),
{
    let parts: Vec<String> = text::lines(message);
    let ghost all = text::lines_of(message@);
    let mut out: Vec<Line> = no_lines();
    let mut i: usize = 0;
    let ghost show = |l: Seq<char>| seq![raw(l)];
    assert(all.take(0).map_values(show) =~= seq![]);
    while i < parts.len()
        invariant
            i <= parts.len(),
            all == text::views(parts@),
            show == (|l: Seq<char>| seq![raw(l)]),
            strips(out@) == all.take(i as int).map_values(show),
        decreases parts.len() - i,
    {
        assert(all[i as int] == parts@[i as int]@);
        add_line(&mut out, line1(raw_span(&parts[i])));
        i = i + 1;
        assert(strips(out@) =~= all.take(i as int).map_values(show));
    }
    assert(all.len() == parts@.len());
    assert(all.take(i as int) =~= all);
    out
}

pub open spec fn toggle_strips(toggle: Option<(Seq<char>, bool)>) -> Seq<Seq<Piece>> {
    match toggle {
        Some((label, value)) => seq![
            blank(),
            seq![
                if value {
                    piece("[x] "@, ink(Color::Red))
                } else {
                    piece("[ ] "@, ink(Color::Dim))
                },
                raw(label),
                piece("   (space)"@, ink(Color::Dim)),
            ],
        ],
        None => seq![],
    }
}

/// What a question shows.
pub open spec fn confirm_view(message: Seq<char>, toggle: Option<(Seq<char>, bool)>) -> Seq<
    Seq<Piece>,
> {
    message_view(message) + toggle_strips(toggle) + seq![
        blank(),
        seq![
            piece("y"@, bold(ink(Color::Accent))),
            piece(" confirm    "@, ink(Color::Dim)),
            piece("n/esc"@, bold(ink(Color::Accent))),
            piece(" cancel"@, ink(Color::Dim)),
        ],
    ]
}

pub fn confirm_lines(message: &str, toggle: Option<&ConfirmToggle>) -> (r: Vec<Line>)
    ensures
        strips(r@) == confirm_view(
            message@,
            match toggle {
                Some(t) => Some((t.label@, t.value)),
                None => None,
            },
        ),
{
    let mut out: Vec<Line> = message_lines(message);
    match toggle {
        Some(t) => {
            add_line(&mut out, blank_line());
            add_line(
                &mut out,
                line3(
                    if t.value {
                        span("[x] ", Style::of(Color::Red))
                    } else {
                        span("[ ] ", Style::of(Color::Dim))
                    },
                    raw_span(&t.label),
                    span("   (space)", Style::of(Color::Dim)),
                ),
            );
        },
        None => {},
    }
    add_line(&mut out, blank_line());
    add_line(
        &mut out,
        line4(
            span("y", Style::of(Color::Accent).bold()),
            span(" confirm    ", Style::of(Color::Dim)),
            span("n/esc", Style::of(Color::Accent).bold()),
            span(" cancel", Style::of(Color::Dim)),
        ),
    );
    let ghost wanted = confirm_view(
        message@,
        match toggle {
            Some(t) => Some((t.label@, t.value)),
            None => None,
        },
    );
    assert(strips(out@) =~= wanted);
    out
}

/// The keys of a screen, at length.
pub open spec fn help_table(s: app::Scene) -> Seq<(Seq<char>, Seq<char>)> {
    match s {
        app::Scene::Landing => seq![
            ("↑ ↓ / k j"@, "move the cursor"@),
            ("enter / space"@, "expand or collapse a server; open an instance"@),
            ("a"@, "add a server"@),
            ("n"@, "create an instance on the selected server"@),
            ("e"@, "edit the selected server"@),
            ("d"@, "remove the selected server from this client"@),
            ("r"@, "poll every server now"@),
            ("q / esc"@, "quit"@),
        ],
        app::Scene::Manage(_) => seq![
            ("↑ ↓ / [ ]"@, "switch instance on this server"@),
            ("pgup / pgdn"@, "scroll the console"@),
            ("home / end"@, "oldest line / back to following"@),
            ("r"@, "start"@),
            ("x"@, "stop, with a grace period"@),
            ("k"@, "kill, no grace period"@),
            ("u"@, "re-clone the repo — the instance must be stopped"@),
            ("s"@, "open a shell in the checkout (the TUI steps aside)"@),
            ("a"@, "attach to the running process (the TUI steps aside)"@),
            ("b"@, "browse files — copy between here and the checkout"@),
            ("e"@, "edit this instance's configuration"@),
            ("n"@, "create another instance on this server"@),
            ("D"@, "remove this instance from the server"@),
            ("esc"@, "back to the server list"@),
        ],
        app::Scene::Browse(_) => seq![
            ("tab"@, "switch between the local and remote panel"@),
            ("↑ ↓ / k j"@, "move the cursor"@),
            ("enter"@, "open the directory under the cursor"@),
            ("backspace"@, "go to the parent directory"@),
            ("space"@, "mark / unmark the entry under the cursor"@),
            ("c / F5"@, "copy the marked entries into the other panel"@),
            ("r"@, "reload both panels"@),
            ("esc"@, "back"@),
        ],
    }
}

pub open spec fn help_footer(s: app::Scene) -> Seq<Seq<char>> {
    match s {
        app::Scene::Landing => seq!["Servers are polled every 2s."@],
        app::Scene::Manage(_) => seq![
            "Terminals also run as commands in another console:"@,
            "  client shell <server>/<instance>    a new shell in the checkout"@,
            "  client attach <server>/<instance>   the running process"@,
            "Ctrl+C ends a session; an attached instance keeps running."@,
        ],
        app::Scene::Browse(_) => seq![
            "With nothing marked, c copies the entry under the cursor."@,
            "Copies are packed, streamed, then unpacked; existing files"@,
            "prompt for overwrite-or-skip before anything moves."@,
        ],
    }
}

/// What the help shows.
pub open spec fn help_view(s: app::Scene) -> Seq<Seq<Piece>> {
    help_table(s).map_values(
        |e: (Seq<char>, Seq<char>)|
            seq![piece(text::column(e.0, 16), ink(Color::Accent)), raw(e.1)],
    ) + seq![blank()] + help_footer(s).map_values(
        |l: Seq<char>| seq![piece(l, ink(Color::Dim))],
    ) + seq![seq![piece("any key closes this"@, ink(Color::Dim))]]
}

fn help_keys(s: &Screen) -> (r: KeyTable)
    ensures
        table_view(r@) == help_table(s@),
{
    let out: KeyTable = match s {
        Screen::Landing => vec![
            ("↑ ↓ / k j", "move the cursor"),
            ("enter / space", "expand or collapse a server; open an instance"),
            ("a", "add a server"),
            ("n", "create an instance on the selected server"),
            ("e", "edit the selected server"),
            ("d", "remove the selected server from this client"),
            ("r", "poll every server now"),
            ("q / esc", "quit"),
        ],
        Screen::Manage(_) => vec![
            ("↑ ↓ / [ ]", "switch instance on this server"),
            ("pgup / pgdn", "scroll the console"),
            ("home / end", "oldest line / back to following"),
            ("r", "start"),
            ("x", "stop, with a grace period"),
            ("k", "kill, no grace period"),
            ("u", "re-clone the repo — the instance must be stopped"),
            ("s", "open a shell in the checkout (the TUI steps aside)"),
            ("a", "attach to the running process (the TUI steps aside)"),
            ("b", "browse files — copy between here and the checkout"),
            ("e", "edit this instance's configuration"),
            ("n", "create another instance on this server"),
            ("D", "remove this instance from the server"),
            ("esc", "back to the server list"),
        ],
        Screen::Browse(_) => vec![
            ("tab", "switch between the local and remote panel"),
            ("↑ ↓ / k j", "move the cursor"),
            ("enter", "open the directory under the cursor"),
            ("backspace", "go to the parent directory"),
            ("space", "mark / unmark the entry under the cursor"),
            ("c / F5", "copy the marked entries into the other panel"),
            ("r", "reload both panels"),
            ("esc", "back"),
        ],
    };
    assert(table_view(out@) =~= help_table(s@));
    out
}

fn help_notes(s: &Screen) -> (r: Vec<&'static str>)
    ensures
        r@.map_values(|l: &'static str| l@) == help_footer(s@),
{
    let out: Vec<&'static str> = match s {
        Screen::Landing => vec!["Servers are polled every 2s."],
        Screen::Manage(_) => vec![
            "Terminals also run as commands in another console:",
            "  client shell <server>/<instance>    a new shell in the checkout",
            "  client attach <server>/<instance>   the running process",
            "Ctrl+C ends a session; an attached instance keeps running.",
        ],
        Screen::Browse(_) => vec![
            "With nothing marked, c copies the entry under the cursor.",
            "Copies are packed, streamed, then unpacked; existing files",
            "prompt for overwrite-or-skip before anything moves.",
        ],
    };
    assert(out@.map_values(|l: &'static str| l@) =~= help_footer(s@));
    out
}

/// What the help shows, line by line.
pub fn help_lines(a: &App) -> (r: Vec<Line>)
    requires
        a@.wf(),
    ensures
        strips(r@) == help_view(a@.screens.last()),
{
    let ghost s = a@.screens.last();
    let table: KeyTable = help_keys(a.screen());
    let notes: Vec<&'static str> = help_notes(a.screen());
    let ghost t = help_table(s);
    let ghost show = |e: (Seq<char>, Seq<char>)|
        seq![piece(text::column(e.0, 16), ink(Color::Accent)), raw(e.1)];
    let mut out: Vec<Line> = no_lines();
    let mut i: usize = 0;
    assert(t.take(0).map_values(show) =~= seq![]);
    while i < table.len()
        invariant
            i <= table.len(),
            t == table_view(table@),
            show == (|e: (Seq<char>, Seq<char>)|
                seq![piece(text::column(e.0, 16), ink(Color::Accent)), raw(e.1)]),
            strips(out@) == t.take(i as int).map_values(show),
        decreases table.len() - i,
    {
        assert(t[i as int] == (table@[i as int].0@, table@[i as int].1@));
        add_line(
            &mut out,
            line2(
                span(&text::in_column(table[i].0, 16), Style::of(Color::Accent)),
                raw_span(table[i].1),
            ),
        );
        i = i + 1;
        assert(strips(out@) =~= t.take(i as int).map_values(show));
    }
    assert(t.len() == table@.len());
    assert(t.take(i as int) =~= t);
    add_line(&mut out, blank_line());
    let ghost head = t.map_values(show) + seq![blank()];
    assert(strips(out@) =~= head);
    let ghost f = help_footer(s);
    let ghost tell = |l: Seq<char>| seq![piece(l, ink(Color::Dim))];
    let mut j: usize = 0;
    assert(f.take(0).map_values(tell) =~= seq![]);
    assert(head + Seq::<Seq<Piece>>::empty() =~= head);
    while j < notes.len()
        invariant
            j <= notes.len(),
            f == notes@.map_values(|l: &'static str| l@),
            tell == (|l: Seq<char>| seq![piece(l, ink(Color::Dim))]),
            strips(out@) == head + f.take(j as int).map_values(tell),
        decreases notes.len() - j,
    {
        assert(f[j as int] == notes@[j as int]@);
        add_line(&mut out, line1(span(notes[j], Style::of(Color::Dim))));
        j = j + 1;
        assert(strips(out@) =~= head + f.take(j as int).map_values(tell));
    }
    assert(f.len() == notes@.len());
    assert(f.take(j as int) =~= f);
    add_line(&mut out, line1(span("any key closes this", Style::of(Color::Dim))));
    assert(strips(out@) =~= help_view(s));
    out
}

} // verus!
