//! What the screens show: which words and colours stand for what.
use vstd::prelude::*;

use crate::client::app::{Browsing, Desk, Managed, Note, Row, Scene, ServerState, ToastKind};
use crate::client::browse::{Shown, Side};
use crate::client::form::{Content, Sheet};
use crate::client::ui::{Color, Piece, Rates};
use crate::client::{app, browse, figures, form, instance_form, keymap, net, ui};
use crate::protocol::api::DirEntry;
use crate::protocol::instance::{
    ConsoleLine, InstanceConfig, InstanceStatResponse, InstanceStatus, RepoState, RetryPolicy,
    RunState, Stream,
};
use crate::text;

verus! {

/// The colour of a piece of text.
pub open spec fn color_of(p: Piece) -> Option<Color> {
    p.style.fg
}

/// An instance is shown in green exactly where it runs, in yellow where it is about to,
/// in red where something went wrong, and dimmed where it is at rest; files that are on
/// their way stand out.
pub proof fn colours_tell_how_an_instance_is(inst: InstanceStatResponse, secs: Seq<char>)
    ensures
        ({
            let fg = ui::instance_sign(inst, secs).style.fg;
            let ready = inst.repo is Ready;
            &&& fg == Some(Color::Green) <==> ready && inst.run is Running
            &&& fg == Some(Color::Yellow) <==> ready && (inst.run is Starting
                || inst.run is Backoff)
            &&& fg == Some(Color::Accent) <==> inst.repo is Provisioning
            &&& fg == Some(Color::Dim) <==> ready && (inst.run is NotRunning || inst.run is Stopped
                || (inst.run matches RunState::Exited { code: Some(c), .. } && c == 0))
            &&& fg == Some(Color::Red) <==> inst.repo is CloneFailed || (ready && (
            inst.run is Failed || (inst.run matches RunState::Exited { code, .. } && code != Some(
                0i32,
            ))))
        }),
{
}

/// The words for an instance: that it is stopped only where it is, that it runs with its
/// first process number, when it is tried again, how it ended, and what went wrong.
pub proof fn words_tell_how_an_instance_is(inst: InstanceStatResponse, secs: Seq<char>)
    ensures
        ({
            let s = ui::instance_sign(inst, secs);
            match inst.repo {
                RepoState::Provisioning => s.label == "cloning…"@ && s.glyph == "⋯"@,
                RepoState::CloneFailed(e) => s.label == "clone failed: "@ + figures::headline(e@)
                    && s.glyph == "✗"@,
                RepoState::Ready => match inst.run {
                    RunState::NotRunning | RunState::Stopped => s.label == "stopped"@ && s.glyph
                        == "■"@,
                    RunState::Starting => s.label == "starting…"@ && s.glyph == "↻"@,
                    RunState::Running { pids, restarts } => s.glyph == "▶"@ && (pids@.len() > 0
                        && restarts == 0 ==> s.label == "running ("@ + ("pid "@ + text::decimal(
                        pids@[0] as nat,
                    )) + ")"@) && (pids@.len() > 0 && restarts > 0 ==> s.label == "running ("@ + (
                    "pid "@ + text::decimal(pids@[0] as nat)) + ", "@ + text::decimal(
                        restarts as nat,
                    ) + " restarts)"@) && (pids@.len() == 0 && restarts == 0 ==> s.label
                        == "running ("@ + "no pids"@ + ")"@),
                    RunState::Backoff { restarts, .. } => s.glyph == "↻"@ && s.label
                        == "restarting in "@ + secs + "s ("@ + text::decimal(restarts as nat)
                        + " restarts)"@,
                    RunState::Exited { code, signal, .. } => match (code, signal) {
                        (Some(c), _) => if c == 0 {
                            s.label == "exited (0)"@ && s.glyph == "■"@
                        } else {
                            s.label == "exited ("@ + text::decimal_int(c as int) + ")"@ && s.glyph
                                == "✗"@
                        },
                        (None, Some(n)) => s.label == "killed by signal "@ + text::decimal_int(
                            n as int,
                        ) && s.glyph == "✗"@,
                        (None, None) => s.label == "exited"@ && s.glyph == "✗"@,
                    },
                    RunState::Failed(e) => s.label == "failed: "@ + figures::headline(e@) && s.glyph
                        == "✗"@,
                },
            }
        }),
{
}

/// On the screen of an instance, its state is green exactly where it runs, yellow where it
/// is about to, red where it failed or ended badly, and dimmed otherwise; the words say
/// which.
pub proof fn states_are_told(run: RunState, secs: Seq<char>)
    ensures
        ({
            let s = ui::run_sign(run, secs);
            &&& s.style.fg == Some(Color::Green) <==> run is Running
            &&& s.style.fg == Some(Color::Yellow) <==> run is Starting || run is Backoff
            &&& s.style.fg == Some(Color::Red) <==> run is Failed || (run matches RunState::Exited {
                code,
                ..
            } && code != Some(0i32))
            &&& run is NotRunning ==> s.label == "not running"@
            &&& run is Stopped ==> s.label == "stopped"@
            &&& run is Starting ==> s.label == "starting…"@
            &&& run matches RunState::Running { restarts, .. } ==> s.label == (if restarts == 0 {
                "running"@
            } else {
                "running after "@ + text::decimal(restarts as nat) + " restarts"@
            })
            &&& run matches RunState::Backoff { restarts, .. } ==> s.label == "restarting in "@
                + secs + "s ("@ + text::decimal(restarts as nat) + " restarts)"@
            &&& run matches RunState::Failed(e) ==> s.label == "failed to start: "@ + e@
            &&& run matches RunState::Exited { code, signal, restarts } ==> s.label == (match (
                code,
                signal,
            ) {
                (Some(c), _) => if c == 0 {
                    "exited cleanly"@
                } else {
                    "exited with code "@ + text::decimal_int(c as int)
                },
                (None, Some(n)) => "killed by signal "@ + text::decimal_int(n as int),
                (None, None) => "exited"@,
            }) + " after "@ + text::decimal(restarts as nat) + " restarts"@
        }),
{
}

/// A server's row has a green mark exactly where the server is up, an arrow for how it is
/// folded, its name, and on the right its address and how it is doing.
pub proof fn servers_are_shown(
    d: Desk,
    server: usize,
    rates: Rates,
    secs: Seq<char>,
    now: u64,
    width: nat,
)
    requires
        server < d.servers.len(),
    ensures
        ({
            let e = d.servers[server as int];
            let s = d.states[e.id];
            let row = ui::row_strip(d, Row::Server { server }, rates, secs, now, width);
            &&& row.len() == 6
            &&& row[0].text == (if s.collapsed {
                " "@ + "▸"@ + " "@
            } else {
                " "@ + "▾"@ + " "@
            })
            &&& row[1].style.fg == Some(
                if s.error is None && s.vitals is Some {
                    Color::Green
                } else {
                    Color::Red
                },
            )
            &&& row[1].text == (if s.error is None && s.vitals is Some {
                "●"@
            } else {
                "✗"@
            })
            &&& row[3].text == e.name && row[3].style.bold
            &&& row[5].text == ui::summary(s, net::target_text(e.addr), rates, now)
        }),
{
}

/// How a server is doing: its load and memory and what goes over the network, that it is
/// being asked, or what is wrong and when it last answered.
pub proof fn servers_are_summed_up(s: ServerState, addr: Seq<char>, rates: Rates, now: u64)
    ensures
        match (s.error, s.vitals) {
            (None, Some(v)) => v.total_ram >= v.free_ram ==> ui::summary(s, addr, rates, now)
                == addr + "   cpu "@ + rates.cpu@ + "%  ram "@ + figures::size_text(
                (v.total_ram - v.free_ram) as u64,
            ) + "/"@ + figures::size_text(v.total_ram) + "  ↓"@ + figures::size_text(rates.recv)
                + "/s ↑"@ + figures::size_text(rates.trans) + "/s"@,
            (None, None) => ui::summary(s, addr, rates, now) == addr + "   connecting…"@,
            (Some(e), _) => match s.last_ok {
                Some(at) => now >= at ==> ui::summary(s, addr, rates, now) == addr + "   "@
                    + net::trouble_short(e@) + " · last seen "@ + figures::ago_text(
                    ((now - at) / 1_000_000_000) as u64,
                ) + " ago"@,
                None => ui::summary(s, addr, rates, now) == addr + "   "@ + net::trouble_short(e@),
            },
        },
{
}

/// An instance's row has its sign, its name, and its words.
pub proof fn instances_have_their_row(
    d: Desk,
    server: usize,
    instance: usize,
    rates: Rates,
    secs: Seq<char>,
    now: u64,
    width: nat,
)
    requires
        server < d.servers.len(),
    ensures
        ({
            let list = app::instances(d, d.servers[server as int].id);
            let row = ui::row_strip(d, Row::Instance { server, instance }, rates, secs, now, width);
            instance < list.len() ==> {
                let i = list[instance as int];
                &&& row.len() == 6
                &&& row[1].text == ui::instance_sign(i, secs).glyph
                &&& row[1].style == ui::instance_sign(i, secs).style
                &&& row[3].text == i.name@
                &&& row[5].text == ui::instance_sign(i, secs).label
                &&& row[5].style.fg == ui::instance_sign(i, secs).style.fg
                &&& i.name@.len() < 30 ==> row[4].text.len() == 30 - i.name@.len()
                &&& i.name@.len() >= 30 ==> row[4].text.len() == 1
            }
        }),
{
}

/// The header counts the servers that are up, and names the instance whose screen it is.
pub proof fn the_header_says_where_one_is(d: Desk)
    requires
        d.screens.len() > 0,
    ensures
        ({
            let h = ui::header(d);
            h[0].text == " container "@ && match d.screens.last() {
                Scene::Landing => h.last().text == text::decimal(
                    ui::ups(d, d.servers.len() as int),
                ) + "/"@ + text::decimal(d.servers.len()) + " servers up"@,
                Scene::Manage(m) => h.len() == 5 && h[2].text == app::server_name(d, m.server)
                    && h[4].text == app::instance_name(d, m.server, m.instance),
                Scene::Browse(b) => h.len() == 6 && h[2].text == app::server_name(d, b.server)
                    && h[4].text == app::instance_name(d, b.server, b.instance) && h[5].text
                    == " · files"@,
            }
        }),
{
}

/// Servers are counted as up one by one, each where its last poll was answered.
pub proof fn servers_are_counted(d: Desk, n: int)
    requires
        0 < n <= d.servers.len(),
    ensures
        ({
            let s = d.states[d.servers[n - 1].id];
            let more: nat = if s.error is None && s.vitals is Some { 1 } else { 0 };
            ui::ups(d, n) == ui::ups(d, n - 1) + more
        }),
        ui::ups(d, 0) == 0,
{
}

/// The console shows consecutive lines, the newest at the bottom, or the one scrolled to;
/// never more than there are rows for, and as many as there are otherwise.
pub proof fn the_console_shows_a_window(m: Managed, rows: nat)
    requires
        m.console_error is None,
        m.console_dropped == 0,
        0 <= m.console_scroll <= m.console.len(),
        m.console.len() > 0,
    ensures
        ({
            let shown = ui::console_view(m, rows);
            let end = m.console.len() - m.console_scroll;
            &&& shown.len() == if end < rows {
                end
            } else {
                rows as int
            }
            &&& forall|k: int|
                0 <= k < shown.len() ==> #[trigger] shown[k] == ui::console_strip(
                    m.console[end - shown.len() + k],
                )
        }),
{
}

/// A console that cannot be read says why; one without output says so; one that has lost
/// lines says how many, above the rest.
pub proof fn the_console_says_what_is_missing(m: Managed, rows: nat)
    requires
        0 <= m.console_scroll,
    ensures
        m.console_error matches Some(e) ==> ui::console_view(m, rows).len() == 1
            && ui::console_view(m, rows)[0][0].text == "no console: "@ + e,
        m.console_error is None && m.console_dropped == 0 && m.console.len() == 0
            ==> ui::console_view(m, rows).len() == 1 && ui::console_view(m, rows)[0][0].text
            == "no output yet"@,
        m.console_error is None && m.console_dropped > 0 ==> ui::console_view(m, rows).len() > 0
            && ui::console_view(m, rows)[0][0].text == "… "@ + text::decimal(
            m.console_dropped as nat,
        ) + " earlier lines discarded"@,
        m.console_scroll == 0 ==> ui::console_heading(m).text == " console "@,
        m.console_scroll > 0 ==> ui::console_heading(m).text == " console · scrolled back "@
            + text::decimal(m.console_scroll as nat) + " "@,
{
}

/// A line of output stands behind the time at which it came, and in red where it was
/// written to the error stream.
pub proof fn lines_have_their_time_and_stream(l: ConsoleLine)
    ensures
        ui::console_strip(l).len() == 2,
        ui::console_strip(l)[0].text == figures::clock_text(l.at_ms) + " "@,
        ui::console_strip(l)[1].text == l.text@,
        l.stream is Stderr <==> ui::console_strip(l)[1].style.fg == Some(Color::Red),
{
}

/// A meter has eight cells, as many of them filled as it says.
pub proof fn meters_have_eight_cells(
    label: Seq<char>,
    filled: nat,
    color: Color,
    value: Seq<char>,
)
    requires
        filled <= 8,
    ensures
        ({
            let m = ui::meter_strip(label, filled, color, value);
            &&& m.len() == 4
            &&& m[1].text.len() == filled && m[2].text.len() == 8 - filled
            &&& m[1].style.fg == Some(color)
            &&& m[3].text == " "@ + value
            &&& m[0].text == text::column(label, 5)
            &&& forall|i: int| 0 <= i < filled ==> #[trigger] m[1].text[i] == '▓'
            &&& forall|i: int| 0 <= i < 8 - filled ==> #[trigger] m[2].text[i] == '░'
        }),
{
}

/// What is said of a server's figures beside them: that they are old where it does not
/// answer any more, what is wrong where it never did, and nothing where it does.
pub proof fn old_figures_are_marked(s: ServerState, recv: u64, trans: u64)
    ensures
        match (s.error, s.vitals) {
            (None, Some(_)) => ui::vitals_note(s) is None,
            (None, None) => ui::vitals_note(s) matches Some(p) && p.text == "connecting…"@,
            (Some(_), Some(_)) => ui::vitals_note(s) matches Some(p) && p.text
                == "stale — server unreachable"@ && p.style.fg == Some(Color::Red),
            (Some(e), None) => ui::vitals_note(s) matches Some(p) && p.text == net::trouble_short(
                e@,
            ) && p.style.fg == Some(Color::Red),
        },
        ui::net_strip(recv, trans)[1].text == "↓"@ + figures::size_text(recv) + "/s ↑"@
            + figures::size_text(trans) + "/s"@,
{
}

/// How an instance is restarted, and whether it starts with the server, in words.
pub proof fn policies_are_told(policy: RetryPolicy)
    ensures
        ui::policy_text(policy, true) == (match policy {
            RetryPolicy::Never => "never restart"@,
            RetryPolicy::OnCrash => "restart on crash"@,
            RetryPolicy::Always => "always restart"@,
            RetryPolicy::Retry(n) => "restart up to "@ + text::decimal(n as nat) + "×"@,
        }) + " · "@ + "autostart on"@,
        ui::policy_text(policy, false) == (match policy {
            RetryPolicy::Never => "never restart"@,
            RetryPolicy::OnCrash => "restart on crash"@,
            RetryPolicy::Always => "always restart"@,
            RetryPolicy::Retry(n) => "restart up to "@ + text::decimal(n as nat) + "×"@,
        }) + " · "@ + "autostart off"@,
{
}

/// The details of an instance show, in this order, where it comes from, how its files
/// are, its command, its state and its policy, and at the end its directory.
pub proof fn details_show_the_configuration(
    server: Seq<char>,
    detail: InstanceStatus,
    secs: Seq<char>,
    cpu: Seq<char>,
)
    ensures
        ({
            let v = ui::detail_view(server, detail, secs, cpu);
            let c = detail.config;
            &&& v.len() >= 11
            &&& v[0][0].text == text::column("repo"@, 10) && v[0][1].text
                == instance_form::source_line(c.source@)
            &&& v[1][1].text == (match detail.repo {
                RepoState::Ready => "ready"@,
                RepoState::Provisioning => "cloning…"@,
                RepoState::CloneFailed(e) => "clone failed: "@ + e@,
            })
            &&& v[1][1].style.fg == Some(Color::Green) <==> detail.repo is Ready
            &&& v[2][1].text == ui::command_text(c)
            &&& v[3][1].text == ui::run_sign(detail.run, secs).glyph + " "@ + ui::run_sign(
                detail.run,
                secs,
            ).label
            &&& v[3][1].style == ui::run_sign(detail.run, secs).style
            &&& v.last()[1].text == detail.repo_dir@
            &&& detail.run matches RunState::Running { pids, .. } ==> (pids@.len() > 0
                ==> v[4][1].text == ui::pid_list(pids@))
        }),
{
}

/// A command is shown with its arguments, as they would be written in the form.
pub proof fn commands_are_shown(c: InstanceConfig)
    ensures
        c.args@.len() == 0 ==> ui::command_text(c) == c.command@,
        c.args@.len() > 0 ==> ui::command_text(c) == c.command@ + " "@
            + instance_form::args_written(text::views(c.args@)),
{
}

/// The details are shown once they are there; before that, that they are on their way,
/// or why they cannot be had.
pub proof fn details_wait(d: Desk, m: Managed, secs: Seq<char>, cpu: Seq<char>)
    ensures
        m.detail matches Some(detail) ==> ui::detail_pane(d, m, secs, cpu) == ui::detail_view(
            app::server_name(d, m.server),
            detail,
            secs,
            cpu,
        ),
        m.detail is None ==> (m.detail_error matches Some(e) ==> ui::detail_pane(
            d,
            m,
            secs,
            cpu,
        )[0][0].text == "could not read this instance: "@ + e),
        m.detail is None && m.detail_error is None ==> ui::detail_pane(d, m, secs, cpu)[0][0].text
            == "loading…"@,
{
}

/// A panel has a row for each entry, in their order, and one for each file that is being
/// brought there and is not listed yet. A directory ends in a slash and has no size; what
/// is marked has a mark.
pub proof fn panels_show_their_entries(p: Shown, width: nat, i: int)
    requires
        p.error is None,
        0 <= i < p.entries.len(),
    ensures
        ({
            let v = ui::panel_view(p, width);
            let e = p.entries[i];
            &&& v.len() >= p.entries.len()
            &&& v[i].len() == 4
            &&& v[i][0].text == (if p.selected.contains(e.name@) {
                "▪"@
            } else {
                " "@
            }) + " "@
            &&& e.is_dir ==> v[i][1].text == e.name@ + "/"@ && v[i][3].text == ""@
            &&& !e.is_dir ==> v[i][1].text == e.name@ && v[i][3].text == figures::size_text(e.size)
        }),
{
}

/// A panel that cannot be listed says why; an empty one says so, or that it is loading.
pub proof fn empty_panels_say_why(p: Shown, width: nat)
    ensures
        p.error matches Some(e) ==> ui::panel_view(p, width).len() == 1 && ui::panel_view(
            p,
            width,
        )[0][0].text == figures::headline(e) && ui::panel_view(p, width)[0][0].style.fg == Some(
            Color::Red,
        ),
        p.error is None && p.entries.len() == 0 && p.incoming.len() == 0 && p.loading
            ==> ui::panel_view(p, width)[0][0].text == "loading…"@,
        p.error is None && p.entries.len() == 0 && p.incoming.len() == 0 && !p.loading
            ==> ui::panel_view(p, width)[0][0].text == "empty"@,
{
}

/// What is said to the user is red where it is an error, and only there.
pub proof fn errors_are_said_in_red(t: Note)
    ensures
        ui::status_strip(Some(t)).len() == 2,
        ui::status_strip(Some(t))[1].text == text::on_one_line(t.text),
        t.kind == ToastKind::Error <==> ui::status_strip(Some(t))[1].style.fg == Some(Color::Red),
        t.kind == ToastKind::Error ==> ui::status_strip(Some(t))[0].text == " "@ + "!"@ + " "@,
        t.kind == ToastKind::Info ==> ui::status_strip(Some(t))[0].text == " "@ + "·"@ + " "@,
{
}

/// A form shows two lines for each field, its label and its value, and what is wrong with
/// it, or which keys there are, at its end. The field in focus stands out.
pub proof fn forms_show_their_fields(s: Sheet, i: int)
    requires
        0 <= i < s.fields.len(),
    ensures
        ({
            let v = ui::form_view(s);
            &&& v.len() == 2 * s.fields.len() + 2
            &&& v[2 * i][0].text == s.fields[i].label
            &&& v[2 * i][0].style.bold <==> i == s.focus
            &&& s.fields[i].hint matches Some(h) ==> v[2 * i][1].text == "  "@ + h
            &&& v[2 * i + 1] == ui::value_strip(s.fields[i].kind, i == s.focus)
            &&& s.error matches Some(e) ==> v.last()[0].text == e && v.last()[0].style.fg == Some(
                Color::Red,
            )
            &&& s.error is None ==> v.last()[0].text == "tab/↑↓ field   enter save   esc cancel"@
        }),
{
    fields_are_two_lines(s, s.fields.len() as int, i);
}

proof fn fields_are_two_lines(s: Sheet, n: int, i: int)
    requires
        0 <= i < n <= s.fields.len(),
    ensures
        ui::field_strips(s, n).len() == 2 * n,
        ui::field_strips(s, n)[2 * i] == ui::label_strip(s.fields[i], i == s.focus),
        ui::field_strips(s, n)[2 * i + 1] == ui::value_strip(s.fields[i].kind, i == s.focus),
    decreases n,
{
    if n == 1 {
        assert(ui::field_strips(s, 0).len() == 0);
    } else if i < n - 1 {
        fields_are_two_lines(s, n - 1, i);
    } else {
        fields_are_two_lines(s, n - 1, 0);
    }
}

/// What a field shows: its whole text, with the cursor in it where it is in focus;
/// whether it is switched on; or its choices, with the one that is chosen marked.
pub proof fn values_are_shown(kind: Content, focused: bool)
    ensures
        kind matches Content::Text { value, cursor } ==> {
            let v = ui::value_strip(kind, focused);
            &&& !focused ==> v.len() == 1 && v[0].text == value
            &&& focused && 0 <= cursor < value.len() ==> v.len() == 3 && v[0].text + v[1].text
                + v[2].text == value && v[0].text.len() == cursor && v[1].style.reversed
            &&& focused && cursor == value.len() ==> v[0].text == value && v[1].text == " "@
                && v[1].style.reversed
        },
        kind == Content::Toggle(true) ==> ui::value_strip(kind, focused)[0].text == "[x] yes"@,
        kind == Content::Toggle(false) ==> ui::value_strip(kind, focused)[0].text == "[ ] no"@,
{
    if let Content::Text { value, cursor } = kind {
        if 0 <= cursor < value.len() {
            assert(value.take(cursor) + seq![value[cursor]] + value.skip(cursor + 1) =~= value);
        }
        if cursor == value.len() {
            assert(value.take(cursor) =~= value);
        }
    }
}

/// Of the choices of a field exactly the one that is chosen is marked.
pub proof fn the_choice_is_marked(options: Seq<Seq<char>>, index: int, n: int, i: int)
    requires
        0 <= i < n <= options.len(),
    ensures
        ui::option_strip(options, index, n).len() == 2 * n,
        ui::option_strip(options, index, n)[2 * i].text == " "@ + options[i] + " "@,
        ui::option_strip(options, index, n)[2 * i].style.bg == Some(Color::Accent) <==> i == index,
    decreases n,
{
    if n == 1 {
        assert(ui::option_strip(options, index, 0).len() == 0);
    } else if i < n - 1 {
        the_choice_is_marked(options, index, n - 1, i);
    } else {
        the_choice_is_marked(options, index, n - 1, 0);
    }
}

/// A transfer shows how far it is once its size is known, and that it is being packed
/// before that.
pub proof fn transfers_show_how_far_they_are(t: app::Move, filled: nat, percent: Seq<char>)
    requires
        filled <= 24,
    ensures
        ({
            let v = ui::transfer_strip(Some(t), filled, percent);
            let known = t.total matches Some(total) && total > 0;
            &&& known ==> v.len() == 4 && v[1].text.len() == filled && v[2].text.len() == 24
                - filled && v[0].text == " "@ + t.label + "  "@
            &&& known && t.done >= t.total->0 ==> v[3].text == " "@ + percent + "%  "@
                + "unpacking…"@
            &&& known && t.done < t.total->0 ==> v[3].text == " "@ + percent + "%  "@ + (
            figures::size_text(t.done) + "/"@ + figures::size_text(t.total->0))
            &&& !known ==> v.len() == 1 && v[0].text == " "@ + t.label + "  packing…"@
        }),
{
}

/// A question shows its words line by line, the choice that comes with it, and how it is
/// answered.
pub proof fn questions_show_their_choice(message: Seq<char>, label: Seq<char>, on: bool)
    ensures
        ({
            let v = ui::confirm_view(message, Some((label, on)));
            let n = text::lines_of(message).len() as int;
            &&& v.len() == n + 4
            &&& forall|i: int| 0 <= i < n ==> #[trigger] v[i][0].text == text::lines_of(message)[i]
            &&& v[n + 1][0].text == (if on {
                "[x] "@
            } else {
                "[ ] "@
            })
            &&& v[n + 1][1].text == label
            &&& v.last()[0].text == "y"@ && v.last()[1].text == " confirm    "@ && v.last()[2].text
                == "n/esc"@ && v.last()[3].text == " cancel"@
        }),
        ui::confirm_view(message, None).len() == text::lines_of(message).len() + 2,
{
}

/// The title of a panel names its side and its directory, and stands out where it is in
/// front.
pub proof fn panels_are_titled(b: Browsing, side: Side, width: nat)
    ensures
        ({
            let p = match side {
                Side::Local => b.local,
                Side::Remote => b.remote,
            };
            let t = ui::panel_heading(b, side, width);
            let name = if side == Side::Local {
                "local"@
            } else {
                "remote"@
            };
            let room: nat = if width > 14 { (width - 14) as nat } else { 0 };
            &&& t.style.bold <==> b.focus == side
            &&& t.style.fg == Some(Color::Accent) <==> b.focus == side
            &&& !p.loading ==> t.text == " "@ + name + " · "@ + figures::shortened(p.cwd, room)
                + " "@
            &&& p.loading ==> t.text == " "@ + name + " · "@ + figures::shortened(p.cwd, room)
                + " "@ + "… "@
        }),
{
}

// ---- keys and help ---------------------------------------------------------------------

/// The keys of the list are told at the bottom, each with what it does.
pub proof fn the_keys_of_the_list_are_told()
    ensures
        ui::screen_keys(Scene::Landing) == seq![
            ("↑↓"@, "move"@),
            ("enter"@, "open"@),
            ("a"@, "add server"@),
            ("n"@, "new instance"@),
            ("e"@, "edit"@),
            ("d"@, "remove"@),
            ("r"@, "refresh"@),
            ("?"@, "help"@),
            ("q"@, "quit"@),
        ],
{
}

/// So are those of an instance: `x` stops and `k` kills.
pub proof fn the_keys_of_an_instance_are_told(m: Managed)
    ensures
        ui::screen_keys(Scene::Manage(m)) == seq![
            ("↑↓"@, "instance"@),
            ("pgup/pgdn"@, "console"@),
            ("r"@, "start"@),
            ("x"@, "stop"@),
            ("k"@, "kill"@),
            ("u"@, "update repo"@),
            ("s"@, "shell"@),
            ("a"@, "attach"@),
            ("b"@, "files"@),
            ("e"@, "edit"@),
            ("D"@, "remove"@),
            ("?"@, "help"@),
            ("esc"@, "back"@),
        ],
{
}

/// So are those of the file browser.
pub proof fn the_keys_of_the_browser_are_told(b: Browsing)
    ensures
        ui::screen_keys(Scene::Browse(b)) == seq![
            ("tab"@, "panel"@),
            ("↑↓"@, "move"@),
            ("enter"@, "open"@),
            ("bksp"@, "up"@),
            ("space"@, "mark"@),
            ("c"@, "copy"@),
            ("r"@, "reload"@),
            ("?"@, "help"@),
            ("esc"@, "back"@),
        ],
{
}

/// The line of keys holds each key in the accent colour and then, dimmed, what it does.
pub proof fn keys_stand_before_what_they_do(t: Seq<(Seq<char>, Seq<char>)>, i: int)
    requires
        0 <= i < t.len(),
    ensures
        ({
            let line = ui::keys_strip(t, t.len() as int);
            &&& line.len() == 1 + 2 * t.len()
            &&& line[1 + 2 * i].text == t[i].0 && line[1 + 2 * i].style.fg == Some(Color::Accent)
            &&& line[2 + 2 * i].text == " "@ + t[i].1 + "   "@ && line[2 + 2 * i].style.fg == Some(
                Color::Dim,
            )
        }),
{
    keys_stand_in_line(t, t.len() as int, i);
}

proof fn keys_stand_in_line(t: Seq<(Seq<char>, Seq<char>)>, n: int, i: int)
    requires
        0 <= n <= t.len(),
    ensures
        ({
            let line = ui::keys_strip(t, n);
            &&& line.len() == 1 + 2 * n
            &&& 0 <= i < n ==> line[1 + 2 * i].text == t[i].0 && line[1 + 2 * i].style.fg == Some(
                Color::Accent,
            ) && line[2 + 2 * i].text == " "@ + t[i].1 + "   "@ && line[2 + 2 * i].style.fg == Some(
                Color::Dim,
            )
        }),
    decreases n,
{
    if n > 0 {
        keys_stand_in_line(t, n - 1, i);
    }
}

/// The help of a screen has a line for each of its keys, in two columns, then its notes, and
/// says at the end how to close it.
pub proof fn the_help_explains_every_key(s: Scene, i: int)
    ensures
        ({
            let all = ui::help_view(s);
            let table = ui::help_table(s);
            let notes = ui::help_footer(s);
            &&& all.len() == table.len() + notes.len() + 2
            &&& 0 <= i < table.len() ==> all[i].len() == 2 && all[i][0].text == text::column(
                table[i].0,
                16,
            ) && all[i][0].style.fg == Some(Color::Accent) && all[i][1].text == table[i].1
            &&& 0 <= i < notes.len() ==> all[table.len() + 1 + i].len() == 1
                && all[table.len() + 1 + i][0].text == notes[i]
            &&& all.last().len() == 1 && all.last()[0].text == "any key closes this"@
        }),
{
}

/// What the help says of the keys of the list and of the browser.
pub proof fn the_help_says_what_keys_do(b: Browsing)
    ensures
        ui::help_table(Scene::Landing) == seq![
            ("↑ ↓ / k j"@, "move the cursor"@),
            ("enter / space"@, "expand or collapse a server; open an instance"@),
            ("a"@, "add a server"@),
            ("n"@, "create an instance on the selected server"@),
            ("e"@, "edit the selected server"@),
            ("d"@, "remove the selected server from this client"@),
            ("r"@, "poll every server now"@),
            ("q / esc"@, "quit"@),
        ],
        ui::help_table(Scene::Browse(b)) == seq![
            ("tab"@, "switch between the local and remote panel"@),
            ("↑ ↓ / k j"@, "move the cursor"@),
            ("enter"@, "open the directory under the cursor"@),
            ("backspace"@, "go to the parent directory"@),
            ("space"@, "mark / unmark the entry under the cursor"@),
            ("c / F5"@, "copy the marked entries into the other panel"@),
            ("r"@, "reload both panels"@),
            ("esc"@, "back"@),
        ],
        ui::help_footer(Scene::Landing) == seq!["Servers are polled every 2s."@],
        ui::help_footer(Scene::Browse(b)) == seq![
            "With nothing marked, c copies the entry under the cursor."@,
            "Copies are packed, streamed, then unpacked; existing files"@,
            "prompt for overwrite-or-skip before anything moves."@,
        ],
{
}

/// What it says of the keys of an instance.
pub proof fn the_help_says_what_keys_do_to_an_instance(m: Managed)
    ensures
        ui::help_table(Scene::Manage(m)) == seq![
            ("↑ ↓ / [ ]"@, "switch instance on this server"@),
            ("pgup / pgdn"@, "scroll the console"@),
            ("home / end"@, "oldest line / back to following"@),
            ("r"@, "start"@),
            ("x"@, "stop, with a grace period"@),
            ("k"@, "kill, no grace period"@),
            ("u"@, "re-clone the repo — the instance must be stopped"@),
            ("s"@, "open a shell in the checkout (the TUI steps aside)"@),
            ("a"@, "attach to the running process (the TUI steps aside)"@),
            ("b"@, "browse files — copy between here and the checkout"@),
            ("e"@, "edit this instance's configuration"@),
            ("n"@, "create another instance on this server"@),
            ("D"@, "remove this instance from the server"@),
            ("esc"@, "back to the server list"@),
        ],
        ui::help_footer(Scene::Manage(m)) == seq![
            "Terminals also run as commands in another console:"@,
            "  client shell <server>/<instance>    a new shell in the checkout"@,
            "  client attach <server>/<instance>   the running process"@,
            "Ctrl+C ends a session; an attached instance keeps running."@,
        ],
{
}

/// Without a server the list says how to add one.
pub proof fn empty_lists_say_how_to_begin()
    ensures
        ({
            let t = ui::empty_tree();
            &&& t.len() == 4 && t[0] == ui::blank() && t[2] == ui::blank()
            &&& t[1].len() == 1 && t[1][0].text == "  No servers yet."@
            &&& t[3].len() == 3 && t[3][0].text == "  Press "@ && t[3][1].text == "a"@
                && t[3][2].text == " to add one."@
        }),
{
}

/// In the side bar an instance has the mark of its state before its name.
pub proof fn instances_are_marked_in_the_side_bar(inst: InstanceStatResponse, secs: Seq<char>)
    ensures
        ({
            let line = ui::sidebar_strip(inst, secs);
            let sign = ui::instance_sign(inst, secs);
            &&& line.len() == 2
            &&& line[0].text == " "@ + sign.glyph + " "@ && line[0].style == sign.style
            &&& line[1].text == inst.name@
        }),
{
}

/// Where it fits, the row of a server fills the width: its summary ends one column before
/// the edge.
pub proof fn server_rows_fill_their_width(
    name: Seq<char>,
    addr: Seq<char>,
    s: ServerState,
    rates: Rates,
    now: u64,
    width: nat,
)
    requires
        ui::summary(s, addr, rates, now).len() + name.len() + 6 <= width,
    ensures
        ({
            let row = ui::server_row(name, addr, s, rates, now, width);
            &&& row.len() == 6
            &&& row[3].text == name && row[5].text == ui::summary(s, addr, rates, now)
            &&& row[0].text.len() + row[1].text.len() + row[2].text.len() + row[3].text.len()
                + row[4].text.len() + row[5].text.len() == width
        }),
{
    reveal_strlit(" ");
    reveal_strlit("▸");
    reveal_strlit("▾");
    reveal_strlit("●");
    reveal_strlit("✗");
}

} // verus!
