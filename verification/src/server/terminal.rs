//! Terminal sessions, on the server's side.
//!
//! Both bridges run over the session's stream, framed in both directions and ended
//! by a closing frame: the connection itself goes on, it carries the call's reply
//! next. The attach bridge speaks to the pipes of a supervised process, line by
//! line. The shell bridge runs a shell of its own under a pseudo terminal.
use vstd::prelude::*;

use crate::protocol::term;
use crate::protocol::term::OwnedFrame;
use crate::text;

verus! {

// ---- attaching to a running instance -------------------------------------------------

/// What happens while a client is attached to an instance.
#[derive(Debug)]
pub enum AttachEvent {
    /// The process wrote something.
    Chunk(Vec<u8>),
    /// Some of what it wrote was missed.
    Lagged,
    /// Its supervision is over.
    RunEnded,
    /// The client sent a frame.
    Frame(OwnedFrame),
    /// The client is gone, without a closing frame.
    PeerGone,
    /// Its frames cannot be read.
    ReadFailed(String),
    /// What was to be sent to it could not be.
    SendFailed(String),
    /// The process takes no input, or not any more.
    FeedFailed,
}

/// What is done about it.
#[derive(Debug)]
pub enum AttachAct {
    Ignore,
    /// Send these bytes to the client.
    Send(Vec<u8>),
    /// Write these bytes to the process.
    Feed(Vec<u8>),
    /// The session is over: exchange closing frames. The client's own may have
    /// been seen already.
    Close { peer_closed: bool },
    /// The session is over, and there is nobody to close it with.
    Leave,
    /// The session fails.
    Fail(String),
}

/// What is done, over bytes and texts.
#[verifier::ext_equal]
pub enum AttachDeed {
    Ignore,
    Send(Seq<u8>),
    Feed(Seq<u8>),
    Close { peer_closed: bool },
    Leave,
    Fail(Seq<char>),
}

impl View for AttachAct {
    type V = AttachDeed;

    open spec fn view(&self) -> AttachDeed {
        match *self {
            AttachAct::Ignore => AttachDeed::Ignore,
            AttachAct::Send(bytes) => AttachDeed::Send(bytes@),
            AttachAct::Feed(bytes) => AttachDeed::Feed(bytes@),
            AttachAct::Close { peer_closed } => AttachDeed::Close { peer_closed },
            AttachAct::Leave => AttachDeed::Leave,
            AttachAct::Fail(error) => AttachDeed::Fail(error@),
        }
    }
}

/// What an event asks for. Sizes mean nothing to a pipe.
pub open spec fn attach_deed(event: AttachEvent) -> AttachDeed {
    match event {
        AttachEvent::Chunk(chunk) => AttachDeed::Send(term::framed(term::KIND_DATA, chunk@)),
        AttachEvent::Lagged => AttachDeed::Ignore,
        AttachEvent::RunEnded => AttachDeed::Close { peer_closed: false },
        AttachEvent::Frame(frame) => match frame@ {
            term::Message::Close => AttachDeed::Close { peer_closed: true },
            term::Message::Data(bytes) => AttachDeed::Feed(bytes),
            _ => AttachDeed::Ignore,
        },
        AttachEvent::PeerGone => AttachDeed::Leave,
        AttachEvent::ReadFailed(error) => AttachDeed::Fail(error@),
        AttachEvent::SendFailed(error) => AttachDeed::Fail(error@),
        AttachEvent::FeedFailed => AttachDeed::Close { peer_closed: false },
    }
}

/// One step of the bridge between a client and a running instance.
pub fn attach_bridge(event: AttachEvent) -> (r: AttachAct)
    ensures
        r@ == attach_deed(event),
{
    match event {
        AttachEvent::Chunk(chunk) => AttachAct::Send(term::data_frame(&chunk)),
        AttachEvent::Lagged => AttachAct::Ignore,
        AttachEvent::RunEnded => AttachAct::Close { peer_closed: false },
        AttachEvent::Frame(frame) => match frame {
            OwnedFrame::Close => AttachAct::Close { peer_closed: true },
            OwnedFrame::Data(bytes) => AttachAct::Feed(bytes),
            OwnedFrame::Resize { .. } => AttachAct::Ignore,
            OwnedFrame::Unknown => AttachAct::Ignore,
        },
        AttachEvent::PeerGone => AttachAct::Leave,
        AttachEvent::ReadFailed(error) => AttachAct::Fail(error),
        AttachEvent::SendFailed(error) => AttachAct::Fail(error),
        AttachEvent::FeedFailed => AttachAct::Close { peer_closed: false },
    }
}

// ---- a shell of its own --------------------------------------------------------------

/// How far a shell session is.
#[derive(Clone, Copy, Debug, PartialEq, Eq, Structural)]
pub enum Stage {
    /// The pseudo terminal is being opened.
    Opening,
    /// The shell is being started in it.
    Starting,
    /// The terminal's output is being got hold of.
    TakingOutput,
    /// The terminal's input is being got hold of.
    TakingInput,
    /// Bytes go both ways.
    Live,
    /// The shell has exited; what it printed last is sent.
    Draining,
    Over,
}

/// What happens in a shell session.
#[derive(Debug)]
pub enum ShellEvent {
    /// What was asked for last has been done.
    Ready,
    /// It could not be done.
    Failed(String),
    /// The terminal printed something.
    Chunk(Vec<u8>),
    /// The terminal will print nothing more.
    OutputEnded,
    /// The shell has exited.
    Exited,
    /// Nothing that it printed is left unsent.
    Drained,
    /// The client sent a frame.
    Frame(OwnedFrame),
    /// The client is gone, or cannot be understood.
    PeerGone,
    /// What was to be sent to it could not be.
    SendFailed,
    /// The terminal takes no input any more.
    FeedFailed,
}

/// What is done about it.
#[derive(Debug)]
pub enum ShellAct {
    Ignore,
    /// Start the shell in the terminal.
    Start,
    /// Get hold of the terminal's output.
    TakeOutput,
    /// Get hold of the terminal's input.
    TakeInput,
    /// Let bytes flow, and wait for the shell besides.
    Pump,
    /// Send these bytes to the client.
    Send(Vec<u8>),
    /// Type these bytes into the terminal.
    Feed(Vec<u8>),
    /// Give the terminal another size.
    Resize { cols: u16, rows: u16 },
    /// Send what is left of the output.
    Drain,
    /// The session is over: end the shell and exchange closing frames. The
    /// client's own may have been seen already.
    Close { peer_closed: bool },
    /// The session is over: end the shell. There is nobody to close it with.
    Leave,
    /// The session failed before it began: send these bytes, exchange closing
    /// frames, and report the error. `started` says whether a shell is to be ended.
    Fail { report: Vec<u8>, error: String, started: bool },
}

/// What is done, over bytes and texts.
#[verifier::ext_equal]
pub enum ShellDeed {
    Ignore,
    Start,
    TakeOutput,
    TakeInput,
    Pump,
    Send(Seq<u8>),
    Feed(Seq<u8>),
    Resize { cols: u16, rows: u16 },
    Drain,
    Close { peer_closed: bool },
    Leave,
    Fail { report: Seq<u8>, error: Seq<char>, started: bool },
}

impl View for ShellAct {
    type V = ShellDeed;

    open spec fn view(&self) -> ShellDeed {
        match *self {
            ShellAct::Ignore => ShellDeed::Ignore,
            ShellAct::Start => ShellDeed::Start,
            ShellAct::TakeOutput => ShellDeed::TakeOutput,
            ShellAct::TakeInput => ShellDeed::TakeInput,
            ShellAct::Pump => ShellDeed::Pump,
            ShellAct::Send(bytes) => ShellDeed::Send(bytes@),
            ShellAct::Feed(bytes) => ShellDeed::Feed(bytes@),
            ShellAct::Resize { cols, rows } => ShellDeed::Resize { cols, rows },
            ShellAct::Drain => ShellDeed::Drain,
            ShellAct::Close { peer_closed } => ShellDeed::Close { peer_closed },
            ShellAct::Leave => ShellDeed::Leave,
            ShellAct::Fail { report, error, started } => ShellDeed::Fail {
                report: report@,
                error: error@,
                started,
            },
        }
    }
}

/// A terminal has at least one column and one row.
pub open spec fn at_least_one(n: u16) -> u16 {
    if n == 0 {
        1
    } else {
        n
    }
}

pub fn clamp_size(n: u16) -> (r: u16)
    ensures
        r == at_least_one(n),
{
    if n == 0 {
        1
    } else {
        n
    }
}

/// What a failed step of the setup is called.
pub open spec fn failure_of(stage: Stage) -> Seq<char> {
    match stage {
        Stage::Opening => "failed to open a pty: "@,
        Stage::Starting => "failed to start shell: "@,
        Stage::TakingOutput => "cloning the pty reader failed: "@,
        _ => "taking the pty writer failed: "@,
    }
}

/// A setup error as the client is shown it: a line of output.
pub open spec fn shown_failure(error: Seq<char>) -> Seq<u8> {
    term::framed(term::KIND_DATA, vstd::utf8::encode_utf8(error + "\r\n"@))
}

/// A step of the setup failed.
pub open spec fn failed_deed(stage: Stage, why: Seq<char>) -> ShellDeed {
    let error = failure_of(stage) + why;
    ShellDeed::Fail {
        report: shown_failure(error),
        error,
        started: stage == Stage::TakingOutput || stage == Stage::TakingInput,
    }
}

/// What an event asks for while bytes go both ways.
pub open spec fn live_deed(event: ShellEvent) -> ShellDeed {
    match event {
        ShellEvent::Chunk(chunk) => ShellDeed::Send(term::framed(term::KIND_DATA, chunk@)),
        ShellEvent::OutputEnded => ShellDeed::Close { peer_closed: false },
        ShellEvent::Exited => ShellDeed::Drain,
        ShellEvent::Frame(frame) => match frame@ {
            term::Message::Close => ShellDeed::Close { peer_closed: true },
            term::Message::Data(bytes) => ShellDeed::Feed(bytes),
            term::Message::Resize { cols, rows } => ShellDeed::Resize {
                cols: at_least_one(cols),
                rows: at_least_one(rows),
            },
            term::Message::Unknown => ShellDeed::Ignore,
        },
        ShellEvent::PeerGone => ShellDeed::Leave,
        ShellEvent::SendFailed => ShellDeed::Leave,
        ShellEvent::FeedFailed => ShellDeed::Leave,
        _ => ShellDeed::Ignore,
    }
}

/// What an event asks for while the last of the output is sent.
pub open spec fn draining_deed(event: ShellEvent) -> ShellDeed {
    match event {
        ShellEvent::Chunk(chunk) => ShellDeed::Send(term::framed(term::KIND_DATA, chunk@)),
        ShellEvent::Drained => ShellDeed::Close { peer_closed: false },
        ShellEvent::SendFailed => ShellDeed::Leave,
        _ => ShellDeed::Ignore,
    }
}

/// What an event asks for.
pub open spec fn shell_deed(stage: Stage, event: ShellEvent) -> ShellDeed {
    match stage {
        Stage::Opening | Stage::Starting | Stage::TakingOutput | Stage::TakingInput => match event {
            ShellEvent::Ready => match stage {
                Stage::Opening => ShellDeed::Start,
                Stage::Starting => ShellDeed::TakeOutput,
                Stage::TakingOutput => ShellDeed::TakeInput,
                _ => ShellDeed::Pump,
            },
            ShellEvent::Failed(why) => failed_deed(stage, why@),
            _ => ShellDeed::Ignore,
        },
        Stage::Live => live_deed(event),
        Stage::Draining => draining_deed(event),
        Stage::Over => ShellDeed::Ignore,
    }
}

/// Where the session is once that is done.
pub open spec fn next_stage(stage: Stage, deed: ShellDeed) -> Stage {
    match deed {
        ShellDeed::Start => Stage::Starting,
        ShellDeed::TakeOutput => Stage::TakingOutput,
        ShellDeed::TakeInput => Stage::TakingInput,
        ShellDeed::Pump => Stage::Live,
        ShellDeed::Drain => Stage::Draining,
        ShellDeed::Close { .. } => Stage::Over,
        ShellDeed::Leave => Stage::Over,
        ShellDeed::Fail { .. } => Stage::Over,
        _ => stage,
    }
}

/// A shell session.
#[derive(Debug, PartialEq, Eq)]
pub struct ShellBridge {
    pub stage: Stage,
}

impl ShellBridge {
    /// A session whose terminal is about to be opened, in this size.
    pub fn new(cols: u16, rows: u16) -> (r: (ShellBridge, u16, u16))
        ensures
            r.0.stage == Stage::Opening,
            r.1 == at_least_one(cols),
            r.2 == at_least_one(rows),
    {
        (ShellBridge { stage: Stage::Opening }, clamp_size(cols), clamp_size(rows))
    }

    fn failed(&self, why: &str) -> (r: ShellAct)
        requires
            self.stage == Stage::Opening || self.stage == Stage::Starting || self.stage
                == Stage::TakingOutput || self.stage == Stage::TakingInput,
        ensures
            r@ == failed_deed(self.stage, why@),
    {
        let what: &str = match self.stage {
            Stage::Opening => "failed to open a pty: ",
            Stage::Starting => "failed to start shell: ",
            Stage::TakingOutput => "cloning the pty reader failed: ",
            _ => "taking the pty writer failed: ",
        };
        let error: String = text::cat2(what, why);
        let shown: String = text::cat2(&error, "\r\n");
        let report: Vec<u8> = term::data_frame(shown.as_str().as_bytes());
        let started: bool = matches!(self.stage, Stage::TakingOutput | Stage::TakingInput);
        ShellAct::Fail { report, error, started }
    }

    fn live(event: ShellEvent) -> (r: ShellAct)
        ensures
            r@ == live_deed(event),
    {
        match event {
            ShellEvent::Chunk(chunk) => ShellAct::Send(term::data_frame(&chunk)),
            ShellEvent::OutputEnded => ShellAct::Close { peer_closed: false },
            ShellEvent::Exited => ShellAct::Drain,
            ShellEvent::Frame(frame) => match frame {
                OwnedFrame::Close => ShellAct::Close { peer_closed: true },
                OwnedFrame::Data(bytes) => ShellAct::Feed(bytes),
                OwnedFrame::Resize { cols, rows } => ShellAct::Resize {
                    cols: clamp_size(cols),
                    rows: clamp_size(rows),
                },
                OwnedFrame::Unknown => ShellAct::Ignore,
            },
            ShellEvent::PeerGone | ShellEvent::SendFailed | ShellEvent::FeedFailed => {
                ShellAct::Leave
            },
            _ => ShellAct::Ignore,
        }
    }

    fn draining(event: ShellEvent) -> (r: ShellAct)
        ensures
            r@ == draining_deed(event),
    {
        match event {
            ShellEvent::Chunk(chunk) => ShellAct::Send(term::data_frame(&chunk)),
            ShellEvent::Drained => ShellAct::Close { peer_closed: false },
            ShellEvent::SendFailed => ShellAct::Leave,
            _ => ShellAct::Ignore,
        }
    }

    /// One step of the session.
    pub fn shell_bridge(&mut self, event: ShellEvent) -> (r: ShellAct)
        ensures
            r@ == shell_deed(old(self).stage, event),
            final(self).stage == next_stage(old(self).stage, r@),
    {
        let act: ShellAct = match self.stage {
            Stage::Live => Self::live(event),
            Stage::Draining => Self::draining(event),
            Stage::Over => ShellAct::Ignore,
            _ => match event {
                ShellEvent::Ready => match self.stage {
                    Stage::Opening => ShellAct::Start,
                    Stage::Starting => ShellAct::TakeOutput,
                    Stage::TakingOutput => ShellAct::TakeInput,
                    _ => ShellAct::Pump,
                },
                ShellEvent::Failed(why) => self.failed(&why),
                _ => ShellAct::Ignore,
            },
        };
        let after: Stage = match &act {
            ShellAct::Start => Stage::Starting,
            ShellAct::TakeOutput => Stage::TakingOutput,
            ShellAct::TakeInput => Stage::TakingInput,
            ShellAct::Pump => Stage::Live,
            ShellAct::Drain => Stage::Draining,
            ShellAct::Close { .. } => Stage::Over,
            ShellAct::Leave => Stage::Over,
            ShellAct::Fail { .. } => Stage::Over,
            _ => self.stage,
        };
        self.stage = after;
        act
    }
}

/// What the shell prints, up to its last word, reaches the client: it is sent in a
/// frame that reads back as the very bytes.
pub proof fn output_reaches_the_client(stage: Stage, chunk: Vec<u8>)
    requires
        stage == Stage::Live || stage == Stage::Draining,
        chunk@.len() <= term::MAX_FRAME,
    ensures
        shell_deed(stage, ShellEvent::Chunk(chunk)) matches ShellDeed::Send(bytes)
            && term::reading(bytes) == term::Reading::Whole(
            term::Message::Data(chunk@),
            bytes.len(),
        ),
        next_stage(stage, shell_deed(stage, ShellEvent::Chunk(chunk))) == stage,
{
    term::data_round_trips(chunk@, seq![]);
    let sent = term::framed(term::KIND_DATA, chunk@);
    assert(sent + seq![] =~= sent);
}

/// Keys arrive as they were sent: a frame of bytes is typed into the terminal as it
/// is, and written to an attached process as it is.
pub proof fn input_reaches_the_process(bytes: Seq<u8>, frame: OwnedFrame)
    requires
        bytes.len() <= term::MAX_FRAME,
        term::reading(term::framed(term::KIND_DATA, bytes)) matches term::Reading::Whole(m, _)
            && frame@ == m,
    ensures
        shell_deed(Stage::Live, ShellEvent::Frame(frame)) == ShellDeed::Feed(bytes),
        attach_deed(AttachEvent::Frame(frame)) == AttachDeed::Feed(bytes),
{
    term::data_round_trips(bytes, seq![]);
    let sent = term::framed(term::KIND_DATA, bytes);
    assert(sent + seq![] =~= sent);
}

/// The shell's exit alone does not end the session: what it printed is sent first.
pub proof fn an_exit_is_drained_first(event: ShellEvent)
    ensures
        next_stage(Stage::Live, shell_deed(Stage::Live, ShellEvent::Exited)) == Stage::Draining,
        next_stage(Stage::Draining, shell_deed(Stage::Draining, event)) == Stage::Over
            <==> event is Drained || event is SendFailed,
{
}

/// A terminal is never asked to be less than one column or one row.
pub proof fn sizes_are_never_empty(stage: Stage, event: ShellEvent)
    ensures
        shell_deed(stage, event) matches ShellDeed::Resize { cols, rows } ==> cols >= 1 && rows
            >= 1,
{
}

/// Closing frames are exchanged exactly where the client is still there: a session
/// with a client that vanished is left without them.
pub proof fn the_vanished_are_not_waited_for(stage: Stage)
    requires
        stage == Stage::Live,
    ensures
        shell_deed(stage, ShellEvent::PeerGone) == ShellDeed::Leave,
        shell_deed(stage, ShellEvent::SendFailed) == ShellDeed::Leave,
        attach_deed(AttachEvent::PeerGone) == AttachDeed::Leave,
{
}

/// A session that is over stays over.
pub proof fn over_is_over(event: ShellEvent)
    ensures
        shell_deed(Stage::Over, event) == ShellDeed::Ignore,
        next_stage(Stage::Over, ShellDeed::Ignore) == Stage::Over,
{
}

/// An attached session sends the output in frames and takes the client's data to the
/// process. It is closed when the run ends or takes no more, and when the client closes
/// it; broken connections fail it, with the reason.
pub proof fn attached_sessions_pass_on(chunk: Vec<u8>, frame: OwnedFrame, why: String)
    ensures
        attach_deed(AttachEvent::Chunk(chunk)) == AttachDeed::Send(term::framed(0, chunk@)),
        attach_deed(AttachEvent::Lagged) == AttachDeed::Ignore,
        attach_deed(AttachEvent::RunEnded) == (AttachDeed::Close { peer_closed: false }),
        attach_deed(AttachEvent::FeedFailed) == (AttachDeed::Close { peer_closed: false }),
        frame@ is Close ==> attach_deed(AttachEvent::Frame(frame)) == (AttachDeed::Close {
            peer_closed: true,
        }),
        frame@ matches term::Message::Data(bytes) ==> attach_deed(AttachEvent::Frame(frame))
            == AttachDeed::Feed(bytes),
        frame@ is Resize || frame@ is Unknown ==> attach_deed(AttachEvent::Frame(frame))
            == AttachDeed::Ignore,
        attach_deed(AttachEvent::ReadFailed(why)) == AttachDeed::Fail(why@),
        attach_deed(AttachEvent::SendFailed(why)) == AttachDeed::Fail(why@),
        attach_deed(AttachEvent::PeerGone) == AttachDeed::Leave,
{
}

/// A shell session is set up step by step: the terminal, the shell in it, its output, its
/// input; only then do bytes flow.
pub proof fn shells_are_set_up_step_by_step()
    ensures
        shell_deed(Stage::Opening, ShellEvent::Ready) == ShellDeed::Start,
        shell_deed(Stage::Starting, ShellEvent::Ready) == ShellDeed::TakeOutput,
        shell_deed(Stage::TakingOutput, ShellEvent::Ready) == ShellDeed::TakeInput,
        shell_deed(Stage::TakingInput, ShellEvent::Ready) == ShellDeed::Pump,
        next_stage(Stage::Opening, ShellDeed::Start) == Stage::Starting,
        next_stage(Stage::Starting, ShellDeed::TakeOutput) == Stage::TakingOutput,
        next_stage(Stage::TakingOutput, ShellDeed::TakeInput) == Stage::TakingInput,
        next_stage(Stage::TakingInput, ShellDeed::Pump) == Stage::Live,
{
}

/// A step that fails is the end: the client is shown what went wrong, and a shell that was
/// started already is ended.
pub proof fn failed_steps_are_told(stage: Stage, why: String)
    requires
        stage == Stage::Opening || stage == Stage::Starting || stage == Stage::TakingOutput || stage
            == Stage::TakingInput,
    ensures
        shell_deed(stage, ShellEvent::Failed(why)) matches ShellDeed::Fail { report, error, started }
            && started == (stage == Stage::TakingOutput || stage == Stage::TakingInput) && error
            == (match stage {
            Stage::Opening => "failed to open a pty: "@,
            Stage::Starting => "failed to start shell: "@,
            Stage::TakingOutput => "cloning the pty reader failed: "@,
            _ => "taking the pty writer failed: "@,
        }) + why@ && report == term::framed(0, vstd::utf8::encode_utf8(error + "\r\n"@)),
        next_stage(stage, shell_deed(stage, ShellEvent::Failed(why))) == Stage::Over,
{
}

/// While bytes flow, output is sent in frames, the client's data is typed into the
/// terminal, and its sizes are taken over, never as nothing. The shell's exit lets the
/// rest of its output out first; the client's close ends it at once.
pub proof fn live_shells_pass_on(chunk: Vec<u8>, frame: OwnedFrame)
    ensures
        shell_deed(Stage::Live, ShellEvent::Chunk(chunk)) == ShellDeed::Send(
            term::framed(0, chunk@),
        ),
        shell_deed(Stage::Draining, ShellEvent::Chunk(chunk)) == ShellDeed::Send(
            term::framed(0, chunk@),
        ),
        frame@ matches term::Message::Data(bytes) ==> shell_deed(
            Stage::Live,
            ShellEvent::Frame(frame),
        ) == ShellDeed::Feed(bytes),
        frame@ matches term::Message::Resize { cols, rows } ==> (cols > 0 && rows > 0 ==> shell_deed(
            Stage::Live,
            ShellEvent::Frame(frame),
        ) == (ShellDeed::Resize { cols, rows })),
        frame@ is Close ==> shell_deed(Stage::Live, ShellEvent::Frame(frame)) == (
        ShellDeed::Close { peer_closed: true }),
        frame@ is Unknown ==> shell_deed(Stage::Live, ShellEvent::Frame(frame))
            == ShellDeed::Ignore,
        shell_deed(Stage::Live, ShellEvent::Exited) == ShellDeed::Drain,
        shell_deed(Stage::Live, ShellEvent::OutputEnded) == (ShellDeed::Close {
            peer_closed: false,
        }),
        shell_deed(Stage::Live, ShellEvent::FeedFailed) == ShellDeed::Leave,
        shell_deed(Stage::Draining, ShellEvent::Drained) == (ShellDeed::Close {
            peer_closed: false,
        }),
        shell_deed(Stage::Draining, ShellEvent::SendFailed) == ShellDeed::Leave,
        at_least_one(0) == 1,
        forall|n: u16| n > 0 ==> #[trigger] at_least_one(n) == n,
{
}

} // verus!
