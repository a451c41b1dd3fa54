//! Terminal sessions, on the daemon's side: raw bytes from the client to a
//! process, and the process's lines back.
use vstd::prelude::*;

use crate::text;

verus! {

/// What happens while a client is attached to an instance.
#[derive(Debug)]
pub enum AttachEvent {
    /// The process wrote something.
    Chunk(Vec<u8>),
    /// Some of what it wrote was missed.
    Lagged,
    /// Its supervision is over.
    RunEnded,
    /// The client sent these bytes.
    Read(Vec<u8>),
    /// The client is gone, or cannot be read from.
    PeerGone,
    /// What was to be sent to it could not be.
    SendFailed,
    /// The process takes no input, or not any more.
    FeedFailed,
}

/// What happens in a shell session.
#[derive(Debug)]
pub enum ShellEvent {
    /// The shell could not be started.
    StartFailed(String),
    /// It wrote a line, or something that is none.
    Output(Option<Vec<u8>>),
    /// It will write nothing more.
    OutputEnded,
    /// The client sent these bytes.
    Read(Vec<u8>),
    /// The client is gone, or cannot be read from.
    PeerGone,
    /// What was to be sent to it could not be.
    SendFailed,
    /// The shell takes no input, or not any more.
    FeedFailed,
}

/// What is done about it.
#[derive(Debug)]
pub enum Act {
    Ignore,
    /// Send these bytes to the client.
    Send(Vec<u8>),
    /// Write these bytes to the process.
    Feed(Vec<u8>),
    /// Close the connection, and be done.
    Close,
    /// Be done: nobody is there to close it for.
    Leave,
    /// Send these bytes, and be done.
    Report(Vec<u8>),
}

/// What is done, over bytes.
#[verifier::ext_equal]
pub enum Deed {
    Ignore,
    Send(Seq<u8>),
    Feed(Seq<u8>),
    Close,
    Leave,
    Report(Seq<u8>),
}

impl View for Act {
    type V = Deed;

    open spec fn view(&self) -> Deed {
        match *self {
            Act::Ignore => Deed::Ignore,
            Act::Send(bytes) => Deed::Send(bytes@),
            Act::Feed(bytes) => Deed::Feed(bytes@),
            Act::Close => Deed::Close,
            Act::Leave => Deed::Leave,
            Act::Report(bytes) => Deed::Report(bytes@),
        }
    }
}

/// What an event asks for while attached. An empty read is the end of the client.
pub open spec fn attach_deed(event: AttachEvent) -> Deed {
    match event {
        AttachEvent::Chunk(chunk) => Deed::Send(chunk@),
        AttachEvent::Lagged => Deed::Ignore,
        AttachEvent::RunEnded => Deed::Close,
        AttachEvent::Read(bytes) => if bytes@.len() == 0 {
            Deed::Leave
        } else {
            Deed::Feed(bytes@)
        },
        AttachEvent::PeerGone => Deed::Leave,
        AttachEvent::SendFailed => Deed::Leave,
        AttachEvent::FeedFailed => Deed::Close,
    }
}

/// What an event asks for in a shell session. However it ends, the connection is
/// closed.
pub open spec fn shell_deed(event: ShellEvent) -> Deed {
    match event {
        ShellEvent::StartFailed(why) => Deed::Report(
            vstd::utf8::encode_utf8("failed to start shell: "@ + why@ + "\n"@),
        ),
        ShellEvent::Output(line) => match line {
            Some(line) => Deed::Send(line@.push(10)),
            None => Deed::Ignore,
        },
        ShellEvent::OutputEnded => Deed::Close,
        ShellEvent::Read(bytes) => if bytes@.len() == 0 {
            Deed::Close
        } else {
            Deed::Feed(bytes@)
        },
        ShellEvent::PeerGone => Deed::Close,
        ShellEvent::SendFailed => Deed::Close,
        ShellEvent::FeedFailed => Deed::Close,
    }
}

/// One step of the bridge between a client and a running instance.
pub fn attach_bridge(event: AttachEvent) -> (r: Act)
    ensures
        r@ == attach_deed(event),
{
    match event {
        AttachEvent::Chunk(chunk) => Act::Send(chunk),
        AttachEvent::Lagged => Act::Ignore,
        AttachEvent::RunEnded => Act::Close,
        AttachEvent::Read(bytes) => {
            if bytes.len() == 0 {
                Act::Leave
            } else {
                Act::Feed(bytes)
            }
        },
        AttachEvent::PeerGone | AttachEvent::SendFailed => Act::Leave,
        AttachEvent::FeedFailed => Act::Close,
    }
}

/// One step of the bridge between a client and a shell of its own.
pub fn shell_bridge(event: ShellEvent) -> (r: Act)
    ensures
        r@ == shell_deed(event),
{
    match event {
        ShellEvent::StartFailed(why) => {
            let shown: String = text::cat3("failed to start shell: ", &why, "\n");
            let report: Vec<u8> = crate::bytes::copy_of(shown.as_str().as_bytes());
            Act::Report(report)
        },
        ShellEvent::Output(line) => match line {
            Some(line) => {
                let mut chunk = line;
                chunk.push(10);
                Act::Send(chunk)
            },
            None => Act::Ignore,
        },
        ShellEvent::OutputEnded => Act::Close,
        ShellEvent::Read(bytes) => {
            if bytes.len() == 0 {
                Act::Close
            } else {
                Act::Feed(bytes)
            }
        },
        ShellEvent::PeerGone | ShellEvent::SendFailed | ShellEvent::FeedFailed => Act::Close,
    }
}

/// An attached session carries the output of the process to the client and the client's
/// bytes to the process, as they are. It ends with the run; a client that is gone is not
/// waited for.
pub proof fn attached_bytes_go_both_ways(bytes: Vec<u8>)
    ensures
        attach_deed(AttachEvent::Chunk(bytes)) == Deed::Send(bytes@),
        bytes@.len() > 0 ==> attach_deed(AttachEvent::Read(bytes)) == Deed::Feed(bytes@),
        bytes@.len() == 0 ==> attach_deed(AttachEvent::Read(bytes)) == Deed::Leave,
        attach_deed(AttachEvent::Lagged) == Deed::Ignore,
        attach_deed(AttachEvent::RunEnded) == Deed::Close,
        attach_deed(AttachEvent::FeedFailed) == Deed::Close,
        attach_deed(AttachEvent::PeerGone) == Deed::Leave,
        attach_deed(AttachEvent::SendFailed) == Deed::Leave,
{
}

/// A shell session carries each line that the shell writes, with its break, and the
/// client's bytes as they are. It is closed when either side ends; a shell that cannot be
/// started is reported with the reason.
pub proof fn shell_lines_go_both_ways(bytes: Vec<u8>, why: String)
    ensures
        shell_deed(ShellEvent::Output(Some(bytes))) matches Deed::Send(sent) && sent.len()
            == bytes@.len() + 1 && sent.drop_last() == bytes@ && sent.last() == 10,
        shell_deed(ShellEvent::Output(None)) == Deed::Ignore,
        bytes@.len() > 0 ==> shell_deed(ShellEvent::Read(bytes)) == Deed::Feed(bytes@),
        bytes@.len() == 0 ==> shell_deed(ShellEvent::Read(bytes)) == Deed::Close,
        shell_deed(ShellEvent::OutputEnded) == Deed::Close,
        shell_deed(ShellEvent::PeerGone) == Deed::Close,
        shell_deed(ShellEvent::SendFailed) == Deed::Close,
        shell_deed(ShellEvent::FeedFailed) == Deed::Close,
        shell_deed(ShellEvent::StartFailed(why)) == Deed::Report(
            vstd::utf8::encode_utf8("failed to start shell: "@ + why@ + "\n"@),
        ),
{
    assert(bytes@.push(10).drop_last() =~= bytes@);
}

} // verus!
