//! Framing for interactive sessions.
//!
//! The connection outlives the session, so neither side can close it to say
//! that the session is over: both directions are framed and end with `Close`.
//!
//! ```text
//! [u8 kind][u32 be len][len bytes]
//!   kind 0  Data    bytes, verbatim
//!   kind 1  Resize  [u16 be cols][u16 be rows]
//!   kind 2  Close   empty
//! ```
//!
//! A frame of any other kind is skipped, so the format can still grow.
use vstd::prelude::*;

verus! {

pub const KIND_DATA: u8 = 0;

pub const KIND_RESIZE: u8 = 1;

pub const KIND_CLOSE: u8 = 2;

pub const HEADER_LEN: usize = 5;

/// The longest payload a frame may declare.
pub const MAX_FRAME: usize = 65536;

/// The most that one read asks for.
pub const READ_LEN: usize = 8192;

// ---- the format --------------------------------------------------------------------

/// A frame, as what it says.
pub enum Message {
    Data(Seq<u8>),
    Resize { cols: u16, rows: u16 },
    Close,
    Unknown,
}

/// What the bytes at the front of a stream amount to.
pub enum Reading {
    /// A whole frame and its length on the wire.
    Whole(Message, nat),
    Partial,
    Invalid,
}

/// The two bytes of a number, the high one first.
pub open spec fn be16(n: u16) -> Seq<u8> {
    seq![(n / 256) as u8, (n % 256) as u8]
}

/// The four bytes of a number, the high one first.
pub open spec fn be32(n: u32) -> Seq<u8> {
    seq![
        (n / 0x100_0000) as u8,
        (n / 0x1_0000 % 256) as u8,
        (n / 256 % 256) as u8,
        (n % 256) as u8,
    ]
}

pub open spec fn from_be16(s: Seq<u8>) -> int {
    s[0] * 256 + s[1]
}

pub open spec fn from_be32(s: Seq<u8>) -> int {
    s[0] * 0x100_0000 + s[1] * 0x1_0000 + s[2] * 256 + s[3]
}

/// A frame of the given kind around the given bytes. The length field holds
/// the length modulo its own range.
pub open spec fn framed(kind: u8, payload: Seq<u8>) -> Seq<u8> {
    seq![kind] + be32((payload.len() % 0x1_0000_0000) as u32) + payload
}

/// The payload length that a header declares.
pub open spec fn declared(buf: Seq<u8>) -> int {
    from_be32(buf.subrange(1, 5))
}

/// What a payload says under a kind.
pub open spec fn message(kind: u8, payload: Seq<u8>) -> Message {
    if kind == KIND_DATA {
        Message::Data(payload)
    } else if kind == KIND_RESIZE && payload.len() == 4 {
        Message::Resize {
            cols: from_be16(payload.subrange(0, 2)) as u16,
            rows: from_be16(payload.subrange(2, 4)) as u16,
        }
    } else if kind == KIND_CLOSE {
        Message::Close
    } else {
        Message::Unknown
    }
}

/// What the front of a stream amounts to.
pub open spec fn reading(buf: Seq<u8>) -> Reading {
    if buf.len() < HEADER_LEN {
        Reading::Partial
    } else if declared(buf) > MAX_FRAME {
        Reading::Invalid
    } else if buf.len() < HEADER_LEN + declared(buf) {
        Reading::Partial
    } else {
        let end = HEADER_LEN + declared(buf);
        Reading::Whole(message(buf[0], buf.subrange(HEADER_LEN as int, end)), end as nat)
    }
}

proof fn be32_round_trips(n: u32)
    ensures
        be32(n).len() == 4,
        from_be32(be32(n)) == n,
{
}

// ---- writing -----------------------------------------------------------------------

fn push_be32(out: &mut Vec<u8>, n: u32)
    ensures
        final(out)@ == old(out)@ + be32(n),
{
    out.push((n / 0x100_0000) as u8);
    out.push((n / 0x1_0000 % 256) as u8);
    out.push((n / 256 % 256) as u8);
    out.push((n % 256) as u8);
    assert(out@ =~= old(out)@ + be32(n));
}

fn push_be16(out: &mut Vec<u8>, n: u16)
    ensures
        final(out)@ == old(out)@ + be16(n),
{
    out.push((n / 256) as u8);
    out.push((n % 256) as u8);
    assert(out@ =~= old(out)@ + be16(n));
}

/// The frame that carries the given bytes.
pub fn data_frame(payload: &[u8]) -> (r: Vec<u8>)
    ensures
        r@ == framed(KIND_DATA, payload@),
{
    let mut out: Vec<u8> = Vec::new();
    out.push(KIND_DATA);
    let len: u32 = (payload.len() as u64 % 0x1_0000_0000) as u32;
    push_be32(&mut out, len);
    out.extend_from_slice(payload);
    assert(out@ =~= framed(KIND_DATA, payload@));
    out
}

/// The frame that announces a new terminal size.
pub fn resize_frame(cols: u16, rows: u16) -> (r: Vec<u8>)
    ensures
        r@ == framed(KIND_RESIZE, be16(cols) + be16(rows)),
{
    let mut out: Vec<u8> = Vec::new();
    out.push(KIND_RESIZE);
    push_be32(&mut out, 4);
    push_be16(&mut out, cols);
    push_be16(&mut out, rows);
    assert(out@ =~= framed(KIND_RESIZE, be16(cols) + be16(rows)));
    out
}

/// The frame that ends a session.
pub fn close_frame() -> (r: [u8; 5])
    ensures
        r@ == framed(KIND_CLOSE, Seq::empty()),
{
    let out: [u8; 5] = [KIND_CLOSE, 0, 0, 0, 0];
    assert(out@ =~= framed(KIND_CLOSE, Seq::empty()));
    out
}

// ---- reading -----------------------------------------------------------------------

/// A frame that borrows the buffer it was read from.
#[derive(Debug, PartialEq)]
pub enum Frame<'a> {
    Data(&'a [u8]),
    Resize { cols: u16, rows: u16 },
    /// End of session: no more frames follow.
    Close,
    /// A frame of an unrecognised kind: skip it.
    Unknown,
}

impl<'a> View for Frame<'a> {
    type V = Message;

    open spec fn view(&self) -> Message {
        match *self {
            Frame::Data(bytes) => Message::Data(bytes@),
            Frame::Resize { cols, rows } => Message::Resize { cols, rows },
            Frame::Close => Message::Close,
            Frame::Unknown => Message::Unknown,
        }
    }
}

impl<'a> Frame<'a> {
    /// The same frame with bytes of its own.
    pub fn to_owned(&self) -> (r: OwnedFrame)
        ensures
            r@ == self@,
    {
        match self {
            Frame::Data(bytes) => {
                let mut copy: Vec<u8> = Vec::new();
                copy.extend_from_slice(bytes);
                assert(copy@ =~= bytes@);
                OwnedFrame::Data(copy)
            },
            Frame::Resize { cols, rows } => OwnedFrame::Resize { cols: *cols, rows: *rows },
            Frame::Close => OwnedFrame::Close,
            Frame::Unknown => OwnedFrame::Unknown,
        }
    }
}

/// A frame that outlives the buffer it was read from.
#[derive(Debug, PartialEq)]
pub enum OwnedFrame {
    Data(Vec<u8>),
    Resize { cols: u16, rows: u16 },
    Close,
    Unknown,
}

impl View for OwnedFrame {
    type V = Message;

    open spec fn view(&self) -> Message {
        match *self {
            OwnedFrame::Data(bytes) => Message::Data(bytes@),
            OwnedFrame::Resize { cols, rows } => Message::Resize { cols, rows },
            OwnedFrame::Close => Message::Close,
            OwnedFrame::Unknown => Message::Unknown,
        }
    }
}

/// What the front of a buffer amounts to.
#[derive(Debug, PartialEq)]
pub enum Decoded<'a> {
    /// A whole frame, and how many bytes of the buffer it takes.
    Frame(Frame<'a>, usize),
    /// Not enough bytes yet.
    Incomplete,
    /// The length is beyond what a frame may be.
    Invalid,
}

impl<'a> View for Decoded<'a> {
    type V = Reading;

    open spec fn view(&self) -> Reading {
        match *self {
            Decoded::Frame(frame, used) => Reading::Whole(frame@, used as nat),
            Decoded::Incomplete => Reading::Partial,
            Decoded::Invalid => Reading::Invalid,
        }
    }
}

fn declared_len(buf: &[u8]) -> (r: usize)
    requires
        buf@.len() >= HEADER_LEN,
    ensures
        r == declared(buf@),
{
    let n: u32 = buf[1] as u32 * 0x100_0000 + buf[2] as u32 * 0x1_0000 + buf[3] as u32 * 256
        + buf[4] as u32;
    n as usize
}

/// Reads the frame at the front of a buffer.
pub fn decode(buf: &[u8]) -> (r: Decoded<'_>)
    ensures
        r@ == reading(buf@),
{
    if buf.len() < HEADER_LEN {
        return Decoded::Incomplete;
    }
    let len: usize = declared_len(buf);
    if len > MAX_FRAME {
        return Decoded::Invalid;
    }
    let end: usize = HEADER_LEN + len;
    if buf.len() < end {
        return Decoded::Incomplete;
    }
    let payload = &buf[HEADER_LEN..end];
    let kind: u8 = buf[0];
    let frame = if kind == KIND_DATA {
        Frame::Data(payload)
    } else if kind == KIND_RESIZE && payload.len() == 4 {
        let cols: u16 = payload[0] as u16 * 256 + payload[1] as u16;
        let rows: u16 = payload[2] as u16 * 256 + payload[3] as u16;
        Frame::Resize { cols, rows }
    } else if kind == KIND_CLOSE {
        Frame::Close
    } else {
        Frame::Unknown
    };
    Decoded::Frame(frame, end)
}

/// How many bytes are still needed for the frame that has been started: the
/// header first, then the payload it declares. Never less than one.
pub open spec fn shortfall(pending: Seq<u8>) -> int {
    if pending.len() < HEADER_LEN {
        HEADER_LEN - pending.len()
    } else if HEADER_LEN + declared(pending) - pending.len() < 1 {
        1
    } else {
        HEADER_LEN + declared(pending) - pending.len()
    }
}

pub fn frame_shortfall(pending: &[u8]) -> (r: u64)
    ensures
        r == shortfall(pending@),
        r >= 1,
        reading(pending@) is Partial ==> pending@.len() + r == (if pending@.len() < HEADER_LEN {
            HEADER_LEN as int
        } else {
            HEADER_LEN + declared(pending@)
        }),
{
    if pending.len() < HEADER_LEN {
        return (HEADER_LEN - pending.len()) as u64;
    }
    let end: u64 = HEADER_LEN as u64 + declared_len(pending) as u64;
    if end <= pending.len() as u64 {
        1
    } else {
        end - pending.len() as u64
    }
}

/// What a reader needs next.
#[derive(Debug, PartialEq)]
pub enum Next {
    /// A whole frame.
    Frame(OwnedFrame),
    /// At most this many more bytes of the stream.
    Read(usize),
    /// The stream is broken: `session frame length out of range`.
    Invalid,
}

/// How a stream ended.
#[derive(Debug, PartialEq)]
pub enum End {
    /// Between two frames.
    Clean,
    /// In the middle of one: `stream ended mid-frame`.
    MidFrame,
}

/// Takes whole frames off a stream, holding on to a frame that has only partly
/// arrived. It never holds a byte beyond the frame that is being read.
pub struct FrameReader {
    pub pending: Vec<u8>,
}

/// The held bytes reach at most to the end of the frame they begin.
pub open spec fn within_one_frame(pending: Seq<u8>) -> bool {
    pending.len() <= HEADER_LEN || pending.len() <= HEADER_LEN + declared(pending)
}

impl View for FrameReader {
    type V = Seq<u8>;

    open spec fn view(&self) -> Seq<u8> {
        self.pending@
    }
}

impl Default for FrameReader {
    fn default() -> (r: FrameReader)
        ensures
            r@ == Seq::<u8>::empty(),
            r.wf(),
    {
        FrameReader::new()
    }
}

impl FrameReader {
    pub open spec fn wf(&self) -> bool {
        within_one_frame(self@)
    }

    pub fn new() -> (r: FrameReader)
        ensures
            r@ == Seq::<u8>::empty(),
            r.wf(),
    {
        FrameReader { pending: Vec::new() }
    }

    /// The next whole frame where it has arrived, and otherwise how much of the
    /// stream to read. A frame leaves nothing behind, so what follows it on the
    /// stream is untouched.
    pub fn next(&mut self) -> (r: Next)
        requires
            old(self).wf(),
        ensures
            final(self).wf(),
            match reading(old(self)@) {
                Reading::Whole(m, used) => {
                    &&& r matches Next::Frame(frame) && frame@ == m
                    &&& used == old(self)@.len()
                    &&& final(self)@ == Seq::<u8>::empty()
                },
                Reading::Invalid => r is Invalid && final(self)@ == old(self)@,
                Reading::Partial => {
                    &&& r matches Next::Read(want) && 1 <= want <= READ_LEN && want == (if shortfall(
                        old(self)@,
                    ) < READ_LEN {
                        shortfall(old(self)@)
                    } else {
                        READ_LEN as int
                    })
                    &&& final(self)@ == old(self)@
                },
            },
    {
        let found: Option<OwnedFrame> = match decode(&self.pending) {
            Decoded::Frame(frame, _) => Some(frame.to_owned()),
            Decoded::Invalid => {
                return Next::Invalid;
            },
            Decoded::Incomplete => None,
        };
        match found {
            Some(frame) => {
                self.pending = Vec::new();
                Next::Frame(frame)
            },
            None => {
                let want: u64 = frame_shortfall(&self.pending);
                Next::Read(if want < READ_LEN as u64 {
                    want as usize
                } else {
                    READ_LEN
                })
            },
        }
    }

    /// Takes in what was read from the stream.
    pub fn supply(&mut self, bytes: &[u8])
        requires
            old(self).wf(),
            reading(old(self)@) is Partial,
            bytes@.len() <= shortfall(old(self)@),
        ensures
            final(self).wf(),
            final(self)@ == old(self)@ + bytes@,
    {
        self.pending.extend_from_slice(bytes);
        assert(self@ =~= old(self)@ + bytes@);
        proof {
            let a = old(self)@;
            let b = self@;
            if a.len() >= HEADER_LEN {
                assert(a.subrange(1, 5) =~= b.subrange(1, 5));
            }
        }
    }

    /// What it means that the stream has nothing more.
    pub fn at_end(&self) -> (r: End)
        ensures
            r == (if self@.len() == 0 {
                End::Clean
            } else {
                End::MidFrame
            }),
    {
        if self.pending.len() == 0 {
            End::Clean
        } else {
            End::MidFrame
        }
    }

    /// How to end one's own side of a session: the bytes to send, and whether
    /// frames are then to be discarded until the peer's `Close`.
    pub fn finish(&self, peer_closed: bool) -> (r: (Vec<u8>, bool))
        ensures
            r.0@ == framed(KIND_CLOSE, Seq::empty()),
            r.1 == !peer_closed,
    {
        let mut out: Vec<u8> = Vec::new();
        let close: [u8; 5] = close_frame();
        out.extend_from_slice(&close);
        assert(out@ =~= close@);
        (out, !peer_closed)
    }
}

/// Whether discarding stops here: at the peer's `Close`, or at the stream's end.
pub fn ends_session(frame: &Option<OwnedFrame>) -> (r: bool)
    ensures
        r == (*frame is None || *frame == Some(OwnedFrame::Close)),
{
    matches!(frame, None | Some(OwnedFrame::Close))
}

// ---- laws --------------------------------------------------------------------------

/// A frame that the reader accepts decodes to what was written, and takes
/// exactly its own bytes, whatever follows it.
pub proof fn data_round_trips(payload: Seq<u8>, rest: Seq<u8>)
    requires
        payload.len() <= MAX_FRAME,
    ensures
        reading(framed(KIND_DATA, payload) + rest) == Reading::Whole(
            Message::Data(payload),
            framed(KIND_DATA, payload).len(),
        ),
{
    framed_reads(KIND_DATA, payload, rest);
}

/// A size comes back as it was sent.
pub proof fn resize_round_trips(cols: u16, rows: u16, rest: Seq<u8>)
    ensures
        reading(framed(KIND_RESIZE, be16(cols) + be16(rows)) + rest) == Reading::Whole(
            Message::Resize { cols, rows },
            9,
        ),
{
    let payload = be16(cols) + be16(rows);
    framed_reads(KIND_RESIZE, payload, rest);
    assert(payload.subrange(0, 2) =~= be16(cols));
    assert(payload.subrange(2, 4) =~= be16(rows));
}

/// A close comes back as a close.
pub proof fn close_round_trips(rest: Seq<u8>)
    ensures
        reading(framed(KIND_CLOSE, Seq::empty()) + rest) == Reading::Whole(Message::Close, 5),
{
    framed_reads(KIND_CLOSE, Seq::empty(), rest);
}

/// A frame of any kind, unknown kinds too, is read as one frame: what follows
/// it starts where it ends.
pub proof fn framed_reads(kind: u8, payload: Seq<u8>, rest: Seq<u8>)
    requires
        payload.len() <= MAX_FRAME,
    ensures
        framed(kind, payload).len() == HEADER_LEN + payload.len(),
        reading(framed(kind, payload) + rest) == Reading::Whole(
            message(kind, payload),
            framed(kind, payload).len(),
        ),
{
    let buf = framed(kind, payload) + rest;
    header_tells(kind, payload, rest);
    let end = HEADER_LEN + payload.len();
    assert(buf.subrange(HEADER_LEN as int, end as int) =~= payload);
}

proof fn header_tells(kind: u8, payload: Seq<u8>, rest: Seq<u8>)
    requires
        payload.len() <= MAX_FRAME,
    ensures
        (framed(kind, payload) + rest).len() == HEADER_LEN + payload.len() + rest.len(),
        (framed(kind, payload) + rest)[0] == kind,
        declared(framed(kind, payload) + rest) == payload.len(),
{
    let buf = framed(kind, payload) + rest;
    let n = payload.len() as u32;
    be32_round_trips(n);
    assert((payload.len() % 0x1_0000_0000) as u32 == n);
    assert(buf.subrange(1, 5) =~= be32(n));
}

/// A frame that has not wholly arrived is never mistaken for another: every
/// proper prefix is partial.
pub proof fn prefixes_are_partial(kind: u8, payload: Seq<u8>, cut: int)
    requires
        payload.len() <= MAX_FRAME,
        0 <= cut < framed(kind, payload).len(),
    ensures
        reading(framed(kind, payload).take(cut)) is Partial,
{
    let buf = framed(kind, payload).take(cut);
    be32_round_trips(payload.len() as u32);
    if cut >= 5 {
        assert(buf.subrange(1, 5) =~= be32(payload.len() as u32));
    }
}

/// More bytes never change what has been read: a whole frame stays that frame,
/// and a broken stream stays broken.
pub proof fn reading_is_stable(buf: Seq<u8>, rest: Seq<u8>)
    requires
        reading(buf) !is Partial,
    ensures
        reading(buf + rest) == reading(buf),
{
    assert((buf + rest).subrange(1, 5) =~= buf.subrange(1, 5));
    if reading(buf) is Whole {
        let end = HEADER_LEN + declared(buf);
        assert((buf + rest).subrange(5, end) =~= buf.subrange(5, end));
    }
}

/// What a reader asks for never goes past the frame that has been started: first the
/// rest of the header, then the rest of the payload.
pub proof fn reads_stop_at_the_frame(pending: Seq<u8>, more: Seq<u8>)
    requires
        reading(pending) is Partial,
        more.len() <= shortfall(pending),
    ensures
        shortfall(pending) >= 1,
        pending.len() < HEADER_LEN ==> pending.len() + shortfall(pending) == HEADER_LEN,
        pending.len() >= HEADER_LEN ==> pending.len() + shortfall(pending) == HEADER_LEN
            + declared(pending),
        within_one_frame(pending + more),
        reading(pending + more) matches Reading::Whole(_, used) ==> used == (pending + more).len(),
{
    if pending.len() >= HEADER_LEN {
        assert((pending + more).subrange(1, 5) =~= pending.subrange(1, 5));
    }
}

/// What comes of asking for a frame.
pub enum Outcome {
    Frame(Message),
    Broken,
    Ended(End),
}

/// What comes of asking for a frame, and how many bytes are read for it, where these
/// bytes are held, these are still to come, and the stream then ends. Each read gives
/// as many bytes as `sizes` says, if that is some and no more than were asked for and
/// are there.
pub open spec fn asked(
    pending: Seq<u8>,
    stream: Seq<u8>,
    sizes: spec_fn(nat) -> int,
    reads: nat,
) -> (Outcome, int)
    decreases stream.len(),
{
    match reading(pending) {
        Reading::Whole(m, _) => (Outcome::Frame(m), 0),
        Reading::Invalid => (Outcome::Broken, 0),
        Reading::Partial => if stream.len() == 0 {
            (
                Outcome::Ended(
                    if pending.len() == 0 {
                        End::Clean
                    } else {
                        End::MidFrame
                    },
                ),
                0,
            )
        } else {
            let n = read_len(pending, stream, sizes(reads));
            let (outcome, more) = asked(
                pending + stream.take(n),
                stream.skip(n),
                sizes,
                reads + 1,
            );
            (outcome, n + more)
        },
    }
}

/// How much a read gives that would give `size`.
pub open spec fn read_len(pending: Seq<u8>, stream: Seq<u8>, size: int) -> int {
    let want = if shortfall(pending) < READ_LEN {
        shortfall(pending)
    } else {
        READ_LEN as int
    };
    let most = if want < stream.len() {
        want
    } else {
        stream.len() as int
    };
    if 1 <= size <= most {
        size
    } else {
        most
    }
}

/// In whatever pieces a stream arrives, the first frame comes out as it stands there,
/// and no byte beyond it is read. A stream whose first frame is too long is found out
/// by its header alone. One that ends before the frame does has ended in the middle of
/// it, unless it was empty.
pub proof fn pieces_do_not_matter(stream: Seq<u8>, sizes: spec_fn(nat) -> int)
    ensures
        asked(Seq::empty(), stream, sizes, 0) == (match reading(stream) {
            Reading::Whole(m, used) => (Outcome::Frame(m), used as int),
            Reading::Invalid => (Outcome::Broken, HEADER_LEN as int),
            Reading::Partial => (
                Outcome::Ended(
                    if stream.len() == 0 {
                        End::Clean
                    } else {
                        End::MidFrame
                    },
                ),
                stream.len() as int,
            ),
        }),
{
    let none = Seq::<u8>::empty();
    asked_from(none, stream, sizes, 0);
    assert(none + stream =~= stream);
}

proof fn asked_from(pending: Seq<u8>, stream: Seq<u8>, sizes: spec_fn(nat) -> int, reads: nat)
    requires
        pending.len() <= HEADER_LEN || (declared(pending) <= MAX_FRAME && pending.len()
            <= HEADER_LEN + declared(pending)),
    ensures
        asked(pending, stream, sizes, reads) == (match reading(pending + stream) {
            Reading::Whole(m, used) => (Outcome::Frame(m), used - pending.len()),
            Reading::Invalid => (Outcome::Broken, HEADER_LEN - pending.len()),
            Reading::Partial => (
                Outcome::Ended(
                    if (pending + stream).len() == 0 {
                        End::Clean
                    } else {
                        End::MidFrame
                    },
                ),
                stream.len() as int,
            ),
        }),
    decreases stream.len(),
{
    if reading(pending) !is Partial {
        reading_is_stable(pending, stream);
    } else if stream.len() == 0 {
        assert(pending + stream =~= pending);
    } else {
        let n = read_len(pending, stream, sizes(reads));
        reads_stop_at_the_frame(pending, stream.take(n));
        let held = pending + stream.take(n);
        if pending.len() >= HEADER_LEN {
            assert(held.subrange(1, 5) =~= pending.subrange(1, 5));
        }
        asked_from(held, stream.skip(n), sizes, reads + 1);
        assert(held + stream.skip(n) =~= pending + stream);
    }
}

/// A frame is its kind, its length in four bytes, and its payload. A length beyond 65536 is
/// refused, whatever follows; less than the header or than the length says is not enough;
/// and the kinds are data, sizes and ends, anything else being none of them.
pub proof fn frames_are_read_by_their_header(buf: Seq<u8>)
    ensures
        buf.len() < 5 ==> reading(buf) is Partial,
        buf.len() >= 5 ==> {
            let n = buf[1] * 0x100_0000 + buf[2] * 0x1_0000 + buf[3] * 0x100 + buf[4];
            &&& reading(buf) is Invalid <==> n > 65536
            &&& n <= 65536 && buf.len() < 5 + n ==> reading(buf) is Partial
            &&& n <= 65536 && buf.len() >= 5 + n ==> (reading(buf) matches Reading::Whole(m, used)
                && used == 5 + n && (buf[0] == 0 ==> m == Message::Data(buf.subrange(5, 5 + n))) && (
            buf[0] == 2 ==> m is Close) && (buf[0] == 1 && n == 4 ==> m == (Message::Resize {
                cols: (buf[5] * 256 + buf[6]) as u16,
                rows: (buf[7] * 256 + buf[8]) as u16,
            })) && (buf[0] > 2 || (buf[0] == 1 && n != 4) ==> m is Unknown))
        },
{
    if buf.len() >= 5 {
        let n = buf[1] * 0x100_0000 + buf[2] * 0x1_0000 + buf[3] * 0x100 + buf[4];
        assert(declared(buf) == n);
        if n == 4 && buf.len() >= 9 {
            let p = buf.subrange(5, 9);
            assert(p.subrange(0, 2)[0] == buf[5] && p.subrange(0, 2)[1] == buf[6]);
            assert(p.subrange(2, 4)[0] == buf[7] && p.subrange(2, 4)[1] == buf[8]);
        }
    }
}

} // verus!
