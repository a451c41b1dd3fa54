//! Frames on the wire.
use container::protocol::term::{
    close_frame, data_frame, decode, ends_session, frame_shortfall, resize_frame, Decoded, End,
    Frame, FrameReader, Next, OwnedFrame, HEADER_LEN, KIND_DATA, MAX_FRAME,
};

#[test]
fn round_trips_data() {
    let frame = data_frame(b"ls -la\r");
    assert_eq!(decode(&frame), Decoded::Frame(Frame::Data(b"ls -la\r"), frame.len()));
}

#[test]
fn round_trips_resize() {
    let frame = resize_frame(120, 40);
    assert_eq!(decode(&frame), Decoded::Frame(Frame::Resize { cols: 120, rows: 40 }, frame.len()));
}

/// The first frame of a stream that arrives in pieces and then ends, and how much of
/// the stream was read for it.
fn first_frame(stream: &[u8], piece: usize) -> (Result<Option<OwnedFrame>, &'static str>, usize) {
    let mut reader = FrameReader::new();
    let mut at = 0;
    loop {
        match reader.next() {
            Next::Frame(frame) => return (Ok(Some(frame)), at),
            Next::Invalid => return (Err("broken"), at),
            Next::Read(want) => {
                let n = want.min(piece).min(stream.len() - at);
                if n == 0 {
                    return match reader.at_end() {
                        End::Clean => (Ok(None), at),
                        End::MidFrame => (Err("cut"), at),
                    };
                }
                reader.supply(&stream[at..at + n]);
                at += n;
            }
        }
    }
}

#[test]
fn the_shortfall_ends_with_the_header_and_then_with_the_frame() {
    let frame = data_frame(b"hello");
    for cut in 0..frame.len() {
        let end = if cut < HEADER_LEN { HEADER_LEN } else { frame.len() };
        assert_eq!(frame_shortfall(&frame[..cut]), (end - cut) as u64);
    }
}

#[test]
fn a_stream_may_arrive_in_any_pieces() {
    let frame = data_frame(b"hello");
    let mut more = frame.clone();
    more.extend_from_slice(b"and more");
    let mut broken = vec![KIND_DATA, 255, 255, 255, 255];
    broken.extend_from_slice(b"and more");
    for piece in [1, 2, 3, 7, 100] {
        assert_eq!(
            first_frame(&more, piece),
            (Ok(Some(OwnedFrame::Data(b"hello".to_vec()))), frame.len())
        );
        assert_eq!(first_frame(&broken, piece), (Err("broken"), HEADER_LEN));
        assert_eq!(first_frame(&[], piece), (Ok(None), 0));
        for cut in 1..frame.len() {
            assert_eq!(first_frame(&frame[..cut], piece), (Err("cut"), cut));
        }
    }
}

#[test]
fn reports_partial_frames_rather_than_guessing() {
    let frame = data_frame(b"hello");
    for cut in 0..frame.len() {
        assert_eq!(decode(&frame[..cut]), Decoded::Incomplete, "cut at {cut}");
    }
}

#[test]
fn consumes_exactly_one_frame_from_a_batch() {
    let mut buf = data_frame(b"a");
    buf.extend_from_slice(&resize_frame(80, 24));
    let Decoded::Frame(first, used) = decode(&buf) else { panic!("expected a frame") };
    assert_eq!(first, Frame::Data(b"a"));
    assert_eq!(decode(&buf[used..]), Decoded::Frame(Frame::Resize { cols: 80, rows: 24 }, 9));
}

#[test]
fn rejects_an_absurd_length_instead_of_allocating() {
    let mut buf = vec![KIND_DATA];
    buf.extend_from_slice(&u32::MAX.to_be_bytes());
    assert_eq!(decode(&buf), Decoded::Invalid);
}

#[test]
fn round_trips_close() {
    assert_eq!(decode(&close_frame()), Decoded::Frame(Frame::Close, HEADER_LEN));
}

#[test]
fn skips_unknown_kinds_without_desynchronising() {
    let mut buf = vec![250u8];
    buf.extend_from_slice(&3u32.to_be_bytes());
    buf.extend_from_slice(b"xyz");
    buf.extend_from_slice(&data_frame(b"after"));
    let Decoded::Frame(frame, used) = decode(&buf) else { panic!("expected a frame") };
    assert_eq!(frame, Frame::Unknown);
    assert_eq!(decode(&buf[used..]), Decoded::Frame(Frame::Data(b"after"), 10));
}

/// Reads the next frame off a stream, as far as it reaches; none at a clean end.
fn next_frame(reader: &mut FrameReader, stream: &[u8], at: &mut usize) -> Option<OwnedFrame> {
    loop {
        match reader.next() {
            Next::Frame(frame) => return Some(frame),
            Next::Read(n) => {
                let end = (*at + n).min(stream.len());
                if end == *at {
                    assert_eq!(reader.at_end(), End::Clean);
                    return None;
                }
                reader.supply(&stream[*at..end]);
                *at = end;
            }
            Next::Invalid => panic!("a broken stream"),
        }
    }
}

#[test]
fn frame_reader_yields_frames_then_eof() {
    let mut stream = Vec::new();
    stream.extend_from_slice(&data_frame(b"hi"));
    stream.extend_from_slice(&resize_frame(80, 24));
    stream.extend_from_slice(&close_frame());
    let mut at = 0;
    let mut reader = FrameReader::new();
    assert_eq!(next_frame(&mut reader, &stream, &mut at), Some(OwnedFrame::Data(b"hi".to_vec())));
    assert_eq!(
        next_frame(&mut reader, &stream, &mut at),
        Some(OwnedFrame::Resize { cols: 80, rows: 24 })
    );
    assert_eq!(next_frame(&mut reader, &stream, &mut at), Some(OwnedFrame::Close));
    assert_eq!(next_frame(&mut reader, &stream, &mut at), None);
}

#[test]
fn frame_reader_stops_at_the_boundary() {
    let mut stream = close_frame().to_vec();
    stream.extend_from_slice(b"REPLY-BYTES");
    let mut at = 0;
    let mut reader = FrameReader::new();
    assert_eq!(next_frame(&mut reader, &stream, &mut at), Some(OwnedFrame::Close));
    assert_eq!(&stream[at..], b"REPLY-BYTES");
}

#[test]
fn a_stream_may_come_one_byte_at_a_time() {
    let mut stream = data_frame(&[7u8; 300]);
    stream.extend_from_slice(&close_frame());
    let mut reader = FrameReader::new();
    let mut seen = Vec::new();
    for b in &stream {
        loop {
            match reader.next() {
                Next::Frame(frame) => seen.push(frame),
                Next::Read(n) => {
                    assert!(n >= 1);
                    break;
                }
                Next::Invalid => panic!("a broken stream"),
            }
        }
        reader.supply(&[*b]);
    }
    if let Next::Frame(frame) = reader.next() {
        seen.push(frame);
    }
    assert_eq!(seen, vec![OwnedFrame::Data(vec![7u8; 300]), OwnedFrame::Close]);
}

#[test]
fn a_stream_that_ends_within_a_frame_is_told_apart() {
    let frame = data_frame(b"cut");
    let mut reader = FrameReader::new();
    let Next::Read(n) = reader.next() else { panic!("a header is to be read") };
    assert_eq!(n, HEADER_LEN);
    reader.supply(&frame[..5]);
    assert!(matches!(reader.next(), Next::Read(_)));
    assert_eq!(reader.at_end(), End::MidFrame);
}

#[test]
fn the_longest_frame_is_read_and_a_longer_one_is_not() {
    let mut header = vec![KIND_DATA];
    header.extend_from_slice(&(MAX_FRAME as u32).to_be_bytes());
    assert_eq!(decode(&header), Decoded::Incomplete);
    let mut header = vec![KIND_DATA];
    header.extend_from_slice(&(MAX_FRAME as u32 + 1).to_be_bytes());
    assert_eq!(decode(&header), Decoded::Invalid);
}

#[test]
fn a_resize_of_another_length_is_unknown() {
    let mut buf = vec![1u8, 0, 0, 0, 2, 9, 9];
    assert_eq!(decode(&buf), Decoded::Frame(Frame::Unknown, 7));
    buf[4] = 3;
    assert_eq!(decode(&buf), Decoded::Incomplete);
}

#[test]
fn a_closing_frame_or_the_end_ends_a_session() {
    assert!(ends_session(&Some(OwnedFrame::Close)));
    assert!(ends_session(&None));
    assert!(!ends_session(&Some(OwnedFrame::Data(vec![1]))));
    assert!(!ends_session(&Some(OwnedFrame::Unknown)));
}
