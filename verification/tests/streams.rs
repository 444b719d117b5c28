//! Framed streams, over any transport.

use bytes::Bytes;
use ohmcp::error::CoreError;
use ohmcp::frame::{Frame, MsgType};
use ohmcp::softbus::SessionStream;
use ohmcp::transport::{FrameReader, FrameWriter, ReadStep};

#[test]
fn duplex_roundtrip() {
    let mut w = FrameWriter::new();
    let mut r = FrameReader::new();
    for i in 0..100u64 {
        w.queue(&Frame::new(MsgType::Ping, i, Bytes::new()));
    }
    let wire = w.pending().to_vec();
    w.written(Ok(())).unwrap();
    assert!(matches!(r.feed(&wire), Ok(ReadStep::More)));
    for i in 0..100u64 {
        let f = r.next_buffered().unwrap().unwrap();
        assert_eq!(f.header.request_id, i);
    }
    assert!(r.next_buffered().unwrap().is_none());
    assert_eq!(w.bytes_written(), 1700);
    assert_eq!(r.bytes_read(), 1700);
    assert!(w.pending().is_empty());
}

#[test]
fn frames_over_simulated_softbus_session() {
    let mut w = FrameWriter::new();
    for i in 0..64u64 {
        w.queue(&Frame::new(MsgType::Ping, i, Bytes::from(vec![7u8; 100])));
    }
    let mut s = SessionStream::new(());
    let mut r = FrameReader::new();
    assert!(s.needs_block());
    s.refill(w.pending().to_vec());
    while !s.needs_block() {
        let piece = s.read(33);
        r.feed(&piece).unwrap();
    }
    for i in 0..64u64 {
        let f = r.next_buffered().unwrap().unwrap();
        assert_eq!(f.header.request_id, i);
        assert_eq!(f.payload.len(), 100);
    }
}

#[test]
fn large_frame_spans_message_boundaries() {
    let frame = Frame::new(MsgType::CallToolResult, 42, Bytes::from(vec![9u8; 300_000]));
    let mut encoded = bytes::BytesMut::new();
    frame.encode(&mut encoded);
    let mut s = SessionStream::new(());
    let mut r = FrameReader::new();
    let mut got = None;
    for chunk in encoded.chunks(4096) {
        assert!(got.is_none());
        s.refill(chunk.to_vec());
        while !s.needs_block() {
            let piece = s.read(1000);
            assert!(matches!(r.feed(&piece), Ok(ReadStep::More)));
        }
        got = r.next_buffered().unwrap();
    }
    let f = got.unwrap();
    assert_eq!(f.header.request_id, 42);
    assert_eq!(f.payload.len(), 300_000);
    assert!(matches!(r.feed(&[]), Ok(ReadStep::Closed)), "clean EOF");
}

#[test]
fn closed_session_is_clean_eof() {
    let mut r = FrameReader::new();
    assert!(matches!(r.feed(&[]), Ok(ReadStep::Closed)));
    assert_eq!(r.bytes_read(), 0);
}

#[test]
fn an_end_inside_a_frame_is_an_error() {
    let mut r = FrameReader::new();
    r.feed(&[0x4D, 0x4F, 1]).unwrap();
    assert!(r.next_buffered().unwrap().is_none());
    assert!(matches!(r.received(0), Err(CoreError::Incomplete)));
    assert_eq!(r.bytes_read(), 3);
}

#[test]
fn reading_a_block_keeps_its_order() {
    let mut s = SessionStream::new("peer");
    s.refill(vec![1, 2, 3, 4, 5]);
    assert_eq!(s.read(2), vec![1, 2]);
    assert_eq!(s.read(0), Vec::<u8>::new());
    assert_eq!(s.read(10), vec![3, 4, 5]);
    assert!(s.needs_block());
    assert_eq!(s.read(10), Vec::<u8>::new());
    assert_eq!(*s.session(), "peer");
}

#[test]
fn frames_that_could_not_be_written_keep_waiting() {
    let mut w = FrameWriter::new();
    w.queue(&Frame::new(MsgType::Ping, 1, Bytes::new()));
    w.queue(&Frame::new(MsgType::Ping, 2, Bytes::from_static(b"abc")));
    let wire = w.pending().to_vec();
    assert_eq!(wire.len(), 17 + 20);
    match w.written(Err("broken pipe".to_string())) {
        Err(CoreError::Codec(m)) => assert_eq!(m, "broken pipe"),
        other => panic!("unexpected outcome: {other:?}"),
    }
    assert_eq!(w.pending(), &wire[..]);
    assert_eq!(w.bytes_written(), 0);
    w.written(Ok(())).unwrap();
    assert!(w.pending().is_empty());
    assert_eq!(w.bytes_written(), 37);
}

#[test]
fn a_frame_that_is_cut_off_is_an_error_behind_the_whole_ones() {
    let mut w = FrameWriter::new();
    for i in 0..3u64 {
        w.queue(&Frame::new(MsgType::Ping, i, Bytes::from(vec![5u8; 10])));
    }
    let wire = w.pending().to_vec();
    for cut in [0usize, 1, 16, 17, 26] {
        let mut r = FrameReader::new();
        let mut ids = Vec::new();
        for piece in wire[..2 * 27 + cut].chunks(7) {
            assert!(matches!(r.feed(piece), Ok(ReadStep::More)));
            while let Some(f) = r.next_buffered().unwrap() {
                ids.push(f.header.request_id);
            }
        }
        assert_eq!(ids, [0, 1]);
        assert_eq!(r.bytes_read(), 2 * 27 + cut as u64);
        let end = r.feed(&[]);
        if cut == 0 {
            assert!(matches!(end, Ok(ReadStep::Closed)));
        } else {
            assert!(matches!(end, Err(CoreError::Incomplete)));
        }
    }
}
