//! The shared-memory ring and the frames that refer to it.

use bytes::Bytes;
use ohmcp::client::OhmcpClient;
use ohmcp::frame::{Frame, FrameFlags, MsgType};
use ohmcp::pipeline::PayloadPipeline;
use ohmcp::ringframe::{find_payload, offer_to_ring, outbound, resolve, Carried};
use ohmcp::session::Session;
use ohmcp::shm::{
    decode_shm_ref, encode_shm_ref, plan_read, plan_write, poll_step, recv_step, send_step,
    valid_cap, PollStep, RecvStep, SendStep, ShmRing, MAX_SHM_CAP, SHM_THRESHOLD,
};

#[test]
fn ring_roundtrip() {
    let mut ring = ShmRing::create(4096);
    let data = vec![7u8; 1000];
    let off = ring.try_write(&data).unwrap();
    assert_eq!(ring.read_release(off, 1000).unwrap(), data);
}

#[test]
fn ring_wraparound_and_backpressure() {
    let mut ring = ShmRing::create(4096);
    let a = ring.try_write(&[1u8; 3000]).unwrap();
    assert!(
        ring.try_write(&[2u8; 3000]).is_none(),
        "no space until release"
    );
    assert_eq!(ring.read_release(a, 3000).unwrap(), vec![1u8; 3000]);
    let b = ring.try_write(&[2u8; 3000]).unwrap();
    assert_eq!(b as usize % 4096, 0, "skipped to ring start for contiguity");
    assert_eq!(ring.read_release(b, 3000).unwrap(), vec![2u8; 3000]);
}

#[test]
fn ring_rejects_bad_ref() {
    let mut ring = ShmRing::create(4096);
    assert!(ring.read_release(0, 100).is_none(), "unwritten region");
    let off = ring.try_write(&[3u8; 64]).unwrap();
    assert!(ring.read_release(off, 65).is_none(), "beyond head");
    assert!(ring.read_release(off, 8192).is_none(), "over capacity");
}

#[test]
fn shm_ref_codec() {
    let b = encode_shm_ref(123456789, 4242);
    assert_eq!(decode_shm_ref(&b), Some((123456789, 4242)));
    assert_eq!(decode_shm_ref(&b[..11]), None);
}

#[test]
fn references_are_little_endian() {
    assert_eq!(
        encode_shm_ref(0x0102030405060708, 0x0a0b0c0d),
        [8, 7, 6, 5, 4, 3, 2, 1, 0x0d, 0x0c, 0x0b, 0x0a]
    );
    assert_eq!(
        decode_shm_ref(&encode_shm_ref(u64::MAX, u32::MAX)),
        Some((u64::MAX, u32::MAX))
    );
    assert_eq!(decode_shm_ref(&[0u8; 13]), None);
}

#[test]
fn records_that_wait_are_not_written_over() {
    let mut ring = ShmRing::create(100);
    let mut waiting: Vec<(u64, Vec<u8>)> = Vec::new();
    let mut written = 0;
    for i in 0..200u8 {
        let record = vec![i; 1 + (i as usize * 7) % 40];
        loop {
            match ring.try_write(&record) {
                Some(at) => {
                    waiting.push((at, record.clone()));
                    written += 1;
                    break;
                }
                None => {
                    let (at, want) = waiting.remove(0);
                    assert_eq!(ring.read_release(at, want.len()).unwrap(), want);
                }
            }
        }
    }
    for (at, want) in waiting {
        assert_eq!(ring.read_release(at, want.len()).unwrap(), want);
    }
    assert_eq!(written, 200);
    assert_eq!(ring.capacity(), 100);
}

#[test]
fn nothing_and_too_much_find_no_room() {
    let mut ring = ShmRing::create(10);
    assert!(ring.try_write(&[]).is_none());
    assert!(ring.try_write(&[0u8; 11]).is_none());
    assert_eq!(ring.try_write(&[1u8; 10]), Some(0));
    assert!(ring.try_write(&[0u8; 1]).is_none());
    assert!(ring.read_release(0, 0).is_none());
    assert!(ring.read_release(5, 6).is_none());
    assert!(ring.read_release(u64::MAX, 1).is_none());
    assert_eq!(ring.read_release(0, 10).unwrap(), vec![1u8; 10]);
}

#[test]
fn plans_follow_the_cursors() {
    assert_eq!(plan_write(100, 0, 0, 100), Some(0));
    assert_eq!(plan_write(100, 90, 90, 20), Some(100));
    assert_eq!(plan_write(100, 90, 90, 91), None);
    assert_eq!(plan_write(100, 90, 80, 10), Some(90));
    assert_eq!(plan_write(100, 90, 0, 11), None);
    assert_eq!(plan_write(100, 50, 1000, 10), None);
    assert_eq!(plan_write(100, u64::MAX - 3, u64::MAX - 3, 10), None);
    assert!(plan_read(100, 120, 100, 20));
    assert!(!plan_read(100, 119, 100, 20));
    assert!(!plan_read(100, 1000, 95, 6));
    assert!(!plan_read(100, u64::MAX, u64::MAX, 1));
}

#[test]
fn capacities_have_limits() {
    assert!(!valid_cap(0));
    assert!(valid_cap(1));
    assert!(valid_cap(MAX_SHM_CAP));
    assert!(!valid_cap(MAX_SHM_CAP + 1));
}

#[test]
fn large_payloads_go_through_the_ring() {
    assert!(offer_to_ring(true, SHM_THRESHOLD));
    assert!(!offer_to_ring(true, SHM_THRESHOLD - 1));
    assert!(!offer_to_ring(false, SHM_THRESHOLD));
    let mut ring = ShmRing::create(64 * 1024);
    let mut p = PayloadPipeline::new();
    p.enable_encryption([4u8; 32]);
    let payload = Bytes::from(vec![0x5a; 20_000]);
    let at = ring.try_write(&payload).unwrap();
    let f = outbound(&mut p, MsgType::CallToolResult, 12, payload.clone(), Some(at));
    assert!(f.header.flags.shm_ref());
    assert_eq!(f.payload.len(), 12);
    assert_eq!(f.header.payload_len, 12);
    match find_payload(&f, true) {
        Carried::InRing(offset, len) => {
            assert_eq!((offset, len), (at, 20_000));
            let data = ring.read_release(offset, len as usize).unwrap();
            let g = resolve(f, len, data);
            assert_eq!(g.header.flags, FrameFlags(0));
            assert_eq!(g.header.payload_len, 20_000);
            assert_eq!(g.payload, payload);
            assert_eq!(p.unwrap(&g).unwrap(), payload);
        }
        other => panic!("unexpected: {other:?}"),
    }
    let inline = outbound(&mut p, MsgType::CallToolResult, 13, payload.clone(), None);
    assert!(matches!(find_payload(&inline, true), Carried::Inline));
    assert_eq!(p.unwrap(&inline).unwrap(), payload);
}

#[test]
fn references_need_a_ring_and_a_form() {
    let mut f = Frame::new(MsgType::CallTool, 1, Bytes::from_static(b"123456789012"));
    f.header.flags = FrameFlags(FrameFlags::SHM_REF);
    assert!(matches!(find_payload(&f, false), Carried::NoRing));
    let without = OhmcpClient::new(PayloadPipeline::new(), false, false);
    assert_eq!(
        without.downlink_ref(&f).unwrap_err(),
        "SHM_REF frame but shm channel not negotiated"
    );
    let server = Session::new(None);
    assert_eq!(
        server.uplink_ref(&f).unwrap_err(),
        "SHM_REF request but uplink not negotiated"
    );
    let mut server = Session::new(None);
    server.finish_shm_setup(true, true);
    assert!(server.uplink_ref(&f).unwrap().is_some());
    f.payload = Bytes::from_static(b"12345678901");
    assert!(matches!(find_payload(&f, true), Carried::BadRef));
    let with = OhmcpClient::new(PayloadPipeline::new(), true, false);
    assert_eq!(with.downlink_ref(&f).unwrap_err(), "bad shm ref payload");
    assert_eq!(server.uplink_ref(&f).unwrap_err(), "bad uplink shm ref payload");
    let e = OhmcpClient::resolve_shm(f, 70_000, 12, None).unwrap_err();
    assert_eq!(e, "invalid shm ref (offset=70000, len=12)");
    let g = Frame::new(MsgType::CallTool, 1, Bytes::new());
    assert!(server.uplink_ref(&g).unwrap().is_none());
    assert_eq!(
        Session::resolve_uplink(g, 1, None).unwrap_err(),
        "invalid uplink shm ref"
    );
}

#[test]
fn descriptor_exchange_is_decided_by_what_came() {
    assert_eq!(send_step(1, false), SendStep::Sent);
    assert_eq!(send_step(-1, true), SendStep::Wait);
    assert_eq!(send_step(-1, false), SendStep::Failed);
    assert_eq!(recv_step(-1, true, 0, None), RecvStep::Wait);
    assert_eq!(recv_step(-1, false, 1, Some(3)), RecvStep::Failed);
    assert_eq!(recv_step(0, false, 1, Some(3)), RecvStep::Closed);
    assert_eq!(recv_step(1, false, 0, Some(3)), RecvStep::Declined);
    assert_eq!(recv_step(1, false, 1, None), RecvStep::NoFd);
    assert_eq!(recv_step(1, false, 1, Some(-1)), RecvStep::BadFd);
    assert_eq!(recv_step(1, false, 1, Some(3)), RecvStep::Accepted);
    assert_eq!(poll_step(1), PollStep::Ready);
    assert_eq!(poll_step(0), PollStep::TimedOut);
    assert_eq!(poll_step(-1), PollStep::Failed);
}

#[test]
fn records_leave_the_ring_in_the_order_of_their_coming() {
    let mut ring = ShmRing::create(1000);
    let mut waiting: Vec<(u64, Vec<u8>)> = Vec::new();
    for i in 0..200u32 {
        let data = vec![i as u8; 1 + (i as usize * 37) % 300];
        while let None = ring.try_write(&data).map(|at| waiting.push((at, data.clone()))) {
            let (at, want) = waiting.remove(0);
            assert_eq!(ring.read_release(at, want.len()).unwrap(), want);
        }
    }
    for (at, want) in waiting {
        assert_eq!(ring.read_release(at, want.len()).unwrap(), want);
    }
}
