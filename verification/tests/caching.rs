//! Compression, the result cache and the pipeline.

use bytes::Bytes;
use ohmcp::cache::{CacheKey, ResultCache};
use ohmcp::compress::{maybe_compress, maybe_decompress};
use ohmcp::frame::{Frame, FrameFlags, MsgType};
use ohmcp::hex::hex;
use ohmcp::pipeline::PayloadPipeline;
use std::time::Duration;

#[test]
fn small_payload_not_compressed() {
    let (out, c) = maybe_compress(Bytes::from_static(b"tiny"));
    assert!(!c);
    assert_eq!(&out[..], b"tiny");
}

#[test]
fn large_payload_roundtrip() {
    let data = "context ".repeat(1000);
    let (out, c) = maybe_compress(Bytes::from(data.clone()));
    assert!(c);
    assert!(out.len() < data.len());
    let back = maybe_decompress(out, true).unwrap();
    assert_eq!(&back[..], data.as_bytes());
}

#[test]
fn hit_and_miss() {
    let mut c = ResultCache::new(4, Duration::from_secs(60).as_nanos());
    let k = CacheKey::compute("echo", b"{\"msg\":\"hi\"}");
    assert!(c.get(&k).is_none());
    c.put(k, Bytes::from_static(b"result"));
    assert_eq!(c.get(&k).unwrap(), Bytes::from_static(b"result"));
    assert_eq!(c.stats(), (1, 1));
}

#[test]
fn ttl_expiry() {
    let mut c = ResultCache::new(4, Duration::from_millis(0).as_nanos());
    let k = CacheKey::compute("t", b"a");
    c.put_at(k, Bytes::from_static(b"v"), 0);
    assert!(c.get_at(&k, Duration::from_millis(2).as_nanos()).is_none());
}

#[test]
fn lru_eviction() {
    let ms = |n: u64| Duration::from_millis(n).as_nanos();
    let mut c = ResultCache::new(2, Duration::from_secs(60).as_nanos());
    let k1 = CacheKey::compute("a", b"1");
    let k2 = CacheKey::compute("b", b"2");
    let k3 = CacheKey::compute("c", b"3");
    c.put_at(k1, Bytes::from_static(b"1"), ms(0));
    c.put_at(k2, Bytes::from_static(b"2"), ms(2));
    assert!(c.get_at(&k1, ms(4)).is_some());
    c.put_at(k3, Bytes::from_static(b"3"), ms(4));
    assert!(c.get_at(&k2, ms(4)).is_none());
    assert!(c.get_at(&k1, ms(4)).is_some());
    assert!(c.get_at(&k3, ms(4)).is_some());
}

#[test]
fn wrap_unwrap_plain() {
    let mut p = PayloadPipeline::new();
    let payload = b"x".repeat(2048);
    let (frame, flags) = p.wrap(MsgType::CallTool, 5, Bytes::from(payload.clone()));
    assert!(flags.compressed());
    let out = p.unwrap(&frame).unwrap();
    assert_eq!(&out[..], &payload[..]);
}

#[test]
fn wrap_unwrap_encrypted() {
    let mut a = PayloadPipeline::new();
    let mut b = PayloadPipeline::new();
    a.enable_encryption([9u8; 32]);
    b.enable_encryption([9u8; 32]);
    let (frame, flags) = a.wrap(
        MsgType::CallToolResult,
        8,
        Bytes::from_static(b"secret result"),
    );
    assert!(flags.encrypted());
    assert_eq!(&b.unwrap(&frame).unwrap()[..], b"secret result");
}

#[test]
fn tampered_request_id_fails() {
    let mut a = PayloadPipeline::new();
    a.enable_encryption([9u8; 32]);
    let (mut frame, _) = a.wrap(MsgType::CallToolResult, 8, Bytes::from_static(b"secret"));
    frame.header.request_id = 999;
    assert!(a.unwrap(&frame).is_err());
}

#[test]
fn threshold_decides_on_compression() {
    let (out, c) = maybe_compress(Bytes::from(vec![b'a'; 511]));
    assert!(!c);
    assert_eq!(out.len(), 511);
    let (out, c) = maybe_compress(Bytes::from(vec![b'a'; 512]));
    assert!(c);
    assert!(out.len() < 512);
    assert_eq!(&out[..4], &512u32.to_le_bytes());
}

#[test]
fn noise_is_sent_as_it_is() {
    let mut seed = 1u64;
    let mut noise = Vec::new();
    for _ in 0..4096 {
        seed = seed.wrapping_mul(6364136223846793005).wrapping_add(1442695040888963407);
        noise.push((seed >> 40) as u8);
    }
    let (out, c) = maybe_compress(Bytes::from(noise.clone()));
    assert!(!c);
    assert_eq!(&out[..], &noise[..]);
}

#[test]
fn packed_bytes_are_an_lz4_block_behind_its_size() {
    let packed = Bytes::from_static(&[4, 0, 0, 0, 0x40, b'a', b'b', b'c', b'd']);
    assert_eq!(&maybe_decompress(packed.clone(), true).unwrap()[..], b"abcd");
    assert_eq!(maybe_decompress(packed.clone(), false).unwrap(), packed);
    assert!(maybe_decompress(Bytes::from_static(&[4, 0, 0]), true).is_err());
    let short = Bytes::from_static(&[2, 0, 0, 0, 0x40, b'a', b'b', b'c', b'd']);
    assert!(!maybe_decompress(short, true).unwrap_err().is_empty());
}

#[test]
fn keys_are_digests_of_name_and_arguments() {
    let k = CacheKey::compute("echo", b"{\"msg\":\"hi\"}");
    assert_eq!(
        hex(k.as_bytes()),
        "dab37daec6c3be6ef54ef2119ee59f4eba2d462c465bad77c0a01f6843e95589"
    );
    assert_ne!(CacheKey::compute("ab", b"c"), CacheKey::compute("a", b"bc"));
    assert_eq!(CacheKey::from_slice(k.as_bytes()), Some(k));
    assert_eq!(CacheKey::from_slice(&k.as_bytes()[..31]), None);
    assert_eq!(CacheKey::from_slice(&[0u8; 33]), None);
}

#[test]
fn a_result_is_served_up_to_its_time() {
    let mut c = ResultCache::new(4, 100);
    let k = CacheKey::compute("t", b"");
    c.put_at(k, Bytes::from_static(b"v"), 1000);
    assert!(c.get_at(&k, 1100).is_some());
    assert!(c.get_at(&k, 900).is_some());
    assert!(c.get_at(&k, 1101).is_none());
    assert!(c.get_at(&k, 1000).is_none());
    assert_eq!(c.stats(), (2, 2));
    c.put_at(k, Bytes::from_static(b"w"), 2000);
    c.put_at(k, Bytes::from_static(b"x"), 2001);
    assert_eq!(&c.get_at(&k, 2002).unwrap()[..], b"x");
}

#[test]
fn a_full_cache_makes_room_for_one() {
    let mut c = ResultCache::new(20, 1_000_000);
    let key = |i: u32| CacheKey::compute("t", &i.to_le_bytes());
    for i in 0..200u32 {
        c.put_at(key(i), Bytes::from(vec![i as u8]), i as u128);
    }
    let mut left = 0;
    for i in 0..200u32 {
        if let Some(b) = c.get_at(&key(i), 300) {
            assert_eq!(&b[..], &[i as u8]);
            left += 1;
        }
    }
    assert_eq!(left, 20);
    assert!(c.get_at(&key(199), 300).is_some());
    let mut one = ResultCache::new(0, 1_000_000);
    one.put_at(key(1), Bytes::from_static(b"1"), 0);
    assert!(one.get_at(&key(1), 0).is_some());
    one.put_at(key(2), Bytes::from_static(b"2"), 0);
    assert!(one.get_at(&key(1), 0).is_none());
    assert!(one.get_at(&key(2), 0).is_some());
}

#[test]
fn replacing_an_entry_needs_no_room() {
    let mut c = ResultCache::new(2, 1000);
    let a = CacheKey::compute("a", b"");
    let b = CacheKey::compute("b", b"");
    c.put_at(a, Bytes::from_static(b"1"), 0);
    c.put_at(b, Bytes::from_static(b"2"), 1);
    c.put_at(a, Bytes::from_static(b"3"), 2);
    assert_eq!(&c.get_at(&a, 3).unwrap()[..], b"3");
    assert_eq!(&c.get_at(&b, 3).unwrap()[..], b"2");
}

#[test]
fn wrapped_frames_fit_their_header() {
    let mut p = PayloadPipeline::new();
    p.enable_encryption([1u8; 32]);
    assert!(p.encryption_enabled());
    let (frame, flags) = p.wrap(MsgType::CallTool, 77, Bytes::from(vec![b'z'; 5000]));
    assert!(flags.compressed() && flags.encrypted());
    assert_eq!(frame.header.flags, flags);
    assert_eq!(frame.header.msg_type, MsgType::CallTool);
    assert_eq!(frame.header.request_id, 77);
    assert_eq!(frame.header.payload_len as usize, frame.payload.len());
    assert_eq!(&p.unwrap(&frame).unwrap()[..], &vec![b'z'; 5000][..]);
}

#[test]
fn a_key_stands_for_what_was_remembered() {
    let mut server = PayloadPipeline::new();
    let mut client = PayloadPipeline::new();
    server.enable_encryption([5u8; 32]);
    client.enable_encryption([5u8; 32]);
    let key = CacheKey::compute("kb.search", b"{}");
    let frame = server.wrap_cache_ref(MsgType::CallToolResult, 3, &key);
    assert!(frame.header.flags.cache_ref());
    assert_eq!(frame.payload.len(), 32 + 28);
    assert_eq!(client.unwrap(&frame).unwrap_err(), "cache ref miss");
    client.remember(key, Bytes::from_static(b"the result"));
    assert_eq!(&client.unwrap(&frame).unwrap()[..], b"the result");
    assert_eq!(client.cache_stats(), (1, 1));
    assert_eq!(&client.cache_get(&key).unwrap()[..], b"the result");
}

#[test]
fn frames_that_cannot_be_unwrapped_say_why() {
    let mut a = PayloadPipeline::new();
    a.enable_encryption([5u8; 32]);
    let (sealed, _) = a.wrap(MsgType::Ping, 1, Bytes::from_static(b"x"));
    let mut plain = PayloadPipeline::new();
    assert_eq!(
        plain.unwrap(&sealed).unwrap_err(),
        "encrypted frame but no session key"
    );
    let mut other = PayloadPipeline::new();
    other.enable_encryption([6u8; 32]);
    assert_eq!(other.unwrap(&sealed).unwrap_err(), "decryption failed");
    let mut odd = Frame::new(MsgType::CallToolResult, 1, Bytes::from_static(b"short"));
    odd.header.flags = FrameFlags(FrameFlags::CACHE_REF);
    assert_eq!(plain.unwrap(&odd).unwrap_err(), "bad cache ref");
}

#[test]
fn compression_never_makes_a_payload_longer() {
    let mut seed = 7u64;
    for len in [0usize, 1, 511, 512, 513, 700, 5000] {
        for step in [0u32, 40] {
            let mut data = Vec::new();
            for _ in 0..len {
                seed = seed.wrapping_mul(6364136223846793005).wrapping_add(1442695040888963407);
                data.push(if step == 0 { 0 } else { (seed >> step) as u8 });
            }
            let (out, packed) = maybe_compress(Bytes::from(data.clone()));
            assert!(out.len() <= data.len());
            assert_eq!(packed, out.len() < data.len());
            assert_eq!(&maybe_decompress(out, packed).unwrap()[..], &data[..]);
        }
    }
}

#[test]
fn a_sealed_frame_of_another_type_does_not_open() {
    let mut a = PayloadPipeline::new();
    a.enable_encryption([9u8; 32]);
    let (mut frame, _) = a.wrap(MsgType::CallToolResult, 8, Bytes::from_static(b"secret"));
    frame.header.msg_type = MsgType::Pong;
    assert_eq!(a.unwrap(&frame).unwrap_err(), "decryption failed");
    frame.header.msg_type = MsgType::CallToolResult;
    assert_eq!(&a.unwrap(&frame).unwrap()[..], b"secret");
}

#[test]
fn lengths_that_cannot_be_added_up_are_refused() {
    let mut block = vec![16, 0, 0, 0, 0xF0];
    block.resize(17_000_000, 0xFF);
    block.push(0);
    assert_eq!(
        maybe_decompress(Bytes::from(block), true).unwrap_err(),
        "length out of range"
    );
    let mut long = vec![16, 0, 0, 0, 0xF0];
    long.resize(1_000_000, 0xFF);
    long.push(0);
    assert!(maybe_decompress(Bytes::from(long), true).is_err());
    let len = 16_900_000usize;
    let mut literals = (len as u32).to_le_bytes().to_vec();
    literals.push(0xF0);
    literals.resize(5 + (len - 15) / 255, 0xFF);
    literals.push(((len - 15) % 255) as u8);
    literals.resize(literals.len() + len, 0xFF);
    let restored = maybe_decompress(Bytes::from(literals), true).unwrap();
    assert_eq!(restored.len(), len);
    assert!(restored.iter().all(|b| *b == 0xFF));
    let zeros = vec![0u8; 20_000_000];
    let (out, packed) = maybe_compress(Bytes::from(zeros.clone()));
    assert!(packed);
    assert_eq!(&maybe_decompress(out, true).unwrap()[..], &zeros[..]);
}

#[test]
fn sealed_payloads_are_28_bytes_longer() {
    let mut plain = PayloadPipeline::new();
    let mut sealing = PayloadPipeline::new();
    sealing.enable_encryption([3u8; 32]);
    for len in [0usize, 5, 511, 512, 4000] {
        let payload = Bytes::from(vec![b'x'; len]);
        let (a, _) = plain.wrap(MsgType::CallTool, 1, payload.clone());
        let (b, _) = sealing.wrap(MsgType::CallTool, 1, payload);
        assert_eq!(b.payload.len(), a.payload.len() + 28);
        assert_eq!(b.header.payload_len as usize, b.payload.len());
    }
}

#[test]
fn blocks_that_are_refused_early_keep_their_reason() {
    let heads: [(u32, &[u8]); 4] = [
        (16, &[0x10, b'a', 0, 0]),
        (16, &[0x10, b'a', 5, 0]),
        (2, &[0x10, b'a', 1, 0]),
        (0, &[0x10, b'a', 1, 0]),
    ];
    let mut reasons = Vec::new();
    for (size, head) in heads {
        let mut block = size.to_le_bytes().to_vec();
        block.extend_from_slice(head);
        block.push(0xF0);
        block.resize(17_000_000, 0xFF);
        block.push(0);
        let expected = lz4_flex::decompress_size_prepended(&block).unwrap_err().to_string();
        let reason = maybe_decompress(Bytes::from(block), true).unwrap_err();
        assert_eq!(reason, expected);
        assert_ne!(reason, "length out of range");
        reasons.push(reason);
    }
    assert_ne!(reasons[0], reasons[1]);
    assert_ne!(reasons[1], reasons[2]);
    let mut block = vec![16, 0, 0, 0, 0x1F, b'a', 1, 0];
    block.resize(17_000_000, 0xFF);
    block.push(0);
    assert_eq!(maybe_decompress(Bytes::from(block), true).unwrap_err(), "length out of range");
}
