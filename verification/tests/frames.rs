//! The frame and its JSON-RPC twin.

use bytes::{Bytes, BytesMut};
use ohmcp::error::{CoreError, SecurityError};
use ohmcp::frame::{Frame, FrameFlags, MsgType, HEADER_LEN, MAX_FRAME_LEN, PROTOCOL_VERSION};
use ohmcp::hex::{hex, unhex, unhex32};
use ohmcp::rpc::{frame_to_jsonrpc, jsonrpc_to_frame};
use serde_json::Value;

fn json(text: &str) -> Value {
    serde_json::from_str(text).unwrap()
}

#[test]
fn frame_roundtrip() {
    let f = Frame::new(MsgType::CallTool, 42, Bytes::from_static(b"hello"));
    let mut buf = BytesMut::new();
    f.encode(&mut buf);
    let g = Frame::decode(&mut buf).unwrap().unwrap();
    assert_eq!(g.header.request_id, 42);
    assert_eq!(g.header.msg_type, MsgType::CallTool);
    assert_eq!(&g.payload[..], b"hello");
    assert!(buf.is_empty());
}

#[test]
fn incomplete_returns_none() {
    let f = Frame::new(MsgType::Ping, 1, Bytes::from_static(b"abcdef"));
    let mut buf = BytesMut::new();
    f.encode(&mut buf);
    let mut partial = BytesMut::from(&buf[..buf.len() - 3]);
    assert!(Frame::decode(&mut partial).unwrap().is_none());
}

#[test]
fn bad_magic_rejected() {
    let mut buf = BytesMut::from(&[0u8; HEADER_LEN][..]);
    assert!(matches!(Frame::decode(&mut buf), Err(CoreError::BadMagic)));
}

#[test]
fn version_mismatch_rejected() {
    let f = Frame::new(MsgType::Ping, 1, Bytes::new());
    let mut buf = BytesMut::new();
    f.encode(&mut buf);
    buf[2] = PROTOCOL_VERSION + 1;
    assert!(matches!(
        Frame::decode(&mut buf),
        Err(CoreError::BadVersion(_))
    ));
}

#[test]
fn oversized_frame_rejected() {
    let f = Frame::new(MsgType::Ping, 1, Bytes::new());
    let mut buf = BytesMut::new();
    f.encode(&mut buf);
    buf[13..17].copy_from_slice(&(MAX_FRAME_LEN + 1).to_le_bytes());
    assert!(matches!(
        Frame::decode(&mut buf),
        Err(CoreError::FrameTooLarge(_))
    ));
}

#[test]
fn unknown_msg_type_rejected() {
    let f = Frame::new(MsgType::Ping, 1, Bytes::new());
    let mut buf = BytesMut::new();
    f.encode(&mut buf);
    buf[4] = 0x66;
    assert!(matches!(Frame::decode(&mut buf), Err(CoreError::Codec(_))));
}

#[test]
fn fuzz_random_bytes_never_panic() {
    let mut seed = 0x9e3779b97f4a7c15u64;
    for len in 0..256usize {
        let mut data = Vec::with_capacity(len);
        for _ in 0..len {
            seed = seed.wrapping_mul(6364136223846793005).wrapping_add(1);
            data.push((seed >> 33) as u8);
        }
        let mut buf = BytesMut::from(&data[..]);
        let _ = Frame::decode(&mut buf);
    }
}

#[test]
fn call_tool_roundtrip() {
    let req = json(
        r#"{"jsonrpc": "2.0", "id": 7, "method": "tools/call",
            "params": {"name": "echo", "arguments": {"msg": "hi"}}}"#,
    );
    let frame = jsonrpc_to_frame(&req).unwrap();
    assert_eq!(frame.header.msg_type, MsgType::CallTool);
    assert_eq!(frame.header.request_id, 7);
    let p: Value = serde_json::from_slice(&frame.payload).unwrap();
    assert_eq!(p["name"], "echo");
}

#[test]
fn response_mapping() {
    let f = Frame::new(
        MsgType::CallToolResult,
        7,
        Bytes::from(serde_json::to_vec(&json(r#"{"content": []}"#)).unwrap()),
    );
    let v = frame_to_jsonrpc(&f).unwrap();
    assert_eq!(v["id"], 7);
    assert!(v["result"]["content"].is_array());
}

#[test]
fn header_layout_is_fixed() {
    let mut f = Frame::new(MsgType::CallTool, 0x0102030405060708, Bytes::from_static(b"xyz"));
    f.header.flags = FrameFlags(FrameFlags::CACHEABLE);
    let mut buf = BytesMut::new();
    f.encode(&mut buf);
    assert_eq!(
        &buf[..],
        &[
            0x4D, 0x4F, 1, 8, 5, 8, 7, 6, 5, 4, 3, 2, 1, 3, 0, 0, 0, b'x', b'y', b'z'
        ]
    );
}

#[test]
fn every_prefix_of_a_frame_waits() {
    let f = Frame::new(MsgType::Pong, 9, Bytes::from_static(b"0123456789"));
    let mut whole = BytesMut::new();
    f.encode(&mut whole);
    for n in 0..whole.len() {
        let mut part = BytesMut::from(&whole[..n]);
        assert!(Frame::decode(&mut part).unwrap().is_none());
        assert_eq!(part.len(), n);
    }
}

#[test]
fn bytes_behind_a_frame_are_left() {
    let mut buf = BytesMut::new();
    for i in 0..5u64 {
        Frame::new(MsgType::Ping, i, Bytes::from(vec![i as u8; i as usize])).encode(&mut buf);
    }
    buf.extend_from_slice(&[0x4D, 0x4F, 1]);
    for i in 0..5u64 {
        let f = Frame::decode(&mut buf).unwrap().unwrap();
        assert_eq!(f.header.request_id, i);
        assert_eq!(f.header.payload_len as u64, i);
        assert_eq!(&f.payload[..], &vec![i as u8; i as usize][..]);
    }
    assert!(Frame::decode(&mut buf).unwrap().is_none());
    assert_eq!(&buf[..], &[0x4D, 0x4F, 1]);
}

#[test]
fn a_refused_frame_is_not_consumed() {
    let mut buf = BytesMut::new();
    Frame::new(MsgType::Ping, 1, Bytes::new()).encode(&mut buf);
    buf[4] = 0x00;
    let before = buf.clone();
    let err = Frame::decode(&mut buf).unwrap_err();
    assert_eq!(err.to_string(), "codec error: unknown msg type 0x0");
    assert_eq!(buf, before);
}

#[test]
fn message_types_and_bytes_are_one_to_one() {
    let mut known = 0;
    for v in 0..=255u8 {
        match MsgType::from_u8(v) {
            Ok(t) => {
                assert_eq!(t.to_u8(), v);
                known += 1;
            }
            Err(e) => {
                assert_eq!(e.to_string(), format!("codec error: unknown msg type {v:#x}"));
            }
        }
    }
    assert_eq!(known, 28);
    assert_eq!(MsgType::Error.to_u8(), 0x7F);
    assert_eq!(MsgType::from_u8(0x1B).unwrap(), MsgType::ResourceListChanged);
}

#[test]
fn requests_and_answers_belong_together() {
    assert_eq!(MsgType::Ping.answer_type(), Some(MsgType::Pong));
    assert_eq!(MsgType::CallTool.answer_type(), Some(MsgType::CallToolResult));
    assert_eq!(
        MsgType::UnsubscribeResource.answer_type(),
        Some(MsgType::SubscribeResourceResult)
    );
    assert_eq!(MsgType::Cancel.answer_type(), None);
    assert_eq!(MsgType::Progress.answer_type(), None);
}

#[test]
fn flags_are_read_bit_by_bit() {
    let f = FrameFlags(FrameFlags::COMPRESSED | FrameFlags::SHM_REF);
    assert!(f.compressed());
    assert!(!f.encrypted());
    assert!(!f.cache_ref());
    assert!(!f.cacheable());
    assert!(f.shm_ref());
    let g = FrameFlags(FrameFlags::ENCRYPTED | FrameFlags::CACHE_REF | FrameFlags::CACHEABLE);
    assert!(g.encrypted() && g.cache_ref() && g.cacheable());
    assert!(!g.compressed() && !g.shm_ref());
}

#[test]
fn errors_say_what_is_wrong() {
    assert_eq!(CoreError::BadMagic.to_string(), "invalid frame magic");
    assert_eq!(CoreError::BadVersion(7).to_string(), "unsupported protocol version 7");
    assert_eq!(
        CoreError::FrameTooLarge(67108865).to_string(),
        "frame too large: 67108865 bytes"
    );
    assert_eq!(CoreError::Incomplete.to_string(), "incomplete frame");
    assert_eq!(CoreError::Json("x".to_string()).to_string(), "json error: x");
    assert_eq!(SecurityError::AuthFailed.to_string(), "authentication failed");
    assert_eq!(SecurityError::DecryptFailed.to_string(), "decryption failed");
    assert_eq!(
        SecurityError::AccessDenied("rm".to_string()).to_string(),
        "access denied for tool rm"
    );
}

#[test]
fn requests_without_a_known_method_are_refused() {
    let none = jsonrpc_to_frame(&json(r#"{"id": 1}"#)).unwrap_err();
    assert_eq!(none.to_string(), "codec error: missing method");
    let number = jsonrpc_to_frame(&json(r#"{"method": 3}"#)).unwrap_err();
    assert_eq!(number.to_string(), "codec error: missing method");
    let other = jsonrpc_to_frame(&json(r#"{"method": "tools/drop"}"#)).unwrap_err();
    assert_eq!(other.to_string(), "codec error: unsupported method tools/drop");
}

#[test]
fn requests_carry_their_parameters() {
    let ping = jsonrpc_to_frame(&json(r#"{"id": 3, "method": "ping", "params": {"a": 1}}"#));
    let ping = ping.unwrap();
    assert_eq!(ping.header.msg_type, MsgType::Ping);
    assert!(ping.payload.is_empty());
    let list = jsonrpc_to_frame(&json(r#"{"method": "tools/list"}"#)).unwrap();
    assert_eq!(list.header.msg_type, MsgType::ListTools);
    assert_eq!(list.header.request_id, 0);
    assert!(list.payload.is_empty());
    let params = json(r#"{"z": [1, -2, "q\"uote"], "a": {"deep": null, "t": true}}"#);
    let mut req = json(r#"{"id": 18446744073709551615, "method": "initialize"}"#);
    req["params"] = params.clone();
    let init = jsonrpc_to_frame(&req).unwrap();
    assert_eq!(init.header.msg_type, MsgType::Initialize);
    assert_eq!(init.header.request_id, u64::MAX);
    let back: Value = serde_json::from_slice(&init.payload).unwrap();
    assert_eq!(back, params);
}

#[test]
fn every_client_method_has_its_type() {
    let methods = [
        ("initialize", MsgType::Initialize),
        ("tools/list", MsgType::ListTools),
        ("tools/call", MsgType::CallTool),
        ("ping", MsgType::Ping),
        ("resources/list", MsgType::ListResources),
        ("resources/read", MsgType::ReadResource),
        ("resources/subscribe", MsgType::SubscribeResource),
        ("resources/unsubscribe", MsgType::UnsubscribeResource),
        ("prompts/list", MsgType::ListPrompts),
        ("prompts/get", MsgType::GetPrompt),
        ("notifications/cancelled", MsgType::Cancel),
    ];
    for (method, t) in methods {
        let mut req = json(r#"{"jsonrpc": "2.0", "id": 3, "params": {"uri": "u"}}"#);
        req["method"] = Value::from(method);
        let f = jsonrpc_to_frame(&req).unwrap();
        assert_eq!((f.header.msg_type, f.header.request_id), (t, 3));
        if t != MsgType::Ping {
            let back: Value = serde_json::from_slice(&f.payload).unwrap();
            assert_eq!(back["uri"], "u");
        }
    }
    let list = json(r#"{"jsonrpc":"2.0","id":3,"method":"resources/list"}"#);
    let f = jsonrpc_to_frame(&list).unwrap();
    assert_eq!(f.header.msg_type, MsgType::ListResources);
    assert_eq!(f.header.request_id, 3);
    assert!(f.payload.is_empty());
}

#[test]
fn responses_have_a_result_or_an_error() {
    let err = Frame::new(MsgType::Error, 4, Bytes::from_static(b"{\"code\":-32601}"));
    assert_eq!(
        frame_to_jsonrpc(&err).unwrap(),
        json(r#"{"jsonrpc": "2.0", "id": 4, "error": {"code": -32601}}"#)
    );
    let pong = Frame::new(MsgType::Pong, 5, Bytes::from_static(b"[1]"));
    assert_eq!(
        frame_to_jsonrpc(&pong).unwrap(),
        json(r#"{"jsonrpc": "2.0", "id": 5, "result": {}}"#)
    );
    let empty = Frame::new(MsgType::InitializeResult, 6, Bytes::new());
    assert_eq!(
        frame_to_jsonrpc(&empty).unwrap(),
        json(r#"{"jsonrpc": "2.0", "id": 6, "result": null}"#)
    );
    let broken = Frame::new(MsgType::CallToolResult, 7, Bytes::from_static(b"{oops"));
    let e = frame_to_jsonrpc(&broken).unwrap_err();
    assert!(matches!(e, CoreError::Json(_)));
    assert!(e.to_string().starts_with("json error: "));
}

#[test]
fn hexadecimal_is_undone() {
    assert_eq!(hex(&[0x00, 0x0f, 0xa5, 0xff]), "000fa5ff");
    let all: Vec<u8> = (0..=255).collect();
    assert_eq!(unhex(&hex(&all)).unwrap(), all);
    assert_eq!(unhex("").unwrap(), Vec::<u8>::new());
    assert_eq!(unhex("AbCd").unwrap(), vec![0xab, 0xcd]);
    assert_eq!(unhex("+f"), None);
    assert_eq!(unhex("abc"), None);
    assert_eq!(unhex("zz"), None);
    assert_eq!(unhex("-1"), None);
    assert_eq!(unhex("1é2"), None);
    assert_eq!(unhex32(&hex(&[7u8; 32])), Some([7u8; 32]));
    assert_eq!(unhex32(&hex(&[7u8; 31])), None);
    assert_eq!(unhex32(&"g".repeat(64)), None);
    assert_eq!(unhex32(&"+1".repeat(32)), None);
    assert_eq!(unhex32(&format!("a{}a", "\u{e9}".repeat(31))), None);
}

#[test]
fn a_stream_may_come_in_any_pieces() {
    let mut whole = BytesMut::new();
    for i in 0..6u64 {
        Frame::new(MsgType::CallTool, i, Bytes::from(vec![i as u8; 7 * i as usize]))
            .encode(&mut whole);
    }
    for size in [1usize, 2, 5, 16, 17, 18, 64, 1000] {
        let mut buf = BytesMut::new();
        let mut seen = Vec::new();
        for piece in whole.chunks(size) {
            buf.extend_from_slice(piece);
            while let Some(f) = Frame::decode(&mut buf).unwrap() {
                seen.push((f.header.request_id, f.payload.len()));
            }
        }
        assert_eq!(seen, [(0, 0), (1, 7), (2, 14), (3, 21), (4, 28), (5, 35)]);
        assert!(buf.is_empty());
    }
}

#[test]
fn a_copied_frame_is_the_same_frame() {
    let mut f = Frame::new(MsgType::Error, 3, Bytes::from_static(b"body"));
    f.header.flags = FrameFlags(FrameFlags::CACHEABLE);
    let g = f.clone();
    assert_eq!(g.header.flags, f.header.flags);
    assert_eq!(g.header.msg_type, MsgType::Error);
    assert_eq!((g.header.request_id, g.header.payload_len), (3, 4));
    assert_eq!(g.payload, f.payload);
}
