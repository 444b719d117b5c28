//! Frames and standard MCP messages (JSON-RPC 2.0), turned into each other.

use bytes::Bytes;
use serde_json::Value;
use vstd::prelude::*;
use crate::buffer;
use crate::error::{CoreError, CoreFault};
use crate::frame::{Frame, FrameView, MsgType};
use crate::json;
use crate::json::JsonView;
use crate::text;

verus! {

/// The message type of a JSON-RPC method, for the methods that have one.
pub open spec fn method_type(method: Seq<char>) -> Option<MsgType> {
    if method == "initialize"@ {
        Some(MsgType::Initialize)
    } else if method == "tools/list"@ {
        Some(MsgType::ListTools)
    } else if method == "tools/call"@ {
        Some(MsgType::CallTool)
    } else if method == "ping"@ {
        Some(MsgType::Ping)
    } else if method == "resources/list"@ {
        Some(MsgType::ListResources)
    } else if method == "resources/read"@ {
        Some(MsgType::ReadResource)
    } else if method == "resources/subscribe"@ {
        Some(MsgType::SubscribeResource)
    } else if method == "resources/unsubscribe"@ {
        Some(MsgType::UnsubscribeResource)
    } else if method == "prompts/list"@ {
        Some(MsgType::ListPrompts)
    } else if method == "prompts/get"@ {
        Some(MsgType::GetPrompt)
    } else if method == "notifications/cancelled"@ {
        Some(MsgType::Cancel)
    } else {
        None
    }
}

/// The request number of a JSON-RPC message; zero where it has none.
pub open spec fn request_id_of(v: JsonView) -> u64 {
    match v.member_unsigned("id"@) {
        Some(n) => n,
        None => 0,
    }
}

/// The parameters that go into the frame of a JSON-RPC request. A ping has none.
pub open spec fn params_of(v: JsonView, msg_type: MsgType) -> JsonView {
    match v.member("params"@) {
        Some(p) => if msg_type == MsgType::Ping {
            JsonView::Null
        } else {
            p
        },
        None => JsonView::Null,
    }
}

/// A JSON value as a payload: null is an empty payload.
pub open spec fn payload_of(v: JsonView) -> Seq<u8> {
    if v is Null {
        Seq::empty()
    } else {
        json::json_text(v)
    }
}

/// The frame of a JSON-RPC request.
pub open spec fn frame_of(v: JsonView) -> Result<FrameView, CoreFault> {
    match v.member_text("method"@) {
        None => Err(CoreFault::Codec("missing method"@)),
        Some(method) => match method_type(method) {
            None => Err(CoreFault::Codec("unsupported method "@ + method)),
            Some(t) => Ok(
                FrameView::made(0, t, request_id_of(v), payload_of(params_of(v, t))),
            ),
        },
    }
}

/// The body of a frame: null where the payload is empty.
pub open spec fn body_of(payload: Seq<u8>) -> Result<JsonView, Seq<char>> {
    if payload.len() == 0 {
        json::parses_to(JsonView::Null)
    } else {
        json::json_parsed(payload)
    }
}

/// The JSON-RPC response of a frame with the given body.
pub open spec fn response_of(msg_type: MsgType, request_id: u64, body: JsonView) -> JsonView {
    let head = JsonView::empty_object().with("jsonrpc"@, JsonView::Str("2.0"@)).with(
        "id"@,
        JsonView::of_u64(request_id),
    );
    if msg_type == MsgType::Error {
        head.with("error"@, body)
    } else if msg_type == MsgType::Pong {
        head.with("result"@, JsonView::empty_object())
    } else {
        head.with("result"@, body)
    }
}

/// Turns a JSON-RPC request into a frame. Parameters without floats that are
/// not too deep can be read back from the frame as they were.
pub fn jsonrpc_to_frame(v: &Value) -> (out: Result<Frame, CoreError>)
    ensures
        match out {
            Ok(f) => frame_of(json::json_of(*v)) matches Ok(want) && f@ == want,
            Err(e) => frame_of(json::json_of(*v)) matches Err(want) && e@ == want,
        },
        out matches Ok(f) ==> {
            let params = params_of(json::json_of(*v), f.header.msg_type);
            params.exact(json::max_depth()) ==> body_of(f@.payload) == json::parses_to(params)
        },
{
    let method: &str = match json::member_str(v, "method") {
        Some(m) => m,
        None => return Err(CoreError::Codec(String::from_str("missing method"))),
    };
    let id: u64 = match json::member_u64(v, "id") {
        Some(n) => n,
        None => 0,
    };
    let msg_type: MsgType = if text::str_equal(method, "initialize") {
        MsgType::Initialize
    } else if text::str_equal(method, "tools/list") {
        MsgType::ListTools
    } else if text::str_equal(method, "tools/call") {
        MsgType::CallTool
    } else if text::str_equal(method, "ping") {
        MsgType::Ping
    } else if text::str_equal(method, "resources/list") {
        MsgType::ListResources
    } else if text::str_equal(method, "resources/read") {
        MsgType::ReadResource
    } else if text::str_equal(method, "resources/subscribe") {
        MsgType::SubscribeResource
    } else if text::str_equal(method, "resources/unsubscribe") {
        MsgType::UnsubscribeResource
    } else if text::str_equal(method, "prompts/list") {
        MsgType::ListPrompts
    } else if text::str_equal(method, "prompts/get") {
        MsgType::GetPrompt
    } else if text::str_equal(method, "notifications/cancelled") {
        MsgType::Cancel
    } else {
        return Err(CoreError::Codec(text::joined("unsupported method ", method)));
    };
    let payload: Vec<u8> = match json::json_get(v, "params") {
        Some(p) => if msg_type == MsgType::Ping || json::json_is_null(p) {
            Vec::new()
        } else {
            json::json_to_vec(p)
        },
        None => Vec::new(),
    };
    proof {
        assert(payload@ =~= payload_of(params_of(json::json_of(*v), msg_type)));
    }
    let bytes: Bytes = buffer::bytes_from_vec(payload);
    Ok(Frame::new(msg_type, id, bytes))
}

/// Turns a response frame into a JSON-RPC response.
pub fn frame_to_jsonrpc(frame: &Frame) -> (out: Result<Value, CoreError>)
    ensures
        match out {
            Ok(v) => body_of(frame@.payload) matches Ok(body) && json::json_of(v) == response_of(
                frame.header.msg_type,
                frame.header.request_id,
                body,
            ),
            Err(e) => body_of(frame@.payload) matches Err(reason) && e@ == CoreFault::Json(reason),
        },
{
    let payload: &[u8] = buffer::bytes_slice(&frame.payload);
    let body: Value = if payload.len() == 0 {
        json::json_null()
    } else {
        match json::json_from_slice(payload) {
            Ok(v) => v,
            Err(e) => return Err(CoreError::Json(e)),
        }
    };
    let mut out: Value = json::json_object();
    json::json_set(&mut out, "jsonrpc", json::json_str("2.0"));
    json::json_set(&mut out, "id", json::json_u64(frame.header.request_id));
    match frame.header.msg_type {
        MsgType::Error => json::json_set(&mut out, "error", body),
        MsgType::Pong => json::json_set(&mut out, "result", json::json_object()),
        _ => json::json_set(&mut out, "result", body),
    }
    Ok(out)
}

/// A response keeps the number of its request and its body: an error under
/// `error`, everything else but a pong under `result`.
pub proof fn response_keeps_number_and_body(msg_type: MsgType, request_id: u64, body: JsonView)
    ensures
        ({
            let r = response_of(msg_type, request_id, body);
            &&& r.member_unsigned("id"@) == Some(request_id)
            &&& r.member_text("jsonrpc"@) == Some("2.0"@)
            &&& msg_type == MsgType::Error ==> r.member("error"@) == Some(body) && r.member(
                "result"@,
            ) is None
            &&& msg_type != MsgType::Error ==> r.member("error"@) is None
            &&& msg_type != MsgType::Error && msg_type != MsgType::Pong ==> r.member("result"@)
                == Some(body)
        }),
{
    reveal_strlit("id");
    reveal_strlit("jsonrpc");
    reveal_strlit("error");
    reveal_strlit("result");
    assert("id"@.len() == 2 && "jsonrpc"@.len() == 7 && "error"@.len() == 5 && "result"@.len()
        == 6);
}

/// Each supported method has a message type of its own.
pub proof fn methods_have_distinct_types(a: Seq<char>, b: Seq<char>)
    requires
        method_type(a) is Some,
        method_type(a) == method_type(b),
    ensures
        a == b,
{
}

/// Each method has its message type, and no other method has one.
pub proof fn methods_have_their_types(method: Seq<char>)
    ensures
        method_type("initialize"@) == Some(MsgType::Initialize),
        method_type("tools/list"@) == Some(MsgType::ListTools),
        method_type("tools/call"@) == Some(MsgType::CallTool),
        method_type("ping"@) == Some(MsgType::Ping),
        method_type("resources/list"@) == Some(MsgType::ListResources),
        method_type("resources/read"@) == Some(MsgType::ReadResource),
        method_type("resources/subscribe"@) == Some(MsgType::SubscribeResource),
        method_type("resources/unsubscribe"@) == Some(MsgType::UnsubscribeResource),
        method_type("prompts/list"@) == Some(MsgType::ListPrompts),
        method_type("prompts/get"@) == Some(MsgType::GetPrompt),
        method_type("notifications/cancelled"@) == Some(MsgType::Cancel),
        method != "initialize"@ && method != "tools/list"@ && method != "tools/call"@ && method != "ping"@ && method != "resources/list"@ && method != "resources/read"@ && method != "resources/subscribe"@ && method != "resources/unsubscribe"@ && method != "prompts/list"@ && method != "prompts/get"@ && method != "notifications/cancelled"@
            ==> method_type(method) is None,
{
    reveal_strlit("initialize");
    reveal_strlit("tools/list");
    reveal_strlit("tools/call");
    reveal_strlit("ping");
    reveal_strlit("resources/list");
    reveal_strlit("resources/read");
    reveal_strlit("resources/subscribe");
    reveal_strlit("resources/unsubscribe");
    reveal_strlit("prompts/list");
    reveal_strlit("prompts/get");
    reveal_strlit("notifications/cancelled");
    assert("initialize"@.len() == 10 && "tools/list"@.len() == 10 && "tools/call"@.len() == 10);
    assert("ping"@.len() == 4 && "resources/list"@.len() == 14 && "resources/read"@.len() == 14);
    assert("resources/subscribe"@.len() == 19 && "resources/unsubscribe"@.len() == 21);
    assert("prompts/list"@.len() == 12 && "prompts/get"@.len() == 11);
    assert("notifications/cancelled"@.len() == 23);
    assert("initialize"@[0] == 'i' && "tools/list"@[6] == 'l' && "tools/call"@[6] == 'c');
    assert("tools/list"@[0] == 't' && "tools/call"@[0] == 't');
    assert("resources/list"@[10] == 'l' && "resources/read"@[10] == 'r');
}

/// A request is framed under the type of its method and the number it has, zero where it
/// has none; what it carries are its parameters as they are, and nothing for a ping, for
/// null and where it has none. Without a method, or with an unknown one, it is refused.
pub proof fn requests_are_framed_as_they_are(v: Value, out: Result<Frame, CoreError>)
    requires
        call_ensures(jsonrpc_to_frame, (&v,), out),
    ensures
        match json::json_of(v).member("method"@) {
            Some(JsonView::Str(method)) => match method_type(method) {
                Some(t) => out matches Ok(f) && {
                    &&& f.header.msg_type == t
                    &&& f.header.flags.0 == 0
                    &&& f.header.request_id == match json::json_of(v).member("id"@) {
                        Some(JsonView::Number(json::JsonNumber::Unsigned(n))) => n,
                        _ => 0,
                    }
                    &&& buffer::bytes_of(f.payload) == match json::json_of(v).member("params"@) {
                        Some(p) => if t is Ping || p is Null {
                            Seq::<u8>::empty()
                        } else {
                            json::json_text(p)
                        },
                        None => Seq::<u8>::empty(),
                    }
                },
                None => out matches Err(e) && e@ == CoreFault::Codec(
                    "unsupported method "@ + method,
                ),
            },
            _ => out matches Err(e) && e@ == CoreFault::Codec("missing method"@),
        },
{
}

/// A response carries the number of its frame and the whole body of it: under `error`
/// where the frame is an error, and else under `result`; that of a pong is empty, and a
/// frame without a payload has null. A body that is no JSON is refused, with the reason.
pub proof fn frames_are_answered_as_they_are(
    f: Frame,
    out: Result<Value, CoreError>,
    body: JsonView,
)
    requires
        call_ensures(frame_to_jsonrpc, (&f,), out),
        buffer::bytes_of(f.payload).len() == 0 ==> body == JsonView::Null,
        buffer::bytes_of(f.payload).len() > 0 ==> json::json_parsed(buffer::bytes_of(f.payload))
            == json::parses_to(body),
    ensures
        out matches Ok(v) && {
            let r = json::json_of(v);
            &&& r.member("jsonrpc"@) == Some(JsonView::Str("2.0"@))
            &&& r.member("id"@) == Some(
                JsonView::Number(json::JsonNumber::Unsigned(f.header.request_id)),
            )
            &&& f.header.msg_type is Error ==> r.member("error"@) == Some(body) && r.member(
                "result"@,
            ) is None
            &&& f.header.msg_type is Pong ==> r.member("result"@) == Some(
                JsonView::Object(Map::empty()),
            ) && r.member("error"@) is None
            &&& !(f.header.msg_type is Error) && !(f.header.msg_type is Pong) ==> r.member(
                "result"@,
            ) == Some(body) && r.member("error"@) is None
        },
{
    response_keeps_number_and_body(f.header.msg_type, f.header.request_id, body);
    reveal_strlit("id");
    reveal_strlit("jsonrpc");
    reveal_strlit("error");
    reveal_strlit("result");
    assert("id"@.len() == 2 && "jsonrpc"@.len() == 7 && "error"@.len() == 5 && "result"@.len()
        == 6);
}

/// A frame whose payload is no JSON has no response, and the reason is given.
pub proof fn garbled_frames_are_refused(
    f: Frame,
    out: Result<Value, CoreError>,
    reason: Seq<char>,
)
    requires
        call_ensures(frame_to_jsonrpc, (&f,), out),
        buffer::bytes_of(f.payload).len() > 0,
        json::json_parsed(buffer::bytes_of(f.payload)) == json::parse_error(reason),
    ensures
        out matches Err(e) && e@ == CoreFault::Json(reason),
{
}

} // verus!
