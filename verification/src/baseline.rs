//! A plain MCP transport to measure against: one JSON-RPC message per line, with
//! no frames, no compression and no cache. The tools are the same.

use serde_json::Value;
use vstd::prelude::*;
use vstd::utf8::*;
use crate::json;
use crate::json::JsonView;
use crate::message::CallToolResult;
use crate::text;
use crate::tools::{ToolHandler, ToolRegistry};

verus! {

/// What a request is answered.
#[derive(Debug)]
pub enum BaselineAnswer {
    /// This value.
    Result(Value),
    /// The tools of the registry.
    Tools,
    /// What a tool gave.
    Ran(CallToolResult),
    /// That there is no such tool.
    UnknownTool,
}

/// What the server says of itself.
pub open spec fn introduction() -> JsonView {
    JsonView::empty_object().with("protocolVersion"@, JsonView::Str("2025-06-18"@)).with(
        "serverInfo"@,
        JsonView::empty_object().with("name"@, JsonView::Str("baseline"@)).with(
            "version"@,
            JsonView::Str("0.1.0"@),
        ),
    ).with("capabilities"@, JsonView::empty_object().with("tools"@, JsonView::empty_object()))
}

/// A member, or null where there is none.
pub open spec fn member_or_null(v: JsonView, key: Seq<char>) -> JsonView {
    match v.member(key) {
        Some(m) => m,
        None => JsonView::Null,
    }
}

/// The text of a member, or nothing where there is none.
pub open spec fn member_or_empty(v: JsonView, key: Seq<char>) -> Seq<char> {
    match v.member_text(key) {
        Some(s) => s,
        None => ""@,
    }
}

fn get_or_null(v: &Value, key: &str) -> (out: Value)
    ensures
        json::json_of(out) == member_or_null(json::json_of(*v), key@),
{
    match json::json_get(v, key) {
        Some(m) => json::json_clone(m),
        None => json::json_null(),
    }
}

/// Answers a request.
pub fn answer<H: ToolHandler, P>(request: &Value, registry: &ToolRegistry<H, P>) -> (out:
    BaselineAnswer)
    ensures
        ({
            let r = json::json_of(*request);
            let method = member_or_empty(r, "method"@);
            let params = member_or_null(r, "params"@);
            let name = member_or_empty(params, "name"@);
            if method == "initialize"@ {
                out matches BaselineAnswer::Result(v) && json::json_of(v) == introduction()
            } else if method == "tools/list"@ {
                out is Tools
            } else if method == "tools/call"@ {
                if registry@.handlers.contains_key(name) {
                    exists|args: Value, result: CallToolResult|
                        {
                            &&& json::json_of(args) == member_or_null(params, "arguments"@)
                            &&& #[trigger] call_ensures(
                                H::handle,
                                (&registry@.handlers[name], &args),
                                result,
                            )
                            &&& out == BaselineAnswer::Ran(result)
                        }
                } else {
                    out is UnknownTool
                }
            } else {
                out matches BaselineAnswer::Result(v) && json::json_of(v)
                    == JsonView::empty_object()
            }
        }),
{
    let method: &str = match json::member_str(request, "method") {
        Some(m) => m,
        None => "",
    };
    if text::str_equal(method, "initialize") {
        let mut info: Value = json::json_object();
        json::json_set(&mut info, "name", json::json_str("baseline"));
        json::json_set(&mut info, "version", json::json_str("0.1.0"));
        let mut capabilities: Value = json::json_object();
        json::json_set(&mut capabilities, "tools", json::json_object());
        let mut v: Value = json::json_object();
        json::json_set(&mut v, "protocolVersion", json::json_str("2025-06-18"));
        json::json_set(&mut v, "serverInfo", info);
        json::json_set(&mut v, "capabilities", capabilities);
        BaselineAnswer::Result(v)
    } else if text::str_equal(method, "tools/list") {
        BaselineAnswer::Tools
    } else if text::str_equal(method, "tools/call") {
        let params: Value = get_or_null(request, "params");
        let name: &str = match json::member_str(&params, "name") {
            Some(s) => s,
            None => "",
        };
        let args: Value = get_or_null(&params, "arguments");
        match registry.call(name, &args) {
            Some(r) => BaselineAnswer::Ran(r),
            None => BaselineAnswer::UnknownTool,
        }
    } else {
        BaselineAnswer::Result(json::json_object())
    }
}

/// A response with a result.
pub open spec fn result_response(id: JsonView, result: JsonView) -> JsonView {
    JsonView::empty_object().with("jsonrpc"@, JsonView::Str("2.0"@)).with("id"@, id).with(
        "result"@,
        result,
    )
}

/// The code of the response that there is no such tool.
pub const UNKNOWN_TOOL_CODE: i64 = -32601;

/// A response that there is no such tool.
pub open spec fn unknown_tool_response(id: JsonView) -> JsonView {
    JsonView::empty_object().with("jsonrpc"@, JsonView::Str("2.0"@)).with("id"@, id).with(
        "error"@,
        JsonView::empty_object().with(
            "code"@,
            JsonView::Number(json::JsonNumber::Negative(UNKNOWN_TOOL_CODE)),
        ).with("message"@, JsonView::Str("unknown tool"@)),
    )
}

/// A response to a request: with the result, or that there is no such tool. The
/// number of the request is given back as it came; null where it had none.
pub fn respond(request: &Value, result: Option<Value>) -> (out: Value)
    ensures
        ({
            let id = member_or_null(json::json_of(*request), "id"@);
            match result {
                Some(r) => json::json_of(out) == result_response(id, json::json_of(r)),
                None => json::json_of(out) == unknown_tool_response(id),
            }
        }),
{
    let mut out: Value = json::json_object();
    json::json_set(&mut out, "jsonrpc", json::json_str("2.0"));
    json::json_set(&mut out, "id", get_or_null(request, "id"));
    match result {
        Some(r) => json::json_set(&mut out, "result", r),
        None => {
            let mut e: Value = json::json_object();
            json::json_set(&mut e, "code", json::json_negative(UNKNOWN_TOOL_CODE));
            json::json_set(&mut e, "message", json::json_str("unknown tool"));
            json::json_set(&mut out, "error", e);
        },
    }
    out
}

/// A request.
pub fn request(id: u64, method: &str, params: Value) -> (out: Value)
    ensures
        json::json_of(out) == JsonView::empty_object().with(
            "jsonrpc"@,
            JsonView::Str("2.0"@),
        ).with("id"@, JsonView::of_u64(id)).with("method"@, JsonView::Str(method@)).with(
            "params"@,
            json::json_of(params),
        ),
{
    let mut v: Value = json::json_object();
    json::json_set(&mut v, "jsonrpc", json::json_str("2.0"));
    json::json_set(&mut v, "id", json::json_u64(id));
    json::json_set(&mut v, "method", json::json_str(method));
    json::json_set(&mut v, "params", params);
    v
}

/// The parameters of a call.
pub fn call_params(name: &str, arguments: Value) -> (out: Value)
    ensures
        json::json_of(out) == JsonView::empty_object().with("name"@, JsonView::Str(name@)).with(
            "arguments"@,
            json::json_of(arguments),
        ),
{
    let mut v: Value = json::json_object();
    json::json_set(&mut v, "name", json::json_str(name));
    json::json_set(&mut v, "arguments", arguments);
    v
}

/// A message as a line.
pub fn to_line(v: &Value) -> (out: Vec<u8>)
    ensures
        out@ == json::json_text(json::json_of(*v)) + encode_utf8("\n"@),
{
    let mut out: Vec<u8> = json::json_to_vec(v);
    out.extend_from_slice("\n".as_bytes());
    out
}

/// The message of a line, or the reason why it is no JSON.
pub fn from_line(line: &str) -> (out: Result<Value, String>)
    ensures
        match out {
            Ok(v) => json::json_parsed(encode_utf8(line@)) == json::parses_to(json::json_of(v)),
            Err(e) => json::json_parsed(encode_utf8(line@)) == json::parse_error(e@),
        },
{
    json::json_from_slice(line.as_bytes())
}

/// The request that a response answers; zero where it does not say.
pub fn response_id(response: &Value) -> (out: u64)
    ensures
        out == match json::json_of(*response).member_unsigned("id"@) {
            Some(n) => n,
            None => 0,
        },
{
    match json::member_u64(response, "id") {
        Some(n) => n,
        None => 0,
    }
}

/// The result of a response, or its error where it has one that is not null.
pub fn response_result(response: &Value) -> (out: Result<Value, Value>)
    ensures
        ({
            let r = json::json_of(*response);
            let error = member_or_null(r, "error"@);
            if error is Null {
                out matches Ok(v) && json::json_of(v) == member_or_null(r, "result"@)
            } else {
                out matches Err(e) && json::json_of(e) == error
            }
        }),
{
    if let Some(e) = json::json_get(response, "error") {
        if !json::json_is_null(e) {
            return Err(json::json_clone(e));
        }
    }
    Ok(get_or_null(response, "result"))
}

/// A request is answered under its own number.
pub proof fn responses_keep_the_number(id: u64, result: JsonView)
    ensures
        result_response(JsonView::of_u64(id), result).member_unsigned("id"@) == Some(id),
        unknown_tool_response(JsonView::of_u64(id)).member_unsigned("id"@) == Some(id),
        member_or_null(result_response(JsonView::of_u64(id), result), "error"@) is Null,
        member_or_null(result_response(JsonView::of_u64(id), result), "result"@) == result,
        member_or_null(unknown_tool_response(JsonView::of_u64(id)), "error"@) is Object,
{
    reveal_strlit("id");
    reveal_strlit("jsonrpc");
    reveal_strlit("error");
    reveal_strlit("result");
    assert("id"@.len() == 2 && "jsonrpc"@.len() == 7 && "error"@.len() == 5 && "result"@.len()
        == 6);
}

/// A request is answered by its method: an introduction, the list of tools, or what the
/// tool of the given name makes of the given arguments as they are, with null where there
/// are none; a tool that there is not is said not to be, and any other method is answered
/// with an object without members.
pub proof fn requests_are_answered_by_method<H: ToolHandler, P>(
    request: Value,
    registry: ToolRegistry<H, P>,
    out: BaselineAnswer,
    method: Seq<char>,
    name: Seq<char>,
    arguments: JsonView,
)
    requires
        call_ensures(answer::<H, P>, (&request, &registry), out),
        method == match json::json_of(request).member("method"@) {
            Some(JsonView::Str(s)) => s,
            _ => ""@,
        },
        name == match json::json_of(request).member("params"@) {
            Some(p) => match p.member("name"@) {
                Some(JsonView::Str(s)) => s,
                _ => ""@,
            },
            None => ""@,
        },
        arguments == match json::json_of(request).member("params"@) {
            Some(p) => match p.member("arguments"@) {
                Some(a) => a,
                None => JsonView::Null,
            },
            None => JsonView::Null,
        },
    ensures
        method == "initialize"@ ==> (out matches BaselineAnswer::Result(v) && {
            let r = json::json_of(v);
            &&& r.member("protocolVersion"@) == Some(JsonView::Str("2025-06-18"@))
            &&& r.member("serverInfo"@) matches Some(i) && i.member("name"@) == Some(
                JsonView::Str("baseline"@),
            ) && i.member("version"@) == Some(JsonView::Str("0.1.0"@))
            &&& r.member("capabilities"@) matches Some(c) && c.member("tools"@) == Some(
                JsonView::Object(Map::empty()),
            )
        }),
        method == "tools/list"@ ==> out is Tools,
        method == "tools/call"@ && !registry@.handlers.contains_key(name) ==> out is UnknownTool,
        method == "tools/call"@ && registry@.handlers.contains_key(name) ==> exists|
            args: Value,
            result: CallToolResult,
        |
            {
                &&& json::json_of(args) == arguments
                &&& #[trigger] call_ensures(
                    H::handle,
                    (&registry@.handlers[name], &args),
                    result,
                )
                &&& out == BaselineAnswer::Ran(result)
            },
        method != "initialize"@ && method != "tools/list"@ && method != "tools/call"@ ==> (
        out matches BaselineAnswer::Result(v) && json::json_of(v) == JsonView::Object(
            Map::empty(),
        )),
{
    reveal_strlit("initialize");
    reveal_strlit("tools/list");
    reveal_strlit("tools/call");
    reveal_strlit("protocolVersion");
    reveal_strlit("serverInfo");
    reveal_strlit("capabilities");
    reveal_strlit("name");
    reveal_strlit("version");
    assert("protocolVersion"@.len() == 15 && "serverInfo"@.len() == 10 && "capabilities"@.len()
        == 12);
    assert("name"@.len() == 4 && "version"@.len() == 7);
    assert("initialize"@.len() == 10 && "tools/list"@.len() == 10 && "tools/call"@.len() == 10);
    assert("initialize"@[0] == 'i' && "tools/list"@[0] == 't' && "tools/call"@[0] == 't');
    assert("tools/list"@[6] == 'l' && "tools/call"@[6] == 'c');
}

/// A response gives back the number of the request as it came, of whatever kind, with
/// the whole result, or with the error that there is no such tool.
pub proof fn responses_are_what_was_found(request: Value, result: Option<Value>, out: Value)
    requires
        call_ensures(respond, (&request, result), out),
    ensures
        ({
            let r = json::json_of(out);
            &&& r.member("jsonrpc"@) == Some(JsonView::Str("2.0"@))
            &&& r.member("id"@) == Some(
                match json::json_of(request).member("id"@) {
                    Some(id) => id,
                    None => JsonView::Null,
                },
            )
            &&& match result {
                Some(v) => r.member("result"@) == Some(json::json_of(v)) && r.member("error"@) is None,
                None => r.member("result"@) is None && (r.member("error"@) matches Some(e)
                    && e.member("code"@) == Some(
                    JsonView::Number(json::JsonNumber::Negative(-32601i64)),
                ) && e.member("message"@) == Some(JsonView::Str("unknown tool"@))),
            }
        }),
{
    reveal_strlit("id");
    reveal_strlit("jsonrpc");
    reveal_strlit("error");
    reveal_strlit("result");
    reveal_strlit("code");
    reveal_strlit("message");
    assert("id"@.len() == 2 && "jsonrpc"@.len() == 7 && "error"@.len() == 5 && "result"@.len()
        == 6);
    assert("code"@.len() == 4 && "message"@.len() == 7);
}

/// A request carries its number, its method and its parameters, and those of a call the
/// name and the arguments as they are; a message is sent as its text and the end of the
/// line.
pub proof fn requests_are_written_whole(
    id: u64,
    method: &str,
    params: Value,
    out: Value,
    name: &str,
    arguments: Value,
    call: Value,
    line: Vec<u8>,
)
    requires
        call_ensures(request, (id, method, params), out),
        call_ensures(call_params, (name, arguments), call),
        call_ensures(to_line, (&out,), line),
    ensures
        ({
            let r = json::json_of(out);
            &&& r.member("jsonrpc"@) == Some(JsonView::Str("2.0"@))
            &&& r.member("id"@) == Some(JsonView::Number(json::JsonNumber::Unsigned(id)))
            &&& r.member("method"@) == Some(JsonView::Str(method@))
            &&& r.member("params"@) == Some(json::json_of(params))
        }),
        json::json_of(call).member("name"@) == Some(JsonView::Str(name@)),
        json::json_of(call).member("arguments"@) == Some(json::json_of(arguments)),
        line@ == json::json_text(json::json_of(out)) + seq![10u8],
{
    reveal_strlit("id");
    reveal_strlit("jsonrpc");
    reveal_strlit("method");
    reveal_strlit("params");
    reveal_strlit("name");
    reveal_strlit("arguments");
    reveal_strlit("\n");
    assert("id"@.len() == 2 && "jsonrpc"@.len() == 7 && "method"@.len() == 6 && "params"@.len()
        == 6);
    assert("method"@[0] == 'm' && "params"@[0] == 'p');
    assert("name"@.len() == 4 && "arguments"@.len() == 9);
    assert(is_ascii_chars("\n"@));
    is_ascii_chars_encode_utf8("\n"@);
    assert(encode_utf8("\n"@) =~= seq![10u8]);
}

/// A response is read for the number in it, zero where it has none, and is an error
/// exactly where it has one that is not null; else its result is what stands under that
/// name, or null.
pub proof fn responses_are_read_as_they_are(
    response: Value,
    id: u64,
    out: Result<Value, Value>,
)
    requires
        call_ensures(response_id, (&response,), id),
        call_ensures(response_result, (&response,), out),
    ensures
        id == match json::json_of(response).member("id"@) {
            Some(JsonView::Number(json::JsonNumber::Unsigned(n))) => n,
            _ => 0,
        },
        match json::json_of(response).member("error"@) {
            Some(e) => if e is Null {
                out is Ok
            } else {
                out matches Err(v) && json::json_of(v) == e
            },
            None => out is Ok,
        },
        out matches Ok(v) ==> json::json_of(v) == match json::json_of(response).member("result"@) {
            Some(r) => r,
            None => JsonView::Null,
        },
{
}

/// A line is read as the JSON that it is, all of it, or refused with the reason.
pub proof fn lines_are_read_as_json(line: &str, out: Result<Value, String>)
    requires
        call_ensures(from_line, (line,), out),
    ensures
        match json::json_parsed(encode_utf8(line@)) {
            Ok(v) => out matches Ok(w) && json::json_of(w) == v,
            Err(reason) => out matches Err(e) && e@ == reason,
        },
{
}

} // verus!
