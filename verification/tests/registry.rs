//! The registry, the built-in tools and the plain transport.

use ohmcp::baseline;
use ohmcp::baseline::BaselineAnswer;
use ohmcp::builtin::{builtin_registry, BuiltinPrompt, BuiltinTool};
use ohmcp::message::{
    CallToolResult, ContentBlock, GetPromptResult, Prompt, PromptArgument, ResourceContents,
};
use ohmcp::server::{
    parse_arg, ListenAction, ListenEvent, Listener, ServerConfig, Shared, DEFAULT_SOCKET_PATH,
};
use ohmcp::tools::{PromptHandler, ToolHandler, ToolRegistry};
use serde_json::Value;

struct Shout;

impl ToolHandler for Shout {
    fn handle(&self, args: &Value) -> CallToolResult {
        let msg = args.get("msg").and_then(Value::as_str).unwrap_or("");
        CallToolResult::text(msg.to_uppercase())
    }
}

fn json(text: &str) -> Value {
    serde_json::from_str(text).unwrap()
}

fn registry() -> ToolRegistry<BuiltinTool<Shout>, BuiltinPrompt> {
    builtin_registry(Shout)
}

fn run(name: &str, args: &str) -> String {
    let r = registry().call(name, &json(args)).unwrap();
    assert!(!r.is_error);
    assert_eq!(r.content.len(), 1);
    match &r.content[0] {
        ContentBlock::Text { text } => text.clone(),
        other => panic!("unexpected content: {other:?}"),
    }
}

#[test]
fn builtin_tools_are_listed_in_order() {
    let r = registry();
    let names: Vec<&str> = r.tools().iter().map(|t| t.name.as_str()).collect();
    assert_eq!(names, ["echo", "kb.search", "kb.dump", "kb.blob", "device.status", "math.sum"]);
    let cacheable: Vec<bool> = names.iter().map(|n| r.is_cacheable(n)).collect();
    assert_eq!(cacheable, [false, true, true, false, true, false]);
    assert!(!r.is_cacheable("no.such"));
    assert!(r.call("no.such", &Value::Null).is_none());
    assert_eq!(r.tools()[0].description.as_deref(), Some("回显输入消息"));
    assert_eq!(
        r.tools()[1].input_schema,
        json(
            r#"{"type":"object","properties":{"query":{"type":"string"},"top_k":{"type":"integer"}}}"#
        )
    );
    assert_eq!(r.tools()[5].description.as_deref(), Some("对数组求和"));
    assert_eq!(
        r.tools()[5].input_schema,
        json(
            r#"{"type":"object","properties":{"values":{"type":"array","items":{"type":"number"}}}}"#
        )
    );
    match &r.call("math.sum", &json(r#"{"msg": "sum"}"#)).unwrap().content[0] {
        ContentBlock::Text { text } => assert_eq!(text, "SUM"),
        other => panic!("unexpected content: {other:?}"),
    }
}

#[test]
fn echo_gives_the_message_back() {
    assert_eq!(run("echo", r#"{"msg": "你好 \"hi\""}"#), "你好 \"hi\"");
    assert_eq!(run("echo", r#"{"msg": 3}"#), "");
    assert_eq!(run("echo", "[]"), "");
}

#[test]
fn search_finds_as_many_passages_as_asked_for() {
    let text = run("kb.search", r#"{"query": "软总线", "top_k": 3}"#);
    let lines: Vec<&str> = text.lines().collect();
    assert_eq!(lines.len(), 3);
    for (i, line) in lines.iter().enumerate() {
        assert_eq!(
            *line,
            format!(
                "[doc-{i}] 关于「软总线」的检索结果：OpenHarmony 是面向万物智联时代的\
                 开源操作系统，支持分布式软总线、跨设备协同与统一生态。本片段为知识库\
                 中与查询相关的文档内容，段落编号 {i}，包含背景介绍、接口说明与示例代码。"
            )
        );
    }
    assert_eq!(run("kb.search", "{}").lines().count(), 5);
    assert_eq!(run("kb.search", r#"{"top_k": 0}"#), "");
    assert_eq!(run("kb.search", r#"{"top_k": -1}"#).lines().count(), 5);
}

#[test]
fn dump_fills_the_size_of_a_document() {
    let text = run("kb.dump", r#"{"doc_id": "d7"}"#);
    assert!(text.starts_with("[d7#0] OpenHarmony 分布式软总线提供设备发现"));
    assert!(text.len() >= 64 * 1024);
    let last = text.lines().last().unwrap();
    assert!(text.len() - last.len() - 1 < 64 * 1024);
    let n = text.lines().count() - 1;
    assert!(last.starts_with(&format!("[d7#{n}]")));
    assert!(run("kb.dump", "{}").starts_with("[0#0]"));
}

#[test]
fn blob_has_the_size_asked_for() {
    for (args, kb) in [
        (r#"{"size_kb": 256, "seed": 9}"#, 256),
        (r#"{"size_kb": 0}"#, 1),
        (r#"{"size_kb": 100000}"#, 4096),
        ("{}", 64),
    ] {
        let text = run("kb.blob", args);
        assert!((kb * 1024..kb * 1024 + 4).contains(&text.len()), "len {}", text.len());
    }
    assert!(run("kb.blob", r#"{"size_kb": 1, "seed": 9}"#).starts_with("[blob#9:0] OpenHarmony"));
}

#[test]
fn status_is_a_json_text() {
    assert_eq!(
        run("device.status", r#"{"device_id": "watch \"01\""}"#),
        r#"{"battery":87,"cpu_load":0.42,"device_id":"watch \"01\"","mem_free_mb":1024,"network":"wifi"}"#
    );
    let v = json(&run("device.status", "{}"));
    assert_eq!(v["device_id"], "local");
    assert_eq!(v["cpu_load"], 0.42);
    assert_eq!(v.to_string(), run("device.status", "{}"));
}

#[test]
fn tools_of_another_kind_stand_beside_the_builtin_ones() {
    let mut r = registry();
    r.register("shout", "louder", json("{}"), true, BuiltinTool::Custom(Shout));
    assert_eq!(r.tools().len(), 7);
    assert!(r.is_cacheable("shout"));
    match &r.call("shout", &json(r#"{"msg": "hey"}"#)).unwrap().content[0] {
        ContentBlock::Text { text } => assert_eq!(text, "HEY"),
        other => panic!("unexpected content: {other:?}"),
    }
}

fn text_of(c: &ResourceContents) -> &str {
    c.text.as_deref().unwrap()
}

#[test]
fn resources_can_be_read_and_updated() {
    let mut r = registry();
    let uris: Vec<&str> = r.resources().iter().map(|x| x.uri.as_str()).collect();
    assert_eq!(uris, ["ohmcp://docs/protocol", "ohmcp://device/profile"]);
    let profile = r.read_resource("ohmcp://device/profile").unwrap();
    assert_eq!(profile.mime_type.as_deref(), Some("application/json"));
    assert_eq!(
        text_of(profile),
        r#"{"os":"OpenHarmony","kernel":"linux","arch":"aarch64"}"#
    );
    assert!(text_of(r.read_resource("ohmcp://docs/protocol").unwrap()).contains("ohmcp"));
    assert!(r.read_resource("ohmcp://no/such").is_none());
    assert!(r.has_resource("ohmcp://docs/protocol"));
    assert!(!r.has_resource("ohmcp://no/such"));
    assert!(r.update_resource("ohmcp://docs/protocol", "更新后的协议文档 v2"));
    let updated = r.read_resource("ohmcp://docs/protocol").unwrap();
    assert_eq!(text_of(updated), "更新后的协议文档 v2");
    assert_eq!(updated.mime_type.as_deref(), Some("text/markdown"));
    assert!(!r.update_resource("ohmcp://no/such", "x"));
    assert_eq!(r.resources().len(), 2);
}

struct Greeting;

impl PromptHandler for Greeting {
    fn render(&self, _args: &Value) -> GetPromptResult {
        GetPromptResult { description: None, messages: Vec::new() }
    }
}

#[test]
fn prompts_are_filled_in() {
    let r = registry();
    assert_eq!(r.prompts().len(), 1);
    assert_eq!(r.prompts()[0].name, "summarize");
    assert_eq!(r.prompts()[0].arguments[0].name, "text");
    assert!(r.prompts()[0].arguments[0].required);
    let g = r.get_prompt("summarize", &json(r#"{"text": "分布式软总线"}"#)).unwrap();
    assert_eq!(g.description.as_deref(), Some("摘要指令"));
    assert_eq!(g.messages.len(), 1);
    assert_eq!(g.messages[0].role, "user");
    match &g.messages[0].content {
        ContentBlock::Text { text } => {
            assert_eq!(text, "请用三句话以内总结以下内容：\n分布式软总线")
        }
        other => panic!("unexpected content: {other:?}"),
    }
    assert!(r.get_prompt("no.such", &Value::Null).is_none());
    let mut own: ToolRegistry<Shout, Greeting> = ToolRegistry::new();
    own.register_prompt(
        Prompt {
            name: "greet".to_string(),
            description: None,
            arguments: vec![PromptArgument {
                name: "who".to_string(),
                description: None,
                required: false,
            }],
        },
        Greeting,
    );
    assert!(own.get_prompt("greet", &Value::Null).is_some());
}

#[test]
fn plain_requests_are_answered() {
    let r = registry();
    let init = baseline::request(1, "initialize", Value::Null);
    match baseline::answer(&init, &r) {
        BaselineAnswer::Result(v) => {
            assert_eq!(v["serverInfo"]["name"], "baseline");
            assert_eq!(v["protocolVersion"], "2025-06-18");
            let resp = baseline::respond(&init, Some(v));
            assert_eq!(baseline::response_id(&resp), 1);
            assert_eq!(
                baseline::response_result(&resp).unwrap()["serverInfo"]["version"],
                "0.1.0"
            );
        }
        other => panic!("unexpected: {other:?}"),
    }
    let list = baseline::request(2, "tools/list", json("{}"));
    assert!(matches!(baseline::answer(&list, &r), BaselineAnswer::Tools));
    let call = baseline::request(
        3,
        "tools/call",
        baseline::call_params("echo", json(r#"{"msg": "hi"}"#)),
    );
    match baseline::answer(&call, &r) {
        BaselineAnswer::Ran(result) => match &result.content[0] {
            ContentBlock::Text { text } => assert_eq!(text, "hi"),
            other => panic!("unexpected content: {other:?}"),
        },
        other => panic!("unexpected: {other:?}"),
    }
    let unknown = baseline::request(4, "tools/call", baseline::call_params("x", Value::Null));
    assert!(matches!(
        baseline::answer(&unknown, &r),
        BaselineAnswer::UnknownTool
    ));
    let resp = baseline::respond(&unknown, None);
    assert_eq!(
        resp,
        json(r#"{"jsonrpc":"2.0","id":4,"error":{"code":-32601,"message":"unknown tool"}}"#)
    );
    assert_eq!(baseline::response_result(&resp).unwrap_err()["code"], -32601);
    assert!(matches!(
        baseline::answer(&json("[]"), &r),
        BaselineAnswer::Result(_)
    ));
}

#[test]
fn plain_messages_are_lines() {
    let v = baseline::request(7, "ping", json("{}"));
    let line = baseline::to_line(&v);
    assert_eq!(
        line,
        b"{\"id\":7,\"jsonrpc\":\"2.0\",\"method\":\"ping\",\"params\":{}}\n"
    );
    let text = std::str::from_utf8(&line).unwrap();
    assert_eq!(baseline::from_line(text).unwrap(), v);
    assert!(!baseline::from_line("{").unwrap_err().is_empty());
    assert_eq!(baseline::response_id(&json(r#"{"id": "x"}"#)), 0);
    assert_eq!(
        baseline::response_result(&json(r#"{"error": null}"#)).unwrap(),
        Value::Null
    );
}

#[test]
fn servers_start_with_their_defaults() {
    let c = ServerConfig::default();
    assert_eq!(c.max_connections, 256);
    assert_eq!(c.shutdown_grace_ms, 5000);
    assert_eq!(DEFAULT_SOCKET_PATH, "/tmp/ohmcpd.sock");
    let shared = Shared::new(Some(b"t".to_vec()), registry());
    assert!(shared.acl.check("anonymous", "echo").is_ok());
    assert!(shared.acl.check("agent", "echo").is_err());
    assert_eq!(shared.cache.stats(), (0, 0));
    assert_eq!(shared.token.as_deref(), Some(&b"t"[..]));
}

#[test]
fn connection_limit_rejects_excess_clients() {
    let cfg = ServerConfig { max_connections: 2, ..Default::default() };
    let mut l = Listener::new(cfg.max_connections);
    assert!(matches!(l.step(ListenEvent::Arrived), ListenAction::Serve));
    assert!(matches!(l.step(ListenEvent::Arrived), ListenAction::Serve));
    match l.step(ListenEvent::Arrived) {
        ListenAction::Refuse(e) => {
            assert_eq!(e.code, -32005);
            assert_eq!(e.message, "server busy: connection limit reached");
        }
        other => panic!("third connection must be rejected: {other:?}"),
    }
    assert!(matches!(l.step(ListenEvent::Ended), ListenAction::Wait));
    assert!(matches!(l.step(ListenEvent::Arrived), ListenAction::Serve));
    assert!(matches!(l.step(ListenEvent::Arrived), ListenAction::Refuse(_)));
}

#[test]
fn a_stopped_server_takes_no_connection() {
    let mut l = Listener::new(2);
    assert!(matches!(l.step(ListenEvent::Arrived), ListenAction::Serve));
    assert!(matches!(l.step(ListenEvent::Shutdown), ListenAction::Stop));
    assert!(matches!(l.step(ListenEvent::Arrived), ListenAction::Stop));
    assert!(matches!(l.step(ListenEvent::Ended), ListenAction::Wait));
    assert!(matches!(l.step(ListenEvent::Ended), ListenAction::Wait));
    assert!(matches!(l.step(ListenEvent::Arrived), ListenAction::Stop));
    assert!(matches!(Listener::new(0).step(ListenEvent::Arrived), ListenAction::Refuse(_)));
}

#[test]
fn arguments_follow_their_names() {
    let words: Vec<String> = ["ohmcpd", "--socket", "/tmp/x", "--token", "--socket", "--token"]
        .iter()
        .map(|s| s.to_string())
        .collect();
    assert_eq!(parse_arg(&words, "--socket").as_deref(), Some("/tmp/x"));
    assert_eq!(parse_arg(&words, "--token").as_deref(), Some("--socket"));
    assert_eq!(parse_arg(&words, "--max-conns"), None);
    assert_eq!(parse_arg(&words[..4], "--token"), None);
}

#[test]
fn tools_give_the_same_text_again() {
    for (name, args) in [
        ("echo", r#"{"msg": "x"}"#),
        ("kb.search", r#"{"query": "q", "top_k": 2}"#),
        ("kb.dump", r#"{"doc_id": "d"}"#),
        ("kb.blob", r#"{"size_kb": 2, "seed": 9}"#),
        ("device.status", r#"{"device_id": "x"}"#),
    ] {
        let first = run(name, args);
        assert!(!first.is_empty());
        assert_eq!(run(name, args), first, "{name}");
    }
}
