//! Both ends of a connection, talking to each other.

use bytes::Bytes;
use ohmcp::acl::ToolAcl;
use ohmcp::auth::EphemeralKeyPair;
use ohmcp::builtin::{builtin_registry, BuiltinPrompt, BuiltinTool};
use ohmcp::cache::{CacheKey, ResultCache};
use ohmcp::client::{
    finish_auth, initialize_params, prepare_call, prepare_progress_call, prepare_prompt,
    prepare_uri, prove_with, read_shm_answer, ring_sizes, Dispatch, Handshake, HandshakeNext,
    OhmcpClient, RequestError, ShmAnswer,
};
use ohmcp::frame::{Frame, MsgType};
use ohmcp::message::{
    AuthParams, AuthResult, CallToolParams, CallToolResult, CancelParams, ContentBlock, ErrorBody,
    GetPromptParams,
};
use ohmcp::pipeline::PayloadPipeline;
use ohmcp::server::Shared;
use ohmcp::session::{Answer, CallNext, Delivery, Inbound, Request, Session};
use ohmcp::shm::{ShmRing, DEFAULT_SHM_CAP};
use ohmcp::tools::{ToolHandler, ToolRegistry};
use serde_json::Value;

struct Sum;

impl ToolHandler for Sum {
    fn handle(&self, args: &Value) -> CallToolResult {
        let sum: f64 = args
            .get("values")
            .and_then(Value::as_array)
            .map(|a| a.iter().filter_map(Value::as_f64).sum())
            .unwrap_or(0.0);
        CallToolResult::text(format!("{sum}"))
    }
}

type Registry = ToolRegistry<BuiltinTool<Sum>, BuiltinPrompt>;

fn json(text: &str) -> Value {
    serde_json::from_str(text).unwrap()
}

fn write(v: &Value) -> Bytes {
    Bytes::from(serde_json::to_vec(v).unwrap())
}

fn error_value(e: &ErrorBody) -> Value {
    let mut v = json("{}");
    v["code"] = Value::from(e.code);
    v["message"] = Value::from(e.message.as_str());
    v
}

fn result_value(r: &CallToolResult) -> Value {
    let mut blocks = Vec::new();
    for b in &r.content {
        let mut v = json("{}");
        match b {
            ContentBlock::Text { text } => v["text"] = Value::from(text.as_str()),
            ContentBlock::Image { data, .. } => v["data"] = Value::from(data.as_str()),
        }
        blocks.push(v);
    }
    let mut v = json("{}");
    v["content"] = Value::Array(blocks);
    v["isError"] = Value::Bool(r.is_error);
    v
}

fn text_field(v: &Value, key: &str) -> Option<String> {
    v.get(key).and_then(Value::as_str).map(|s| s.to_string())
}

struct Server {
    session: Session,
    registry: Registry,
    acl: ToolAcl,
    results: ResultCache,
    down: ShmRing,
    up: ShmRing,
}

impl Server {
    fn new(token: Option<&[u8]>) -> Server {
        let registry: Registry = builtin_registry(Sum);
        let shared = Shared::new(token.map(|t| t.to_vec()), registry);
        Server {
            session: Session::new(shared.token),
            registry: shared.registry,
            acl: shared.acl,
            results: shared.cache,
            down: ShmRing::create(DEFAULT_SHM_CAP),
            up: ShmRing::create(DEFAULT_SHM_CAP),
        }
    }

    fn error(&mut self, t: MsgType, id: u64, e: &ErrorBody) -> Frame {
        self.session.answer_frame(t, id, true, write(&error_value(e))).unwrap()
    }

    fn send_result(&mut self, id: u64, result: Delivery) -> Frame {
        let offset = if self.session.offers_result_to_ring(result.payload().len()) {
            self.down.try_write(result.payload())
        } else {
            None
        };
        self.session.answer_call(id, result, offset)
    }

    fn call(&mut self, id: u64, body: &[u8]) -> Vec<Frame> {
        let v: Value = serde_json::from_slice(body).unwrap();
        let params = CallToolParams {
            name: text_field(&v, "name").unwrap(),
            arguments: v.get("arguments").cloned().unwrap_or(Value::Null),
            meta: v.get("_meta").cloned(),
        };
        let cacheable = self.registry.is_cacheable(&params.name);
        let now = self.results.now();
        let (progress, next) = self.session.begin_call_at(
            id,
            &params,
            &self.acl,
            cacheable,
            &mut self.results,
            now,
        );
        let mut out = Vec::new();
        if let Some(p) = progress {
            let mut v = json("{}");
            v["requestId"] = Value::from(p.request_id);
            v["progress"] = Value::from(p.progress);
            v["total"] = Value::from(p.total.unwrap());
            v["message"] = Value::from(p.message.unwrap());
            out.push(self.session.report(id, write(&v)));
        }
        match next {
            CallNext::Denied(e) => out.push(self.error(MsgType::CallTool, id, &e)),
            CallNext::SendRef(key) => out.push(self.session.answer_ref(id, &key)),
            CallNext::SendCached(result) => out.push(self.send_result(id, result)),
            CallNext::Execute(key) => {
                let result = self.registry.call(&params.name, &params.arguments);
                let bytes = result.map(|r| write(&result_value(&r)));
                let now = self.results.now();
                match self.session.finish_call_at(
                    &params.name,
                    key,
                    bytes,
                    &mut self.results,
                    now,
                ) {
                    Ok(result) => out.push(self.send_result(id, result)),
                    Err(e) => out.push(self.error(MsgType::CallTool, id, &e)),
                }
            }
        }
        out
    }

    fn request(&mut self, t: MsgType, id: u64, request: Request) -> Vec<Frame> {
        let answer = self.session.answer(request, &self.registry, "0.1.0");
        let body = match answer {
            Answer::Silence => return Vec::new(),
            Answer::Refused(e) => return vec![self.error(t, id, &e)],
            Answer::Done => ohmcp::session::empty_body(),
            Answer::Initialized(r) => {
                let mut v = json("{}");
                v["protocolVersion"] = Value::from(r.protocol_version);
                v["name"] = Value::from(r.server_info.name);
                v["version"] = Value::from(r.server_info.version);
                v["capabilities"] = r.capabilities;
                write(&v)
            }
            Answer::Tools => {
                let names: Vec<Value> =
                    self.registry.tools().iter().map(|t| Value::from(t.name.as_str())).collect();
                write(&Value::Array(names))
            }
            Answer::Resources => {
                let uris: Vec<Value> = self
                    .registry
                    .resources()
                    .iter()
                    .map(|r| Value::from(r.uri.as_str()))
                    .collect();
                write(&Value::Array(uris))
            }
            Answer::Prompts => {
                let names: Vec<Value> =
                    self.registry.prompts().iter().map(|p| Value::from(p.name.as_str())).collect();
                write(&Value::Array(names))
            }
            Answer::Contents(c) => write(&Value::from(c.text.unwrap())),
            Answer::Prompt(p) => match &p.messages[0].content {
                ContentBlock::Text { text } => write(&Value::from(text.as_str())),
                other => panic!("unexpected content: {other:?}"),
            },
        };
        self.session.answer_frame(t, id, false, body).into_iter().collect()
    }

    fn on_frame(&mut self, frame: Frame) -> Vec<Frame> {
        assert!(self.session.is_open());
        let frame = match self.session.uplink_ref(&frame).unwrap() {
            None => frame,
            Some((offset, len)) => {
                let data = self.up.read_release(offset, len as usize);
                Session::resolve_uplink(frame, len, data).unwrap()
            }
        };
        let id = frame.header.request_id;
        let t = frame.header.msg_type;
        match self.session.on_frame(&frame).unwrap() {
            Inbound::Authenticate(body) => {
                let v: Value = serde_json::from_slice(&body).unwrap();
                let params = AuthParams {
                    agent_id: text_field(&v, "agentId").unwrap(),
                    token: text_field(&v, "token").unwrap(),
                    nonce: text_field(&v, "nonce"),
                    eph_pub: text_field(&v, "ephPub"),
                };
                let r = self.session.authenticate(&params, &mut self.acl);
                let mut v = json("{}");
                v["ok"] = Value::Bool(r.ok);
                if let Some(p) = &r.eph_pub {
                    v["ephPub"] = Value::from(p.as_str());
                }
                if let Some(p) = &r.reason {
                    v["reason"] = Value::from(p.as_str());
                }
                assert_eq!(self.session.is_open(), r.ok);
                self.session.answer_frame(t, id, false, write(&v)).into_iter().collect()
            }
            Inbound::Refuse(e) => vec![self.error(t, id, &e)],
            Inbound::SetUpShm => {
                let body = self.session.finish_shm_setup(true, true);
                self.session.answer_frame(t, id, false, Bytes::from(body)).into_iter().collect()
            }
            Inbound::Initialize => self.request(t, id, Request::Initialize),
            Inbound::ListTools => self.request(t, id, Request::ListTools),
            Inbound::ListResources => self.request(t, id, Request::ListResources),
            Inbound::ListPrompts => self.request(t, id, Request::ListPrompts),
            Inbound::Ping => self.request(t, id, Request::Ping),
            Inbound::ReadResource(b) => {
                let v: Value = serde_json::from_slice(&b).unwrap();
                self.request(t, id, Request::ReadResource(text_field(&v, "uri").unwrap()))
            }
            Inbound::GetPrompt(b) => {
                let v: Value = serde_json::from_slice(&b).unwrap();
                let p = GetPromptParams {
                    name: text_field(&v, "name").unwrap(),
                    arguments: v["arguments"].clone(),
                };
                self.request(t, id, Request::GetPrompt(p))
            }
            Inbound::Subscribe(b) => {
                let v: Value = serde_json::from_slice(&b).unwrap();
                self.request(t, id, Request::Subscribe(text_field(&v, "uri").unwrap()))
            }
            Inbound::Unsubscribe(b) => {
                let v: Value = serde_json::from_slice(&b).unwrap();
                self.request(t, id, Request::Unsubscribe(text_field(&v, "uri").unwrap()))
            }
            Inbound::Cancel(b) => {
                let v: Value = serde_json::from_slice(&b).unwrap();
                let p = CancelParams {
                    request_id: v["requestId"].as_u64().unwrap(),
                    reason: None,
                };
                self.request(t, id, Request::Cancel(p))
            }
            Inbound::CallTool(b) => self.call(id, &b),
            Inbound::Ignore => Vec::new(),
        }
    }

    fn update(&mut self, uri: &str, text: &str) -> Vec<Frame> {
        assert!(self.registry.update_resource(uri, text));
        let mut v = json("{}");
        v["uri"] = Value::from(uri);
        let notice = self.session.notice(uri, write(&v));
        assert_eq!(notice.is_some(), self.session.is_subscribed(uri));
        notice.into_iter().collect()
    }
}

struct Client {
    state: OhmcpClient,
    server: Server,
    notices: Vec<Value>,
}

impl Client {
    fn connect(server: Server, agent: &str, token: Option<&[u8]>, shm: bool) -> Result<Client, String> {
        let mut server = server;
        let (mut h, mut next) = Handshake::start(agent, token.map(|t| t.to_vec()), shm);
        if let HandshakeNext::Prove(p) = next {
            let mut v = json("{}");
            v["agentId"] = Value::from(p.agent_id);
            v["token"] = Value::from(p.token);
            v["nonce"] = Value::from(p.nonce.unwrap());
            v["ephPub"] = Value::from(p.eph_pub.unwrap());
            let answer = server.on_frame(Frame::new(MsgType::Auth, 0, write(&v)));
            assert_eq!(answer[0].header.msg_type, MsgType::AuthResult);
            let v: Value = serde_json::from_slice(&answer[0].payload).unwrap();
            let r = AuthResult {
                ok: v["ok"].as_bool().unwrap(),
                session_key_b64: None,
                reason: text_field(&v, "reason"),
                eph_pub: text_field(&v, "ephPub"),
            };
            match h.on_auth_result(&r) {
                Some(n) => next = n,
                None => return Err(format!("auth failed: {:?}", r.reason)),
            }
        }
        let mut sizes = (None, None);
        if let HandshakeNext::SetUpShm = next {
            let answer = server.on_frame(Frame::new(MsgType::ShmSetup, 0, Bytes::new()));
            sizes = h.on_shm_answer(&answer[0], true, true)?;
        }
        let state = h.finish(sizes.0.is_some(), sizes.1.is_some());
        let mut c = Client { state, server, notices: Vec::new() };
        let p = initialize_params(agent, "0.1.0");
        let mut v = json("{}");
        v["protocolVersion"] = Value::from(p.protocol_version);
        v["capabilities"] = p.capabilities;
        let r = c.request(MsgType::Initialize, write(&v), None)?;
        assert_eq!(r["protocolVersion"], "2025-06-18");
        assert_eq!(r["name"], "ohmcpd");
        Ok(c)
    }

    fn take(&mut self, frames: Vec<Frame>, own: u64) -> Option<Frame> {
        let mut mine = None;
        for f in frames {
            let f = match self.state.downlink_ref(&f).unwrap() {
                None => f,
                Some((offset, len)) => {
                    let data = self.server.down.read_release(offset, len as usize);
                    OhmcpClient::resolve_shm(f, offset, len, data).unwrap()
                }
            };
            match self.state.dispatch(f, own) {
                Dispatch::Progress(b) | Dispatch::ResourceUpdated(b) => {
                    self.notices.push(serde_json::from_slice(&b).unwrap())
                }
                Dispatch::Own(f) => mine = Some(f),
                Dispatch::Other(_) => panic!("no other request waits"),
                Dispatch::Nobody => panic!("a frame for nobody"),
            }
        }
        mine
    }

    fn request(&mut self, t: MsgType, payload: Bytes, key: Option<CacheKey>) -> Result<Value, String> {
        let id = self.state.take_id();
        let offset = if self.state.offers_request_to_ring(payload.len()) {
            self.server.up.try_write(&payload)
        } else {
            None
        };
        let (f, contended) = self.state.begin_request(t, id, payload, offset);
        assert!(!contended);
        let frames = self.server.on_frame(f);
        let mine = self.take(frames, id).unwrap();
        match self.state.accept(&mine, key) {
            Ok(b) => Ok(serde_json::from_slice(&b).unwrap()),
            Err(RequestError::Broken(e)) => Err(e),
            Err(RequestError::Refused(b)) => {
                Err(format!("server error: {}", std::str::from_utf8(&b).unwrap()))
            }
        }
    }

    fn call(&mut self, name: &str, args: &str) -> Result<Value, String> {
        let (payload, key) = prepare_call(name, &json(args));
        self.request(MsgType::CallTool, Bytes::from(payload), key)
    }

    fn ping(&mut self) {
        assert_eq!(self.request(MsgType::Ping, Bytes::new(), None).unwrap(), json("{}"));
    }
}

fn text_of(v: &Value) -> String {
    v["content"][0]["text"].as_str().unwrap().to_string()
}

#[test]
fn wrong_token_is_rejected() {
    let server = Server::new(Some(b"correct-token"));
    let r = Client::connect(server, "evil-agent", Some(b"wrong-token"), false);
    assert!(r.is_err(), "wrong token must fail the handshake");
    assert_eq!(r.err().unwrap(), "auth failed: Some(\"invalid token\")");
}

#[test]
fn unauthenticated_requests_are_denied() {
    let server = Server::new(Some(b"secret"));
    let r = Client::connect(server, "anon-agent", None, false);
    let err = r.err().expect("must be denied");
    assert!(
        err.contains("-32001") && err.contains("authentication"),
        "{err}"
    );
}

#[test]
fn unknown_tool_returns_server_error() {
    let mut c = Client::connect(Server::new(None), "agent", None, false).unwrap();
    let msg = c.call("no.such.tool", "{}").unwrap_err();
    assert!(
        msg.contains("-32601") && msg.contains("server error"),
        "{msg}"
    );
    assert!(msg.contains("unknown tool: no.such.tool"));
    c.ping();
}

#[test]
fn cacheable_repeat_hits_client_cache() {
    let mut c = Client::connect(Server::new(None), "agent", None, false).unwrap();
    let args = r#"{"query": "软总线", "top_k": 3}"#;
    let first = c.call("kb.search", args).unwrap();
    let second = c.call("kb.search", args).unwrap();
    assert_eq!(first, second);
    let (hits, _) = c.state.cache_stats();
    assert!(hits >= 1, "second call must hit local cache (hits={hits})");
    let _ = c.call("math.sum", r#"{"values": [1, 2]}"#).unwrap();
    let _ = c.call("math.sum", r#"{"values": [1, 2]}"#).unwrap();
    let (hits2, _) = c.state.cache_stats();
    assert_eq!(hits2, hits, "non-cacheable tool must not hit cache");
}

#[test]
fn progress_notifications_delivered_before_result() {
    let mut c = Client::connect(Server::new(None), "agent", None, false).unwrap();
    let (payload, key) = prepare_progress_call("echo", json(r#"{"msg": "hi"}"#));
    let r = c.request(MsgType::CallTool, Bytes::from(payload), key).unwrap();
    assert_eq!(r["isError"], false);
    assert!(
        !c.notices.is_empty(),
        "must receive at least one progress update"
    );
    assert_eq!(c.notices[0]["progress"], 0);
    assert_eq!(c.notices[0]["total"], 1);
    assert_eq!(c.notices[0]["message"], "executing echo");
    assert_eq!(c.notices[0]["requestId"], 2);
}

#[test]
fn cancelled_request_is_skipped_and_session_survives() {
    let mut s = Server::new(None);
    let cancel = write(&json(r#"{"requestId": 7}"#));
    assert!(s.on_frame(Frame::new(MsgType::Cancel, 7, cancel)).is_empty());
    let call = write(&json(r#"{"name": "echo", "arguments": {"msg": "x"}}"#));
    let resp = s.on_frame(Frame::new(MsgType::CallTool, 7, call.clone()));
    assert_eq!(resp.len(), 1);
    assert_eq!(resp[0].header.request_id, 7);
    assert_eq!(resp[0].header.msg_type, MsgType::Error);
    assert!(std::str::from_utf8(&resp[0].payload).unwrap().contains("-32800"));
    let resp = s.on_frame(Frame::new(MsgType::CallTool, 8, call.clone()));
    assert_eq!(resp[0].header.request_id, 8);
    assert_eq!(resp[0].header.msg_type, MsgType::CallToolResult);
    let resp = s.on_frame(Frame::new(MsgType::CallTool, 7, call));
    assert_eq!(resp[0].header.msg_type, MsgType::CallToolResult);
}

#[test]
fn resources_and_prompts_roundtrip() {
    let mut c = Client::connect(Server::new(None), "agent", None, false).unwrap();
    let uris = c.request(MsgType::ListResources, Bytes::new(), None).unwrap();
    assert!(uris.as_array().unwrap().contains(&Value::from("ohmcp://docs/protocol")));
    let body = Bytes::from(prepare_uri("ohmcp://docs/protocol"));
    let text = c.request(MsgType::ReadResource, body, None).unwrap();
    assert!(text.as_str().unwrap().contains("ohmcp"));
    let body = Bytes::from(prepare_uri("ohmcp://no/such"));
    let e = c.request(MsgType::ReadResource, body, None).unwrap_err();
    assert!(e.contains("-32002") && e.contains("resource not found: ohmcp://no/such"));
    c.ping();
    let names = c.request(MsgType::ListPrompts, Bytes::new(), None).unwrap();
    assert_eq!(names, json(r#"["summarize"]"#));
    let body = prepare_prompt("summarize", json(r#"{"text": "分布式软总线"}"#));
    let text = c.request(MsgType::GetPrompt, Bytes::from(body), None).unwrap();
    assert!(text.as_str().unwrap().contains("分布式软总线"));
    let body = prepare_prompt("no.such", json("{}"));
    let e = c.request(MsgType::GetPrompt, Bytes::from(body), None).unwrap_err();
    assert!(e.contains("-32602") && e.contains("unknown prompt: no.such"));
    c.ping();
}

#[test]
fn resource_subscription_delivers_updates() {
    let mut c = Client::connect(Server::new(None), "agent", None, false).unwrap();
    let body = Bytes::from(prepare_uri("ohmcp://no/such"));
    assert!(c.request(MsgType::SubscribeResource, body, None).is_err());
    c.ping();
    let uri = "ohmcp://docs/protocol";
    let body = Bytes::from(prepare_uri(uri));
    c.request(MsgType::SubscribeResource, body.clone(), None).unwrap();
    let frames = c.server.update(uri, "更新后的协议文档 v2");
    assert!(c.take(frames, 0).is_none());
    assert_eq!(c.notices.len(), 1, "subscribed update must be delivered");
    assert_eq!(c.notices[0]["uri"], "ohmcp://docs/protocol");
    let text = c.request(MsgType::ReadResource, body.clone(), None).unwrap();
    assert_eq!(text, Value::from("更新后的协议文档 v2"));
    c.request(MsgType::UnsubscribeResource, body, None).unwrap();
    assert!(
        c.server.update(uri, "v3").is_empty(),
        "no notification after unsubscribing"
    );
}

#[test]
fn forward_secret_session_encrypts_and_works() {
    let server = Server::new(Some(b"fs-token"));
    let mut c = Client::connect(server, "agent", Some(b"fs-token"), false).unwrap();
    let r = c.call("echo", r#"{"msg": "pfs"}"#).unwrap();
    assert_eq!(text_of(&r), "pfs");
    c.ping();
    let id = c.state.take_id();
    let (f, _) = c.state.begin_request(MsgType::Ping, id, Bytes::new(), None);
    assert!(f.header.flags.encrypted());
}

#[test]
fn list_tools_and_ping() {
    let mut c = Client::connect(Server::new(None), "agent", None, false).unwrap();
    let names = c.request(MsgType::ListTools, Bytes::new(), None).unwrap();
    for expected in [
        "echo",
        "kb.search",
        "kb.dump",
        "kb.blob",
        "device.status",
        "math.sum",
    ] {
        assert!(
            names.as_array().unwrap().contains(&Value::from(expected)),
            "missing tool {expected}"
        );
    }
    c.ping();
}

#[test]
fn shm_mixed_sizes_and_fallback_coexist() {
    let mut c = Client::connect(Server::new(None), "mix-agent", None, true).unwrap();
    assert!(c.state.shm_enabled());
    for i in 0..20u32 {
        let small = c.call("echo", &format!("{{\"msg\": \"m-{i}\"}}")).unwrap();
        assert_eq!(text_of(&small), format!("m-{i}"));
        let big = c
            .call("kb.blob", &format!("{{\"size_kb\": 256, \"seed\": {i}}}"))
            .unwrap();
        let t = text_of(&big);
        assert!(t.starts_with(&format!("[blob#{i}:0]")));
        assert!(
            (256 * 1024..256 * 1024 + 4).contains(&t.len()),
            "len {}",
            t.len()
        );
    }
}

#[test]
fn plain_connect_matches_shm_result() {
    let mut plain = Client::connect(Server::new(None), "plain", None, false).unwrap();
    let mut shm = Client::connect(Server::new(None), "shm", None, true).unwrap();
    assert!(!plain.state.shm_enabled());
    assert!(shm.state.shm_enabled());
    let a = plain.call("kb.dump", r#"{"doc_id": "parity"}"#).unwrap();
    let b = shm.call("kb.dump", r#"{"doc_id": "parity"}"#).unwrap();
    assert_eq!(text_of(&a), text_of(&b), "SHM and frame paths must agree");
}

#[test]
fn large_requests_go_up_through_the_ring() {
    let server = Server::new(Some(b"up"));
    let mut c = Client::connect(server, "agent", Some(b"up"), true).unwrap();
    let msg = "长文本".repeat(10_000);
    let r = c.call("echo", &format!("{{\"msg\": \"{msg}\"}}")).unwrap();
    assert_eq!(text_of(&r), msg);
    let (_, key) = prepare_call("echo", &Value::from(msg));
    assert!(key.is_none());
}

#[test]
fn agents_call_what_they_may() {
    let mut c = Client::connect(Server::new(None), "agent", None, false).unwrap();
    c.server.acl = ToolAcl::new();
    c.server.acl.grant("anonymous", "echo");
    assert!(c.call("echo", "{}").is_ok());
    let e = c.call("kb.search", "{}").unwrap_err();
    assert!(e.contains("-32002") && e.contains("access denied: kb.search"));
    c.ping();
}

#[test]
fn believed_agents_may_call_everything() {
    let server = Server::new(Some(b"t"));
    let c = Client::connect(server, "scheduler", Some(b"t"), false).unwrap();
    assert!(c.server.acl.check("scheduler", "echo").is_ok());
    assert!(c.server.acl.check("other", "echo").is_err());
}

#[test]
fn handshake_agrees_without_forward_secrecy() {
    let pair = EphemeralKeyPair::from_secret([1u8; 32]);
    let (params, attempt) = prove_with("a", b"token", &[2u8; 16], pair);
    assert_eq!(params.nonce.as_deref(), Some("02020202020202020202020202020202"));
    let mut s = Session::new(Some(b"token".to_vec()));
    let mut acl = ToolAcl::new();
    let r = s.authenticate_with(&params, None, &mut acl);
    assert!(r.ok && r.eph_pub.is_none() && r.reason.is_none());
    let key = finish_auth(attempt, b"token", &r).unwrap();
    let mut pipeline = PayloadPipeline::new();
    pipeline.enable_encryption(key);
    let mut c = OhmcpClient::new(pipeline, false, false);
    let (f, _) = c.begin_request(MsgType::ReadResource, 1, Bytes::from_static(b"{}"), None);
    assert!(f.header.flags.encrypted());
    match s.on_frame(&f).unwrap() {
        Inbound::ReadResource(b) => assert_eq!(&b[..], b"{}"),
        other => panic!("unexpected: {other:?}"),
    }
}

#[test]
fn proofs_need_a_nonce_and_a_token() {
    let mut acl = ToolAcl::new();
    let pair = EphemeralKeyPair::from_secret([1u8; 32]);
    let (mut params, _) = prove_with("a", b"token", &[2u8; 16], pair);
    let mut open = Session::new(None);
    assert!(!open.authenticate(&params, &mut acl).ok);
    params.nonce = None;
    let mut s = Session::new(Some(b"token".to_vec()));
    let r = s.authenticate(&params, &mut acl);
    assert!(!r.ok);
    assert_eq!(r.reason.as_deref(), Some("invalid token"));
    params.nonce = Some("n".to_string());
    params.token = "not hex".to_string();
    assert!(!s.authenticate(&params, &mut acl).ok);
    assert!(acl.check("a", "echo").is_err());
}

#[test]
fn ring_sizes_are_checked() {
    let good = ShmAnswer { ok: true, size: 4096, up_size: 8192 };
    assert_eq!(ring_sizes(good, true, true), (Some(4096), Some(8192)));
    assert_eq!(ring_sizes(good, true, false), (Some(4096), None));
    assert_eq!(ring_sizes(good, false, true), (None, None));
    assert_eq!(ring_sizes(ShmAnswer { ok: false, ..good }, true, true), (None, None));
    assert_eq!(ring_sizes(ShmAnswer { size: 0, ..good }, true, true), (None, None));
    let huge = ShmAnswer { up_size: 67_108_865, ..good };
    assert_eq!(ring_sizes(huge, true, true), (Some(4096), None));
    assert_eq!(
        read_shm_answer(br#"{"ok": true, "size": 7}"#).unwrap(),
        ShmAnswer { ok: true, size: 7, up_size: 0 }
    );
    assert!(read_shm_answer(b"").is_err());
    let mut s = Session::new(None);
    let body = s.finish_shm_setup(true, false);
    assert_eq!(
        read_shm_answer(&body).unwrap(),
        ShmAnswer { ok: false, size: 4_194_304, up_size: 4_194_304 }
    );
}

#[test]
fn answers_find_their_requests() {
    let mut c = OhmcpClient::new(PayloadPipeline::new(), false, false);
    let a = c.take_id();
    let b = c.take_id();
    assert_eq!((a, b), (1, 2));
    assert!(!c.begin_request(MsgType::Ping, a, Bytes::new(), None).1);
    assert!(c.begin_request(MsgType::Ping, b, Bytes::new(), None).1);
    let pong = |id: u64| Frame::new(MsgType::Pong, id, Bytes::from_static(b"{}"));
    assert!(matches!(c.dispatch(pong(b), a), Dispatch::Other(_)));
    assert!(matches!(c.dispatch(pong(b), a), Dispatch::Nobody));
    assert!(matches!(c.dispatch(pong(9), a), Dispatch::Nobody));
    assert!(matches!(c.dispatch(pong(a), a), Dispatch::Own(_)));
    let mut notice = Frame::new(MsgType::Progress, a, Bytes::from_static(b"p"));
    assert!(matches!(c.dispatch(notice, a), Dispatch::Progress(_)));
    notice = Frame::new(MsgType::Progress, a, Bytes::from_static(b"p"));
    notice.header.flags.0 = 2;
    assert!(matches!(c.dispatch(notice, a), Dispatch::Nobody));
    let f = c.notify(MsgType::Cancel, 5, Bytes::from_static(b"{}"));
    assert_eq!((f.header.msg_type, f.header.request_id), (MsgType::Cancel, 5));
}

#[test]
fn calls_are_written_once() {
    let (payload, key) = prepare_call("e\"cho", &json(r#"{"b": [1], "a": "x"}"#));
    assert_eq!(
        std::str::from_utf8(&payload).unwrap(),
        r#"{"name":"e\"cho","arguments":{"a":"x","b":[1]}}"#
    );
    assert_eq!(key, Some(CacheKey::compute("e\"cho", br#"{"a":"x","b":[1]}"#)));
}

#[test]
fn unexpected_frames_are_ignored() {
    let mut s = Session::new(None);
    for t in [MsgType::Pong, MsgType::Error, MsgType::Progress, MsgType::AuthResult] {
        let f = Frame::new(t, 3, Bytes::from_static(b"junk"));
        assert!(matches!(s.on_frame(&f).unwrap(), Inbound::Ignore));
    }
    let mut sealed = Frame::new(MsgType::CallTool, 3, Bytes::from_static(b"junk"));
    sealed.header.flags.0 = 2;
    assert_eq!(
        s.on_frame(&sealed).unwrap_err(),
        "encrypted frame but no session key"
    );
}

#[test]
fn results_reach_other_connections_in_full() {
    let mut first = Client::connect(Server::new(None), "a", None, false).unwrap();
    let args = r#"{"query": "q", "top_k": 1}"#;
    let want = first.call("kb.search", args).unwrap();
    let mut server = Server::new(None);
    server.results = first.server.results;
    let mut second = Client::connect(server, "b", None, false).unwrap();
    assert_eq!(second.call("kb.search", args).unwrap(), want);
    assert_eq!(second.state.cache_stats(), (0, 0));
    assert_eq!(second.call("kb.search", args).unwrap(), want);
    assert_eq!(second.state.cache_stats(), (1, 0));
    assert_eq!(second.server.results.stats(), (2, 1));
}

#[test]
fn shm_concurrent_large_payloads_are_correct() {
    let server = Server::new(Some(b"e2e-token"));
    let mut c = Client::connect(server, "shm-agent", Some(b"e2e-token"), true).unwrap();
    assert!(c.state.shm_enabled(), "shm channel must be negotiated");

    // All requests are under way before the first answer is looked at.
    let mut ids = Vec::new();
    let mut answers = Vec::new();
    for i in 0..32u32 {
        let (payload, _) = prepare_call("kb.dump", &json(&format!("{{\"doc_id\": \"doc-{i}\"}}")));
        let id = c.state.take_id();
        let (f, contended) =
            c.state.begin_request(MsgType::CallTool, id, Bytes::from(payload), None);
        assert_eq!(contended, i > 0);
        ids.push(id);
        answers.extend(c.server.on_frame(f));
    }
    let last = ids[31];
    let mut seen = Vec::new();
    for f in answers {
        assert!(f.header.flags.shm_ref());
        let (offset, len) = c.state.downlink_ref(&f).unwrap().unwrap();
        let data = c.server.down.read_release(offset, len as usize);
        let f = OhmcpClient::resolve_shm(f, offset, len, data).unwrap();
        let f = match c.state.dispatch(f, last) {
            Dispatch::Own(f) | Dispatch::Other(f) => f,
            other => panic!("not an answer: {other:?}"),
        };
        let i = f.header.request_id - ids[0];
        let v: Value = serde_json::from_slice(&c.state.accept(&f, None).unwrap()).unwrap();
        let t = text_of(&v);
        assert!(t.contains(&format!("[doc-{i}#0]")), "wrong doc for {i}");
        assert!(t.len() >= 64 * 1024, "payload too small: {}", t.len());
        seen.push(f.header.request_id);
    }
    assert_eq!(seen, ids);
}

#[test]
fn payloads_of_requests_can_be_read_back() {
    let v: Value = serde_json::from_slice(&prepare_uri("ohmcp://a\"b")).unwrap();
    assert_eq!(v["uri"], "ohmcp://a\"b");
    let v: Value =
        serde_json::from_slice(&prepare_prompt("summarize", json(r#"{"text": "t"}"#))).unwrap();
    assert_eq!((v["name"].as_str(), v["arguments"]["text"].as_str()), (Some("summarize"), Some("t")));
    let (payload, _) = prepare_call("a\\b\n", &json(r#"[1, {"x": null}]"#));
    let v: Value = serde_json::from_slice(&payload).unwrap();
    assert_eq!(v["name"], "a\\b\n");
    assert_eq!(v["arguments"], json(r#"[1, {"x": null}]"#));
}

#[test]
fn a_call_after_one_with_progress_brings_the_same_result() {
    let mut c = Client::connect(Server::new(None), "agent", None, false).unwrap();
    let args = r#"{"query": "q", "top_k": 2}"#;
    let (payload, key) = prepare_progress_call("kb.search", json(args));
    assert_eq!(key, prepare_call("kb.search", &json(args)).1);
    let first = c.request(MsgType::CallTool, Bytes::from(payload), key).unwrap();
    assert_eq!(c.state.cache_stats(), (0, 0));
    assert_eq!(c.call("kb.search", args).unwrap(), first);
    assert_eq!(c.state.cache_stats(), (1, 0));
}

#[test]
fn a_large_call_that_comes_again_brings_the_same_result() {
    let mut c = Client::connect(Server::new(None), "agent", None, false).unwrap();
    let args = format!("{{\"query\": \"{}\", \"top_k\": 1}}", "q".repeat(20_000));
    let first = c.call("kb.search", &args).unwrap();
    assert_eq!(c.call("kb.search", &args).unwrap(), first);
    assert_eq!(c.call("kb.search", &args).unwrap(), first);
    assert_eq!(c.state.cache_stats(), (0, 0));
    assert_eq!(c.server.results.stats(), (2, 1));
}

#[test]
fn a_refused_proof_ends_the_connection() {
    let mut s = Session::new(Some(b"token".to_vec()));
    let mut acl = ToolAcl::new();
    let params = AuthParams {
        agent_id: "a".to_string(),
        token: "00".to_string(),
        nonce: Some("n".to_string()),
        eph_pub: None,
    };
    assert!(s.is_open());
    assert!(!s.authenticate(&params, &mut acl).ok);
    assert!(!s.is_open());
    for t in [MsgType::Auth, MsgType::Ping, MsgType::CallTool] {
        let f = Frame::new(t, 1, Bytes::from_static(b"{}"));
        assert!(matches!(s.on_frame(&f).unwrap(), Inbound::Ignore));
    }
    assert!(acl.check("a", "echo").is_err());
}

#[test]
fn nonces_of_proofs_are_hexadecimal() {
    let (_, next) = Handshake::start("agent", Some(b"t".to_vec()), false);
    let p = match next {
        HandshakeNext::Prove(p) => p,
        other => panic!("no proof: {other:?}"),
    };
    let nonce = p.nonce.unwrap();
    assert_eq!(nonce.len(), 32);
    assert_eq!(ohmcp::hex::unhex(&nonce).unwrap().len(), 16);
    assert_eq!(ohmcp::hex::unhex(&p.eph_pub.unwrap()).unwrap().len(), 32);
    assert_eq!(p.token, ohmcp::hex::hex(&ohmcp::auth::hmac_response(b"t", nonce.as_bytes())));
}

const SECOND: u128 = 1_000_000_000;

fn search(query: &str) -> CallToolParams {
    let mut arguments = json("{}");
    arguments["query"] = Value::from(query);
    CallToolParams { name: "kb.search".to_string(), arguments, meta: None }
}

fn decide(s: &mut Session, acl: &ToolAcl, p: &CallToolParams, r: &mut ResultCache, now: u128) -> CallNext {
    let (progress, next) = s.begin_call_at(1, p, acl, true, r, now);
    assert!(progress.is_none());
    next
}

fn run(s: &mut Session, acl: &ToolAcl, p: &CallToolParams, r: &mut ResultCache, now: u128) {
    match decide(s, acl, p, r, now) {
        CallNext::Execute(Some(key)) => {
            let result = Bytes::from_static(b"{\"content\":[]}");
            let d = s.finish_call_at("kb.search", Some(key), Some(result), r, now).unwrap();
            assert_eq!(d.payload(), b"{\"content\":[]}");
        }
        other => panic!("the tool does not run: {other:?}"),
    }
}

#[test]
fn a_result_that_lapsed_is_sent_in_full_again() {
    let mut acl = ToolAcl::new();
    acl.grant_all("anonymous");
    let mut results = ResultCache::new(16, 300 * SECOND);
    let (mut a, mut b) = (Session::new(None), Session::new(None));
    let p = search("q");
    run(&mut a, &acl, &p, &mut results, 0);
    let next = decide(&mut a, &acl, &p, &mut results, 100 * SECOND);
    assert!(matches!(next, CallNext::SendRef(_)));
    let next = decide(&mut a, &acl, &p, &mut results, 300 * SECOND);
    assert!(matches!(next, CallNext::SendRef(_)));
    run(&mut b, &acl, &p, &mut results, 301 * SECOND);
    match decide(&mut a, &acl, &p, &mut results, 302 * SECOND) {
        CallNext::SendCached(d) => assert_eq!(d.payload(), b"{\"content\":[]}"),
        other => panic!("the client no longer has the result: {other:?}"),
    }
    let next = decide(&mut a, &acl, &p, &mut results, 303 * SECOND);
    assert!(matches!(next, CallNext::SendRef(_)));
    let next = decide(&mut b, &acl, &p, &mut results, 303 * SECOND);
    assert!(matches!(next, CallNext::SendRef(_)));
}

#[test]
fn a_client_without_places_gets_results_in_full() {
    let mut acl = ToolAcl::new();
    acl.grant_all("anonymous");
    let mut results = ResultCache::new(65_536, 300 * SECOND);
    let mut s = Session::new(None);
    for i in 0..4096u32 {
        run(&mut s, &acl, &search(&format!("q{i}")), &mut results, 0);
    }
    let next = decide(&mut s, &acl, &search("q0"), &mut results, 1);
    assert!(matches!(next, CallNext::SendRef(_)));
    run(&mut s, &acl, &search("one more"), &mut results, 2);
    for q in ["q0", "q4095", "one more"] {
        let next = decide(&mut s, &acl, &search(q), &mut results, 3);
        assert!(matches!(next, CallNext::SendCached(_)), "{q}");
    }
}

#[test]
fn each_request_gets_one_reply_of_its_own() {
    let uri = r#"{"uri": "ohmcp://docs/protocol"}"#;
    let requests = [
        (MsgType::Initialize, "{}", MsgType::InitializeResult),
        (MsgType::ListTools, "{}", MsgType::ListToolsResult),
        (MsgType::ListResources, "{}", MsgType::ListResourcesResult),
        (MsgType::ListPrompts, "{}", MsgType::ListPromptsResult),
        (MsgType::Ping, "{}", MsgType::Pong),
        (MsgType::ShmSetup, "{}", MsgType::ShmSetupResult),
        (MsgType::ReadResource, uri, MsgType::ReadResourceResult),
        (MsgType::ReadResource, r#"{"uri": "x"}"#, MsgType::Error),
        (MsgType::SubscribeResource, uri, MsgType::SubscribeResourceResult),
        (MsgType::SubscribeResource, r#"{"uri": "x"}"#, MsgType::Error),
        (MsgType::UnsubscribeResource, uri, MsgType::SubscribeResourceResult),
        (MsgType::GetPrompt, r#"{"name": "summarize", "arguments": {}}"#, MsgType::GetPromptResult),
        (MsgType::GetPrompt, r#"{"name": "x", "arguments": {}}"#, MsgType::Error),
        (MsgType::CallTool, r#"{"name": "kb.search", "arguments": {}}"#, MsgType::CallToolResult),
        (MsgType::CallTool, r#"{"name": "kb.search", "arguments": {}}"#, MsgType::CallToolResult),
        (MsgType::CallTool, r#"{"name": "x", "arguments": {}}"#, MsgType::Error),
    ];
    let mut s = Server::new(None);
    for (i, (t, body, reply)) in requests.iter().enumerate() {
        let id = 1000 + i as u64;
        let frames = s.on_frame(Frame::new(*t, id, write(&json(body))));
        assert_eq!(frames.len(), 1, "{t:?}");
        assert_eq!(frames[0].header.request_id, id);
        assert_eq!(frames[0].header.msg_type, *reply, "{t:?} {body}");
    }
    let call = r#"{"name": "echo", "arguments": {}, "_meta": {"progress": true}}"#;
    let frames = s.on_frame(Frame::new(MsgType::CallTool, 7, write(&json(call))));
    let types: Vec<MsgType> = frames.iter().map(|f| f.header.msg_type).collect();
    assert_eq!(types, [MsgType::Progress, MsgType::CallToolResult]);
    assert!(frames.iter().all(|f| f.header.request_id == 7));
    for t in [MsgType::Pong, MsgType::Progress, MsgType::CallToolResult, MsgType::Error] {
        assert!(s.on_frame(Frame::new(t, 8, Bytes::new())).is_empty());
        assert!(s.session.answer_frame(t, 8, false, Bytes::new()).is_none());
    }
}

#[test]
fn answers_to_proofs_are_not_sealed() {
    let own = EphemeralKeyPair::generate();
    let mut s = Session::new(Some(b"t".to_vec()));
    let mut acl = ToolAcl::new();
    let (params, _) = prove_with("agent", b"t", &[1u8; 16], own);
    assert!(s.authenticate(&params, &mut acl).ok);
    let body = Bytes::from_static(b"{\"ok\":true}");
    let f = s.answer_frame(MsgType::Auth, 3, false, body.clone()).unwrap();
    assert_eq!((f.header.msg_type, f.header.request_id), (MsgType::AuthResult, 3));
    assert_eq!(f.payload, body);
    assert!(!f.header.flags.encrypted());
    let f = s.answer_frame(MsgType::Ping, 4, false, body.clone()).unwrap();
    assert_eq!((f.header.msg_type, f.header.request_id), (MsgType::Pong, 4));
    assert!(f.header.flags.encrypted());
    let f = s.answer_frame(MsgType::Ping, 5, true, body).unwrap();
    assert_eq!((f.header.msg_type, f.header.request_id), (MsgType::Error, 5));
    assert!(f.header.flags.encrypted());
}

#[test]
fn a_second_reply_of_a_number_is_for_nobody() {
    let mut c = Client::connect(Server::new(None), "agent", None, false).unwrap();
    let id = c.state.take_id();
    let (f, _) = c.state.begin_request(MsgType::Ping, id, Bytes::new(), None);
    let reply = c.server.on_frame(f).remove(0);
    assert!(matches!(c.state.dispatch(reply.clone(), id), Dispatch::Own(_)));
    assert!(matches!(c.state.dispatch(reply, id + 1), Dispatch::Nobody));
}
