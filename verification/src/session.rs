//! The server's side of one connection: what it makes of each frame and what it
//! answers.
//!
//! The session decides and frames; reading and writing the JSON bodies is left
//! to the caller. [`Session::on_frame`] says what a frame asks for. The caller
//! then reads the body, if there is one, hands its fields to the method for the
//! request, writes the answer as JSON and has it framed.

use bytes::Bytes;
use std::collections::HashSet;
use vstd::hash_map::StringHashMap;
use vstd::hash_set::StringHashSet;
use vstd::prelude::*;
use vstd::utf8::*;
use crate::acl::{AclView, ToolAcl};
use crate::auth;
use crate::auth::EphemeralKeyPair;
use crate::buffer;
use crate::cache;
use crate::cache::{CacheKey, CacheView, ResultCache};
use crate::compress;
use crate::frame;
use crate::frame::{Frame, FrameFlags, FrameView, MsgType};
use crate::hex;
use crate::json;
use crate::json::JsonView;
use crate::message::{
    AuthParams, AuthResult, CallToolParams, CancelParams, ErrorBody, GetPromptParams,
    GetPromptResult, Implementation, InitializeResult, ProgressParams, ResourceContents,
};
use crate::pipeline;
use crate::pipeline::PayloadPipeline;
use crate::ringframe;
use crate::ringframe::{Carried, RefComplaints};
use crate::shm;
use crate::text;
use crate::tools::{PromptHandler, ToolRegistry};

verus! {

/// The state of one connection.
pub struct Session {
    token: Option<Vec<u8>>,
    pipeline: PayloadPipeline,
    open: bool,
    authenticated: bool,
    agent_id: String,
    /// When the client got a result in full that it keeps, by the key of the result
    /// in hexadecimal.
    delivered: StringHashMap<u128>,
    downlink: bool,
    uplink: bool,
    cancelled: HashSet<u64>,
    subscribed: StringHashSet,
}

/// The state of one connection, without its pipeline.
#[verifier::ext_equal]
pub struct SessionView {
    /// The token that a client has to know, if it has to.
    pub token: Option<Seq<u8>>,
    /// Whether the connection goes on.
    pub open: bool,
    pub authenticated: bool,
    pub agent: Seq<char>,
    /// When the client got a result in full that it keeps, by the key of the result.
    pub delivered: Map<Seq<u8>, u128>,
    /// Whether results may go through a ring.
    pub downlink: bool,
    /// Whether requests may come through a ring.
    pub uplink: bool,
    /// The requests that were withdrawn before they came.
    pub cancelled: Set<u64>,
    pub subscribed: Set<Seq<char>>,
}

impl View for Session {
    type V = SessionView;

    closed spec fn view(&self) -> SessionView {
        SessionView {
            token: match self.token {
                Some(t) => Some(t@),
                None => None,
            },
            open: self.open,
            authenticated: self.authenticated,
            agent: self.agent_id@,
            delivered: self.copies(),
            downlink: self.downlink,
            uplink: self.uplink,
            cancelled: self.cancelled@,
            subscribed: self.subscribed@,
        }
    }
}

/// What a frame asks for.
#[derive(Debug)]
pub enum Inbound {
    /// To be believed; the body is for [`Session::authenticate`].
    Authenticate(Bytes),
    /// Something that is refused right away.
    Refuse(ErrorBody),
    /// A shared-memory ring in each direction.
    SetUpShm,
    Initialize,
    ListTools,
    ListResources,
    ListPrompts,
    Ping,
    ReadResource(Bytes),
    GetPrompt(Bytes),
    Subscribe(Bytes),
    Unsubscribe(Bytes),
    /// To withdraw a request; there is no answer.
    Cancel(Bytes),
    CallTool(Bytes),
    /// Nothing that a client may ask for; there is no answer.
    Ignore,
}

/// An `Inbound` with its body as a sequence of bytes.
pub enum InboundView {
    Authenticate(Seq<u8>),
    Refuse(i32, Seq<char>),
    SetUpShm,
    Initialize,
    ListTools,
    ListResources,
    ListPrompts,
    Ping,
    ReadResource(Seq<u8>),
    GetPrompt(Seq<u8>),
    Subscribe(Seq<u8>),
    Unsubscribe(Seq<u8>),
    Cancel(Seq<u8>),
    CallTool(Seq<u8>),
    Ignore,
}

impl Inbound {
    /// Whether this is what the view says.
    pub open spec fn shows(self, v: InboundView) -> bool {
        match (self, v) {
            (Inbound::Authenticate(b), InboundView::Authenticate(s)) => buffer::bytes_of(b) == s,
            (Inbound::Refuse(e), InboundView::Refuse(code, m)) => e.says(code, m),
            (Inbound::SetUpShm, InboundView::SetUpShm) => true,
            (Inbound::Initialize, InboundView::Initialize) => true,
            (Inbound::ListTools, InboundView::ListTools) => true,
            (Inbound::ListResources, InboundView::ListResources) => true,
            (Inbound::ListPrompts, InboundView::ListPrompts) => true,
            (Inbound::Ping, InboundView::Ping) => true,
            (Inbound::ReadResource(b), InboundView::ReadResource(s)) => buffer::bytes_of(b) == s,
            (Inbound::GetPrompt(b), InboundView::GetPrompt(s)) => buffer::bytes_of(b) == s,
            (Inbound::Subscribe(b), InboundView::Subscribe(s)) => buffer::bytes_of(b) == s,
            (Inbound::Unsubscribe(b), InboundView::Unsubscribe(s)) => buffer::bytes_of(b) == s,
            (Inbound::Cancel(b), InboundView::Cancel(s)) => buffer::bytes_of(b) == s,
            (Inbound::CallTool(b), InboundView::CallTool(s)) => buffer::bytes_of(b) == s,
            (Inbound::Ignore, InboundView::Ignore) => true,
            _ => false,
        }
    }
}

/// The client has not proved who it is.
pub const AUTH_REQUIRED: i32 = -32001;

/// There is no such resource.
pub const NOT_FOUND: i32 = -32002;

/// The agent has no grant for the tool.
pub const ACCESS_DENIED: i32 = -32002;

/// There are as many connections as the server takes.
pub const BUSY: i32 = -32005;

/// There is no such tool.
pub const UNKNOWN_TOOL: i32 = -32601;

/// There is no such prompt.
pub const UNKNOWN_PROMPT: i32 = -32602;

/// The request was withdrawn.
pub const CANCELLED: i32 = -32800;

impl SessionView {
    /// A new connection: without a token to know, the client is an anonymous
    /// agent that needs no further proof.
    pub open spec fn fresh(token: Option<Seq<u8>>) -> Self {
        SessionView {
            token,
            open: true,
            authenticated: token is None,
            agent: "anonymous"@,
            delivered: Map::empty(),
            downlink: false,
            uplink: false,
            cancelled: Set::empty(),
            subscribed: Set::empty(),
        }
    }

    /// Whether a frame is a call that was withdrawn.
    pub open spec fn withdrawn(self, f: FrameView) -> bool {
        f.header.msg_type == MsgType::CallTool && self.cancelled.contains(f.header.request_id)
    }

    /// Whether the body of a frame is unwrapped.
    pub open spec fn reads_body(self, f: FrameView) -> bool {
        self.open && self.authenticated && !self.withdrawn(f) && match f.header.msg_type {
            MsgType::ReadResource => true,
            MsgType::GetPrompt => true,
            MsgType::SubscribeResource => true,
            MsgType::UnsubscribeResource => true,
            MsgType::Cancel => true,
            MsgType::CallTool => true,
            _ => false,
        }
    }

    /// What a frame asks for, where its unwrapped body is `body`. A body that
    /// cannot be unwrapped ends the connection. Once a proof was refused, frames
    /// ask for nothing.
    pub open spec fn inbound(self, f: FrameView, body: Result<Seq<u8>, Seq<char>>) -> Result<
        InboundView,
        Seq<char>,
    > {
        if !self.open {
            Ok(InboundView::Ignore)
        } else if f.header.msg_type == MsgType::Auth {
            Ok(InboundView::Authenticate(f.payload))
        } else if !self.authenticated {
            Ok(InboundView::Refuse(AUTH_REQUIRED, "authentication required"@))
        } else if self.withdrawn(f) {
            Ok(InboundView::Refuse(CANCELLED, "request cancelled"@))
        } else if self.reads_body(f) {
            match body {
                Err(e) => Err(e),
                Ok(b) => Ok(
                    match f.header.msg_type {
                        MsgType::ReadResource => InboundView::ReadResource(b),
                        MsgType::GetPrompt => InboundView::GetPrompt(b),
                        MsgType::SubscribeResource => InboundView::Subscribe(b),
                        MsgType::UnsubscribeResource => InboundView::Unsubscribe(b),
                        MsgType::Cancel => InboundView::Cancel(b),
                        _ => InboundView::CallTool(b),
                    },
                ),
            }
        } else {
            Ok(
                match f.header.msg_type {
                    MsgType::ShmSetup => InboundView::SetUpShm,
                    MsgType::Initialize => InboundView::Initialize,
                    MsgType::ListTools => InboundView::ListTools,
                    MsgType::ListResources => InboundView::ListResources,
                    MsgType::ListPrompts => InboundView::ListPrompts,
                    MsgType::Ping => InboundView::Ping,
                    _ => InboundView::Ignore,
                },
            )
        }
    }

    /// The connection after a frame: a withdrawn call is refused once.
    pub open spec fn after_frame(self, f: FrameView) -> Self {
        if self.open && self.authenticated && self.withdrawn(f) {
            SessionView { cancelled: self.cancelled.remove(f.header.request_id), ..self }
        } else {
            self
        }
    }
}

/// The type of the reply to a message, where it is granted or refused; a message
/// that is not answered gets none.
pub open spec fn reply_type(msg_type: MsgType, refused: bool) -> Option<MsgType> {
    if refused {
        Some(MsgType::Error)
    } else {
        msg_type.answered_by()
    }
}

/// The reply to a message of the given type and number, through a pipeline.
pub open spec fn replied(
    through: PayloadPipeline,
    msg_type: MsgType,
    request_id: u64,
    refused: bool,
    body: Seq<u8>,
) -> Option<FrameView> {
    match reply_type(msg_type, refused) {
        None => None,
        Some(t) => Some(
            if t == MsgType::AuthResult {
                FrameView::made(0, t, request_id, body)
            } else {
                through.wrapped(t, request_id, body)
            },
        ),
    }
}

/// The response that a client gave; nothing where it is no hexadecimal.
pub open spec fn response_of(p: AuthParams) -> Seq<u8> {
    match hex::unhexed(p.token@) {
        Some(r) => r,
        None => Seq::empty(),
    }
}

/// Whether a client knows the token.
pub open spec fn knows_token(token: Option<Seq<u8>>, p: AuthParams) -> bool {
    match (token, p.nonce) {
        (Some(t), Some(n)) => response_of(p) == auth::hmac_sha256(t, encode_utf8(n@)),
        _ => false,
    }
}

/// The client's ephemeral public key, if it sent one that can be read.
pub open spec fn peer_key(p: AuthParams) -> Option<Seq<u8>> {
    match p.eph_pub {
        Some(e) => hex::unhexed32(e@),
        None => None,
    }
}

/// The key of the session with a client: with forward secrecy where both sides
/// have an ephemeral key pair.
pub open spec fn session_key(
    token: Seq<u8>,
    p: AuthParams,
    own: Option<EphemeralKeyPair>,
) -> Seq<u8> {
    let nonce = match p.nonce {
        Some(n) => encode_utf8(n@),
        None => Seq::empty(),
    };
    match (own, peer_key(p)) {
        (Some(e), Some(peer)) => e.session_key(peer, token, nonce),
        _ => auth::hmac_sha256(token, auth::session_seed(nonce)),
    }
}

/// Whether an answer says that the client was believed, or not; with the given
/// key pair.
pub open spec fn is_auth_result(
    out: AuthResult,
    ok: bool,
    p: AuthParams,
    own: Option<EphemeralKeyPair>,
) -> bool {
    &&& out.ok == ok
    &&& out.session_key_b64 is None
    &&& if ok {
        out.reason is None
    } else {
        out.reason matches Some(r) && r@ == "invalid token"@
    }
    &&& match (own, peer_key(p)) {
        (Some(e), Some(_)) => if ok {
            out.eph_pub matches Some(h) && h@ == hex::hex_text(e.public())
        } else {
            out.eph_pub is None
        },
        _ => out.eph_pub is None,
    }
}

/// A request with its body read, but for proofs and calls, which have methods of
/// their own.
#[derive(Debug)]
pub enum Request {
    Initialize,
    ListTools,
    ListResources,
    ListPrompts,
    Ping,
    /// The address of the resource.
    ReadResource(String),
    GetPrompt(GetPromptParams),
    /// The address of the resource.
    Subscribe(String),
    /// The address of the resource.
    Unsubscribe(String),
    Cancel(CancelParams),
}

/// What a request is answered.
#[derive(Debug)]
pub enum Answer {
    /// Nothing at all.
    Silence,
    Refused(ErrorBody),
    Initialized(InitializeResult),
    /// The tools of the registry.
    Tools,
    /// The resources of the registry.
    Resources,
    /// The prompts of the registry.
    Prompts,
    Contents(ResourceContents),
    Prompt(GetPromptResult),
    /// That it was done.
    Done,
}

/// The result of a call on its way to the client.
#[derive(Debug)]
pub struct Delivery {
    payload: Bytes,
    cacheable: bool,
}

impl Delivery {
    /// The result, as JSON.
    pub closed spec fn content(self) -> Seq<u8> {
        buffer::bytes_of(self.payload)
    }

    /// Whether the client may keep it.
    pub closed spec fn may_be_kept(self) -> bool {
        self.cacheable
    }

    /// The result, as JSON.
    pub fn payload(&self) -> (out: &[u8])
        ensures
            out@ == self.content(),
    {
        buffer::bytes_slice(&self.payload)
    }
}

/// Where the result of a call is kept.
#[derive(Debug)]
pub struct ResultKey {
    key: CacheKey,
    to_client: bool,
}

impl ResultKey {
    /// The key under which the server keeps the result.
    pub closed spec fn bytes(self) -> Seq<u8> {
        self.key.0@
    }

    /// Whether the client keeps it as well.
    pub closed spec fn client_keeps(self) -> bool {
        self.to_client
    }
}

/// What becomes of a call before the tool runs.
#[derive(Debug)]
pub enum CallNext {
    /// The agent may not call the tool.
    Denied(ErrorBody),
    /// The client got the result not too long ago and still has it; the key is
    /// enough.
    SendRef(CacheKey),
    /// The result is known; the client gets it in full and may keep it.
    SendCached(Delivery),
    /// The tool has to run; its result is kept, where it is said how.
    Execute(Option<ResultKey>),
}

/// A `CallNext` with sequences.
pub enum CallNextView {
    Denied(i32, Seq<char>),
    SendRef(Seq<u8>),
    SendCached(Seq<u8>),
    /// With the key of the result and whether the client keeps it.
    Execute(Option<(Seq<u8>, bool)>),
}

impl CallNext {
    /// Whether this is what the view says.
    pub open spec fn shows(self, v: CallNextView) -> bool {
        match (self, v) {
            (CallNext::Denied(e), CallNextView::Denied(code, m)) => e.says(code, m),
            (CallNext::SendRef(k), CallNextView::SendRef(s)) => k.0@ == s,
            (CallNext::SendCached(d), CallNextView::SendCached(s)) => d.content() == s
                && d.may_be_kept(),
            (CallNext::Execute(None), CallNextView::Execute(None)) => true,
            (CallNext::Execute(Some(k)), CallNextView::Execute(Some(s))) => k.bytes() == s.0
                && k.client_keeps() == s.1,
            _ => false,
        }
    }
}

/// The key under which the result of a call is kept.
pub open spec fn call_key(p: CallToolParams) -> Seq<u8> {
    cache::key_of(p.name@, json::json_text(json::json_of(p.arguments)))
}

/// Whether the client keeps the result of a call that may be kept: its arguments
/// are not large.
pub open spec fn client_keeps(p: CallToolParams) -> bool {
    json::json_text(json::json_of(p.arguments)).len() < shm::SHM_THRESHOLD
}

/// Whether a frame answers a call as decided: `body` is what the frame opens to
/// and `is_ref` whether it carries a key.
pub open spec fn answers_call(
    next: CallNextView,
    body: Result<Seq<u8>, Seq<char>>,
    is_ref: bool,
) -> bool {
    match next {
        CallNextView::SendRef(k) => is_ref && body == compress::restored(k),
        CallNextView::SendCached(v) => !is_ref && body == compress::restored(v),
        _ => true,
    }
}

/// Whether a call asks for progress reports.
pub open spec fn wants_progress(p: CallToolParams) -> bool {
    match p.meta {
        Some(m) => json::json_of(m).member_truth("progress"@) == Some(true),
        None => false,
    }
}

/// Whether a report says that a call begins.
pub open spec fn reports_begin(r: ProgressParams, request_id: u64, name: Seq<char>) -> bool {
    &&& r.request_id == request_id
    &&& r.progress == 0
    &&& r.total == Some(1u64)
    &&& r.message matches Some(m) && m@ == "executing "@ + name
}

impl SessionView {
    /// Whether the client has the result of a key: it got it in full not longer ago
    /// than it keeps results, and it never got more of them than it has places for.
    pub open spec fn client_has(self, key: Seq<u8>, now: u128) -> bool {
        &&& self.delivered.contains_key(key)
        &&& cache::age(self.delivered[key], now) <= pipeline::CACHE_TTL
        &&& self.delivered.dom().len() <= pipeline::PIPELINE_CACHE_CAPACITY
    }

    /// The connection after the client got a result in full.
    pub open spec fn after_full(self, key: Seq<u8>, client_keeps: bool, now: u128) -> Self {
        if client_keeps {
            SessionView { delivered: self.delivered.insert(key, now), ..self }
        } else {
            self
        }
    }

    /// What becomes of a call, before the tool runs.
    pub open spec fn call_next(
        self,
        p: CallToolParams,
        acl: AclView,
        cacheable: bool,
        results: CacheView,
        now: u128,
    ) -> CallNextView {
        if !acl.allows(self.agent, p.name@) {
            CallNextView::Denied(ACCESS_DENIED, "access denied: "@ + p.name@)
        } else if !cacheable {
            CallNextView::Execute(None)
        } else {
            match results.looked_up(call_key(p), now) {
                None => CallNextView::Execute(Some((call_key(p), client_keeps(p)))),
                Some(v) => if self.client_has(call_key(p), now) {
                    CallNextView::SendRef(call_key(p))
                } else {
                    CallNextView::SendCached(v)
                },
            }
        }
    }

    /// The connection after that.
    pub open spec fn after_call_next(
        self,
        p: CallToolParams,
        acl: AclView,
        cacheable: bool,
        results: CacheView,
        now: u128,
    ) -> Self {
        match self.call_next(p, acl, cacheable, results, now) {
            CallNextView::SendCached(_) => self.after_full(call_key(p), client_keeps(p), now),
            _ => self,
        }
    }

    /// The results of the server after that.
    pub open spec fn results_after(
        self,
        p: CallToolParams,
        acl: AclView,
        cacheable: bool,
        results: CacheView,
        now: u128,
    ) -> CacheView {
        if acl.allows(self.agent, p.name@) && cacheable {
            results.after_lookup(call_key(p), now)
        } else {
            results
        }
    }
}

impl Session {
    pub closed spec fn pipeline(self) -> PayloadPipeline {
        self.pipeline
    }

    /// The record of what the client got, by the bytes of the keys.
    spec fn copies(self) -> Map<Seq<u8>, u128> {
        Map::new(
            |k: Seq<u8>| self.delivered@.contains_key(hex::hex_text(k)),
            |k: Seq<u8>| self.delivered@[hex::hex_text(k)],
        )
    }

    /// The record holds nothing but keys in hexadecimal.
    pub closed spec fn record_wf(self) -> bool {
        &&& self.delivered@.dom().finite()
        &&& forall|t: Seq<char>| #[trigger]
            self.delivered@.contains_key(t) ==> exists|k: Seq<u8>| #[trigger]
                hex::hex_text(k) == t
    }

    pub open spec fn wf(self) -> bool {
        self.pipeline().wf() && self.record_wf()
    }

    /// How many results the record holds.
    proof fn lemma_copies_len(self)
        requires
            self.record_wf(),
        ensures
            self.copies().dom().finite(),
            self.copies().dom().len() == self.delivered@.dom().len(),
    {
        let f = |t: Seq<char>| choose|k: Seq<u8>| #[trigger] hex::hex_text(k) == t;
        let texts = self.delivered@.dom();
        let keys = self.copies().dom();
        assert forall|t: Seq<char>| texts.contains(t) implies hex::hex_text(
            #[trigger] f(t),
        ) == t by {
            assert(self.delivered@.contains_key(t));
        }
        assert forall|k: Seq<u8>| #[trigger]
            texts.map(f).contains(k) == keys.contains(k) by {
            if keys.contains(k) {
                let t = hex::hex_text(k);
                assert(texts.contains(t));
                hex::hex_injective(f(t), k);
            }
        }
        assert(texts.map(f) =~= keys);
        vstd::set_lib::lemma_map_size(texts, keys, f);
    }

    /// The session key, where there is one.
    pub open spec fn key(self) -> Option<Seq<u8>> {
        self.pipeline().key()
    }

    /// A new connection. With a token, the client has to prove that it knows it.
    pub fn new(token: Option<Vec<u8>>) -> (out: Session)
        ensures
            out.wf(),
            out.key() is None,
            out@ == SessionView::fresh(
                match token {
                    Some(t) => Some(t@),
                    None => None,
                },
            ),
            out.pipeline().cache() == CacheView::empty(
                pipeline::PIPELINE_CACHE_CAPACITY as nat,
                pipeline::CACHE_TTL as nat,
            ),
    {
        broadcast use vstd::std_specs::hash::group_hash_axioms;

        let out: Session = Session {
            authenticated: token.is_none(),
            token,
            pipeline: PayloadPipeline::new(),
            open: true,
            agent_id: String::from_str("anonymous"),
            delivered: StringHashMap::new(),
            downlink: false,
            uplink: false,
            cancelled: HashSet::new(),
            subscribed: StringHashSet::new(),
        };
        assert(out@.delivered =~= Map::<Seq<u8>, u128>::empty());
        out
    }

    /// Where the payload of a frame lies in the uplink ring, if it does. A
    /// reference without a ring, or one that is none, ends the connection.
    pub fn uplink_ref(&self, frame: &Frame) -> (out: Result<Option<(u64, u32)>, String>)
        ensures
            match ringframe::carried(frame@, self@.uplink) {
                Carried::Inline => out matches Ok(None),
                Carried::InRing(offset, len) => out matches Ok(Some(r)) && r == (offset, len),
                Carried::NoRing => out matches Err(m) && m@
                    == "SHM_REF request but uplink not negotiated"@,
                Carried::BadRef => out matches Err(m) && m@ == "bad uplink shm ref payload"@,
            },
    {
        ringframe::ref_or_complaint(
            frame,
            self.uplink,
            RefComplaints {
                no_ring: "SHM_REF request but uplink not negotiated",
                bad_ref: "bad uplink shm ref payload",
            },
        )
    }

    /// Puts what was read from the uplink ring in the place of the reference.
    /// Where nothing could be read, the connection ends.
    pub fn resolve_uplink(frame: Frame, len: u32, data: Option<Vec<u8>>) -> (out: Result<
        Frame,
        String,
    >)
        ensures
            match data {
                Some(d) => out matches Ok(f) && f@ == ringframe::resolved(frame@, len, d@),
                None => out matches Err(m) && m@ == "invalid uplink shm ref"@,
            },
    {
        match data {
            Some(d) => Ok(ringframe::resolve(frame, len, d)),
            None => Err(String::from_str("invalid uplink shm ref")),
        }
    }

    /// What a frame asks for, at the given time on the clock of the pipeline. A
    /// frame that refers to a ring comes with the bytes of the ring in it.
    pub fn on_frame_at(&mut self, frame: &Frame, now: u128) -> (out: Result<Inbound, String>)
        requires
            old(self).wf(),
        ensures
            final(self).wf(),
            final(self)@ == old(self)@.after_frame(frame@),
            final(self).pipeline().cipher() == old(self).pipeline().cipher(),
            final(self).pipeline().cache() == if old(self)@.reads_body(frame@) {
                pipeline::cache_after(
                    old(self).key(),
                    old(self).pipeline().cache(),
                    frame@,
                    now,
                )
            } else {
                old(self).pipeline().cache()
            },
            match old(self)@.inbound(
                frame@,
                pipeline::unwrapped(old(self).key(), old(self).pipeline().cache(), frame@, now),
            ) {
                Ok(v) => out matches Ok(i) && i.shows(v),
                Err(e) => out matches Err(f) && f@ == e,
            },
    {
        broadcast use vstd::std_specs::hash::group_hash_axioms;

        let t: MsgType = frame.header.msg_type;
        if !self.open {
            return Ok(Inbound::Ignore);
        }
        if t == MsgType::Auth {
            return Ok(Inbound::Authenticate(buffer::bytes_clone(&frame.payload)));
        }
        if !self.authenticated {
            return Ok(
                Inbound::Refuse(
                    ErrorBody::new(AUTH_REQUIRED, String::from_str("authentication required")),
                ),
            );
        }
        match t {
            MsgType::ShmSetup => return Ok(Inbound::SetUpShm),
            MsgType::Initialize => return Ok(Inbound::Initialize),
            MsgType::ListTools => return Ok(Inbound::ListTools),
            MsgType::ListResources => return Ok(Inbound::ListResources),
            MsgType::ListPrompts => return Ok(Inbound::ListPrompts),
            MsgType::Ping => return Ok(Inbound::Ping),
            _ => {},
        }
        if t == MsgType::CallTool && self.cancelled.remove(&frame.header.request_id) {
            assert(self@.cancelled == old(self)@.cancelled.remove(frame.header.request_id));
            return Ok(
                Inbound::Refuse(
                    ErrorBody::new(CANCELLED, String::from_str("request cancelled")),
                ),
            );
        }
        assert(self@.cancelled =~= old(self)@.cancelled);
        let reads: bool = match t {
            MsgType::ReadResource | MsgType::GetPrompt | MsgType::SubscribeResource
            | MsgType::UnsubscribeResource | MsgType::Cancel | MsgType::CallTool => true,
            _ => false,
        };
        if !reads {
            return Ok(Inbound::Ignore);
        }
        let body: Bytes = match self.pipeline.unwrap_at(frame, now) {
            Ok(b) => b,
            Err(e) => return Err(e),
        };
        Ok(
            match t {
                MsgType::ReadResource => Inbound::ReadResource(body),
                MsgType::GetPrompt => Inbound::GetPrompt(body),
                MsgType::SubscribeResource => Inbound::Subscribe(body),
                MsgType::UnsubscribeResource => Inbound::Unsubscribe(body),
                MsgType::Cancel => Inbound::Cancel(body),
                _ => Inbound::CallTool(body),
            },
        )
    }

    /// What a frame asks for, now.
    pub fn on_frame(&mut self, frame: &Frame) -> (out: Result<Inbound, String>)
        requires
            old(self).wf(),
        ensures
            final(self).wf(),
            final(self)@ == old(self)@.after_frame(frame@),
            final(self).pipeline().cipher() == old(self).pipeline().cipher(),
            exists|now: u128|
                {
                    &&& final(self).pipeline().cache() == if old(self)@.reads_body(frame@) {
                        pipeline::cache_after(
                            old(self).key(),
                            old(self).pipeline().cache(),
                            frame@,
                            now,
                        )
                    } else {
                        old(self).pipeline().cache()
                    }
                    &&& match old(self)@.inbound(
                        frame@,
                        #[trigger] pipeline::unwrapped(
                            old(self).key(),
                            old(self).pipeline().cache(),
                            frame@,
                            now,
                        ),
                    ) {
                        Ok(v) => out matches Ok(i) && i.shows(v),
                        Err(e) => out matches Err(f) && f@ == e,
                    }
                },
    {
        let now: u128 = self.pipeline.now();
        self.on_frame_at(frame, now)
    }

    /// Whether a client that sends this proves that it knows the token.
    fn verify(&self, params: &AuthParams) -> (ok: bool)
        ensures
            ok == knows_token(self@.token, *params),
    {
        match (&self.token, &params.nonce) {
            (Some(token), Some(nonce)) => {
                let response: Vec<u8> = match hex::unhex(params.token.as_str()) {
                    Some(r) => r,
                    None => Vec::new(),
                };
                assert(response@ =~= response_of(*params));
                auth::verify_response(
                    token.as_slice(),
                    nonce.as_str().as_bytes(),
                    response.as_slice(),
                )
            },
            _ => false,
        }
    }

    fn peer(params: &AuthParams) -> (out: Option<[u8; 32]>)
        ensures
            match out {
                Some(k) => peer_key(*params) == Some(k@),
                None => peer_key(*params) is None,
            },
    {
        match &params.eph_pub {
            Some(e) => hex::unhex32(e.as_str()),
            None => None,
        }
    }

    /// Believes a client that knows the token: from then on it is the agent that
    /// it says it is, it may call every tool, and everything is sealed under the
    /// session key. A client that does not know it is turned away, and the
    /// connection ends. `own` is the server's ephemeral
    /// key pair, if it made one for this client.
    pub fn authenticate_with(
        &mut self,
        params: &AuthParams,
        own: Option<EphemeralKeyPair>,
        acl: &mut ToolAcl,
    ) -> (out: AuthResult)
        requires
            old(self).wf(),
            old(acl).wf(),
        ensures
            final(self).wf(),
            final(acl).wf(),
            is_auth_result(out, knows_token(old(self)@.token, *params), *params, own),
            !out.ok ==> {
                &&& final(self)@ == (SessionView { open: false, ..old(self)@ })
                &&& final(self).pipeline() == old(self).pipeline()
                &&& *final(acl) == *old(acl)
            },
            out.ok ==> {
                &&& final(self)@ == (SessionView {
                    authenticated: true,
                    agent: params.agent_id@,
                    ..old(self)@
                })
                &&& final(self).key() == Some(
                    session_key(old(self)@.token->Some_0, *params, own),
                )
                &&& final(self).pipeline().cipher() matches Some(c) && c.counter() == 0
                &&& final(self).pipeline().cache() == old(self).pipeline().cache()
                &&& final(acl)@ == old(acl)@.grant_all(params.agent_id@)
            },
    {
        let ok: bool = self.verify(params);
        let peer: Option<[u8; 32]> = Session::peer(params);
        if !ok {
            self.open = false;
            return AuthResult {
                ok: false,
                session_key_b64: None,
                reason: Some(String::from_str("invalid token")),
                eph_pub: None,
            };
        }
        let mut eph_pub: Option<String> = None;
        if let (Some(token), Some(nonce)) = (&self.token, &params.nonce) {
            let nonce_bytes: &[u8] = nonce.as_str().as_bytes();
            let key: [u8; 32] = match (own, peer) {
                (Some(e), Some(p)) => {
                    eph_pub = Some(hex::hex(&e.public_bytes()));
                    e.derive_fs_session_key(&p, token.as_slice(), nonce_bytes)
                },
                _ => auth::derive_session_key(token.as_slice(), nonce_bytes),
            };
            self.pipeline.enable_encryption(key);
        }
        self.authenticated = true;
        self.agent_id = params.agent_id.clone();
        acl.grant_all(self.agent_id.as_str());
        AuthResult { ok: true, session_key_b64: None, reason: None, eph_pub }
    }

    /// Believes a client or turns it away, with a fresh key pair where the client
    /// sent its own public key.
    pub fn authenticate(&mut self, params: &AuthParams, acl: &mut ToolAcl) -> (out: AuthResult)
        requires
            old(self).wf(),
            old(acl).wf(),
        ensures
            final(self).wf(),
            final(acl).wf(),
            out.ok == knows_token(old(self)@.token, *params),
            !out.ok ==> {
                &&& final(self)@ == (SessionView { open: false, ..old(self)@ })
                &&& final(self).pipeline() == old(self).pipeline()
                &&& *final(acl) == *old(acl)
            },
            out.ok ==> {
                &&& final(self)@ == (SessionView {
                    authenticated: true,
                    agent: params.agent_id@,
                    ..old(self)@
                })
                &&& final(self).pipeline().cipher() matches Some(c) && c.counter() == 0
                &&& final(self).pipeline().cache() == old(self).pipeline().cache()
                &&& final(acl)@ == old(acl)@.grant_all(params.agent_id@)
            },
            exists|own: Option<EphemeralKeyPair>|
                {
                    &&& own is Some <==> out.ok && peer_key(*params) is Some
                    &&& own matches Some(e) ==> e.wf()
                    &&& #[trigger] is_auth_result(out, out.ok, *params, own)
                    &&& out.ok ==> final(self).key() == Some(
                        session_key(old(self)@.token->Some_0, *params, own),
                    )
                },
    {
        let own: Option<EphemeralKeyPair> = if self.verify(params) && Session::peer(
            params,
        ).is_some() {
            Some(EphemeralKeyPair::generate())
        } else {
            None
        };
        let ghost pair = own;
        let out: AuthResult = self.authenticate_with(params, own, acl);
        assert(is_auth_result(out, out.ok, *params, pair));
        out
    }

    /// Whether the connection goes on.
    pub fn is_open(&self) -> (out: bool)
        ensures
            out == self@.open,
    {
        self.open
    }

    fn framed(&mut self, msg_type: MsgType, request_id: u64, payload: Bytes) -> (out: Frame)
        requires
            old(self).wf(),
            old(self).pipeline().takes(buffer::bytes_of(payload).len()),
        ensures
            final(self).wf(),
            final(self)@ == old(self)@,
            old(self).pipeline().after_send(final(self).pipeline()),
            out@ == old(self).pipeline().wrapped(
                msg_type,
                request_id,
                buffer::bytes_of(payload),
            ),
            out@.payload.len() == old(self).pipeline().sent_len(
                compress::packed(buffer::bytes_of(payload)).len(),
            ),
            buffer::bytes_of(payload).len() <= u32::MAX ==> pipeline::opened(
                old(self).key(),
                out@,
            ) == compress::restored(buffer::bytes_of(payload)),
            !pipeline::is_cache_ref(out@),
    {
        let (f, _flags): (Frame, FrameFlags) = self.pipeline.wrap(msg_type, request_id, payload);
        f
    }

    /// Frames the one reply to a request of the given type and number: its answer, or
    /// its refusal. `body` is either of them as JSON. A message that is not answered
    /// gets no reply. The answer to a proof is the only one that is never sealed: the
    /// client has no key before it has read it.
    pub fn answer_frame(
        &mut self,
        msg_type: MsgType,
        request_id: u64,
        refused: bool,
        body: Bytes,
    ) -> (out: Option<Frame>)
        requires
            old(self).wf(),
            refused || msg_type != MsgType::Auth ==> old(self).pipeline().takes(
                buffer::bytes_of(body).len(),
            ),
        ensures
            final(self).wf(),
            final(self)@ == old(self)@,
            match replied(
                old(self).pipeline(),
                msg_type,
                request_id,
                refused,
                buffer::bytes_of(body),
            ) {
                Some(f) => out matches Some(g) && g@ == f,
                None => out is None,
            },
            match reply_type(msg_type, refused) {
                None => final(self).pipeline() == old(self).pipeline(),
                Some(MsgType::AuthResult) => final(self).pipeline() == old(self).pipeline(),
                Some(_) => {
                    &&& old(self).pipeline().after_send(final(self).pipeline())
                    &&& out matches Some(f) && f@.payload.len() == old(
                        self,
                    ).pipeline().sent_len(compress::packed(buffer::bytes_of(body)).len())
                },
            },
            out matches Some(f) ==> !pipeline::is_cache_ref(f@) && (buffer::bytes_of(body).len()
                <= u32::MAX ==> pipeline::opened(old(self).key(), f@) == compress::restored(
                buffer::bytes_of(body),
            )),
    {
        if refused {
            return Some(self.framed(MsgType::Error, request_id, body));
        }
        match msg_type.answer_type() {
            None => None,
            Some(t) => if t == MsgType::AuthResult {
                assert(0u8 & 1 == 0 && 0u8 & 2 == 0 && 0u8 & 4 == 0) by (bit_vector);
                Some(Frame::new(t, request_id, body))
            } else {
                Some(self.framed(t, request_id, body))
            },
        }
    }

    /// Frames the report that a call makes progress, under the number of the call;
    /// `body` is the report as JSON.
    pub fn report(&mut self, request_id: u64, body: Bytes) -> (out: Frame)
        requires
            old(self).wf(),
            old(self).pipeline().takes(buffer::bytes_of(body).len()),
        ensures
            final(self).wf(),
            final(self)@ == old(self)@,
            old(self).pipeline().after_send(final(self).pipeline()),
            out@ == old(self).pipeline().wrapped(
                MsgType::Progress,
                request_id,
                buffer::bytes_of(body),
            ),
            out@.payload.len() == old(self).pipeline().sent_len(
                compress::packed(buffer::bytes_of(body)).len(),
            ),
            buffer::bytes_of(body).len() <= u32::MAX ==> pipeline::opened(old(self).key(), out@)
                == compress::restored(buffer::bytes_of(body)),
            !pipeline::is_cache_ref(out@),
    {
        self.framed(MsgType::Progress, request_id, body)
    }

    /// Frames the notice that a resource changed, where the client subscribed to
    /// it; `body` is the notice as JSON. A notice has request number zero.
    pub fn notice(&mut self, uri: &str, body: Bytes) -> (out: Option<Frame>)
        requires
            old(self).wf(),
            old(self).pipeline().takes(buffer::bytes_of(body).len()),
        ensures
            final(self).wf(),
            final(self)@ == old(self)@,
            match out {
                Some(f) => {
                    &&& old(self)@.subscribed.contains(uri@)
                    &&& old(self).pipeline().after_send(final(self).pipeline())
                    &&& f@ == old(self).pipeline().wrapped(
                        MsgType::ResourceUpdated,
                        0,
                        buffer::bytes_of(body),
                    )
                    &&& f@.payload.len() == old(self).pipeline().sent_len(
                        compress::packed(buffer::bytes_of(body)).len(),
                    )
                    &&& buffer::bytes_of(body).len() <= u32::MAX ==> pipeline::opened(
                        old(self).key(),
                        f@,
                    ) == compress::restored(buffer::bytes_of(body))
                },
                None => {
                    &&& !old(self)@.subscribed.contains(uri@)
                    &&& final(self).pipeline() == old(self).pipeline()
                },
            },
    {
        if self.is_subscribed(uri) {
            Some(self.framed(MsgType::ResourceUpdated, 0, body))
        } else {
            None
        }
    }

    /// Answers a request. `version` is that of the program.
    pub fn answer<H, P: PromptHandler>(
        &mut self,
        request: Request,
        registry: &ToolRegistry<H, P>,
        version: &str,
    ) -> (out: Answer)
        requires
            old(self).wf(),
        ensures
            final(self).wf(),
            final(self).pipeline() == old(self).pipeline(),
            final(self)@ == match request {
                Request::Subscribe(uri) => if registry@.contents.contains_key(uri@) {
                    SessionView { subscribed: old(self)@.subscribed.insert(uri@), ..old(self)@ }
                } else {
                    old(self)@
                },
                Request::Unsubscribe(uri) => SessionView {
                    subscribed: old(self)@.subscribed.remove(uri@),
                    ..old(self)@
                },
                Request::Cancel(p) => SessionView {
                    cancelled: old(self)@.cancelled.insert(p.request_id),
                    ..old(self)@
                },
                _ => old(self)@,
            },
            match request {
                Request::Initialize => out matches Answer::Initialized(r) && introduces(r, version@),
                Request::ListTools => out is Tools,
                Request::ListResources => out is Resources,
                Request::ListPrompts => out is Prompts,
                Request::Ping => out is Done,
                Request::ReadResource(uri) => if registry@.contents.contains_key(uri@) {
                    out matches Answer::Contents(c) && c == registry@.contents[uri@]
                } else {
                    out matches Answer::Refused(e) && e.says(
                        NOT_FOUND,
                        "resource not found: "@ + uri@,
                    )
                },
                Request::GetPrompt(p) => if registry@.prompt_handlers.contains_key(p.name@) {
                    out matches Answer::Prompt(r) && call_ensures(
                        P::render,
                        (&registry@.prompt_handlers[p.name@], &p.arguments),
                        r,
                    )
                } else {
                    out matches Answer::Refused(e) && e.says(
                        UNKNOWN_PROMPT,
                        "unknown prompt: "@ + p.name@,
                    )
                },
                Request::Subscribe(uri) => if registry@.contents.contains_key(uri@) {
                    out is Done
                } else {
                    out matches Answer::Refused(e) && e.says(
                        NOT_FOUND,
                        "resource not found: "@ + uri@,
                    )
                },
                Request::Unsubscribe(_) => out is Done,
                Request::Cancel(_) => out is Silence,
            },
            out is Silence <==> request is Cancel,
    {
        match request {
            Request::Initialize => Answer::Initialized(initialize_result(version)),
            Request::ListTools => Answer::Tools,
            Request::ListResources => Answer::Resources,
            Request::ListPrompts => Answer::Prompts,
            Request::Ping => Answer::Done,
            Request::ReadResource(uri) => match registry.read_resource(uri.as_str()) {
                Some(c) => Answer::Contents(c.copied()),
                None => Answer::Refused(resource_not_found(uri.as_str())),
            },
            Request::GetPrompt(p) => match registry.get_prompt(p.name.as_str(), &p.arguments) {
                Some(r) => Answer::Prompt(r),
                None => Answer::Refused(unknown_prompt(p.name.as_str())),
            },
            Request::Subscribe(uri) => {
                let known: bool = registry.has_resource(uri.as_str());
                match self.subscribe(uri.as_str(), known) {
                    Ok(()) => Answer::Done,
                    Err(e) => Answer::Refused(e),
                }
            },
            Request::Unsubscribe(uri) => {
                self.unsubscribe(uri.as_str());
                Answer::Done
            },
            Request::Cancel(p) => {
                self.cancel(p.request_id);
                Answer::Silence
            },
        }
    }

    /// Takes note of a withdrawn request.
    pub fn cancel(&mut self, request_id: u64)
        requires
            old(self).wf(),
        ensures
            final(self).wf(),
            final(self).pipeline() == old(self).pipeline(),
            final(self)@ == (SessionView {
                cancelled: old(self)@.cancelled.insert(request_id),
                ..old(self)@
            }),
    {
        broadcast use vstd::std_specs::hash::group_hash_axioms;

        self.cancelled.insert(request_id);
    }

    /// Subscribes to a resource; `known` says whether there is one of that
    /// address. The refusal names the address.
    pub fn subscribe(&mut self, uri: &str, known: bool) -> (out: Result<(), ErrorBody>)
        requires
            old(self).wf(),
        ensures
            final(self).wf(),
            final(self).pipeline() == old(self).pipeline(),
            final(self)@ == if known {
                SessionView { subscribed: old(self)@.subscribed.insert(uri@), ..old(self)@ }
            } else {
                old(self)@
            },
            out is Ok <==> known,
            out matches Err(e) ==> e.says(NOT_FOUND, "resource not found: "@ + uri@),
    {
        if !known {
            return Err(resource_not_found(uri));
        }
        self.subscribed.insert(String::from_str(uri));
        Ok(())
    }

    /// Ends a subscription, if there is one.
    pub fn unsubscribe(&mut self, uri: &str)
        requires
            old(self).wf(),
        ensures
            final(self).wf(),
            final(self).pipeline() == old(self).pipeline(),
            final(self)@ == (SessionView {
                subscribed: old(self)@.subscribed.remove(uri@),
                ..old(self)@
            }),
    {
        self.subscribed.remove(uri);
    }

    /// Whether the client is to be told that a resource changed.
    pub fn is_subscribed(&self, uri: &str) -> (out: bool)
        ensures
            out == self@.subscribed.contains(uri@),
    {
        self.subscribed.contains(uri)
    }

    /// Ends the set-up of the rings: they are used where both could be made and
    /// their descriptors were sent. What comes out is the body of the answer.
    pub fn finish_shm_setup(&mut self, made: bool, sent: bool) -> (out: Vec<u8>)
        requires
            old(self).wf(),
        ensures
            final(self).wf(),
            final(self).pipeline() == old(self).pipeline(),
            final(self)@ == if made && sent {
                SessionView { downlink: true, uplink: true, ..old(self)@ }
            } else {
                old(self)@
            },
            out@ == json::json_text(shm_answer(made && sent)),
            json::json_parsed(out@) == json::parses_to(shm_answer(made && sent)),
    {
        let ok: bool = made && sent;
        if ok {
            self.downlink = true;
            self.uplink = true;
        }
        let mut v: serde_json::Value = json::json_object();
        json::json_set(&mut v, "ok", json::json_bool(ok));
        json::json_set(&mut v, "size", json::json_u64(shm::DEFAULT_SHM_CAP as u64));
        json::json_set(&mut v, "up_size", json::json_u64(shm::DEFAULT_SHM_CAP as u64));
        proof {
            lemma_shm_answer_is_exact(ok);
        }
        json::json_to_vec(&v)
    }

    /// Decides on a call before the tool runs: whether the agent may call it,
    /// whether its result is known, and whether the client still has that result. The
    /// first part is the report that the call begins, where the client wants
    /// one. `cacheable` says whether results of the tool may be cached.
    pub fn begin_call_at(
        &mut self,
        request_id: u64,
        params: &CallToolParams,
        acl: &ToolAcl,
        cacheable: bool,
        results: &mut ResultCache,
        now: u128,
    ) -> (out: (Option<ProgressParams>, CallNext))
        requires
            old(self).wf(),
            acl.wf(),
            old(results).wf(),
        ensures
            final(self).wf(),
            final(results).wf(),
            final(self).pipeline() == old(self).pipeline(),
            match out.0 {
                Some(r) => wants_progress(*params) && reports_begin(r, request_id, params.name@),
                None => !wants_progress(*params),
            },
            out.1.shows(old(self)@.call_next(*params, acl@, cacheable, old(results)@, now)),
            final(self)@ == old(self)@.after_call_next(
                *params,
                acl@,
                cacheable,
                old(results)@,
                now,
            ),
            final(results)@ == old(self)@.results_after(
                *params,
                acl@,
                cacheable,
                old(results)@,
                now,
            ),
            !cacheable || !acl@.allows(old(self)@.agent, params.name@) ==> final(self)@
                == old(self)@ && final(results)@ == old(results)@,
            !cacheable && acl@.allows(old(self)@.agent, params.name@) ==> (
            out.1 matches CallNext::Execute(None)),
            !acl@.allows(old(self)@.agent, params.name@) ==> out.1 is Denied,
    {
        let wanted: bool = match &params.meta {
            Some(m) => match json::member_bool(m, "progress") {
                Some(b) => b,
                None => false,
            },
            None => false,
        };
        let progress: Option<ProgressParams> = if wanted {
            Some(
                ProgressParams {
                    request_id,
                    progress: 0,
                    total: Some(1),
                    message: Some(text::joined("executing ", params.name.as_str())),
                },
            )
        } else {
            None
        };
        if acl.check(self.agent_id.as_str(), params.name.as_str()).is_err() {
            let m: String = text::joined("access denied: ", params.name.as_str());
            return (progress, CallNext::Denied(ErrorBody::new(ACCESS_DENIED, m)));
        }
        if !cacheable {
            return (progress, CallNext::Execute(None));
        }
        let args: Vec<u8> = json::json_to_vec(&params.arguments);
        let key: CacheKey = CacheKey::compute(params.name.as_str(), args.as_slice());
        match results.get_at(&key, now) {
            None => {
                let to_client: bool = args.len() < shm::SHM_THRESHOLD;
                (progress, CallNext::Execute(Some(ResultKey { key, to_client })))
            },
            Some(value) => {
                if self.has_copy(&key, now) {
                    (progress, CallNext::SendRef(key))
                } else {
                    if args.len() < shm::SHM_THRESHOLD {
                        self.deliver(&key, now);
                    }
                    (
                        progress,
                        CallNext::SendCached(Delivery { payload: value, cacheable: true }),
                    )
                }
            },
        }
    }

    /// Whether the client has the result of a key.
    fn has_copy(&self, key: &CacheKey, now: u128) -> (out: bool)
        requires
            self.wf(),
        ensures
            out == self@.client_has(key.0@, now),
    {
        let name: String = hex::hex(&key.0);
        match self.delivered.get(name.as_str()) {
            Some(since) => {
                proof {
                    self.lemma_copies_len();
                }
                let age: u128 = if now >= *since {
                    now - *since
                } else {
                    0
                };
                age <= pipeline::CACHE_TTL && self.delivered.len()
                    <= pipeline::PIPELINE_CACHE_CAPACITY
            },
            None => false,
        }
    }

    /// Takes note that the client gets a result in full, which it keeps.
    fn deliver(&mut self, key: &CacheKey, now: u128)
        requires
            old(self).wf(),
        ensures
            final(self).wf(),
            final(self).pipeline() == old(self).pipeline(),
            final(self)@ == old(self)@.after_full(key.0@, true, now),
    {
        self.delivered.insert(hex::hex(&key.0), now);
        proof {
            assert forall|k: Seq<u8>| #[trigger] hex::hex_text(k) == hex::hex_text(
                key.0@,
            ) implies k == key.0@ by {
                hex::hex_injective(k, key.0@);
            }
            assert(self@.delivered =~= old(self)@.delivered.insert(key.0@, now));
        }
    }

    /// Ends a call: `result` is what the tool gave, as JSON, or nothing where
    /// there is no such tool. A result with a key is kept, and the client may keep
    /// it; where it does, it counts as having got it.
    pub fn finish_call_at(
        &mut self,
        name: &str,
        key: Option<ResultKey>,
        result: Option<Bytes>,
        results: &mut ResultCache,
        now: u128,
    ) -> (out: Result<Delivery, ErrorBody>)
        requires
            old(self).wf(),
            old(results).wf(),
        ensures
            final(self).wf(),
            final(results).wf(),
            final(self).pipeline() == old(self).pipeline(),
            match result {
                None => {
                    &&& out matches Err(e) && e.says(UNKNOWN_TOOL, "unknown tool: "@ + name@)
                    &&& final(self)@ == old(self)@
                    &&& final(results)@ == old(results)@
                },
                Some(r) => {
                    &&& out matches Ok(d) && d.content() == buffer::bytes_of(r)
                        && d.may_be_kept() == (key is Some)
                    &&& match key {
                        None => final(self)@ == old(self)@ && final(results)@ == old(results)@,
                        Some(k) => {
                            &&& final(self)@ == old(self)@.after_full(
                                k.bytes(),
                                k.client_keeps(),
                                now,
                            )
                            &&& old(results)@.after_put(
                                k.bytes(),
                                buffer::bytes_of(r),
                                now,
                                final(results)@,
                            )
                        },
                    }
                },
            },
    {
        match result {
            None => Err(ErrorBody::new(UNKNOWN_TOOL, text::joined("unknown tool: ", name))),
            Some(r) => {
                let cacheable: bool = key.is_some();
                if let Some(k) = key {
                    results.put_at(k.key, buffer::bytes_clone(&r), now);
                    if k.to_client {
                        self.deliver(&k.key, now);
                    }
                }
                Ok(Delivery { payload: r, cacheable })
            },
        }
    }

    /// Whether a result of `len` bytes is to be offered to the downlink ring.
    pub fn offers_result_to_ring(&self, len: usize) -> (out: bool)
        ensures
            out == ringframe::wants_ring(self@.downlink, len as nat),
    {
        ringframe::offer_to_ring(self.downlink, len)
    }

    /// Frames the result of a call, marked where the client may keep it. `offset`
    /// is where the result lies in the downlink ring, if it does.
    pub fn answer_call(&mut self, request_id: u64, result: Delivery, offset: Option<u64>) -> (out:
        Frame)
        requires
            old(self).wf(),
            offset is None ==> old(self).pipeline().takes(result.content().len()),
        ensures
            final(self).wf(),
            final(self)@ == old(self)@,
            match offset {
                Some(o) => {
                    &&& final(self).pipeline() == old(self).pipeline()
                    &&& out@ == marked(
                        ringframe::ref_frame(
                            MsgType::CallToolResult,
                            request_id,
                            o,
                            (result.content().len() % 0x1_0000_0000) as u32,
                        ),
                        result.may_be_kept(),
                    )
                },
                None => {
                    &&& old(self).pipeline().after_send(final(self).pipeline())
                    &&& out@ == marked(
                        old(self).pipeline().wrapped(
                            MsgType::CallToolResult,
                            request_id,
                            result.content(),
                        ),
                        result.may_be_kept(),
                    )
                    &&& out@.payload.len() == old(self).pipeline().sent_len(
                        compress::packed(result.content()).len(),
                    )
                    &&& result.content().len() <= u32::MAX ==> pipeline::opened(
                        old(self).key(),
                        out@,
                    ) == compress::restored(result.content())
                },
            },
            !pipeline::is_cache_ref(out@),
    {
        let mut f: Frame = ringframe::outbound(
            &mut self.pipeline,
            MsgType::CallToolResult,
            request_id,
            result.payload,
            offset,
        );
        if result.cacheable {
            let bits: u8 = f.header.flags.0;
            proof {
                lemma_cacheable_bit(bits);
            }
            f.header.flags = FrameFlags(bits | FrameFlags::CACHEABLE);
        }
        f
    }

    /// Frames the key of a result that the client has.
    pub fn answer_ref(&mut self, request_id: u64, key: &CacheKey) -> (out: Frame)
        requires
            old(self).wf(),
        ensures
            final(self).wf(),
            final(self)@ == old(self)@,
            old(self).pipeline().after_send(final(self).pipeline()),
            out@ == old(self).pipeline().wrapped_ref(
                MsgType::CallToolResult,
                request_id,
                key.0@,
            ),
            out@.payload.len() == old(self).pipeline().sent_len(32),
            pipeline::is_cache_ref(out@),
            pipeline::opened(old(self).key(), out@) == compress::restored(key.0@),
    {
        self.pipeline.wrap_cache_ref(MsgType::CallToolResult, request_id, key)
    }
}

/// A frame whose result the receiver may keep, or not.
pub open spec fn marked(f: FrameView, cacheable: bool) -> FrameView {
    if cacheable {
        f.flagged(FrameFlags::CACHEABLE)
    } else {
        f
    }
}

/// The mark leaves the other flags alone.
proof fn lemma_cacheable_bit(bits: u8)
    ensures
        frame::has_flag(bits | FrameFlags::CACHEABLE, FrameFlags::COMPRESSED) == frame::has_flag(
            bits,
            FrameFlags::COMPRESSED,
        ),
        frame::has_flag(bits | FrameFlags::CACHEABLE, FrameFlags::ENCRYPTED) == frame::has_flag(
            bits,
            FrameFlags::ENCRYPTED,
        ),
        frame::has_flag(bits | FrameFlags::CACHEABLE, FrameFlags::CACHE_REF) == frame::has_flag(
            bits,
            FrameFlags::CACHE_REF,
        ),
        frame::has_flag(bits | FrameFlags::CACHEABLE, FrameFlags::CACHEABLE),
{
    assert((bits | 8) & 1 == bits & 1) by (bit_vector);
    assert((bits | 8) & 2 == bits & 2) by (bit_vector);
    assert((bits | 8) & 4 == bits & 4) by (bit_vector);
    assert((bits | 8) & 8 != 0) by (bit_vector);
}

/// The answer to the set-up of the rings.
pub open spec fn shm_answer(ok: bool) -> JsonView {
    JsonView::empty_object().with("ok"@, JsonView::Bool(ok)).with(
        "size"@,
        JsonView::of_u64(shm::DEFAULT_SHM_CAP as u64),
    ).with("up_size"@, JsonView::of_u64(shm::DEFAULT_SHM_CAP as u64))
}

proof fn lemma_shm_answer_is_exact(ok: bool)
    ensures
        shm_answer(ok).exact(json::max_depth()),
{
    reveal_with_fuel(JsonView::exact, 2);
}

/// The refusal of a resource that there is not.
pub fn resource_not_found(uri: &str) -> (out: ErrorBody)
    ensures
        out.says(NOT_FOUND, "resource not found: "@ + uri@),
{
    ErrorBody::new(NOT_FOUND, text::joined("resource not found: ", uri))
}

/// The refusal of a prompt that there is not.
pub fn unknown_prompt(name: &str) -> (out: ErrorBody)
    ensures
        out.says(UNKNOWN_PROMPT, "unknown prompt: "@ + name@),
{
    ErrorBody::new(UNKNOWN_PROMPT, text::joined("unknown prompt: ", name))
}

/// The protocol version that the server speaks.
pub open spec fn mcp_version() -> Seq<char> {
    "2025-06-18"@
}

/// Whether this is what the server says of itself, as a program of the given
/// version.
pub open spec fn introduces(r: InitializeResult, version: Seq<char>) -> bool {
    &&& r.protocol_version@ == mcp_version()
    &&& r.server_info.name@ == "ohmcpd"@
    &&& r.server_info.version@ == version
    &&& json::json_of(r.capabilities) == JsonView::empty_object().with(
        "tools"@,
        JsonView::empty_object(),
    ).with("resources"@, JsonView::empty_object()).with("prompts"@, JsonView::empty_object())
}

/// What the server says of itself; `version` is that of the program.
pub fn initialize_result(version: &str) -> (out: InitializeResult)
    ensures
        introduces(out, version@),
{
    let mut capabilities: serde_json::Value = json::json_object();
    json::json_set(&mut capabilities, "tools", json::json_object());
    json::json_set(&mut capabilities, "resources", json::json_object());
    json::json_set(&mut capabilities, "prompts", json::json_object());
    InitializeResult {
        protocol_version: String::from_str("2025-06-18"),
        server_info: Implementation {
            name: String::from_str("ohmcpd"),
            version: String::from_str(version),
        },
        capabilities,
    }
}

/// The body of an answer that says nothing: an object without members.
pub fn empty_body() -> (out: Bytes)
    ensures
        buffer::bytes_of(out) == encode_utf8("{}"@),
{
    buffer::bytes_from_vec(vstd::slice::slice_to_vec("{}".as_bytes()))
}

/// As long as a client has not proved that it knows the token, everything but
/// the proof itself is answered with the same refusal and changes nothing.
pub proof fn strangers_are_refused(
    s: SessionView,
    f: FrameView,
    body: Result<Seq<u8>, Seq<char>>,
)
    requires
        s.open,
        !s.authenticated,
        f.header.msg_type != MsgType::Auth,
    ensures
        s.inbound(f, body) == Ok::<InboundView, Seq<char>>(
            InboundView::Refuse(AUTH_REQUIRED, "authentication required"@),
        ),
        s.after_frame(f) == s,
{
}

/// After a refused proof nothing is answered any more, not even another proof.
/// `s` is the connection after [`Session::authenticate`] said no.
pub proof fn refused_proof_ends_the_connection(
    s: SessionView,
    f: FrameView,
    body: Result<Seq<u8>, Seq<char>>,
)
    requires
        !s.open,
    ensures
        s.inbound(f, body) == Ok::<InboundView, Seq<char>>(InboundView::Ignore),
        s.after_frame(f) == s,
{
}

/// No frame by itself makes a stranger a known client, or another agent of a
/// known one: only [`Session::authenticate`] does.
pub proof fn frames_keep_the_agent(s: SessionView, f: FrameView)
    ensures
        s.after_frame(f).open == s.open,
        s.after_frame(f).authenticated == s.authenticated,
        s.after_frame(f).agent == s.agent,
        s.after_frame(f).token == s.token,
        s.after_frame(f).delivered == s.delivered,
        s.after_frame(f).subscribed == s.subscribed,
{
}

/// Every request is answered with one reply that carries its own number and is of the
/// type that answers it, or an error. Of what it asks for, nothing is passed over, and
/// no reply is mistaken for a notice.
pub proof fn every_request_gets_its_reply(
    s: SessionView,
    f: FrameView,
    body: Seq<u8>,
    through: PayloadPipeline,
    refused: bool,
    answer: Seq<u8>,
)
    requires
        s.open,
        f.header.msg_type.answered_by() is Some,
    ensures
        s.inbound(f, Ok(body)) matches Ok(asked) && !(asked is Ignore) && !(asked is Cancel),
        replied(through, f.header.msg_type, f.header.request_id, refused, answer) matches Some(r)
            && r.header.request_id == f.header.request_id && r.header.msg_type == (if refused {
            MsgType::Error
        } else {
            f.header.msg_type.answered_by()->Some_0
        }) && r.header.msg_type != MsgType::Progress && r.header.msg_type
            != MsgType::ResourceUpdated,
{
}

/// A message that is no request gets no reply: it is a withdrawal, or it is ignored.
pub proof fn other_messages_get_no_reply(
    s: SessionView,
    f: FrameView,
    body: Seq<u8>,
    through: PayloadPipeline,
    answer: Seq<u8>,
)
    requires
        s.open,
        s.authenticated,
        f.header.msg_type.answered_by() is None,
    ensures
        s.inbound(f, Ok(body)) matches Ok(asked) && (asked is Ignore || asked is Cancel),
        replied(through, f.header.msg_type, f.header.request_id, false, answer) is None,
{
}

/// A call that was withdrawn before it came is refused, once: a later call with
/// the same number is not.
pub proof fn withdrawn_call_is_refused_once(
    s: SessionView,
    f: FrameView,
    body: Seq<u8>,
    later: FrameView,
)
    requires
        s.open,
        s.authenticated,
        f.header.msg_type == MsgType::CallTool,
        s.cancelled.contains(f.header.request_id),
        later.header.msg_type == MsgType::CallTool,
        later.header.request_id == f.header.request_id,
    ensures
        s.inbound(f, Ok(body)) == Ok::<InboundView, Seq<char>>(
            InboundView::Refuse(CANCELLED, "request cancelled"@),
        ),
        s.after_frame(f).inbound(later, Ok(body)) == Ok::<InboundView, Seq<char>>(
            InboundView::CallTool(body),
        ),
{
}

/// A call that was not withdrawn reaches the tool's decision with its body.
pub proof fn calls_are_taken_up(s: SessionView, f: FrameView, body: Seq<u8>)
    requires
        s.open,
        s.authenticated,
        f.header.msg_type == MsgType::CallTool,
        !s.cancelled.contains(f.header.request_id),
    ensures
        s.inbound(f, Ok(body)) == Ok::<InboundView, Seq<char>>(InboundView::CallTool(body)),
{
}

/// A result that the client no longer has, or never got, is sent in full though the
/// server knows it, and then the client has it where it keeps results of such calls
/// and has places for all that it got.
pub proof fn lapsed_result_is_sent_again(
    s: SessionView,
    p: CallToolParams,
    acl: AclView,
    results: CacheView,
    result: Seq<u8>,
    now: u128,
)
    requires
        acl.allows(s.agent, p.name@),
        results.looked_up(call_key(p), now) == Some(result),
        !s.client_has(call_key(p), now),
    ensures
        s.call_next(p, acl, true, results, now) == CallNextView::SendCached(result),
        ({
            let next = s.after_call_next(p, acl, true, results, now);
            client_keeps(p) && next.delivered.dom().len() <= pipeline::PIPELINE_CACHE_CAPACITY
                ==> next.client_has(call_key(p), now)
        }),
{
}

/// A tool that the agent may not call does not run, and nothing is looked up for
/// it.
pub proof fn denied_calls_change_nothing(
    s: SessionView,
    p: CallToolParams,
    acl: AclView,
    cacheable: bool,
    results: CacheView,
    now: u128,
)
    requires
        !acl.allows(s.agent, p.name@),
    ensures
        s.call_next(p, acl, cacheable, results, now) == CallNextView::Denied(
            ACCESS_DENIED,
            "access denied: "@ + p.name@,
        ),
        s.after_call_next(p, acl, cacheable, results, now) == s,
        s.results_after(p, acl, cacheable, results, now) == results,
{
}

/// The second call of a cacheable tool with the same arguments, while the first
/// result is good, is answered with the key of the result alone where the client
/// still has the result, and the tool does not run again either way. `kept` are the
/// results of the server after the first call.
pub proof fn repeated_call_is_answered_by_key(
    s: SessionView,
    p: CallToolParams,
    acl: AclView,
    results: CacheView,
    result: Seq<u8>,
    put_time: u128,
    kept: CacheView,
    now: u128,
)
    requires
        acl.allows(s.agent, p.name@),
        results.after_put(call_key(p), result, put_time, kept),
        cache::age(put_time, now) <= results.ttl,
    ensures
        s.call_next(p, acl, true, kept, now) == if s.client_has(call_key(p), now) {
            CallNextView::SendRef(call_key(p))
        } else {
            CallNextView::SendCached(result)
        },
{
    cache::put_then_lookup(results, call_key(p), result, put_time, kept, now);
}

/// After a subscription the client is told of changes of the resource, until it
/// ends the subscription; other resources are not touched by either.
pub proof fn subscriptions_come_and_go(s: SessionView, uri: Seq<char>, other: Seq<char>)
    requires
        other != uri,
    ensures
        ({
            let on = SessionView { subscribed: s.subscribed.insert(uri), ..s };
            let off = SessionView { subscribed: on.subscribed.remove(uri), ..on };
            &&& on.subscribed.contains(uri)
            &&& !off.subscribed.contains(uri)
            &&& on.subscribed.contains(other) == s.subscribed.contains(other)
            &&& off.subscribed.contains(other) == s.subscribed.contains(other)
        }),
{
}

/// A tool whose results may not be cached runs every time: whatever the server keeps and
/// the client got, the decision is to run it and to keep nothing, and neither the
/// server's results nor the record of what the client got are touched. What it gives is
/// then sent without leave to keep it.
pub proof fn uncacheable_tools_run_every_time(
    s: SessionView,
    p: CallToolParams,
    acl: AclView,
    results: CacheView,
    now: u128,
    next: CallNext,
)
    requires
        acl.allows(s.agent, p.name@),
        next.shows(s.call_next(p, acl, false, results, now)),
    ensures
        next matches CallNext::Execute(None),
        s.after_call_next(p, acl, false, results, now) == s,
        s.results_after(p, acl, false, results, now) == results,
{
}

/// An agent without a grant for the tool is refused, with the name of the tool, whether
/// results of the tool may be cached or not, and whatever is kept.
pub proof fn ungranted_calls_are_refused(
    s: SessionView,
    p: CallToolParams,
    acl: AclView,
    cacheable: bool,
    results: CacheView,
    now: u128,
    next: CallNext,
)
    requires
        !acl.allows(s.agent, p.name@),
        next.shows(s.call_next(p, acl, cacheable, results, now)),
    ensures
        next matches CallNext::Denied(e) && e.code == -32002 && e.message@ == "access denied: "@
            + p.name@ && e.data is None,
        s.after_call_next(p, acl, cacheable, results, now) == s,
        s.results_after(p, acl, cacheable, results, now) == results,
{
}

/// A granted call of a tool whose results may be cached is looked up under the digest of
/// its name and all of its arguments. What is not kept there is run and then kept there;
/// by the client as well where the text of the arguments is under 16384 bytes. What is
/// kept is sent: as its key alone where the client got it in full not more than five
/// minutes ago and never got more than 4096 results, and else in full, with leave to keep
/// it.
pub proof fn kept_results_stand_for_runs(
    s: SessionView,
    p: CallToolParams,
    acl: AclView,
    results: CacheView,
    now: u128,
    next: CallNext,
)
    requires
        acl.allows(s.agent, p.name@),
        next.shows(s.call_next(p, acl, true, results, now)),
    ensures
        ({
            let args = json::json_text(json::json_of(p.arguments));
            let key = auth::sha256(encode_utf8(p.name@) + seq![0u8] + args);
            let has = s.delivered.contains_key(key) && s.delivered.dom().len() <= 4096 && (now
                <= s.delivered[key] || now - s.delivered[key] <= 300_000_000_000);
            let after = s.after_call_next(p, acl, true, results, now);
            &&& match results.looked_up(key, now) {
                None => (next matches CallNext::Execute(Some(k)) && k.bytes() == key
                    && k.client_keeps() == (args.len() < 16_384)) && after == s,
                Some(v) => if has {
                    (next matches CallNext::SendRef(k) && k.0@ == key) && after == s
                } else {
                    &&& next matches CallNext::SendCached(d) && d.content() == v && d.may_be_kept()
                    &&& after == (SessionView {
                        delivered: if args.len() < 16_384 {
                            s.delivered.insert(key, now)
                        } else {
                            s.delivered
                        },
                        ..s
                    })
                },
            }
            &&& s.results_after(p, acl, true, results, now) == results.after_lookup(key, now)
        }),
{
    let args = json::json_text(json::json_of(p.arguments));
    assert(cache::key_text(p.name@, args) =~= encode_utf8(p.name@) + seq![0u8] + args);
}

/// A result that is sent in full is on record as sent at that time where the client keeps
/// it, and only there; nothing else of the connection changes.
pub proof fn full_results_are_put_on_record(
    s: SessionView,
    key: Seq<u8>,
    keeps: bool,
    now: u128,
    other: Seq<u8>,
)
    ensures
        ({
            let next = s.after_full(key, keeps, now);
            &&& keeps ==> next.delivered.contains_key(key) && next.delivered[key] == now
            &&& !keeps ==> next.delivered == s.delivered
            &&& other != key ==> next.delivered.contains_key(other) == s.delivered.contains_key(
                other,
            )
            &&& next == (SessionView { delivered: next.delivered, ..s })
        }),
{
}

/// A call asks for a report exactly where its member `progress` beside the arguments is
/// true. The report that it begins carries its number, says zero of one, and names the
/// tool.
pub proof fn reports_are_made_where_they_are_asked_for(
    p: CallToolParams,
    r: ProgressParams,
    id: u64,
    name: Seq<char>,
)
    ensures
        wants_progress(p) <==> (p.meta matches Some(m) && json::json_of(m).member("progress"@)
            == Some(JsonView::Bool(true))),
        reports_begin(r, id, name) ==> r.request_id == id && r.progress == 0 && r.total == Some(
            1u64,
        ) && (r.message matches Some(m) && m@ == "executing "@ + name),
{
    if let Some(m) = p.meta {
        json::members_are_read_as_what_they_are(
            json::json_of(m),
            "progress"@,
            Seq::empty(),
            0,
            true,
        );
    }
}

/// What a frame of a known client asks for goes by its type; the body of those that have
/// one is the whole payload, taken out of the frame. Other types ask for nothing.
pub proof fn frames_are_taken_up_by_their_type(
    s: SessionView,
    f: FrameView,
    body: Seq<u8>,
    i: Inbound,
)
    requires
        s.open,
        s.authenticated,
        !(f.header.msg_type is CallTool && s.cancelled.contains(f.header.request_id)),
        s.inbound(f, Ok(body)) matches Ok(v) && i.shows(v),
    ensures
        match f.header.msg_type {
            MsgType::Auth => i matches Inbound::Authenticate(b) && buffer::bytes_of(b) == f.payload,
            MsgType::ShmSetup => i is SetUpShm,
            MsgType::Initialize => i is Initialize,
            MsgType::ListTools => i is ListTools,
            MsgType::ListResources => i is ListResources,
            MsgType::ListPrompts => i is ListPrompts,
            MsgType::Ping => i is Ping,
            MsgType::ReadResource => i matches Inbound::ReadResource(b) && buffer::bytes_of(b)
                == body,
            MsgType::GetPrompt => i matches Inbound::GetPrompt(b) && buffer::bytes_of(b) == body,
            MsgType::SubscribeResource => i matches Inbound::Subscribe(b) && buffer::bytes_of(b)
                == body,
            MsgType::UnsubscribeResource => i matches Inbound::Unsubscribe(b) && buffer::bytes_of(
                b,
            ) == body,
            MsgType::Cancel => i matches Inbound::Cancel(b) && buffer::bytes_of(b) == body,
            MsgType::CallTool => i matches Inbound::CallTool(b) && buffer::bytes_of(b) == body,
            _ => i is Ignore,
        },
        s.after_frame(f) == s,
{
}

/// A stranger is told to prove itself, whatever it asks for but that, and a call that was
/// withdrawn is told so and forgotten; a frame that cannot be taken out ends the
/// connection with its reason, where its body is needed.
pub proof fn refusals_of_frames_say_why(
    s: SessionView,
    f: FrameView,
    body: Result<Seq<u8>, Seq<char>>,
    i: Inbound,
    reason: Seq<char>,
)
    requires
        s.open,
        s.inbound(f, body) matches Ok(v) ==> i.shows(v),
    ensures
        !s.authenticated && !(f.header.msg_type is Auth) ==> s.inbound(f, body) is Ok && (
        i matches Inbound::Refuse(e) && e.code == -32001 && e.message@
            == "authentication required"@ && e.data is None) && s.after_frame(f) == s,
        !s.authenticated && f.header.msg_type is Auth ==> s.inbound(f, body) is Ok && (
        i matches Inbound::Authenticate(b) && buffer::bytes_of(b) == f.payload),
        s.authenticated && f.header.msg_type is CallTool && s.cancelled.contains(
            f.header.request_id,
        ) ==> s.inbound(f, body) is Ok && (i matches Inbound::Refuse(e) && e.code == -32800
            && e.message@ == "request cancelled"@ && e.data is None) && s.after_frame(f) == (
        SessionView { cancelled: s.cancelled.remove(f.header.request_id), ..s }),
        s.authenticated && body == compress::broken(reason) && (f.header.msg_type is ReadResource
            || f.header.msg_type is GetPrompt || f.header.msg_type is SubscribeResource
            || f.header.msg_type is UnsubscribeResource || f.header.msg_type is Cancel || (
        f.header.msg_type is CallTool && !s.cancelled.contains(f.header.request_id)))
            ==> s.inbound(f, body) == Err::<InboundView, Seq<char>>(reason),
{
}

/// A client is believed exactly where there is a token, it sent a nonce, and what it sent
/// as its response is, in hexadecimal, the HMAC of the nonce under the token.
pub proof fn only_the_right_response_is_believed(
    token: Option<Seq<u8>>,
    p: AuthParams,
    response: Seq<u8>,
)
    requires
        hex::unhexed(p.token@) == Some(response),
    ensures
        knows_token(token, p) <==> token is Some && p.nonce is Some && response
            == auth::hmac_sha256(token->Some_0, encode_utf8(p.nonce->Some_0@)),
{
}

/// What is no hexadecimal counts as no response at all.
pub proof fn garbled_responses_are_empty(token: Option<Seq<u8>>, p: AuthParams)
    requires
        hex::unhexed(p.token@) is None,
    ensures
        knows_token(token, p) ==> auth::hmac_sha256(token->Some_0, encode_utf8(p.nonce->Some_0@))
            == Seq::<u8>::empty(),
        token is None || p.nonce is None ==> !knows_token(token, p),
{
}

/// The key of a session with a client rests on the token and its whole nonce, and, where
/// both sides sent a public key of 32 bytes, on the secret that these share.
pub proof fn server_keys_rest_on_the_proof(
    token: Seq<u8>,
    p: AuthParams,
    own: EphemeralKeyPair,
    nonce: Seq<u8>,
)
    requires
        nonce == match p.nonce {
            Some(n) => encode_utf8(n@),
            None => Seq::empty(),
        },
    ensures
        ({
            let plain = auth::hmac_sha256(token, encode_utf8("ohmcp-session"@) + nonce);
            &&& session_key(token, p, None) == plain
            &&& p.eph_pub is None ==> session_key(token, p, Some(own)) == plain
            &&& p.eph_pub matches Some(e) ==> session_key(token, p, Some(own))
                == match hex::unhexed32(e@) {
                Some(peer) => auth::hmac_sha256(
                    token,
                    encode_utf8("ohmcp-fs"@) + nonce + auth::x25519_product(own.secret(), peer),
                ),
                None => plain,
            }
        }),
{
}

/// The answer to a proof says whether it was believed, gives the reason where not, and
/// the server's public key in hexadecimal where it was and both sides have one. It never
/// carries the key of the session.
pub proof fn answers_to_proofs_say_what_they_should(
    r: AuthResult,
    ok: bool,
    p: AuthParams,
    own: Option<EphemeralKeyPair>,
)
    requires
        is_auth_result(r, ok, p, own),
    ensures
        r.ok == ok,
        r.session_key_b64 is None,
        ok ==> r.reason is None,
        !ok ==> r.eph_pub is None && (r.reason matches Some(m) && m@ == "invalid token"@),
        ok && own is Some && (p.eph_pub matches Some(e) && hex::unhexed32(e@) is Some) ==> (
        r.eph_pub matches Some(h) && h@ == hex::hex_text(own->Some_0.public())),
        ok && (own is None || p.eph_pub is None) ==> r.eph_pub is None,
{
}

/// A new connection is open, and has nobody's subscriptions, withdrawals, rings or
/// results. Its client is anonymous, and is known already exactly where no token is asked
/// for.
pub proof fn new_connections_are_clean(
    token: Option<Vec<u8>>,
    out: Session,
    uri: Seq<char>,
    id: u64,
    key: Seq<u8>,
)
    requires
        call_ensures(Session::new, (token,), out),
    ensures
        out@.open,
        out@.authenticated <==> token is None,
        out@.agent == "anonymous"@,
        !out@.subscribed.contains(uri),
        !out@.cancelled.contains(id),
        !out@.delivered.contains_key(key),
        !out@.downlink && !out@.uplink,
        out.key() is None,
{
}

/// What the server says of itself: its version of the protocol, its name, the version of
/// the program, and that it has tools, resources and prompts.
pub proof fn servers_introduce_themselves(version: &str, out: InitializeResult)
    requires
        call_ensures(initialize_result, (version,), out),
    ensures
        out.protocol_version@ == "2025-06-18"@,
        out.server_info.name@ == "ohmcpd"@,
        out.server_info.version@ == version@,
        json::json_of(out.capabilities).member("tools"@) == Some(JsonView::empty_object()),
        json::json_of(out.capabilities).member("resources"@) == Some(JsonView::empty_object()),
        json::json_of(out.capabilities).member("prompts"@) == Some(JsonView::empty_object()),
{
    reveal_strlit("tools");
    reveal_strlit("resources");
    reveal_strlit("prompts");
    assert("tools"@.len() == 5 && "resources"@.len() == 9 && "prompts"@.len() == 7);
}

/// The refusals of what there is not carry their codes and name what was asked for.
pub proof fn what_there_is_not_is_named(
    uri: &str,
    no_resource: ErrorBody,
    name: &str,
    no_prompt: ErrorBody,
)
    requires
        call_ensures(resource_not_found, (uri,), no_resource),
        call_ensures(unknown_prompt, (name,), no_prompt),
    ensures
        no_resource.code == -32002,
        no_resource.message@ == "resource not found: "@ + uri@,
        no_resource.data is None,
        no_prompt.code == -32602,
        no_prompt.message@ == "unknown prompt: "@ + name@,
        no_prompt.data is None,
        UNKNOWN_TOOL == -32601,
        BUSY == -32005,
{
}

/// The answer to the set-up of the rings says whether they are used, and gives the size
/// of both: 4 MiB.
pub proof fn ring_answers_give_the_sizes(ok: bool)
    ensures
        shm_answer(ok).member("ok"@) == Some(JsonView::Bool(ok)),
        shm_answer(ok).member("size"@) == Some(
            JsonView::Number(json::JsonNumber::Unsigned(4_194_304)),
        ),
        shm_answer(ok).member("up_size"@) == Some(
            JsonView::Number(json::JsonNumber::Unsigned(4_194_304)),
        ),
{
    reveal_strlit("ok");
    reveal_strlit("size");
    reveal_strlit("up_size");
    assert("ok"@.len() == 2 && "size"@.len() == 4 && "up_size"@.len() == 7);
}

/// A result that the client may keep is marked by bit 8, and one that it may not is not;
/// the mark changes nothing else of the frame.
pub proof fn only_what_may_be_kept_is_marked(f: FrameView, cacheable: bool)
    requires
        f.header.flags.0 & 8 == 0,
    ensures
        ({
            let m = marked(f, cacheable);
            &&& (m.header.flags.0 & 8 != 0) == cacheable
            &&& m.header.flags.0 & 0xF7 == f.header.flags.0 & 0xF7
            &&& m.header.msg_type == f.header.msg_type
            &&& m.header.request_id == f.header.request_id
            &&& m.header.payload_len == f.header.payload_len
            &&& m.payload == f.payload
        }),
{
    let bits = f.header.flags.0;
    assert((bits | 8) & 8 != 0) by (bit_vector);
    assert((bits | 8) & 0xF7 == bits & 0xF7) by (bit_vector);
}

/// A reply is of the type that answers the request, or an error, and under its number;
/// only the answer to a proof goes unsealed. A message without an answer gets none.
pub proof fn replies_are_typed_and_numbered(
    through: PayloadPipeline,
    t: MsgType,
    id: u64,
    body: Seq<u8>,
)
    ensures
        replied(through, t, id, true, body) == Some(through.wrapped(MsgType::Error, id, body)),
        t is Auth ==> replied(through, t, id, false, body) == Some(
            FrameView::made(0, MsgType::AuthResult, id, body),
        ),
        !(t is Auth) && t.answered_by() is Some ==> replied(through, t, id, false, body) == Some(
            through.wrapped(t.answered_by()->Some_0, id, body),
        ),
        t.answered_by() is None ==> replied(through, t, id, false, body) is None,
{
}

/// The body of an answer that says nothing is an object without members.
pub proof fn empty_bodies_are_empty_objects(out: Bytes)
    requires
        call_ensures(empty_body, (), out),
    ensures
        buffer::bytes_of(out) == seq![0x7Bu8, 0x7D],
{
    reveal_strlit("{}");
    assert(is_ascii_chars("{}"@));
    is_ascii_chars_encode_utf8("{}"@);
    assert(encode_utf8("{}"@) =~= seq![0x7Bu8, 0x7D]);
}

/// What is decided on a call of a tool whose results may not be cached, or that the agent
/// may not call, does not depend on what is kept, and changes nothing: the first runs and
/// keeps nothing, the second is refused.
pub proof fn decisions_without_the_cache_change_nothing(
    s: &mut Session,
    id: u64,
    p: CallToolParams,
    acl: ToolAcl,
    cacheable: bool,
    results: &mut ResultCache,
    now: u128,
    out: (Option<ProgressParams>, CallNext),
)
    requires
        call_ensures(Session::begin_call_at, (s, id, &p, &acl, cacheable, results, now), out),
        !cacheable || !acl@.allows(s@.agent, p.name@),
    ensures
        acl@.allows(old(s)@.agent, p.name@) ==> (out.1 matches CallNext::Execute(None)),
        !acl@.allows(old(s)@.agent, p.name@) ==> (out.1 matches CallNext::Denied(e) && e.code
            == -32002 && e.message@ == "access denied: "@ + p.name@),
        final(s)@ == old(s)@,
        final(results)@ == old(results)@,
{
}

/// What is decided on a granted call whose result may be kept: what is kept under the
/// digest of its name and arguments is sent, and what is not is run. The key alone is
/// sent exactly where the client got the result in full within the last five minutes and
/// never more than 4096 of them.
pub proof fn decisions_follow_what_is_kept(
    s: &mut Session,
    id: u64,
    p: CallToolParams,
    acl: ToolAcl,
    results: &mut ResultCache,
    now: u128,
    out: (Option<ProgressParams>, CallNext),
    key: Seq<u8>,
)
    requires
        call_ensures(Session::begin_call_at, (s, id, &p, &acl, true, results, now), out),
        acl@.allows(s@.agent, p.name@),
        key == auth::sha256(
            encode_utf8(p.name@) + seq![0u8] + json::json_text(json::json_of(p.arguments)),
        ),
    ensures
        out.1 is Execute <==> old(results)@.looked_up(key, now) is None,
        out.1 matches CallNext::Execute(k) ==> k is Some && k->Some_0.bytes() == key,
        out.1 matches CallNext::SendRef(k) ==> k.0@ == key,
        out.1 matches CallNext::SendCached(d) ==> old(results)@.looked_up(key, now) == Some(
            d.content(),
        ) && d.may_be_kept(),
        out.1 is SendRef <==> old(results)@.looked_up(key, now) is Some && old(
            s,
        )@.delivered.contains_key(key) && old(s)@.delivered.dom().len() <= 4096 && (now <= old(
            s,
        )@.delivered[key] || now - old(s)@.delivered[key] <= 300_000_000_000),
        !(out.1 is SendCached) ==> final(s)@ == old(s)@,
        final(s)@.agent == old(s)@.agent && final(s)@.authenticated == old(s)@.authenticated,
{
    kept_results_stand_for_runs(old(s)@, p, acl@, old(results)@, now, out.1);
}

/// A call is reported to begin exactly where it asks for it, with its own number, whatever
/// is decided on it.
pub proof fn calls_are_reported_where_asked(
    s: &mut Session,
    id: u64,
    p: CallToolParams,
    acl: ToolAcl,
    cacheable: bool,
    results: &mut ResultCache,
    now: u128,
    out: (Option<ProgressParams>, CallNext),
)
    requires
        call_ensures(Session::begin_call_at, (s, id, &p, &acl, cacheable, results, now), out),
    ensures
        out.0 is Some <==> (p.meta matches Some(m) && json::json_of(m).member("progress"@) == Some(
            JsonView::Bool(true),
        )),
        out.0 matches Some(r) ==> r.request_id == id && r.progress == 0 && r.total == Some(1u64)
            && (r.message matches Some(m) && m@ == "executing "@ + p.name@),
{
    reports_are_made_where_they_are_asked_for(
        p,
        out.0->Some_0,
        id,
        p.name@,
    );
}

/// A tool that ran gives its whole result to the client. Where it was decided to keep the
/// result, it is kept under that key and the client may keep it too; otherwise nothing is
/// kept. A tool that there is not is named in the refusal, and nothing changes.
pub proof fn finished_calls_give_the_result(
    s: &mut Session,
    name: &str,
    key: Option<ResultKey>,
    result: Option<Bytes>,
    results: &mut ResultCache,
    now: u128,
    out: Result<Delivery, ErrorBody>,
)
    requires
        call_ensures(Session::finish_call_at, (s, name, key, result, results, now), out),
    ensures
        out is Ok <==> result is Some,
        out matches Ok(d) ==> d.content() == buffer::bytes_of(result->Some_0) && (d.may_be_kept()
            <==> key is Some),
        out matches Err(e) ==> e.code == -32601 && e.message@ == "unknown tool: "@ + name@,
        key is None || result is None ==> final(s)@ == old(s)@ && final(results)@ == old(
            results,
        )@,
        key is Some && result is Some ==> final(results)@.looked_up(key->Some_0.bytes(), now)
            == Some(buffer::bytes_of(result->Some_0)),
        key is Some && result is Some && key->Some_0.client_keeps()
            ==> final(s)@.delivered.contains_key(key->Some_0.bytes())
            && final(s)@.delivered[key->Some_0.bytes()] == now,
        key is Some && result is Some && !key->Some_0.client_keeps() ==> final(s)@ == old(s)@,
{
}

/// The result of a call goes out under its number, whole, and with leave to keep it exactly
/// where that was given: in the frame where it lies in no ring, and otherwise as the place
/// where it lies.
pub proof fn results_go_out_under_their_number(
    s: &mut Session,
    id: u64,
    result: Delivery,
    offset: Option<u64>,
    out: Frame,
)
    requires
        s.wf(),
        call_ensures(Session::answer_call, (s, id, result, offset), out),
        result.content().len() <= u32::MAX,
    ensures
        out.header.msg_type is CallToolResult,
        out.header.request_id == id,
        (out.header.flags.0 & 8 != 0) == result.may_be_kept(),
        out.header.flags.0 & 4 == 0,
        offset is None ==> pipeline::opened(old(s).key(), out@) == compress::restored(
            result.content(),
        ),
        (out.header.flags.0 & 16 != 0) == (offset is Some),
        offset matches Some(o) ==> shm::shm_ref_of(out@.payload) == Some(
            (o, result.content().len() as u32),
        ),
        final(s)@ == old(s)@,
{
    let plain = old(s).pipeline().wrapped(MsgType::CallToolResult, id, result.content());
    pipeline::payloads_are_compressed_then_sealed(
        old(s).pipeline(),
        MsgType::CallToolResult,
        id,
        result.content(),
    );
    let bits = plain.header.flags.0;
    assert(bits <= 3 ==> bits & 8 == 0 && bits & 4 == 0 && bits & 16 == 0) by (bit_vector);
    assert((bits | 8) & 8 != 0) by (bit_vector);
    assert(bits <= 3 ==> (bits | 8) & 4 == 0 && (bits | 8) & 16 == 0) by (bit_vector);
    assert(0u8 | 16 == 16 && 16u8 | 8 == 24) by (bit_vector);
    assert(16u8 & 8 == 0 && 16u8 & 4 == 0 && 16u8 & 16 != 0) by (bit_vector);
    assert(24u8 & 8 != 0 && 24u8 & 4 == 0 && 24u8 & 16 != 0) by (bit_vector);
    if let Some(o) = offset {
        shm::shm_ref_round_trip(o, result.content().len() as u32);
    }
}

/// The key of a result goes out under the number of the call, marked as a key, and opens to
/// the whole key.
pub proof fn keys_go_out_under_their_number(s: &mut Session, id: u64, key: CacheKey, out: Frame)
    requires
        call_ensures(Session::answer_ref, (s, id, &key), out),
    ensures
        out.header.msg_type is CallToolResult,
        out.header.request_id == id,
        out.header.flags.0 & 4 != 0,
        pipeline::opened(old(s).key(), out@) == compress::restored(key.0@),
        final(s)@ == old(s)@,
{
}

/// Each request is answered by what it asks for. A resource or a prompt that there is not
/// is refused by its name. Only subscriptions and withdrawals change anything, and only
/// their own: a subscription to a resource that there is, its end, and the number that was
/// withdrawn.
pub proof fn requests_change_only_what_they_are_about<H, P: PromptHandler>(
    s: &mut Session,
    request: Request,
    registry: ToolRegistry<H, P>,
    version: &str,
    out: Answer,
    other: Seq<char>,
    id: u64,
)
    requires
        call_ensures(Session::answer::<H, P>, (s, request, &registry, version), out),
    ensures
        request is ReadResource ==> match out {
            Answer::Contents(c) => registry@.contents.contains_key(request->ReadResource_0@) && c
                == registry@.contents[request->ReadResource_0@],
            Answer::Refused(e) => !registry@.contents.contains_key(request->ReadResource_0@)
                && e.code == -32002 && e.message@ == "resource not found: "@
                + request->ReadResource_0@,
            _ => false,
        },
        request is GetPrompt ==> match out {
            Answer::Prompt(r) => registry@.prompt_handlers.contains_key(
                request->GetPrompt_0.name@,
            ) && call_ensures(
                P::render,
                (
                    &registry@.prompt_handlers[request->GetPrompt_0.name@],
                    &request->GetPrompt_0.arguments,
                ),
                r,
            ),
            Answer::Refused(e) => !registry@.prompt_handlers.contains_key(
                request->GetPrompt_0.name@,
            ) && e.code == -32602 && e.message@ == "unknown prompt: "@
                + request->GetPrompt_0.name@,
            _ => false,
        },
        request is Subscribe ==> {
            let uri = request->Subscribe_0@;
            let known = registry@.contents.contains_key(uri);
            &&& known ==> out is Done && final(s)@.subscribed.contains(uri)
            &&& !known ==> (out matches Answer::Refused(e) && e.code == -32002) && final(s)@
                == old(s)@
            &&& other != uri ==> final(s)@.subscribed.contains(other) == old(
                s,
            )@.subscribed.contains(other)
        },
        request is Unsubscribe ==> {
            let uri = request->Unsubscribe_0@;
            &&& out is Done
            &&& !final(s)@.subscribed.contains(uri)
            &&& other != uri ==> final(s)@.subscribed.contains(other) == old(
                s,
            )@.subscribed.contains(other)
        },
        request is Cancel ==> {
            let gone = request->Cancel_0.request_id;
            &&& out is Silence
            &&& final(s)@.cancelled.contains(gone)
            &&& id != gone ==> final(s)@.cancelled.contains(id) == old(s)@.cancelled.contains(id)
        },
        !(request is Cancel) ==> final(s)@.cancelled == old(s)@.cancelled,
        !(request is Subscribe) && !(request is Unsubscribe) ==> final(s)@.subscribed == old(
            s,
        )@.subscribed,
        request is Ping ==> out is Done,
        request is ListTools ==> out is Tools,
        request is ListResources ==> out is Resources,
        request is ListPrompts ==> out is Prompts,
        request is Initialize ==> (out matches Answer::Initialized(r) && r.protocol_version@
            == "2025-06-18"@ && r.server_info.name@ == "ohmcpd"@ && r.server_info.version@
            == version@),
        final(s)@.delivered == old(s)@.delivered && final(s)@.agent == old(s)@.agent
            && final(s)@.authenticated == old(s)@.authenticated && final(s)@.open == old(s)@.open,
{
}

/// A client is told of the change of a resource exactly where it subscribed to it, in a
/// message that answers no request and opens to the whole notice.
pub proof fn subscribers_are_told(s: &mut Session, uri: &str, body: Bytes, out: Option<Frame>)
    requires
        call_ensures(Session::notice, (s, uri, body), out),
        buffer::bytes_of(body).len() <= u32::MAX,
    ensures
        out is Some <==> old(s)@.subscribed.contains(uri@),
        out matches Some(f) ==> f.header.msg_type is ResourceUpdated && f.header.request_id == 0
            && pipeline::opened(old(s).key(), f@) == compress::restored(buffer::bytes_of(body)),
        final(s)@ == old(s)@,
{
}

/// The reply to a request carries its number, is of the type that answers it or an error,
/// and opens to the whole body; what is not answered gets none.
pub proof fn replies_hold_the_whole_body(
    s: &mut Session,
    t: MsgType,
    id: u64,
    refused: bool,
    body: Bytes,
    out: Option<Frame>,
)
    requires
        call_ensures(Session::answer_frame, (s, t, id, refused, body), out),
        buffer::bytes_of(body).len() <= u32::MAX,
    ensures
        out is Some <==> refused || t.answered_by() is Some,
        out matches Some(f) ==> f.header.request_id == id && (refused ==> f.header.msg_type is Error)
            && (!refused ==> Some(f.header.msg_type) == t.answered_by()) && pipeline::opened(
            old(s).key(),
            f@,
        ) == compress::restored(buffer::bytes_of(body)),
        !refused && t is Auth ==> (out matches Some(f) && buffer::bytes_of(f.payload)
            == buffer::bytes_of(body) && f.header.flags.0 == 0),
        final(s)@ == old(s)@,
{
}

/// A report goes out under the number of its call and opens to the whole report.
pub proof fn reports_go_out_under_their_number(
    s: &mut Session,
    id: u64,
    body: Bytes,
    out: Frame,
)
    requires
        call_ensures(Session::report, (s, id, body), out),
        buffer::bytes_of(body).len() <= u32::MAX,
    ensures
        out.header.msg_type is Progress,
        out.header.request_id == id,
        pipeline::opened(old(s).key(), out@) == compress::restored(buffer::bytes_of(body)),
        final(s)@ == old(s)@,
{
}

/// Who proves to know the token becomes the agent it says it is, may call every tool and
/// has everything sealed from then on; who does not is turned away for good and gets
/// nothing. What other agents may do stays.
pub proof fn proofs_decide_who_is_served(
    s: &mut Session,
    p: AuthParams,
    own: Option<EphemeralKeyPair>,
    acl: &mut ToolAcl,
    out: AuthResult,
    response: Seq<u8>,
    who: Seq<char>,
    tool: Seq<char>,
)
    requires
        call_ensures(Session::authenticate_with, (s, &p, own, acl), out),
        hex::unhexed(p.token@) == Some(response),
    ensures
        out.ok <==> old(s)@.token is Some && p.nonce is Some && response == auth::hmac_sha256(
            old(s)@.token->Some_0,
            encode_utf8(p.nonce->Some_0@),
        ),
        out.ok ==> final(s)@.authenticated && final(s)@.agent == p.agent_id@ && final(s)@.open
            == old(s)@.open && final(s).key() is Some && final(acl)@.allows(p.agent_id@, tool),
        !out.ok ==> !final(s)@.open && final(s)@.authenticated == old(s)@.authenticated
            && final(s)@.agent == old(s)@.agent && final(s).key() == old(s).key()
            && final(acl)@ == old(acl)@,
        who != p.agent_id@ ==> final(acl)@.allows(who, tool) == old(acl)@.allows(who, tool),
        out.session_key_b64 is None,
        !out.ok ==> (out.reason matches Some(m) && m@ == "invalid token"@),
{
}

/// The rings are used from then on exactly where both were made and their descriptors were
/// sent, and the client is told so.
pub proof fn rings_are_used_once_they_are_sent(
    s: &mut Session,
    made: bool,
    sent: bool,
    out: Vec<u8>,
)
    requires
        call_ensures(Session::finish_shm_setup, (s, made, sent), out),
    ensures
        made && sent ==> final(s)@.downlink && final(s)@.uplink,
        !(made && sent) ==> final(s)@ == old(s)@,
        json::json_parsed(out@) matches Ok(v) && v.member("ok"@) == Some(
            JsonView::Bool(made && sent),
        ) && v.member("size"@) == Some(
            JsonView::Number(json::JsonNumber::Unsigned(4_194_304)),
        ) && v.member("up_size"@) == Some(
            JsonView::Number(json::JsonNumber::Unsigned(4_194_304)),
        ),
{
    ring_answers_give_the_sizes(made && sent);
}

/// What a frame asks for goes by its type, and its body is what the frame opens to. Only a
/// call that was withdrawn changes anything: it is forgotten.
pub proof fn frames_are_taken_up(s: &mut Session, f: Frame, now: u128, out: Result<Inbound, String>)
    requires
        call_ensures(Session::on_frame_at, (s, &f, now), out),
        s@.open,
        s@.authenticated,
    ensures
        f.header.msg_type is CallTool && old(s)@.cancelled.contains(f.header.request_id) ==> (
        out matches Ok(Inbound::Refuse(e)) && e.code == -32800)
            && !final(s)@.cancelled.contains(f.header.request_id),
        f.header.msg_type is CallTool && !old(s)@.cancelled.contains(f.header.request_id)
            ==> match pipeline::unwrapped(old(s).key(), old(s).pipeline().cache(), f@, now) {
            Ok(body) => out matches Ok(Inbound::CallTool(b)) && buffer::bytes_of(b) == body,
            Err(e) => out matches Err(m) && m@ == e,
        },
        f.header.msg_type is ReadResource ==> match pipeline::unwrapped(
            old(s).key(),
            old(s).pipeline().cache(),
            f@,
            now,
        ) {
            Ok(body) => out matches Ok(Inbound::ReadResource(b)) && buffer::bytes_of(b) == body,
            Err(e) => out matches Err(m) && m@ == e,
        },
        f.header.msg_type is Ping ==> out matches Ok(Inbound::Ping),
        f.header.msg_type is ListTools ==> out matches Ok(Inbound::ListTools),
        f.header.msg_type is Initialize ==> out matches Ok(Inbound::Initialize),
        f.header.msg_type is Auth ==> (out matches Ok(Inbound::Authenticate(b)) && buffer::bytes_of(
            b,
        ) == buffer::bytes_of(f.payload)),
        final(s)@.subscribed == old(s)@.subscribed && final(s)@.delivered == old(s)@.delivered
            && final(s)@.agent == old(s)@.agent && final(s)@.authenticated && final(s)@.open,
{
}

/// A stranger can do nothing but prove itself.
pub proof fn strangers_can_only_prove_themselves(
    s: &mut Session,
    f: Frame,
    now: u128,
    out: Result<Inbound, String>,
)
    requires
        call_ensures(Session::on_frame_at, (s, &f, now), out),
        s@.open,
        !s@.authenticated,
    ensures
        f.header.msg_type is Auth ==> (out matches Ok(Inbound::Authenticate(b)) && buffer::bytes_of(
            b,
        ) == buffer::bytes_of(f.payload)),
        !(f.header.msg_type is Auth) ==> (out matches Ok(Inbound::Refuse(e)) && e.code == -32001
            && e.message@ == "authentication required"@),
        final(s)@ == old(s)@,
{
}

/// References into the uplink ring are followed as they come: to their place, or with a
/// complaint; what was read there stands in for the reference.
pub proof fn uplink_references_are_followed(
    s: Session,
    f: Frame,
    out: Result<Option<(u64, u32)>, String>,
    len: u32,
    data: Option<Vec<u8>>,
    back: Result<Frame, String>,
)
    requires
        call_ensures(Session::uplink_ref, (&s, &f), out),
        call_ensures(Session::resolve_uplink, (f, len, data), back),
    ensures
        f.header.flags.0 & 16 == 0 ==> out matches Ok(None),
        f.header.flags.0 & 16 != 0 && !s@.uplink ==> (out matches Err(m) && m@
            == "SHM_REF request but uplink not negotiated"@),
        f.header.flags.0 & 16 != 0 && s@.uplink ==> match shm::shm_ref_of(
            buffer::bytes_of(f.payload),
        ) {
            Some(r) => out matches Ok(Some(at)) && at == r,
            None => out matches Err(m) && m@ == "bad uplink shm ref payload"@,
        },
        data matches Some(d) ==> (back matches Ok(g) && buffer::bytes_of(g.payload) == d@
            && g.header.msg_type == f.header.msg_type && g.header.request_id
            == f.header.request_id && g.header.flags.0 == f.header.flags.0 & !16u8),
        data is None ==> (back matches Err(m) && m@ == "invalid uplink shm ref"@),
{
}

/// Results are offered to the ring exactly where there is one down and they have 16384
/// bytes at least; whether the connection goes on, and who subscribed, is told as it is.
pub proof fn connections_tell_their_state(
    s: Session,
    len: usize,
    offered: bool,
    open: bool,
    uri: &str,
    subscribed: bool,
)
    requires
        call_ensures(Session::offers_result_to_ring, (&s, len), offered),
        call_ensures(Session::is_open, (&s,), open),
        call_ensures(Session::is_subscribed, (&s, uri), subscribed),
    ensures
        offered <==> s@.downlink && len >= 16_384,
        open == s@.open,
        subscribed == s@.subscribed.contains(uri@),
{
}

/// Whatever key pair the server makes, a client is believed exactly where its response is
/// the HMAC of its nonce under the token, and then is the agent it says it is.
pub proof fn belief_does_not_depend_on_chance(
    s: &mut Session,
    p: AuthParams,
    acl: &mut ToolAcl,
    out: AuthResult,
    response: Seq<u8>,
    who: Seq<char>,
    tool: Seq<char>,
)
    requires
        call_ensures(Session::authenticate, (s, &p, acl), out),
        hex::unhexed(p.token@) == Some(response),
    ensures
        out.ok <==> old(s)@.token is Some && p.nonce is Some && response == auth::hmac_sha256(
            old(s)@.token->Some_0,
            encode_utf8(p.nonce->Some_0@),
        ),
        out.ok ==> final(s)@.authenticated && final(s)@.agent == p.agent_id@ && final(acl)@.allows(
            p.agent_id@,
            tool,
        ) && final(s).key() is Some,
        !out.ok ==> !final(s)@.open && final(s)@.agent == old(s)@.agent && final(acl)@ == old(
            acl,
        )@,
        who != p.agent_id@ ==> final(acl)@.allows(who, tool) == old(acl)@.allows(who, tool),
{
}

/// Whatever the time is, a frame of a known client without a body is taken up by its type,
/// and a call with a body of its own is taken up with all of it, unless it was withdrawn.
pub proof fn frames_do_not_depend_on_the_time(
    s: &mut Session,
    f: Frame,
    out: Result<Inbound, String>,
)
    requires
        call_ensures(Session::on_frame, (s, &f), out),
        s@.open,
        s@.authenticated,
        f.header.flags.0 & 4 == 0,
    ensures
        f.header.msg_type is Ping ==> out matches Ok(Inbound::Ping),
        f.header.msg_type is ListTools ==> out matches Ok(Inbound::ListTools),
        f.header.msg_type is ListResources ==> out matches Ok(Inbound::ListResources),
        f.header.msg_type is ListPrompts ==> out matches Ok(Inbound::ListPrompts),
        f.header.msg_type is Initialize ==> out matches Ok(Inbound::Initialize),
        f.header.msg_type is ShmSetup ==> out matches Ok(Inbound::SetUpShm),
        f.header.msg_type is CallTool && old(s)@.cancelled.contains(f.header.request_id) ==> (
        out matches Ok(Inbound::Refuse(e)) && e.code == -32800),
        f.header.msg_type is CallTool && !old(s)@.cancelled.contains(f.header.request_id)
            ==> match pipeline::opened(old(s).key(), f@) {
            Ok(body) => out matches Ok(Inbound::CallTool(b)) && buffer::bytes_of(b) == body,
            Err(e) => out matches Err(m) && m@ == e,
        },
        f.header.msg_type is GetPrompt ==> match pipeline::opened(old(s).key(), f@) {
            Ok(body) => out matches Ok(Inbound::GetPrompt(b)) && buffer::bytes_of(b) == body,
            Err(e) => out matches Err(m) && m@ == e,
        },
        f.header.msg_type is SubscribeResource ==> match pipeline::opened(old(s).key(), f@) {
            Ok(body) => out matches Ok(Inbound::Subscribe(b)) && buffer::bytes_of(b) == body,
            Err(e) => out matches Err(m) && m@ == e,
        },
        f.header.msg_type is UnsubscribeResource ==> match pipeline::opened(old(s).key(), f@) {
            Ok(body) => out matches Ok(Inbound::Unsubscribe(b)) && buffer::bytes_of(b) == body,
            Err(e) => out matches Err(m) && m@ == e,
        },
        f.header.msg_type is Cancel ==> match pipeline::opened(old(s).key(), f@) {
            Ok(body) => out matches Ok(Inbound::Cancel(b)) && buffer::bytes_of(b) == body,
            Err(e) => out matches Err(m) && m@ == e,
        },
        final(s)@.subscribed == old(s)@.subscribed && final(s)@.delivered == old(s)@.delivered,
{
}

/// Subscribing, ending a subscription and withdrawing a request each change what they are
/// about and nothing else.
pub proof fn subscriptions_and_withdrawals_are_noted(
    s: &mut Session,
    uri: &str,
    known: bool,
    out: Result<(), ErrorBody>,
    t: &mut Session,
    u: &mut Session,
    id: u64,
    other: Seq<char>,
)
    requires
        call_ensures(Session::subscribe, (s, uri, known), out),
        call_ensures(Session::unsubscribe, (t, uri), ()),
        call_ensures(Session::cancel, (u, id), ()),
        other != uri@,
    ensures
        known ==> out is Ok && final(s)@.subscribed.contains(uri@),
        !known ==> final(s)@ == old(s)@ && (out matches Err(e) && e.code == -32002 && e.message@
            == "resource not found: "@ + uri@),
        final(s)@.subscribed.contains(other) == old(s)@.subscribed.contains(other),
        !final(t)@.subscribed.contains(uri@),
        final(t)@.subscribed.contains(other) == old(t)@.subscribed.contains(other),
        final(u)@ == (SessionView { cancelled: old(u)@.cancelled.insert(id), ..old(u)@ }),
{
}

/// What is on its way to the client is the whole result.
pub proof fn deliveries_hold_the_result(d: Delivery, out: &[u8])
    requires
        call_ensures(Delivery::payload, (&d,), out),
    ensures
        out@ == d.content(),
{
}

} // verus!
