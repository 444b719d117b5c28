//! The client's side of one connection: how it proves who it is, what it sends,
//! and which request each frame that comes answers.

use bytes::Bytes;
use serde_json::Value;
use std::collections::HashSet;
use vstd::prelude::*;
use vstd::utf8::*;
use crate::acl::AclView;
use crate::auth;
use crate::auth::EphemeralKeyPair;
use crate::buffer;
use crate::cache;
use crate::cache::{CacheKey, CacheView};
use crate::compress;
use crate::frame::{Frame, FrameFlags, FrameView, MsgType};
use crate::frame;
use crate::hex;
use crate::json;
use crate::json::JsonView;
use crate::message::{
    AuthParams, AuthResult, CallToolParams, Implementation, InitializeParams,
};
use crate::pipeline;
use crate::pipeline::PayloadPipeline;
use crate::ringframe;
use crate::ringframe::{Carried, RefComplaints};
use crate::session;
use crate::session::{CallNextView, InboundView, SessionView};
use crate::shm;
use crate::shm::RingView;
use crate::text;

verus! {

/// A proof that was sent and not answered yet.
pub struct AuthAttempt {
    nonce_hex: String,
    pair: EphemeralKeyPair,
}

impl AuthAttempt {
    /// The nonce, in hexadecimal.
    pub closed spec fn nonce(self) -> Seq<char> {
        self.nonce_hex@
    }

    /// The client's ephemeral key pair.
    pub closed spec fn pair(self) -> EphemeralKeyPair {
        self.pair
    }
}

/// Whether this is the proof of an agent that knows the token.
pub open spec fn proves(
    p: AuthParams,
    agent_id: Seq<char>,
    token: Seq<u8>,
    nonce: Seq<char>,
    pair: EphemeralKeyPair,
) -> bool {
    &&& p.agent_id@ == agent_id
    &&& p.token@ == hex::hex_text(auth::hmac_sha256(token, encode_utf8(nonce)))
    &&& p.nonce matches Some(n) && n@ == nonce
    &&& p.eph_pub matches Some(e) && e@ == hex::hex_text(pair.public())
}

/// The session key of a client whose proof was answered.
pub open spec fn client_key(
    token: Seq<u8>,
    nonce: Seq<char>,
    pair: EphemeralKeyPair,
    r: AuthResult,
) -> Seq<u8> {
    let server = match r.eph_pub {
        Some(e) => hex::unhexed32(e@),
        None => None,
    };
    match server {
        Some(peer) => pair.session_key(peer, token, encode_utf8(nonce)),
        None => auth::hmac_sha256(token, auth::session_seed(encode_utf8(nonce))),
    }
}

/// Proves that the agent knows the token, with the given nonce and key pair.
pub fn prove_with(agent_id: &str, token: &[u8], nonce: &[u8], pair: EphemeralKeyPair) -> (out: (
    AuthParams,
    AuthAttempt,
))
    ensures
        proves(out.0, agent_id@, token@, hex::hex_text(nonce@), pair),
        out.1.nonce() == hex::hex_text(nonce@),
        out.1.pair() == pair,
{
    let nonce_hex: String = hex::hex(nonce);
    let response: [u8; 32] = auth::hmac_response(token, nonce_hex.as_str().as_bytes());
    let params: AuthParams = AuthParams {
        agent_id: String::from_str(agent_id),
        token: hex::hex(&response),
        nonce: Some(nonce_hex.clone()),
        eph_pub: Some(hex::hex(&pair.public_bytes())),
    };
    (params, AuthAttempt { nonce_hex, pair })
}

/// Proves that the agent knows the token, with a random nonce of 16 bytes and a
/// fresh key pair.
pub fn prove(agent_id: &str, token: &[u8]) -> (out: (AuthParams, AuthAttempt))
    ensures
        proves(out.0, agent_id@, token@, out.1.nonce(), out.1.pair()),
        out.1.nonce().len() == 32,
        exists|n: Seq<u8>| n.len() == 16 && out.1.nonce() == #[trigger] hex::hex_text(n),
        out.1.pair().wf(),
{
    let nonce: Vec<u8> = auth::random_bytes(16);
    let out: (AuthParams, AuthAttempt) = prove_with(
        agent_id,
        token,
        nonce.as_slice(),
        EphemeralKeyPair::generate(),
    );
    assert(out.1.nonce() == hex::hex_text(nonce@));
    out
}

/// Reads the answer to a proof: the session key, or nothing where the proof was
/// not believed.
pub fn finish_auth(attempt: AuthAttempt, token: &[u8], result: &AuthResult) -> (out: Option<
    [u8; 32],
>)
    ensures
        match out {
            Some(k) => result.ok && k@ == client_key(
                token@,
                attempt.nonce(),
                attempt.pair(),
                *result,
            ),
            None => !result.ok,
        },
{
    if !result.ok {
        return None;
    }
    let server: Option<[u8; 32]> = match &result.eph_pub {
        Some(e) => hex::unhex32(e.as_str()),
        None => None,
    };
    let nonce: &[u8] = attempt.nonce_hex.as_str().as_bytes();
    Some(
        match server {
            Some(peer) => attempt.pair.derive_fs_session_key(&peer, token, nonce),
            None => auth::derive_session_key(token, nonce),
        },
    )
}

/// A client that knows the token is believed, and both sides end with the same
/// session key, whether the server has a key pair of its own or not. `r` is what
/// the server answers.
pub proof fn handshake_agrees(
    p: AuthParams,
    agent_id: Seq<char>,
    token: Seq<u8>,
    nonce: Seq<char>,
    pair: EphemeralKeyPair,
    own: Option<EphemeralKeyPair>,
    r: AuthResult,
)
    requires
        pair.wf(),
        own matches Some(e) ==> e.wf(),
        proves(p, agent_id, token, nonce, pair),
        session::is_auth_result(r, true, p, own),
    ensures
        session::knows_token(Some(token), p),
        session::peer_key(p) == Some(pair.public()),
        session::session_key(token, p, own) == client_key(token, nonce, pair, r),
{
    hex::unhex_of_hex(auth::hmac_sha256(token, encode_utf8(nonce)));
    hex::unhex_of_hex(pair.public());
    if let Some(e) = own {
        hex::unhex_of_hex(e.public());
        auth::both_sides_derive_one_key(pair, e, token, encode_utf8(nonce));
    }
}

/// What the server says of the rings that it set up.
#[derive(Debug, Clone, Copy, PartialEq, Eq, Structural)]
pub struct ShmAnswer {
    pub ok: bool,
    pub size: u64,
    pub up_size: u64,
}

/// What the server says of the rings that it set up; what it leaves out is no.
pub open spec fn shm_answer_of(v: JsonView) -> ShmAnswer {
    ShmAnswer {
        ok: v.member_truth("ok"@) == Some(true),
        size: match v.member_unsigned("size"@) {
            Some(n) => n,
            None => 0,
        },
        up_size: match v.member_unsigned("up_size"@) {
            Some(n) => n,
            None => 0,
        },
    }
}

/// Reads the answer to the set-up of the rings, or the reason why it is no JSON.
pub fn read_shm_answer(body: &[u8]) -> (out: Result<ShmAnswer, String>)
    ensures
        match out {
            Ok(a) => json::json_parsed(body@) matches Ok(v) && a == shm_answer_of(v),
            Err(e) => json::json_parsed(body@) == json::parse_error(e@),
        },
{
    let v: Value = match json::json_from_slice(body) {
        Ok(v) => v,
        Err(e) => return Err(e),
    };
    let ok: bool = match json::member_bool(&v, "ok") {
        Some(b) => b,
        None => false,
    };
    let size: u64 = match json::member_u64(&v, "size") {
        Some(n) => n,
        None => 0,
    };
    let up_size: u64 = match json::member_u64(&v, "up_size") {
        Some(n) => n,
        None => 0,
    };
    Ok(ShmAnswer { ok, size, up_size })
}

/// Whether a ring of the given size may be mapped.
pub open spec fn good_size(n: u64) -> bool {
    0 < n <= shm::MAX_SHM_CAP
}

/// Whether these are the sizes of the rings to map: the server agreed, the
/// descriptors came, and the sizes are good. There is no ring up without one
/// down.
pub open spec fn rings_agreed(
    answer: ShmAnswer,
    down: bool,
    up: bool,
    down_size: Option<usize>,
    up_size: Option<usize>,
) -> bool {
    &&& match down_size {
        Some(n) => answer.ok && down && good_size(answer.size) && n == answer.size,
        None => !(answer.ok && down && good_size(answer.size)),
    }
    &&& match up_size {
        Some(n) => down_size is Some && up && good_size(answer.up_size) && n == answer.up_size,
        None => !(down_size is Some && up && good_size(answer.up_size)),
    }
}

/// The sizes of the rings to map, down and up. `down` and `up` say which
/// descriptors came.
pub fn ring_sizes(answer: ShmAnswer, down: bool, up: bool) -> (out: (Option<usize>, Option<usize>))
    ensures
        rings_agreed(answer, down, up, out.0, out.1),
{
    let max: u64 = shm::MAX_SHM_CAP as u64;
    let down_size: Option<usize> = if answer.ok && down && answer.size > 0 && answer.size <= max {
        Some(answer.size as usize)
    } else {
        None
    };
    let up_size: Option<usize> = if down_size.is_some() && up && answer.up_size > 0
        && answer.up_size <= max {
        Some(answer.up_size as usize)
    } else {
        None
    };
    (down_size, up_size)
}

/// A handshake that is under way.
pub struct Handshake {
    agent_id: String,
    token: Option<Vec<u8>>,
    use_shm: bool,
    attempt: Option<AuthAttempt>,
    pipeline: PayloadPipeline,
}

/// What a handshake needs next.
#[derive(Debug)]
pub enum HandshakeNext {
    /// Send the proof and wait for the answer.
    Prove(AuthParams),
    /// Ask for the rings and wait for the descriptors and the answer.
    SetUpShm,
    /// Send the first request.
    Initialize,
}

impl Handshake {
    pub closed spec fn agent(self) -> Seq<char> {
        self.agent_id@
    }

    /// The token, where the client has one.
    pub closed spec fn token(self) -> Option<Seq<u8>> {
        match self.token {
            Some(t) => Some(t@),
            None => None,
        }
    }

    /// Whether the client wants rings.
    pub closed spec fn wants_shm(self) -> bool {
        self.use_shm
    }

    /// The proof that was sent and not answered yet.
    pub closed spec fn attempt(self) -> Option<AuthAttempt> {
        self.attempt
    }

    pub closed spec fn pipeline(self) -> PayloadPipeline {
        self.pipeline
    }

    pub open spec fn wf(self) -> bool {
        &&& self.pipeline().wf()
        &&& self.attempt() is Some ==> self.token() is Some
        &&& self.attempt() matches Some(a) ==> a.pair().wf()
    }

    /// What comes once the client is known: the rings, if it wants any, then the
    /// first request.
    pub open spec fn after_proof(self) -> HandshakeNext {
        if self.wants_shm() {
            HandshakeNext::SetUpShm
        } else {
            HandshakeNext::Initialize
        }
    }

    /// Begins a handshake: a client with a token proves that it knows it.
    pub fn start(agent_id: &str, token: Option<Vec<u8>>, use_shm: bool) -> (out: (
        Handshake,
        HandshakeNext,
    ))
        ensures
            out.0.wf(),
            out.0.agent() == agent_id@,
            out.0.wants_shm() == use_shm,
            out.0.pipeline().cipher() is None,
            out.0.pipeline().cache() == CacheView::empty(
                pipeline::PIPELINE_CACHE_CAPACITY as nat,
                pipeline::CACHE_TTL as nat,
            ),
            match token {
                Some(t) => {
                    &&& out.0.token() == Some(t@)
                    &&& out.0.attempt() matches Some(a) && a.nonce().len() == 32 && a.pair().wf()
                    &&& exists|n: Seq<u8>|
                        n.len() == 16 && out.0.attempt()->Some_0.nonce() == #[trigger] hex::hex_text(
                            n,
                        )
                    &&& out.1 matches HandshakeNext::Prove(p) && proves(
                        p,
                        agent_id@,
                        t@,
                        out.0.attempt()->Some_0.nonce(),
                        out.0.attempt()->Some_0.pair(),
                    )
                },
                None => {
                    &&& out.0.token() is None
                    &&& out.0.attempt() is None
                    &&& out.1 == out.0.after_proof()
                },
            },
    {
        let mut h: Handshake = Handshake {
            agent_id: String::from_str(agent_id),
            token: None,
            use_shm,
            attempt: None,
            pipeline: PayloadPipeline::new(),
        };
        match token {
            Some(t) => {
                let (params, attempt): (AuthParams, AuthAttempt) = prove(agent_id, t.as_slice());
                h.token = Some(t);
                h.attempt = Some(attempt);
                (h, HandshakeNext::Prove(params))
            },
            None => {
                let next: HandshakeNext = if use_shm {
                    HandshakeNext::SetUpShm
                } else {
                    HandshakeNext::Initialize
                };
                (h, next)
            },
        }
    }

    /// Takes the answer to the proof: a client that was believed seals everything
    /// from then on, one that was not gives up (`None`).
    pub fn on_auth_result(&mut self, result: &AuthResult) -> (out: Option<HandshakeNext>)
        requires
            old(self).wf(),
            old(self).attempt() is Some,
        ensures
            final(self).wf(),
            final(self).attempt() is None,
            final(self).agent() == old(self).agent(),
            final(self).token() == old(self).token(),
            final(self).wants_shm() == old(self).wants_shm(),
            final(self).pipeline().cache() == old(self).pipeline().cache(),
            match out {
                Some(next) => {
                    &&& result.ok
                    &&& next == old(self).after_proof()
                    &&& final(self).pipeline().cipher() matches Some(c) && c.counter() == 0
                    &&& final(self).pipeline().key() == Some(
                        client_key(
                            old(self).token()->Some_0,
                            old(self).attempt()->Some_0.nonce(),
                            old(self).attempt()->Some_0.pair(),
                            *result,
                        ),
                    )
                },
                None => !result.ok && final(self).pipeline() == old(self).pipeline(),
            },
    {
        let attempt: Option<AuthAttempt> = self.attempt.take();
        if let (Some(a), Some(t)) = (attempt, &self.token) {
            match finish_auth(a, t.as_slice(), result) {
                Some(key) => self.pipeline.enable_encryption(key),
                None => return None,
            }
        }
        if self.use_shm {
            Some(HandshakeNext::SetUpShm)
        } else {
            Some(HandshakeNext::Initialize)
        }
    }

    /// Takes the answer to the set-up of the rings, at the given time: the sizes
    /// of the rings to map, down and up. `down` and `up` say which descriptors
    /// came.
    pub fn on_shm_answer_at(&mut self, frame: &Frame, down: bool, up: bool, now: u128) -> (out:
        Result<(Option<usize>, Option<usize>), String>)
        requires
            old(self).wf(),
        ensures
            final(self).wf(),
            final(self).agent() == old(self).agent(),
            final(self).token() == old(self).token(),
            final(self).wants_shm() == old(self).wants_shm(),
            final(self).attempt() == old(self).attempt(),
            final(self).pipeline().cipher() == old(self).pipeline().cipher(),
            final(self).pipeline().cache() == pipeline::cache_after(
                old(self).pipeline().key(),
                old(self).pipeline().cache(),
                frame@,
                now,
            ),
            match pipeline::unwrapped(
                old(self).pipeline().key(),
                old(self).pipeline().cache(),
                frame@,
                now,
            ) {
                Err(e) => out matches Err(m) && m@ == e,
                Ok(body) => match json::json_parsed(body) {
                    Err(e) => out matches Err(m) && m@ == e,
                    Ok(v) => out matches Ok(sizes) && rings_agreed(
                        shm_answer_of(v),
                        down,
                        up,
                        sizes.0,
                        sizes.1,
                    ),
                },
            },
    {
        let body: Bytes = match self.pipeline.unwrap_at(frame, now) {
            Ok(b) => b,
            Err(e) => return Err(e),
        };
        match read_shm_answer(buffer::bytes_slice(&body)) {
            Ok(a) => Ok(ring_sizes(a, down, up)),
            Err(e) => Err(e),
        }
    }

    /// Takes the answer to the set-up of the rings, now.
    pub fn on_shm_answer(&mut self, frame: &Frame, down: bool, up: bool) -> (out: Result<
        (Option<usize>, Option<usize>),
        String,
    >)
        requires
            old(self).wf(),
        ensures
            final(self).wf(),
            final(self).agent() == old(self).agent(),
            final(self).token() == old(self).token(),
            final(self).wants_shm() == old(self).wants_shm(),
            final(self).attempt() == old(self).attempt(),
            final(self).pipeline().cipher() == old(self).pipeline().cipher(),
            exists|now: u128|
                {
                    &&& final(self).pipeline().cache() == pipeline::cache_after(
                        old(self).pipeline().key(),
                        old(self).pipeline().cache(),
                        frame@,
                        now,
                    )
                    &&& match #[trigger] pipeline::unwrapped(
                        old(self).pipeline().key(),
                        old(self).pipeline().cache(),
                        frame@,
                        now,
                    ) {
                        Err(e) => out matches Err(m) && m@ == e,
                        Ok(body) => match json::json_parsed(body) {
                            Err(e) => out matches Err(m) && m@ == e,
                            Ok(v) => out matches Ok(sizes) && rings_agreed(
                                shm_answer_of(v),
                                down,
                                up,
                                sizes.0,
                                sizes.1,
                            ),
                        },
                    }
                },
    {
        let now: u128 = self.pipeline.now();
        self.on_shm_answer_at(frame, down, up, now)
    }

    /// Ends the handshake, with the rings that were mapped.
    pub fn finish(self, downlink: bool, uplink: bool) -> (out: OhmcpClient)
        requires
            self.wf(),
            self.attempt() is None,
        ensures
            out.wf(),
            out.pipeline() == self.pipeline(),
            out@ == (ClientView { next_id: 1, pending: Set::empty(), downlink, uplink }),
    {
        OhmcpClient::new(self.pipeline, downlink, uplink)
    }
}

/// The client understands what the server answers to the set-up of the rings.
pub proof fn shm_answer_is_understood(ok: bool)
    ensures
        shm_answer_of(session::shm_answer(ok)) == (ShmAnswer {
            ok,
            size: shm::DEFAULT_SHM_CAP as u64,
            up_size: shm::DEFAULT_SHM_CAP as u64,
        }),
        good_size(shm::DEFAULT_SHM_CAP as u64),
{
    reveal_strlit("ok");
    reveal_strlit("size");
    reveal_strlit("up_size");
    assert("ok"@.len() == 2 && "size"@.len() == 4 && "up_size"@.len() == 7);
}

/// The state of one connection.
pub struct OhmcpClient {
    next_id: u64,
    /// The requests that wait for their answer.
    pending: HashSet<u64>,
    pipeline: PayloadPipeline,
    downlink: bool,
    uplink: bool,
}

/// The state of one connection, without its pipeline.
#[verifier::ext_equal]
pub struct ClientView {
    pub next_id: u64,
    /// The requests that wait for their answer.
    pub pending: Set<u64>,
    /// Whether results may come through a ring.
    pub downlink: bool,
    /// Whether requests may go through a ring.
    pub uplink: bool,
}

impl View for OhmcpClient {
    type V = ClientView;

    closed spec fn view(&self) -> ClientView {
        ClientView {
            next_id: self.next_id,
            pending: self.pending@,
            downlink: self.downlink,
            uplink: self.uplink,
        }
    }
}

/// For whom a frame is.
#[derive(Debug)]
pub enum Dispatch {
    /// A report of progress, with its body.
    Progress(Bytes),
    /// The notice that a resource changed, with its body.
    ResourceUpdated(Bytes),
    /// The answer to the request that is waited for.
    Own(Frame),
    /// The answer to another request that waits.
    Other(Frame),
    /// Nobody.
    Nobody,
}

/// Why a request has no result.
#[derive(Debug)]
pub enum RequestError {
    /// The answer could not be unwrapped, for the given reason.
    Broken(String),
    /// The server refused, with the given body.
    Refused(Bytes),
}

/// Whether a client keeps a result: it may, and it is the result itself.
pub open spec fn keeps(f: FrameView) -> bool {
    frame::has_flag(f.header.flags.0, FrameFlags::CACHEABLE) && !pipeline::is_cache_ref(f)
}

/// Whether an answer was read right: `out` is what the request got, and `next`
/// the client's cache afterwards. A result that may be kept is kept under `key`.
pub open spec fn accepted(
    session_key: Option<Seq<u8>>,
    cache: CacheView,
    f: FrameView,
    key: Option<CacheKey>,
    now: u128,
    out: Result<Bytes, RequestError>,
    next: CacheView,
) -> bool {
    let looked = pipeline::cache_after(session_key, cache, f, now);
    match pipeline::unwrapped(session_key, cache, f, now) {
        Err(e) => {
            &&& out matches Err(RequestError::Broken(m)) && m@ == e
            &&& next == looked
        },
        Ok(body) => if f.header.msg_type == MsgType::Error {
            &&& out matches Err(RequestError::Refused(b)) && buffer::bytes_of(b) == body
            &&& next == looked
        } else {
            &&& out matches Ok(b) && buffer::bytes_of(b) == body
            &&& match key {
                Some(k) => if keeps(f) {
                    looked.after_put(k.0@, body, now, next)
                } else {
                    next == looked
                },
                None => next == looked,
            }
        },
    }
}

/// Whether a frame answers no request.
pub open spec fn is_notice(t: MsgType) -> bool {
    t == MsgType::Progress || t == MsgType::ResourceUpdated
}

impl ClientView {
    /// The connection after a frame was given out.
    pub open spec fn after_dispatch(self, f: FrameView) -> Self {
        if is_notice(f.header.msg_type) {
            self
        } else {
            ClientView { pending: self.pending.remove(f.header.request_id), ..self }
        }
    }

    /// Whether a frame was given out right: `own` is the request that is waited
    /// for and `body` what the frame unwraps to.
    pub open spec fn dispatched(
        self,
        f: FrameView,
        own: u64,
        body: Result<Seq<u8>, Seq<char>>,
        out: Dispatch,
    ) -> bool {
        if is_notice(f.header.msg_type) {
            match body {
                Ok(b) => if f.header.msg_type == MsgType::Progress {
                    out matches Dispatch::Progress(p) && buffer::bytes_of(p) == b
                } else {
                    out matches Dispatch::ResourceUpdated(p) && buffer::bytes_of(p) == b
                },
                Err(_) => out is Nobody,
            }
        } else if f.header.request_id == own {
            out matches Dispatch::Own(g) && g@ == f
        } else if self.pending.contains(f.header.request_id) {
            out matches Dispatch::Other(g) && g@ == f
        } else {
            out is Nobody
        }
    }
}

/// The number of the request behind number `n`.
pub open spec fn next_number(n: u64) -> u64 {
    if n == u64::MAX {
        0
    } else {
        (n + 1) as u64
    }
}

impl OhmcpClient {
    pub closed spec fn pipeline(self) -> PayloadPipeline {
        self.pipeline
    }

    pub open spec fn wf(self) -> bool {
        self.pipeline().wf()
    }

    /// The session key, where there is one.
    pub open spec fn key(self) -> Option<Seq<u8>> {
        self.pipeline().key()
    }

    /// A connection whose handshake is done, with its pipeline and the rings that
    /// were set up.
    pub fn new(pipeline: PayloadPipeline, downlink: bool, uplink: bool) -> (out: OhmcpClient)
        requires
            pipeline.wf(),
        ensures
            out.wf(),
            out.pipeline() == pipeline,
            out@ == (ClientView { next_id: 1, pending: Set::empty(), downlink, uplink }),
    {
        broadcast use vstd::std_specs::hash::group_hash_axioms;

        OhmcpClient { next_id: 1, pending: HashSet::new(), pipeline, downlink, uplink }
    }

    /// A number for the next request.
    pub fn take_id(&mut self) -> (out: u64)
        requires
            old(self).wf(),
        ensures
            final(self).wf(),
            final(self).pipeline() == old(self).pipeline(),
            out == old(self)@.next_id,
            final(self)@ == (ClientView { next_id: next_number(out), ..old(self)@ }),
    {
        let id: u64 = self.next_id;
        self.next_id =
        if id == u64::MAX {
            0
        } else {
            id + 1
        };
        id
    }

    /// Whether a request of `len` bytes is to be offered to the uplink ring.
    pub fn offers_request_to_ring(&self, len: usize) -> (out: bool)
        ensures
            out == ringframe::wants_ring(self@.uplink, len as nat),
    {
        ringframe::offer_to_ring(self.uplink, len)
    }

    /// Frames a request, which waits for its answer from then on. `offset` is
    /// where its payload lies in the uplink ring, if it does. The second part
    /// says whether other requests wait as well.
    pub fn begin_request(
        &mut self,
        msg_type: MsgType,
        request_id: u64,
        payload: Bytes,
        offset: Option<u64>,
    ) -> (out: (Frame, bool))
        requires
            old(self).wf(),
            offset is None ==> old(self).pipeline().takes(buffer::bytes_of(payload).len()),
        ensures
            final(self).wf(),
            final(self)@ == (ClientView {
                pending: old(self)@.pending.insert(request_id),
                ..old(self)@
            }),
            match offset {
                Some(o) => {
                    &&& final(self).pipeline() == old(self).pipeline()
                    &&& out.0@ == ringframe::ref_frame(
                        msg_type,
                        request_id,
                        o,
                        (buffer::bytes_of(payload).len() % 0x1_0000_0000) as u32,
                    )
                },
                None => {
                    &&& old(self).pipeline().after_send(final(self).pipeline())
                    &&& out.0@ == old(self).pipeline().wrapped(
                        msg_type,
                        request_id,
                        buffer::bytes_of(payload),
                    )
                    &&& out.0@.payload.len() == old(self).pipeline().sent_len(
                        compress::packed(buffer::bytes_of(payload)).len(),
                    )
                    &&& buffer::bytes_of(payload).len() <= u32::MAX ==> pipeline::opened(
                        old(self).key(),
                        out.0@,
                    ) == compress::restored(buffer::bytes_of(payload))
                },
            },
            !pipeline::is_cache_ref(out.0@),
            out.1 == (final(self)@.pending.len() > 1),
    {
        broadcast use vstd::std_specs::hash::group_hash_axioms;

        let f: Frame = ringframe::outbound(
            &mut self.pipeline,
            msg_type,
            request_id,
            payload,
            offset,
        );
        self.pending.insert(request_id);
        let contended: bool = self.pending.len() > 1;
        (f, contended)
    }

    /// Frames a message that is not answered.
    pub fn notify(&mut self, msg_type: MsgType, request_id: u64, payload: Bytes) -> (out: Frame)
        requires
            old(self).wf(),
            old(self).pipeline().takes(buffer::bytes_of(payload).len()),
        ensures
            final(self).wf(),
            final(self)@ == old(self)@,
            old(self).pipeline().after_send(final(self).pipeline()),
            out@ == old(self).pipeline().wrapped(
                msg_type,
                request_id,
                buffer::bytes_of(payload),
            ),
            out@.payload.len() == old(self).pipeline().sent_len(
                compress::packed(buffer::bytes_of(payload)).len(),
            ),
            buffer::bytes_of(payload).len() <= u32::MAX ==> pipeline::opened(
                old(self).key(),
                out@,
            ) == compress::restored(buffer::bytes_of(payload)),
    {
        let (f, _flags): (Frame, FrameFlags) = self.pipeline.wrap(msg_type, request_id, payload);
        f
    }

    /// Where the payload of a frame lies in the downlink ring, if it does. A
    /// reference without a ring, or one that is none, ends the connection.
    pub fn downlink_ref(&self, frame: &Frame) -> (out: Result<Option<(u64, u32)>, String>)
        ensures
            match ringframe::carried(frame@, self@.downlink) {
                Carried::Inline => out matches Ok(None),
                Carried::InRing(offset, len) => out matches Ok(Some(r)) && r == (offset, len),
                Carried::NoRing => out matches Err(m) && m@
                    == "SHM_REF frame but shm channel not negotiated"@,
                Carried::BadRef => out matches Err(m) && m@ == "bad shm ref payload"@,
            },
    {
        ringframe::ref_or_complaint(
            frame,
            self.downlink,
            RefComplaints {
                no_ring: "SHM_REF frame but shm channel not negotiated",
                bad_ref: "bad shm ref payload",
            },
        )
    }

    /// Puts what was read from the downlink ring at `offset` in the place of the
    /// reference. Where nothing could be read, the connection ends.
    pub fn resolve_shm(frame: Frame, offset: u64, len: u32, data: Option<Vec<u8>>) -> (out: Result<
        Frame,
        String,
    >)
        ensures
            match data {
                Some(d) => out matches Ok(f) && f@ == ringframe::resolved(frame@, len, d@),
                None => out matches Err(m) && m@ == "invalid shm ref (offset="@ + text::decimal(
                    offset as nat,
                ) + ", len="@ + text::decimal(len as nat) + ")"@,
            },
    {
        match data {
            Some(d) => Ok(ringframe::resolve(frame, len, d)),
            None => {
                let mut m: String = String::from_str("invalid shm ref (offset=");
                text::push_decimal(&mut m, offset);
                m.append(", len=");
                text::push_decimal(&mut m, len as u64);
                m.append(")");
                Err(m)
            },
        }
    }

    /// For whom a frame is, where `own` is the request that is waited for. A
    /// frame that refers to a ring comes with the bytes of the ring in it. An
    /// answer is given out once; a notice that cannot be unwrapped is for nobody.
    pub fn dispatch_at(&mut self, frame: Frame, own: u64, now: u128) -> (out: Dispatch)
        requires
            old(self).wf(),
        ensures
            final(self).wf(),
            final(self)@ == old(self)@.after_dispatch(frame@),
            final(self).pipeline().cipher() == old(self).pipeline().cipher(),
            final(self).pipeline().cache() == if is_notice(frame.header.msg_type) {
                pipeline::cache_after(
                    old(self).key(),
                    old(self).pipeline().cache(),
                    frame@,
                    now,
                )
            } else {
                old(self).pipeline().cache()
            },
            old(self)@.dispatched(
                frame@,
                own,
                pipeline::unwrapped(old(self).key(), old(self).pipeline().cache(), frame@, now),
                out,
            ),
    {
        broadcast use vstd::std_specs::hash::group_hash_axioms;

        let t: MsgType = frame.header.msg_type;
        if t == MsgType::Progress || t == MsgType::ResourceUpdated {
            return match self.pipeline.unwrap_at(&frame, now) {
                Ok(b) => if t == MsgType::Progress {
                    Dispatch::Progress(b)
                } else {
                    Dispatch::ResourceUpdated(b)
                },
                Err(_) => Dispatch::Nobody,
            };
        }
        let id: u64 = frame.header.request_id;
        let waits: bool = self.pending.remove(&id);
        assert(self@.pending =~= old(self)@.pending.remove(id));
        if id == own {
            Dispatch::Own(frame)
        } else if waits {
            Dispatch::Other(frame)
        } else {
            Dispatch::Nobody
        }
    }

    /// For whom a frame is, now.
    pub fn dispatch(&mut self, frame: Frame, own: u64) -> (out: Dispatch)
        requires
            old(self).wf(),
        ensures
            final(self).wf(),
            final(self)@ == old(self)@.after_dispatch(frame@),
            final(self).pipeline().cipher() == old(self).pipeline().cipher(),
            exists|now: u128|
                {
                    &&& final(self).pipeline().cache() == if is_notice(frame.header.msg_type) {
                        pipeline::cache_after(
                            old(self).key(),
                            old(self).pipeline().cache(),
                            frame@,
                            now,
                        )
                    } else {
                        old(self).pipeline().cache()
                    }
                    &&& old(self)@.dispatched(
                        frame@,
                        own,
                        #[trigger] pipeline::unwrapped(
                            old(self).key(),
                            old(self).pipeline().cache(),
                            frame@,
                            now,
                        ),
                        out,
                    )
                },
    {
        let now: u128 = self.pipeline.now();
        self.dispatch_at(frame, own, now)
    }

    /// Reads the answer to a request. A result that may be kept is kept under
    /// `key`, if there is one.
    pub fn accept_at(&mut self, frame: &Frame, key: Option<CacheKey>, now: u128) -> (out: Result<
        Bytes,
        RequestError,
    >)
        requires
            old(self).wf(),
        ensures
            final(self).wf(),
            final(self)@ == old(self)@,
            final(self).pipeline().cipher() == old(self).pipeline().cipher(),
            accepted(
                old(self).key(),
                old(self).pipeline().cache(),
                frame@,
                key,
                now,
                out,
                final(self).pipeline().cache(),
            ),
    {
        let body: Bytes = match self.pipeline.unwrap_at(frame, now) {
            Ok(b) => b,
            Err(e) => return Err(RequestError::Broken(e)),
        };
        if frame.header.msg_type == MsgType::Error {
            return Err(RequestError::Refused(body));
        }
        if let Some(k) = key {
            if frame.header.flags.cacheable() && !frame.header.flags.cache_ref() {
                self.pipeline.remember_at(k, buffer::bytes_clone(&body), now);
            }
        }
        Ok(body)
    }

    /// Reads the answer to a request, now.
    pub fn accept(&mut self, frame: &Frame, key: Option<CacheKey>) -> (out: Result<
        Bytes,
        RequestError,
    >)
        requires
            old(self).wf(),
        ensures
            final(self).wf(),
            final(self)@ == old(self)@,
            final(self).pipeline().cipher() == old(self).pipeline().cipher(),
            exists|now: u128| #[trigger]
                accepted(
                    old(self).key(),
                    old(self).pipeline().cache(),
                    frame@,
                    key,
                    now,
                    out,
                    final(self).pipeline().cache(),
                ),
    {
        let now: u128 = self.pipeline.now();
        self.accept_at(frame, key, now)
    }

    /// Whether results may come through a ring.
    pub fn shm_enabled(&self) -> (out: bool)
        ensures
            out == self@.downlink,
    {
        self.downlink
    }

    /// The number of results that were taken from the client's cache, and of
    /// those that were not there.
    pub fn cache_stats(&self) -> (out: (u64, u64))
        ensures
            out == (self.pipeline().cache().hits, self.pipeline().cache().misses),
    {
        self.pipeline.cache_stats()
    }
}

/// A call on the wire: the name and the arguments, which are written once.
pub open spec fn call_text(name: Seq<char>, args: Seq<u8>) -> Seq<u8> {
    encode_utf8("{\"name\":"@) + encode_utf8(json::json_quoted(name)) + encode_utf8(
        ",\"arguments\":"@,
    ) + args + encode_utf8("}"@)
}

/// Whether this is the key under which the client keeps the result of a call, if
/// it does. A call with large arguments has no key: such a call hardly ever comes
/// twice.
pub open spec fn is_key_of_call(key: Option<CacheKey>, name: Seq<char>, args: Seq<u8>) -> bool {
    match key {
        Some(k) => args.len() < shm::SHM_THRESHOLD && k.0@ == cache::key_of(name, args),
        None => args.len() >= shm::SHM_THRESHOLD,
    }
}

fn key_of_call(name: &str, canonical: &[u8]) -> (out: Option<CacheKey>)
    ensures
        is_key_of_call(out, name@, canonical@),
{
    if canonical.len() < shm::SHM_THRESHOLD {
        Some(CacheKey::compute(name, canonical))
    } else {
        None
    }
}

/// The payload of a call and the key under which its result may be kept.
pub fn prepare_call(name: &str, arguments: &Value) -> (out: (Vec<u8>, Option<CacheKey>))
    ensures
        ({
            let args = json::json_text(json::json_of(*arguments));
            &&& out.0@ == call_text(name@, args)
            &&& is_key_of_call(out.1, name@, args)
        }),
{
    let canonical: Vec<u8> = json::json_to_vec(arguments);
    let key: Option<CacheKey> = key_of_call(name, canonical.as_slice());
    let mut payload: Vec<u8> = vstd::slice::slice_to_vec("{\"name\":".as_bytes());
    payload.extend_from_slice(json::json_quote(name).as_str().as_bytes());
    payload.extend_from_slice(",\"arguments\":".as_bytes());
    payload.extend_from_slice(canonical.as_slice());
    payload.extend_from_slice("}".as_bytes());
    assert(payload@ =~= call_text(name@, canonical@));
    (payload, key)
}

/// Client and server keep the result of a call under the same key.
pub proof fn both_sides_use_one_key(name: Seq<char>, arguments: JsonView, p: CallToolParams)
    requires
        p.name@ == name,
        json::json_of(p.arguments) == arguments,
    ensures
        session::call_key(p) == cache::key_of(name, json::json_text(arguments)),
{
}

/// A call that asks for reports of progress.
pub open spec fn progress_call(name: Seq<char>, arguments: JsonView) -> JsonView {
    JsonView::empty_object().with("name"@, JsonView::Str(name)).with("arguments"@, arguments).with(
        "_meta"@,
        JsonView::empty_object().with("progress"@, JsonView::Bool(true)),
    )
}

/// The payload of a call that asks for reports of progress, and the key under
/// which its result may be kept. The payload can be read back where the arguments
/// hold no float and are not too deep.
pub fn prepare_progress_call(name: &str, arguments: Value) -> (out: (Vec<u8>, Option<CacheKey>))
    ensures
        out.0@ == json::json_text(progress_call(name@, json::json_of(arguments))),
        is_key_of_call(out.1, name@, json::json_text(json::json_of(arguments))),
        json::json_of(arguments).exact((json::max_depth() - 1) as nat) ==> json::json_parsed(
            out.0@,
        ) == json::parses_to(progress_call(name@, json::json_of(arguments))),
{
    let canonical: Vec<u8> = json::json_to_vec(&arguments);
    let key: Option<CacheKey> = key_of_call(name, canonical.as_slice());
    let mut meta: Value = json::json_object();
    json::json_set(&mut meta, "progress", json::json_bool(true));
    let mut v: Value = json::json_object();
    json::json_set(&mut v, "name", json::json_str(name));
    json::json_set(&mut v, "arguments", arguments);
    json::json_set(&mut v, "_meta", meta);
    proof {
        if json::json_of(arguments).exact((json::max_depth() - 1) as nat) {
            reveal_with_fuel(JsonView::exact, 3);
        }
    }
    (json::json_to_vec(&v), key)
}

/// A request that names a resource.
pub open spec fn uri_request(uri: Seq<char>) -> JsonView {
    JsonView::empty_object().with("uri"@, JsonView::Str(uri))
}

/// The payload of a request that names a resource. It can be read back.
pub fn prepare_uri(uri: &str) -> (out: Vec<u8>)
    ensures
        out@ == json::json_text(uri_request(uri@)),
        json::json_parsed(out@) == json::parses_to(uri_request(uri@)),
{
    let mut v: Value = json::json_object();
    json::json_set(&mut v, "uri", json::json_str(uri));
    proof {
        reveal_with_fuel(JsonView::exact, 2);
    }
    json::json_to_vec(&v)
}

/// A request for a prompt.
pub open spec fn prompt_request(name: Seq<char>, arguments: JsonView) -> JsonView {
    JsonView::empty_object().with("name"@, JsonView::Str(name)).with("arguments"@, arguments)
}

/// The payload of a request for a prompt. It can be read back where the arguments
/// hold no float and are not too deep.
pub fn prepare_prompt(name: &str, arguments: Value) -> (out: Vec<u8>)
    ensures
        out@ == json::json_text(prompt_request(name@, json::json_of(arguments))),
        json::json_of(arguments).exact((json::max_depth() - 1) as nat) ==> json::json_parsed(out@)
            == json::parses_to(prompt_request(name@, json::json_of(arguments))),
{
    let mut v: Value = json::json_object();
    json::json_set(&mut v, "name", json::json_str(name));
    json::json_set(&mut v, "arguments", arguments);
    proof {
        if json::json_of(arguments).exact((json::max_depth() - 1) as nat) {
            reveal_with_fuel(JsonView::exact, 2);
        }
    }
    json::json_to_vec(&v)
}

/// What the client says of itself; `version` is that of the program.
pub fn initialize_params(agent_id: &str, version: &str) -> (out: InitializeParams)
    ensures
        out.protocol_version@ == session::mcp_version(),
        out.client_info.name@ == agent_id@,
        out.client_info.version@ == version@,
        json::json_of(out.capabilities) == JsonView::empty_object(),
{
    InitializeParams {
        protocol_version: String::from_str("2025-06-18"),
        client_info: Implementation {
            name: String::from_str(agent_id),
            version: String::from_str(version),
        },
        capabilities: json::json_object(),
    }
}

/// A result that the client kept comes back when the server sends its key alone,
/// until it is too old: `f` brought the result and `g` brings the key. What is
/// assumed of the two frames is what the server's side says of them.
pub proof fn kept_result_comes_back_by_key(
    session_key: Option<Seq<u8>>,
    before: CacheView,
    f: FrameView,
    key: CacheKey,
    result: Seq<u8>,
    time: u128,
    out: Result<Bytes, RequestError>,
    kept: CacheView,
    g: FrameView,
    later: u128,
    again: Result<Bytes, RequestError>,
    after: CacheView,
)
    requires
        pipeline::opened(session_key, f) == compress::restored(result),
        keeps(f),
        f.header.msg_type == MsgType::CallToolResult,
        accepted(session_key, before, f, Some(key), time, out, kept),
        pipeline::opened(session_key, g) == compress::restored(key.0@),
        pipeline::is_cache_ref(g),
        g.header.msg_type == MsgType::CallToolResult,
        accepted(session_key, kept, g, Some(key), later, again, after),
        cache::age(time, later) <= before.ttl,
    ensures
        out matches Ok(b) && buffer::bytes_of(b) == result,
        again matches Ok(b) && buffer::bytes_of(b) == result,
        after.hits == cache::counted(kept.hits),
{
    assert(before.after_put(key.0@, result, time, kept));
    cache::put_then_lookup(before, key.0@, result, time, kept, later);
}

/// Whether the results that a client holds are those that the server's record of the
/// connection speaks of. `given` are the results that came in full, under each key the
/// last one. As long as the record is not over the client's places, the client holds
/// all of it.
pub open spec fn in_step(
    s: SessionView,
    held: CacheView,
    given: Map<Seq<u8>, Seq<u8>>,
) -> bool {
    &&& held.capacity == pipeline::PIPELINE_CACHE_CAPACITY
    &&& held.ttl == pipeline::CACHE_TTL
    &&& s.delivered.dom().finite()
    &&& forall|k: Seq<u8>| #[trigger] s.delivered.contains_key(k) ==> k.len() == 32
    &&& forall|k: Seq<u8>| #[trigger]
        held.entries.contains_key(k) ==> s.delivered.contains_key(k) && given.contains_key(k)
            && held.entries[k].value == given[k]
    &&& s.delivered.dom().len() <= pipeline::PIPELINE_CACHE_CAPACITY ==> forall|k: Seq<u8>|
        #[trigger]
        s.delivered.contains_key(k) ==> held.entries.contains_key(k)
}

/// The results that came in full, after one more did.
pub open spec fn given_after(
    given: Map<Seq<u8>, Seq<u8>>,
    p: CallToolParams,
    result: Seq<u8>,
) -> Map<Seq<u8>, Seq<u8>> {
    if session::client_keeps(p) {
        given.insert(session::call_key(p), result)
    } else {
        given
    }
}

/// The ends of a new connection are in step.
pub proof fn new_ends_are_in_step(token: Option<Seq<u8>>)
    ensures
        in_step(
            SessionView::fresh(token),
            CacheView::empty(
                pipeline::PIPELINE_CACHE_CAPACITY as nat,
                pipeline::CACHE_TTL as nat,
            ),
            Map::empty(),
        ),
{
}

/// A result that comes in full reaches the caller, and keeps the ends of the
/// connection in step, where the client reads the answers in the order in which they
/// come. `p` is the call as the server read it, `key` what the client prepared with it,
/// `f` the frame that brings the result, and `now` the time at which the server sent it.
pub proof fn full_result_keeps_the_ends_in_step(
    s: SessionView,
    held: CacheView,
    given: Map<Seq<u8>, Seq<u8>>,
    p: CallToolParams,
    now: u128,
    key: Option<CacheKey>,
    result: Seq<u8>,
    session_key: Option<Seq<u8>>,
    f: FrameView,
    time: u128,
    out: Result<Bytes, RequestError>,
    next: CacheView,
)
    requires
        in_step(s, held, given),
        is_key_of_call(key, p.name@, json::json_text(json::json_of(p.arguments))),
        pipeline::opened(session_key, f) == compress::restored(result),
        keeps(f),
        f.header.msg_type == MsgType::CallToolResult,
        accepted(session_key, held, f, key, time, out, next),
    ensures
        out matches Ok(b) && buffer::bytes_of(b) == result,
        in_step(
            s.after_full(session::call_key(p), session::client_keeps(p), now),
            next,
            given_after(given, p, result),
        ),
{
    if session::client_keeps(p) {
        let k = session::call_key(p);
        let after = s.after_full(k, true, now);
        assert(after.delivered.dom() =~= s.delivered.dom().insert(k));
        assert(held.after_put(k, result, time, next));
        if after.delivered.dom().len() <= pipeline::PIPELINE_CACHE_CAPACITY {
            assert(held.entries.dom() =~= s.delivered.dom());
            assert(!held.entries.contains_key(k) ==> !held.full());
            assert(next.entries.dom() =~= after.delivered.dom());
        }
    }
}

/// Where the server sends the key of a result alone, the client has the result: it is
/// the one that came last in full. The ends stay in step. `g` is the frame with the key
/// and `now` the time at which the server sent it; it is not longer under way than the
/// result was.
pub proof fn keys_are_resolved(
    s: SessionView,
    held: CacheView,
    given: Map<Seq<u8>, Seq<u8>>,
    p: CallToolParams,
    acl: AclView,
    cacheable: bool,
    known: CacheView,
    now: u128,
    key: Option<CacheKey>,
    session_key: Option<Seq<u8>>,
    g: FrameView,
    later: u128,
    out: Result<Bytes, RequestError>,
    next: CacheView,
)
    requires
        in_step(s, held, given),
        s.call_next(p, acl, cacheable, known, now) is SendRef,
        session::answers_call(
            s.call_next(p, acl, cacheable, known, now),
            pipeline::opened(session_key, g),
            pipeline::is_cache_ref(g),
        ),
        g.header.msg_type == MsgType::CallToolResult,
        accepted(session_key, held, g, key, later, out, next),
        cache::age(held.entries[session::call_key(p)].inserted, later) <= cache::age(
            s.delivered[session::call_key(p)],
            now,
        ),
    ensures
        given.contains_key(session::call_key(p)),
        out matches Ok(b) && buffer::bytes_of(b) == given[session::call_key(p)],
        next.hits == cache::counted(held.hits),
        in_step(s, next, given),
{
    let k = session::call_key(p);
    assert(s.client_has(k, now));
    assert(held.entries.contains_key(k));
    assert(held.serves(k, later));
}

/// The answer to a call that comes again brings the result of the first call, whether
/// it is the key alone or the result once more, and whatever the call: with reports of
/// progress or without, with small arguments or large ones. Any number of other calls
/// may lie between the two. `result` is the first result, which is what came last under
/// the key of the call and what the server still knows; where it no longer knows it,
/// the tool runs again. `g` is the frame that answers the second call; a key is not
/// longer under way than the result was.
pub proof fn repeated_call_gives_the_first_result(
    s: SessionView,
    held: CacheView,
    given: Map<Seq<u8>, Seq<u8>>,
    p: CallToolParams,
    acl: AclView,
    known: CacheView,
    now: u128,
    key: Option<CacheKey>,
    result: Seq<u8>,
    session_key: Option<Seq<u8>>,
    g: FrameView,
    later: u128,
    again: Result<Bytes, RequestError>,
    next: CacheView,
)
    requires
        in_step(s, held, given),
        acl.allows(s.agent, p.name@),
        known.looked_up(session::call_key(p), now) == Some(result),
        given.contains_key(session::call_key(p)) ==> given[session::call_key(p)] == result,
        is_key_of_call(key, p.name@, json::json_text(json::json_of(p.arguments))),
        session::answers_call(
            s.call_next(p, acl, true, known, now),
            pipeline::opened(session_key, g),
            pipeline::is_cache_ref(g),
        ),
        g.header.msg_type == MsgType::CallToolResult,
        accepted(session_key, held, g, key, later, again, next),
        s.call_next(p, acl, true, known, now) is SendRef ==> cache::age(
            held.entries[session::call_key(p)].inserted,
            later,
        ) <= cache::age(s.delivered[session::call_key(p)], now),
    ensures
        again matches Ok(b) && buffer::bytes_of(b) == result,
        s.call_next(p, acl, true, known, now) == if s.client_has(session::call_key(p), now) {
            CallNextView::SendRef(session::call_key(p))
        } else {
            CallNextView::SendCached(result)
        },
        s.client_has(session::call_key(p), now) ==> next.hits == cache::counted(held.hits),
{
    if s.call_next(p, acl, true, known, now) is SendRef {
        keys_are_resolved(
            s,
            held,
            given,
            p,
            acl,
            true,
            known,
            now,
            key,
            session_key,
            g,
            later,
            again,
            next,
        );
    }
}

/// A reply goes to the request whose number it carries, and to no other: to the one
/// that is waited for, or to another that waits. The request then waits no longer, so
/// that a second reply of that number would be for nobody. `f` is a reply as the server
/// frames it, `later` one that carries the same number, and `out` and `twice` say for
/// whom the two are, where `own` is the request that is waited for.
pub proof fn replies_reach_their_request(
    c: ClientView,
    f: FrameView,
    own: u64,
    body: Result<Seq<u8>, Seq<char>>,
    out: Dispatch,
    later: FrameView,
    other: u64,
    twice: Dispatch,
)
    requires
        c.pending.contains(f.header.request_id),
        !is_notice(f.header.msg_type),
        c.dispatched(f, own, body, out),
        later.header.request_id == f.header.request_id,
        !is_notice(later.header.msg_type),
        other != f.header.request_id,
        c.after_dispatch(f).dispatched(later, other, body, twice),
    ensures
        f.header.request_id == own ==> (out matches Dispatch::Own(g) && g@ == f),
        f.header.request_id != own ==> (out matches Dispatch::Other(g) && g@ == f),
        twice is Nobody,
{
}

/// Each request gets its own answer: a frame that answers one request takes none
/// of the others off the list of those that wait.
pub proof fn answers_leave_other_requests_waiting(c: ClientView, f: FrameView, other: u64)
    requires
        c.pending.contains(other),
        f.header.request_id != other || is_notice(f.header.msg_type),
    ensures
        c.after_dispatch(f).pending.contains(other),
{
}

/// Requests that follow each other have different numbers.
pub proof fn numbers_follow_each_other(n: u64)
    requires
        n < u64::MAX,
    ensures
        next_number(n) == n + 1,
{
}

/// What a client sends to prove that it knows the token shows of the token its
/// HMAC of the nonce and nothing else: with another token of the same HMAC the
/// proof would be the same.
pub proof fn proof_shows_only_the_hmac(
    p: AuthParams,
    agent_id: Seq<char>,
    token: Seq<u8>,
    other: Seq<u8>,
    nonce: Seq<char>,
    pair: EphemeralKeyPair,
)
    requires
        auth::hmac_sha256(token, encode_utf8(nonce)) == auth::hmac_sha256(
            other,
            encode_utf8(nonce),
        ),
    ensures
        proves(p, agent_id, token, nonce, pair) == proves(p, agent_id, other, nonce, pair),
{
}

/// A call reaches the server's decision as it was sent, unless it was withdrawn:
/// `f` is the frame that `begin_request` gave.
pub proof fn calls_reach_the_session(
    s: SessionView,
    session_key: Option<Seq<u8>>,
    cache: CacheView,
    f: FrameView,
    payload: Seq<u8>,
    now: u128,
)
    requires
        s.open,
        s.authenticated,
        f.header.msg_type == MsgType::CallTool,
        !s.cancelled.contains(f.header.request_id),
        pipeline::opened(session_key, f) == compress::restored(payload),
        !pipeline::is_cache_ref(f),
    ensures
        s.inbound(f, pipeline::unwrapped(session_key, cache, f, now)) == Ok::<
            InboundView,
            Seq<char>,
        >(InboundView::CallTool(payload)),
{
    session::calls_are_taken_up(s, f, payload);
}

/// The result of a call arrives as it was, whether its frame carries it
/// (`inline`) or refers to the ring, and whether the client may keep it or not.
/// What is assumed of `inline` is what `answer_call` says of it.
pub proof fn results_arrive_either_way(
    session_key: Option<Seq<u8>>,
    cache: CacheView,
    r: RingView,
    pos: nat,
    request_id: u64,
    result: Seq<u8>,
    cacheable: bool,
    inline: FrameView,
    now: u128,
)
    requires
        r.wf(),
        r.room(result.len()) == Some(pos),
        pipeline::opened(session_key, inline) == compress::restored(result),
        !pipeline::is_cache_ref(inline),
    ensures
        pipeline::unwrapped(session_key, cache, inline, now) == compress::restored(result),
        ({
            let sent = session::marked(
                ringframe::ref_frame(
                    MsgType::CallToolResult,
                    request_id,
                    pos as u64,
                    result.len() as u32,
                ),
                cacheable,
            );
            let f = ringframe::resolved(
                sent,
                result.len() as u32,
                r.written(pos, result).at(pos, result.len()),
            );
            &&& ringframe::carried(sent, true) == Carried::InRing(
                pos as u64,
                result.len() as u32,
            )
            &&& pipeline::unwrapped(session_key, cache, f, now) == compress::restored(result)
            &&& keeps(f) == cacheable
            &&& f.header.msg_type == MsgType::CallToolResult
            &&& f.header.request_id == request_id
        }),
{
    ringframe::ring_carries_the_payload(
        r,
        pos,
        MsgType::CallToolResult,
        request_id,
        result,
        session_key,
    );
    assert(0u8 | 16 == 16) by (bit_vector);
    assert(16u8 | 8 == 24) by (bit_vector);
    assert(16u8 & !16u8 == 0 && 24u8 & !16u8 == 8) by (bit_vector);
    assert(24u8 & 16 != 0 && 16u8 & 16 != 0) by (bit_vector);
    assert(8u8 & 1 == 0 && 8u8 & 2 == 0 && 8u8 & 4 == 0 && 8u8 & 8 != 0) by (bit_vector);
    assert(0u8 & 1 == 0 && 0u8 & 2 == 0 && 0u8 & 4 == 0 && 0u8 & 8 == 0) by (bit_vector);
}

/// The proof of an agent is its name, the nonce in hexadecimal, the HMAC of that text
/// under the token, and its public key; the attempt keeps what the answer needs.
pub proof fn proofs_are_made_of_the_nonce(
    agent_id: &str,
    token: &[u8],
    nonce: &[u8],
    pair: EphemeralKeyPair,
    out: (AuthParams, AuthAttempt),
)
    requires
        call_ensures(prove_with, (agent_id, token, nonce, pair), out),
    ensures
        out.0.agent_id@ == agent_id@,
        out.0.nonce matches Some(n) && n@ == hex::hex_text(nonce@),
        hex::unhexed(out.0.token@) == Some(
            auth::hmac_sha256(token@, encode_utf8(hex::hex_text(nonce@))),
        ),
        out.0.eph_pub matches Some(e) && hex::unhexed(e@) == Some(pair.public()),
        out.1.nonce() == hex::hex_text(nonce@),
        out.1.pair() == pair,
{
    hex::unhex_of_hex(auth::hmac_sha256(token@, encode_utf8(hex::hex_text(nonce@))));
    hex::unhex_of_hex(pair.public());
}

/// A client that was believed has a session key from the token and its whole nonce, and
/// from the secret that it shares with the server where the server sent a public key; one
/// that was not has none.
pub proof fn client_keys_rest_on_the_answer(
    attempt: AuthAttempt,
    token: &[u8],
    r: AuthResult,
    out: Option<[u8; 32]>,
)
    requires
        call_ensures(finish_auth, (attempt, token, &r), out),
    ensures
        out is Some <==> r.ok,
        ({
            let nonce = encode_utf8(attempt.nonce());
            let plain = auth::hmac_sha256(token@, encode_utf8("ohmcp-session"@) + nonce);
            out matches Some(k) ==> k@ == match r.eph_pub {
                None => plain,
                Some(e) => match hex::unhexed32(e@) {
                    None => plain,
                    Some(peer) => auth::hmac_sha256(
                        token@,
                        encode_utf8("ohmcp-fs"@) + nonce + auth::x25519_product(
                            attempt.pair().secret(),
                            peer,
                        ),
                    ),
                },
            }
        }),
{
}

/// A handshake begins with a proof exactly where the client has a token. Then, or at once
/// where it has none, it asks for rings where it wants them, and else for nothing.
pub proof fn handshakes_begin_with_a_proof(
    agent_id: &str,
    token: Option<Vec<u8>>,
    use_shm: bool,
    out: (Handshake, HandshakeNext),
)
    requires
        call_ensures(Handshake::start, (agent_id, token, use_shm), out),
    ensures
        out.1 is Prove <==> token is Some,
        out.1 is SetUpShm <==> token is None && use_shm,
        out.1 is Initialize <==> token is None && !use_shm,
        out.0.after_proof() is SetUpShm <==> use_shm,
        out.0.after_proof() is Initialize <==> !use_shm,
        out.1 matches HandshakeNext::Prove(p) ==> p.agent_id@ == agent_id@ && session::knows_token(
            Some(token->Some_0@),
            p,
        ),
        out.0.pipeline().key() is None,
{
    if let HandshakeNext::Prove(p) = out.1 {
        hex::unhex_of_hex(
            auth::hmac_sha256(token->Some_0@, encode_utf8(out.0.attempt()->Some_0.nonce())),
        );
    }
}

/// What the server says of the rings is read from three members; what is missing or of
/// another kind is no, or zero.
pub proof fn ring_answers_are_read(body: &[u8], out: Result<ShmAnswer, String>, v: JsonView)
    requires
        call_ensures(read_shm_answer, (body,), out),
        json::json_parsed(body@) == json::parses_to(v),
    ensures
        out matches Ok(a) && a.ok == (v.member("ok"@) == Some(JsonView::Bool(true))) && a.size
            == match v.member("size"@) {
            Some(JsonView::Number(json::JsonNumber::Unsigned(n))) => n,
            _ => 0,
        } && a.up_size == match v.member("up_size"@) {
            Some(JsonView::Number(json::JsonNumber::Unsigned(n))) => n,
            _ => 0,
        },
{
}

/// A ring is mapped exactly where the server agreed, its descriptor came, and its size is
/// from 1 byte to 64 MiB, and then with that size; the one up only where there is one
/// down.
pub proof fn rings_are_mapped_as_agreed(
    answer: ShmAnswer,
    down: bool,
    up: bool,
    out: (Option<usize>, Option<usize>),
)
    requires
        call_ensures(ring_sizes, (answer, down, up), out),
    ensures
        out.0 is Some <==> answer.ok && down && 0 < answer.size <= 67_108_864,
        out.0 matches Some(n) ==> n == answer.size,
        out.1 is Some <==> out.0 is Some && up && 0 < answer.up_size <= 67_108_864,
        out.1 matches Some(n) ==> n == answer.up_size,
{
}

/// The client keeps a result exactly where its frame has bit 8, which allows it, and not
/// bit 4, which says that it is only a key.
pub proof fn marked_results_are_kept(f: FrameView)
    ensures
        keeps(f) <==> f.header.flags.0 & 8 != 0 && f.header.flags.0 & 4 == 0,
{
}

/// What a request gets is the whole body of its answer, taken out of the frame; a refusal
/// is told from a result by the type of the frame, and a frame that cannot be taken out
/// by its reason. A result that may be kept is kept under the key of the request, where
/// it has one, at that time; nothing else is kept.
pub proof fn answers_are_read_whole(
    session_key: Option<Seq<u8>>,
    cache: CacheView,
    f: FrameView,
    key: Option<CacheKey>,
    now: u128,
    out: Result<Bytes, RequestError>,
    next: CacheView,
)
    requires
        accepted(session_key, cache, f, key, now, out, next),
    ensures
        ({
            let looked = pipeline::cache_after(session_key, cache, f, now);
            match pipeline::unwrapped(session_key, cache, f, now) {
                Err(e) => (out matches Err(RequestError::Broken(m)) && m@ == e) && next == looked,
                Ok(body) => if f.header.msg_type is Error {
                    (out matches Err(RequestError::Refused(b)) && buffer::bytes_of(b) == body)
                        && next == looked
                } else {
                    &&& out matches Ok(b) && buffer::bytes_of(b) == body
                    &&& key is Some && f.header.flags.0 & 8 != 0 && f.header.flags.0 & 4 == 0
                        ==> looked.after_put(key->Some_0.0@, body, now, next)
                    &&& key is None || f.header.flags.0 & 8 == 0 || f.header.flags.0 & 4 != 0
                        ==> next == looked
                },
            }
        }),
{
}

/// A frame goes to the request whose number it carries: to the one that is waited for, to
/// another that waits, or to nobody. Reports of progress and notices of changes go by
/// their type, with their whole body, and leave every request waiting.
pub proof fn frames_go_to_those_who_wait(
    c: ClientView,
    f: FrameView,
    own: u64,
    body: Result<Seq<u8>, Seq<char>>,
    out: Dispatch,
)
    requires
        c.dispatched(f, own, body, out),
    ensures
        ({
            let id = f.header.request_id;
            match f.header.msg_type {
                MsgType::Progress => c.after_dispatch(f) == c && match body {
                    Ok(b) => out matches Dispatch::Progress(p) && buffer::bytes_of(p) == b,
                    Err(_) => out is Nobody,
                },
                MsgType::ResourceUpdated => c.after_dispatch(f) == c && match body {
                    Ok(b) => out matches Dispatch::ResourceUpdated(p) && buffer::bytes_of(p) == b,
                    Err(_) => out is Nobody,
                },
                _ => {
                    &&& c.after_dispatch(f) == (ClientView { pending: c.pending.remove(id), ..c })
                    &&& id == own ==> (out matches Dispatch::Own(g) && g@ == f)
                    &&& id != own && c.pending.contains(id) ==> (out matches Dispatch::Other(g)
                        && g@ == f)
                    &&& id != own && !c.pending.contains(id) ==> out is Nobody
                },
            }
        }),
{
}

/// Numbers count up by one, and start over behind the last one.
pub proof fn numbers_count_up(n: u64)
    ensures
        n < u64::MAX ==> next_number(n) == n + 1,
        n == u64::MAX ==> next_number(n) == 0,
{
}

/// A call is sent with its name in quotes and the whole text of its arguments. Its result
/// is kept under the digest of the name and all of that text, where that is under 16384
/// bytes, and not at all otherwise.
pub proof fn calls_are_sent_whole(
    name: &str,
    arguments: Value,
    out: (Vec<u8>, Option<CacheKey>),
)
    requires
        call_ensures(prepare_call, (name, &arguments), out),
    ensures
        ({
            let args = json::json_text(json::json_of(arguments));
            &&& out.0@ == encode_utf8("{\"name\":"@) + encode_utf8(json::json_quoted(name@))
                + encode_utf8(",\"arguments\":"@) + args + encode_utf8("}"@)
            &&& out.1 is Some <==> args.len() < 16_384
            &&& out.1 matches Some(k) ==> k.0@ == auth::sha256(
                encode_utf8(name@) + seq![0u8] + args,
            )
        }),
{
    let args = json::json_text(json::json_of(arguments));
    assert(cache::key_text(name@, args) =~= encode_utf8(name@) + seq![0u8] + args);
}

/// A call that asks for reports says so beside the name and the arguments, and its result
/// is kept under the same key as that of the call without.
pub proof fn calls_with_reports_say_so(
    name: &str,
    arguments: Value,
    out: (Vec<u8>, Option<CacheKey>),
    plain: (Vec<u8>, Option<CacheKey>),
)
    requires
        call_ensures(prepare_progress_call, (name, arguments), out),
        call_ensures(prepare_call, (name, &arguments), plain),
    ensures
        ({
            let v = progress_call(name@, json::json_of(arguments));
            &&& out.0@ == json::json_text(v)
            &&& v.member("name"@) == Some(JsonView::Str(name@))
            &&& v.member("arguments"@) == Some(json::json_of(arguments))
            &&& v.member("_meta"@) matches Some(m) && m.member("progress"@) == Some(
                JsonView::Bool(true),
            )
        }),
        out.1 is Some <==> plain.1 is Some,
        out.1 is Some ==> out.1->Some_0.0@ == plain.1->Some_0.0@,
{
    reveal_strlit("name");
    reveal_strlit("arguments");
    reveal_strlit("_meta");
    assert("name"@.len() == 4 && "arguments"@.len() == 9 && "_meta"@.len() == 5);
}

/// Requests for a resource and for a prompt name what they ask for, and carry the
/// arguments as they are.
pub proof fn requests_name_what_they_ask_for(
    uri: &str,
    resource: Vec<u8>,
    name: &str,
    arguments: Value,
    prompt: Vec<u8>,
)
    requires
        call_ensures(prepare_uri, (uri,), resource),
        call_ensures(prepare_prompt, (name, arguments), prompt),
    ensures
        resource@ == json::json_text(
            JsonView::Object(Map::empty().insert("uri"@, JsonView::Str(uri@))),
        ),
        ({
            let v = prompt_request(name@, json::json_of(arguments));
            &&& prompt@ == json::json_text(v)
            &&& v.member("name"@) == Some(JsonView::Str(name@))
            &&& v.member("arguments"@) == Some(json::json_of(arguments))
        }),
{
    reveal_strlit("name");
    reveal_strlit("arguments");
    assert("name"@.len() == 4 && "arguments"@.len() == 9);
}

/// What a client says of itself: the version of the protocol, its name, and the version
/// of the program.
pub proof fn clients_introduce_themselves(agent_id: &str, version: &str, out: InitializeParams)
    requires
        call_ensures(initialize_params, (agent_id, version), out),
    ensures
        out.protocol_version@ == "2025-06-18"@,
        out.client_info.name@ == agent_id@,
        out.client_info.version@ == version@,
        json::json_of(out.capabilities) == JsonView::Object(Map::empty()),
{
}

/// A reference into the ring that was followed leaves the frame as it was but for its
/// payload; one that could not be is named by its place and length.
pub proof fn followed_references_bring_the_bytes(
    frame: Frame,
    offset: u64,
    len: u32,
    data: Option<Vec<u8>>,
    out: Result<Frame, String>,
)
    requires
        call_ensures(OhmcpClient::resolve_shm, (frame, offset, len, data), out),
    ensures
        data matches Some(d) ==> (out matches Ok(f) && buffer::bytes_of(f.payload) == d@
            && f.header.msg_type == frame.header.msg_type && f.header.request_id
            == frame.header.request_id && f.header.flags.0 == frame.header.flags.0 & !16u8),
        data is None ==> (out matches Err(m) && m@ == "invalid shm ref (offset="@ + text::decimal(
            offset as nat,
        ) + ", len="@ + text::decimal(len as nat) + ")"@),
{
}

/// A connection whose handshake is done waits for nothing and counts from one.
pub proof fn new_clients_wait_for_nothing(
    p: PayloadPipeline,
    downlink: bool,
    uplink: bool,
    out: OhmcpClient,
    id: u64,
)
    requires
        call_ensures(OhmcpClient::new, (p, downlink, uplink), out),
    ensures
        out@.next_id == 1,
        !out@.pending.contains(id),
        out@.downlink == downlink,
        out@.uplink == uplink,
        out.pipeline() == p,
{
}

/// Each request gets the next number, and numbers count up.
pub proof fn requests_are_numbered(c: &mut OhmcpClient, out: u64)
    requires
        call_ensures(OhmcpClient::take_id, (c,), out),
    ensures
        out == old(c)@.next_id,
        old(c)@.next_id < u64::MAX ==> final(c)@.next_id == old(c)@.next_id + 1,
        final(c)@.pending == old(c)@.pending,
{
}

/// A request goes out under its type and number and opens to the whole payload, or says
/// where in the ring that lies. From then on it waits for its answer, and the others that
/// wait go on waiting.
pub proof fn requests_go_out_and_wait(
    c: &mut OhmcpClient,
    t: MsgType,
    id: u64,
    payload: Bytes,
    offset: Option<u64>,
    out: (Frame, bool),
    other: u64,
)
    requires
        call_ensures(OhmcpClient::begin_request, (c, t, id, payload, offset), out),
        buffer::bytes_of(payload).len() <= u32::MAX,
    ensures
        out.0.header.msg_type == t,
        out.0.header.request_id == id,
        offset is None ==> pipeline::opened(old(c).key(), out.0@) == compress::restored(
            buffer::bytes_of(payload),
        ),
        offset matches Some(o) ==> out.0.header.flags.0 == 16 && shm::shm_ref_of(
            buffer::bytes_of(out.0.payload),
        ) == Some((o, buffer::bytes_of(payload).len() as u32)),
        final(c)@.pending.contains(id),
        other != id ==> final(c)@.pending.contains(other) == old(c)@.pending.contains(other),
        final(c)@.next_id == old(c)@.next_id,
        out.1 <==> final(c)@.pending.len() > 1,
{
    assert(0u8 | 16 == 16) by (bit_vector);
    if let Some(o) = offset {
        shm::shm_ref_round_trip(o, buffer::bytes_of(payload).len() as u32);
    }
}

/// A message that is not answered goes out under its type and number, opens to the whole
/// payload, and nothing waits for it.
pub proof fn messages_go_out_and_nothing_waits(
    c: &mut OhmcpClient,
    t: MsgType,
    id: u64,
    payload: Bytes,
    out: Frame,
)
    requires
        call_ensures(OhmcpClient::notify, (c, t, id, payload), out),
        buffer::bytes_of(payload).len() <= u32::MAX,
    ensures
        out.header.msg_type == t,
        out.header.request_id == id,
        pipeline::opened(old(c).key(), out@) == compress::restored(buffer::bytes_of(payload)),
        final(c)@ == old(c)@,
{
}

/// A frame is given to the request whose number it carries, as it is, and that request
/// waits no longer; what tells of progress or of a change is given out by its type, and
/// nobody stops waiting.
pub proof fn frames_are_given_out_by_number(
    c: &mut OhmcpClient,
    f: Frame,
    own: u64,
    now: u128,
    out: Dispatch,
    other: u64,
)
    requires
        call_ensures(OhmcpClient::dispatch_at, (c, f, own, now), out),
    ensures
        ({
            let id = f.header.request_id;
            let told = f.header.msg_type is Progress || f.header.msg_type is ResourceUpdated;
            let body = pipeline::unwrapped(old(c).key(), old(c).pipeline().cache(), f@, now);
            &&& !told && id == own ==> (out matches Dispatch::Own(g) && g@ == f@)
            &&& !told && id != own && old(c)@.pending.contains(id) ==> (
            out matches Dispatch::Other(g) && g@ == f@)
            &&& !told && id != own && !old(c)@.pending.contains(id) ==> out is Nobody
            &&& !told ==> !final(c)@.pending.contains(id)
            &&& told ==> final(c)@ == old(c)@
            &&& f.header.msg_type is Progress ==> match body {
                Ok(b) => out matches Dispatch::Progress(p) && buffer::bytes_of(p) == b,
                Err(_) => out is Nobody,
            }
            &&& f.header.msg_type is ResourceUpdated ==> match body {
                Ok(b) => out matches Dispatch::ResourceUpdated(p) && buffer::bytes_of(p) == b,
                Err(_) => out is Nobody,
            }
            &&& other != id ==> final(c)@.pending.contains(other) == old(c)@.pending.contains(
                other,
            )
        }),
{
}

/// The body of an answer is taken out of its frame whole. It is a refusal exactly where the
/// frame is an error. What may be kept is found again under its key, and a frame that may
/// not be kept leaves nothing behind.
pub proof fn answers_are_taken_and_kept(
    c: &mut OhmcpClient,
    f: Frame,
    key: Option<CacheKey>,
    now: u128,
    out: Result<Bytes, RequestError>,
)
    requires
        call_ensures(OhmcpClient::accept_at, (c, &f, key, now), out),
    ensures
        ({
            let body = pipeline::unwrapped(old(c).key(), old(c).pipeline().cache(), f@, now);
            let kept = f.header.flags.0 & 8 != 0 && f.header.flags.0 & 4 == 0;
            &&& body matches Err(e) ==> (out matches Err(RequestError::Broken(m)) && m@ == e)
            &&& body matches Ok(b) ==> if f.header.msg_type is Error {
                out matches Err(RequestError::Refused(r)) && buffer::bytes_of(r) == b
            } else {
                out matches Ok(r) && buffer::bytes_of(r) == b
            }
            &&& out is Ok && kept && key is Some
                ==> final(c).pipeline().cache().looked_up(key->Some_0.0@, now) == Some(body->Ok_0)
            &&& (key is None || f.header.flags.0 & 8 == 0) && f.header.flags.0 & 4 == 0 ==> final(c).pipeline().cache() == old(c).pipeline().cache()
            &&& final(c)@ == old(c)@
        }),
{
}

/// A client that was believed goes on to the rings, where it wants them, or to its first
/// request, with the key of the session; one that was not gives up.
pub proof fn believed_clients_go_on(
    h: &mut Handshake,
    r: AuthResult,
    out: Option<HandshakeNext>,
)
    requires
        call_ensures(Handshake::on_auth_result, (h, &r), out),
    ensures
        out is Some <==> r.ok,
        out matches Some(next) ==> (next is SetUpShm <==> old(h).wants_shm()) && (
        next is Initialize <==> !old(h).wants_shm()) && final(h).pipeline().key() is Some,
        out is None ==> final(h).pipeline().key() == old(h).pipeline().key(),
{
}

/// The rings that the server agreed to are mapped with their sizes, where their descriptors
/// came; an answer that cannot be read says why.
pub proof fn rings_follow_the_answer(
    h: &mut Handshake,
    f: Frame,
    down: bool,
    up: bool,
    now: u128,
    out: Result<(Option<usize>, Option<usize>), String>,
    body: Seq<u8>,
    v: JsonView,
)
    requires
        call_ensures(Handshake::on_shm_answer_at, (h, &f, down, up, now), out),
        pipeline::unwrapped(h.pipeline().key(), h.pipeline().cache(), f@, now)
            == compress::restored(body),
        json::json_parsed(body) == json::parses_to(v),
    ensures
        out matches Ok(sizes) && {
            let size = match v.member("size"@) {
                Some(JsonView::Number(json::JsonNumber::Unsigned(n))) => n,
                _ => 0,
            };
            let up_size = match v.member("up_size"@) {
                Some(JsonView::Number(json::JsonNumber::Unsigned(n))) => n,
                _ => 0,
            };
            let ok = v.member("ok"@) == Some(JsonView::Bool(true));
            &&& sizes.0 is Some <==> ok && down && 0 < size <= 67_108_864
            &&& sizes.0 matches Some(n) ==> n == size
            &&& sizes.1 is Some <==> sizes.0 is Some && up && 0 < up_size <= 67_108_864
            &&& sizes.1 matches Some(n) ==> n == up_size
        },
{
}

/// References into the downlink ring are followed as they come, and results are taken
/// through the rings where there are any; the cache tells its counts.
pub proof fn clients_tell_their_state(
    c: OhmcpClient,
    f: Frame,
    at: Result<Option<(u64, u32)>, String>,
    len: usize,
    offered: bool,
    shm: bool,
    stats: (u64, u64),
)
    requires
        call_ensures(OhmcpClient::downlink_ref, (&c, &f), at),
        call_ensures(OhmcpClient::offers_request_to_ring, (&c, len), offered),
        call_ensures(OhmcpClient::shm_enabled, (&c,), shm),
        call_ensures(OhmcpClient::cache_stats, (&c,), stats),
    ensures
        f.header.flags.0 & 16 == 0 ==> at matches Ok(None),
        f.header.flags.0 & 16 != 0 && !c@.downlink ==> (at matches Err(m) && m@
            == "SHM_REF frame but shm channel not negotiated"@),
        f.header.flags.0 & 16 != 0 && c@.downlink ==> match shm::shm_ref_of(
            buffer::bytes_of(f.payload),
        ) {
            Some(r) => at matches Ok(Some(place)) && place == r,
            None => at matches Err(m) && m@ == "bad shm ref payload"@,
        },
        offered <==> c@.uplink && len >= 16_384,
        shm == c@.downlink,
        stats == (c.pipeline().cache().hits, c.pipeline().cache().misses),
{
}

/// A client proves itself with a nonce of 16 bytes in hexadecimal, and whoever knows the
/// token believes it.
pub proof fn proofs_are_believed(
    agent_id: &str,
    token: &[u8],
    out: (AuthParams, AuthAttempt),
)
    requires
        call_ensures(prove, (agent_id, token), out),
    ensures
        session::knows_token(Some(token@), out.0),
        out.0.agent_id@ == agent_id@,
        out.0.nonce matches Some(n) && n@ == out.1.nonce() && n@.len() == 32,
        session::peer_key(out.0) == Some(out.1.pair().public()),
{
    hex::unhex_of_hex(auth::hmac_sha256(token@, encode_utf8(out.1.nonce())));
    hex::unhex_of_hex(out.1.pair().public());
}

/// Whatever the time is, an answer goes to the request whose number it carries, and its own
/// body is read whole; a finished handshake is a connection with its pipeline.
pub proof fn answers_do_not_depend_on_the_time(
    c: &mut OhmcpClient,
    f: Frame,
    own: u64,
    given: Dispatch,
    d: &mut OhmcpClient,
    key: Option<CacheKey>,
    out: Result<Bytes, RequestError>,
    h: Handshake,
    downlink: bool,
    uplink: bool,
    done: OhmcpClient,
)
    requires
        call_ensures(OhmcpClient::dispatch, (c, f, own), given),
        call_ensures(OhmcpClient::accept, (d, &f, key), out),
        call_ensures(Handshake::finish, (h, downlink, uplink), done),
        f.header.flags.0 & 4 == 0,
        !(f.header.msg_type is Progress),
        !(f.header.msg_type is ResourceUpdated),
    ensures
        ({
            let id = f.header.request_id;
            &&& id == own ==> (given matches Dispatch::Own(g) && g@ == f@)
            &&& id != own && old(c)@.pending.contains(id) ==> (given matches Dispatch::Other(g)
                && g@ == f@)
            &&& id != own && !old(c)@.pending.contains(id) ==> given is Nobody
            &&& !final(c)@.pending.contains(id)
        }),
        match pipeline::opened(old(d).key(), f@) {
            Err(e) => out matches Err(RequestError::Broken(m)) && m@ == e,
            Ok(body) => if f.header.msg_type is Error {
                out matches Err(RequestError::Refused(b)) && buffer::bytes_of(b) == body
            } else {
                out matches Ok(b) && buffer::bytes_of(b) == body
            },
        },
        done.pipeline() == h.pipeline() && done@.downlink == downlink && done@.uplink == uplink,
{
}

} // verus!
