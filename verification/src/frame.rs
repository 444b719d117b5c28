//! The binary frame.
//!
//! A frame is a header of 17 bytes and a payload; numbers are little-endian:
//!
//! ```text
//! +--------+---------+--------+---------+------------+-------------+
//! | magic  | version | flags  | msgtype | request id | payload len |
//! | u16    | u8      | u8     | u8      | u64        | u32         |
//! +--------+---------+--------+---------+------------+-------------+
//! | payload (payload len bytes)                                    |
//! +----------------------------------------------------------------+
//! ```
//!
//! The header is enough to route a frame, to match a reply with its request
//! and to look up a cache, without reading the payload.

use bytes::{Bytes, BytesMut};
use vstd::prelude::*;
use crate::buffer;
use crate::codec;
use crate::error::{CoreError, CoreFault};
use crate::text;

verus! {

/// The first two bytes of each frame, read as a number.
pub const FRAME_MAGIC: u16 = 0x4F4D;

/// The protocol version that this library speaks.
pub const PROTOCOL_VERSION: u8 = 1;

/// The length of the header.
pub const HEADER_LEN: usize = 17;

/// The longest payload that is accepted.
pub const MAX_FRAME_LEN: u32 = 67_108_864;

/// The flag bits of a frame.
#[derive(Debug, Clone, Copy, PartialEq, Eq, Structural)]
pub struct FrameFlags(pub u8);

/// Whether bit `bit` is set in `flags`.
pub open spec fn has_flag(flags: u8, bit: u8) -> bool {
    flags & bit != 0
}

impl FrameFlags {
    /// The payload is compressed with LZ4.
    pub const COMPRESSED: u8 = 1;

    /// The payload is sealed with ChaCha20-Poly1305.
    pub const ENCRYPTED: u8 = 2;

    /// The payload is the key of a cached result in place of the result.
    pub const CACHE_REF: u8 = 4;

    /// The result may be kept by the receiver's cache.
    pub const CACHEABLE: u8 = 8;

    /// The payload is a reference into the shared-memory ring.
    pub const SHM_REF: u8 = 16;

    pub fn compressed(self) -> (r: bool)
        ensures
            r == has_flag(self.0, Self::COMPRESSED),
    {
        self.0 & Self::COMPRESSED != 0
    }

    pub fn encrypted(self) -> (r: bool)
        ensures
            r == has_flag(self.0, Self::ENCRYPTED),
    {
        self.0 & Self::ENCRYPTED != 0
    }

    pub fn cache_ref(self) -> (r: bool)
        ensures
            r == has_flag(self.0, Self::CACHE_REF),
    {
        self.0 & Self::CACHE_REF != 0
    }

    pub fn cacheable(self) -> (r: bool)
        ensures
            r == has_flag(self.0, Self::CACHEABLE),
    {
        self.0 & Self::CACHEABLE != 0
    }

    pub fn shm_ref(self) -> (r: bool)
        ensures
            r == has_flag(self.0, Self::SHM_REF),
    {
        self.0 & Self::SHM_REF != 0
    }
}

/// What a frame is for.
#[derive(Debug, Clone, Copy, PartialEq, Eq, Structural)]
pub enum MsgType {
    Initialize,
    InitializeResult,
    ListTools,
    ListToolsResult,
    CallTool,
    CallToolResult,
    Ping,
    Pong,
    Auth,
    AuthResult,
    ShmSetup,
    ShmSetupResult,
    ListResources,
    ListResourcesResult,
    ReadResource,
    ReadResourceResult,
    ListPrompts,
    ListPromptsResult,
    GetPrompt,
    GetPromptResult,
    /// A client withdraws a request; there is no reply.
    Cancel,
    /// A server reports progress; there is no reply.
    Progress,
    SubscribeResource,
    SubscribeResourceResult,
    UnsubscribeResource,
    /// A server tells a subscriber that a resource changed; there is no reply.
    ResourceUpdated,
    /// A server tells that its list of resources changed; there is no reply.
    ResourceListChanged,
    Error,
}

impl MsgType {
    /// The byte that stands for the type on the wire.
    pub open spec fn code(self) -> u8 {
        match self {
            MsgType::Initialize => 0x01,
            MsgType::InitializeResult => 0x02,
            MsgType::ListTools => 0x03,
            MsgType::ListToolsResult => 0x04,
            MsgType::CallTool => 0x05,
            MsgType::CallToolResult => 0x06,
            MsgType::Ping => 0x07,
            MsgType::Pong => 0x08,
            MsgType::Auth => 0x09,
            MsgType::AuthResult => 0x0A,
            MsgType::ShmSetup => 0x0B,
            MsgType::ShmSetupResult => 0x0C,
            MsgType::ListResources => 0x0D,
            MsgType::ListResourcesResult => 0x0E,
            MsgType::ReadResource => 0x0F,
            MsgType::ReadResourceResult => 0x10,
            MsgType::ListPrompts => 0x11,
            MsgType::ListPromptsResult => 0x12,
            MsgType::GetPrompt => 0x13,
            MsgType::GetPromptResult => 0x14,
            MsgType::Cancel => 0x15,
            MsgType::Progress => 0x16,
            MsgType::SubscribeResource => 0x17,
            MsgType::SubscribeResourceResult => 0x18,
            MsgType::UnsubscribeResource => 0x19,
            MsgType::ResourceUpdated => 0x1A,
            MsgType::ResourceListChanged => 0x1B,
            MsgType::Error => 0x7F,
        }
    }

    /// The byte that stands for the type on the wire.
    pub fn to_u8(self) -> (v: u8)
        ensures
            v == self.code(),
    {
        match self {
            MsgType::Initialize => 0x01,
            MsgType::InitializeResult => 0x02,
            MsgType::ListTools => 0x03,
            MsgType::ListToolsResult => 0x04,
            MsgType::CallTool => 0x05,
            MsgType::CallToolResult => 0x06,
            MsgType::Ping => 0x07,
            MsgType::Pong => 0x08,
            MsgType::Auth => 0x09,
            MsgType::AuthResult => 0x0A,
            MsgType::ShmSetup => 0x0B,
            MsgType::ShmSetupResult => 0x0C,
            MsgType::ListResources => 0x0D,
            MsgType::ListResourcesResult => 0x0E,
            MsgType::ReadResource => 0x0F,
            MsgType::ReadResourceResult => 0x10,
            MsgType::ListPrompts => 0x11,
            MsgType::ListPromptsResult => 0x12,
            MsgType::GetPrompt => 0x13,
            MsgType::GetPromptResult => 0x14,
            MsgType::Cancel => 0x15,
            MsgType::Progress => 0x16,
            MsgType::SubscribeResource => 0x17,
            MsgType::SubscribeResourceResult => 0x18,
            MsgType::UnsubscribeResource => 0x19,
            MsgType::ResourceUpdated => 0x1A,
            MsgType::ResourceListChanged => 0x1B,
            MsgType::Error => 0x7F,
        }
    }

    /// The type of the answer to a request that is granted; a message that is not
    /// answered has none.
    pub open spec fn answered_by(self) -> Option<MsgType> {
        match self {
            MsgType::Initialize => Some(MsgType::InitializeResult),
            MsgType::ListTools => Some(MsgType::ListToolsResult),
            MsgType::CallTool => Some(MsgType::CallToolResult),
            MsgType::Ping => Some(MsgType::Pong),
            MsgType::Auth => Some(MsgType::AuthResult),
            MsgType::ShmSetup => Some(MsgType::ShmSetupResult),
            MsgType::ListResources => Some(MsgType::ListResourcesResult),
            MsgType::ReadResource => Some(MsgType::ReadResourceResult),
            MsgType::ListPrompts => Some(MsgType::ListPromptsResult),
            MsgType::GetPrompt => Some(MsgType::GetPromptResult),
            MsgType::SubscribeResource => Some(MsgType::SubscribeResourceResult),
            MsgType::UnsubscribeResource => Some(MsgType::SubscribeResourceResult),
            _ => None,
        }
    }

    /// The type of the answer to a request that is granted.
    pub fn answer_type(self) -> (out: Option<MsgType>)
        ensures
            out == self.answered_by(),
    {
        match self {
            MsgType::Initialize => Some(MsgType::InitializeResult),
            MsgType::ListTools => Some(MsgType::ListToolsResult),
            MsgType::CallTool => Some(MsgType::CallToolResult),
            MsgType::Ping => Some(MsgType::Pong),
            MsgType::Auth => Some(MsgType::AuthResult),
            MsgType::ShmSetup => Some(MsgType::ShmSetupResult),
            MsgType::ListResources => Some(MsgType::ListResourcesResult),
            MsgType::ReadResource => Some(MsgType::ReadResourceResult),
            MsgType::ListPrompts => Some(MsgType::ListPromptsResult),
            MsgType::GetPrompt => Some(MsgType::GetPromptResult),
            MsgType::SubscribeResource => Some(MsgType::SubscribeResourceResult),
            MsgType::UnsubscribeResource => Some(MsgType::SubscribeResourceResult),
            _ => None,
        }
    }

    /// The type that a byte stands for.
    pub fn from_u8(v: u8) -> (out: Result<MsgType, CoreError>)
        ensures
            match out {
                Ok(t) => t.code() == v,
                Err(e) => !is_msg_code(v) && e@ == unknown_type(v),
            },
    {
        let t: MsgType = match v {
            0x01 => MsgType::Initialize,
            0x02 => MsgType::InitializeResult,
            0x03 => MsgType::ListTools,
            0x04 => MsgType::ListToolsResult,
            0x05 => MsgType::CallTool,
            0x06 => MsgType::CallToolResult,
            0x07 => MsgType::Ping,
            0x08 => MsgType::Pong,
            0x09 => MsgType::Auth,
            0x0A => MsgType::AuthResult,
            0x0B => MsgType::ShmSetup,
            0x0C => MsgType::ShmSetupResult,
            0x0D => MsgType::ListResources,
            0x0E => MsgType::ListResourcesResult,
            0x0F => MsgType::ReadResource,
            0x10 => MsgType::ReadResourceResult,
            0x11 => MsgType::ListPrompts,
            0x12 => MsgType::ListPromptsResult,
            0x13 => MsgType::GetPrompt,
            0x14 => MsgType::GetPromptResult,
            0x15 => MsgType::Cancel,
            0x16 => MsgType::Progress,
            0x17 => MsgType::SubscribeResource,
            0x18 => MsgType::SubscribeResourceResult,
            0x19 => MsgType::UnsubscribeResource,
            0x1A => MsgType::ResourceUpdated,
            0x1B => MsgType::ResourceListChanged,
            0x7F => MsgType::Error,
            other => {
                let mut m: String = String::from_str("unknown msg type 0x");
                text::push_digits(&mut m, other as u64, 16);
                return Err(CoreError::Codec(m));
            },
        };
        Ok(t)
    }
}

/// Whether a byte stands for a message type.
pub open spec fn is_msg_code(v: u8) -> bool {
    exists|t: MsgType| #[trigger] t.code() == v
}

/// The message type that a byte stands for.
pub open spec fn msg_type_of(v: u8) -> MsgType {
    choose|t: MsgType| #[trigger] t.code() == v
}

/// What is wrong with a byte that stands for no message type.
pub open spec fn unknown_type(v: u8) -> CoreFault {
    CoreFault::Codec("unknown msg type 0x"@ + text::digits(v as nat, 16))
}

/// No two message types share a byte.
pub proof fn codes_are_distinct(a: MsgType, b: MsgType)
    requires
        a.code() == b.code(),
    ensures
        a == b,
{
}

/// The fixed part of a frame.
#[derive(Debug, Clone, Copy)]
pub struct FrameHeader {
    pub flags: FrameFlags,
    pub msg_type: MsgType,
    pub request_id: u64,
    pub payload_len: u32,
}

/// One message on the wire.
#[derive(Debug)]
pub struct Frame {
    pub header: FrameHeader,
    pub payload: Bytes,
}

impl Clone for Frame {
    fn clone(&self) -> (out: Frame)
        ensures
            out@ == self@,
    {
        Frame { header: self.header, payload: buffer::bytes_clone(&self.payload) }
    }
}

/// A frame with its payload as a sequence of bytes.
#[verifier::ext_equal]
pub struct FrameView {
    pub header: FrameHeader,
    pub payload: Seq<u8>,
}

impl View for Frame {
    type V = FrameView;

    open spec fn view(&self) -> FrameView {
        FrameView { header: self.header, payload: buffer::bytes_of(self.payload) }
    }
}

impl FrameView {
    /// A frame of the given type, request and payload, with the given flags.
    pub open spec fn made(flags: u8, msg_type: MsgType, request_id: u64, payload: Seq<u8>) -> Self {
        FrameView {
            header: FrameHeader {
                flags: FrameFlags(flags),
                msg_type,
                request_id,
                payload_len: (payload.len() % 0x1_0000_0000) as u32,
            },
            payload,
        }
    }

    /// The same frame with the bits of `bit` set among its flags.
    pub open spec fn flagged(self, bit: u8) -> Self {
        FrameView {
            header: FrameHeader {
                flags: FrameFlags(self.header.flags.0 | bit),
                ..self.header
            },
            ..self
        }
    }

    /// The frame on the wire.
    pub open spec fn encoded(self) -> Seq<u8> {
        header_bytes(
            self.header.flags.0,
            self.header.msg_type.code(),
            self.header.request_id,
            self.payload.len(),
        ) + self.payload
    }
}

/// The header of a frame on the wire. The length field keeps the lowest four
/// bytes of the payload's length.
pub open spec fn header_bytes(flags: u8, code: u8, request_id: u64, len: nat) -> Seq<u8> {
    codec::le_bytes(FRAME_MAGIC as nat, 2) + seq![PROTOCOL_VERSION, flags, code] + codec::le_bytes(
        request_id as nat,
        8,
    ) + codec::le_bytes(len % 0x1_0000_0000, 4)
}

/// What the front of a byte stream holds.
pub enum Decoded {
    /// The beginning of a frame, if anything.
    Partial,
    /// No frame.
    Bad(CoreFault),
    /// A frame, with the number of bytes that it takes.
    Whole(FrameView, int),
}

/// What the front of a byte stream holds.
pub open spec fn decoded(s: Seq<u8>) -> Decoded {
    let len = codec::le_value(s.subrange(13, 17));
    if s.len() < HEADER_LEN {
        Decoded::Partial
    } else if codec::le_value(s.subrange(0, 2)) != FRAME_MAGIC {
        Decoded::Bad(CoreFault::BadMagic)
    } else if s[2] != PROTOCOL_VERSION {
        Decoded::Bad(CoreFault::BadVersion(s[2]))
    } else if len > MAX_FRAME_LEN {
        Decoded::Bad(CoreFault::FrameTooLarge(len as u32))
    } else if s.len() < HEADER_LEN + len {
        Decoded::Partial
    } else if !is_msg_code(s[4]) {
        Decoded::Bad(unknown_type(s[4]))
    } else {
        Decoded::Whole(
            FrameView {
                header: FrameHeader {
                    flags: FrameFlags(s[3]),
                    msg_type: msg_type_of(s[4]),
                    request_id: codec::le_value(s.subrange(5, 13)) as u64,
                    payload_len: len as u32,
                },
                payload: s.subrange(HEADER_LEN as int, HEADER_LEN + len),
            },
            HEADER_LEN + len,
        )
    }
}

/// The lowest four bytes of a length.
pub(crate) fn low_u32(n: usize) -> (out: u32)
    ensures
        out == n as nat % 0x1_0000_0000,
{
    let wide: u64 = n as u64;
    let out: u32 = #[verifier::truncate]
    (wide as u32);
    assert(wide as u32 == wide % 0x1_0000_0000) by (bit_vector);
    out
}

impl Frame {
    /// A frame without flags.
    pub fn new(msg_type: MsgType, request_id: u64, payload: Bytes) -> (out: Frame)
        ensures
            out@ == FrameView::made(0, msg_type, request_id, buffer::bytes_of(payload)),
            out.payload == payload,
    {
        let payload_len: u32 = low_u32(buffer::bytes_slice(&payload).len());
        Frame {
            header: FrameHeader {
                flags: FrameFlags(0),
                msg_type,
                request_id,
                payload_len,
            },
            payload,
        }
    }

    /// Appends the frame to `buf`.
    pub fn encode(&self, buf: &mut BytesMut)
        requires
            buffer::buffer_of(*old(buf)).len() + HEADER_LEN + buffer::bytes_of(self.payload).len()
                <= isize::MAX,
        ensures
            buffer::buffer_of(*final(buf)) == buffer::buffer_of(*old(buf)) + self@.encoded(),
    {
        let payload: &[u8] = buffer::bytes_slice(&self.payload);
        buffer::buffer_reserve(buf, HEADER_LEN + payload.len());
        proof {
            codec::lemma_le_bytes_len(FRAME_MAGIC as nat, 2);
            codec::lemma_le_bytes_len(self.header.request_id as nat, 8);
            codec::lemma_le_bytes_len(payload@.len() % 0x1_0000_0000, 4);
        }
        buffer::buffer_put_u16_le(buf, FRAME_MAGIC);
        buffer::buffer_put_u8(buf, PROTOCOL_VERSION);
        buffer::buffer_put_u8(buf, self.header.flags.0);
        buffer::buffer_put_u8(buf, self.header.msg_type.to_u8());
        buffer::buffer_put_u64_le(buf, self.header.request_id);
        buffer::buffer_put_u32_le(buf, low_u32(payload.len()));
        buffer::buffer_put_slice(buf, payload);
        assert(buffer::buffer_of(*buf) =~= buffer::buffer_of(*old(buf)) + self@.encoded());
    }

    /// Takes one frame off the front of `buf`. With `None` the frame is not
    /// complete; with `None` or an error `buf` is as it was.
    pub fn decode(buf: &mut BytesMut) -> (out: Result<Option<Frame>, CoreError>)
        ensures
            match decoded(buffer::buffer_of(*old(buf))) {
                Decoded::Partial => {
                    &&& out matches Ok(None)
                    &&& buffer::buffer_of(*final(buf)) == buffer::buffer_of(*old(buf))
                },
                Decoded::Bad(fault) => {
                    &&& out matches Err(e) && e@ == fault
                    &&& buffer::buffer_of(*final(buf)) == buffer::buffer_of(*old(buf))
                },
                Decoded::Whole(frame, used) => {
                    &&& out matches Ok(Some(f)) && f@ == frame
                    &&& buffer::buffer_of(*final(buf)) == buffer::buffer_of(*old(buf)).skip(used)
                },
            },
    {
        let ghost s = buffer::buffer_of(*buf);
        let view: &[u8] = buffer::buffer_slice(buf);
        let have: usize = view.len();
        if have < HEADER_LEN {
            return Ok(None);
        }
        if codec::read_le(view, 0, 2) != FRAME_MAGIC as u64 {
            return Err(CoreError::BadMagic);
        }
        let version: u8 = view[2];
        if version != PROTOCOL_VERSION {
            return Err(CoreError::BadVersion(version));
        }
        let len: u64 = codec::read_le(view, 13, 4);
        proof {
            codec::lemma_byte_spans();
        }
        let payload_len: u32 = len as u32;
        if payload_len > MAX_FRAME_LEN {
            return Err(CoreError::FrameTooLarge(payload_len));
        }
        let total: usize = HEADER_LEN + payload_len as usize;
        if have < total {
            return Ok(None);
        }
        let flags: FrameFlags = FrameFlags(view[3]);
        let msg_type: MsgType = match MsgType::from_u8(view[4]) {
            Ok(t) => t,
            Err(e) => return Err(e),
        };
        let request_id: u64 = codec::read_le(view, 5, 8);
        buffer::buffer_advance(buf, HEADER_LEN);
        let taken: BytesMut = buffer::buffer_split_to(buf, payload_len as usize);
        let payload: Bytes = buffer::buffer_freeze(taken);
        proof {
            codes_are_distinct(msg_type, msg_type_of(s[4]));
            assert(s.skip(17).take(payload_len as int) =~= s.subrange(17, 17 + payload_len));
            assert(s.skip(17).skip(payload_len as int) =~= s.skip(17 + payload_len));
        }
        Ok(Some(Frame { header: FrameHeader { flags, msg_type, request_id, payload_len }, payload }))
    }
}

/// Where the fields of a header lie on the wire.
proof fn lemma_header_fields(flags: u8, code: u8, request_id: u64, len: nat)
    ensures
        header_bytes(flags, code, request_id, len).len() == HEADER_LEN,
        ({
            let h = header_bytes(flags, code, request_id, len);
            &&& codec::le_value(h.subrange(0, 2)) == FRAME_MAGIC
            &&& h[2] == PROTOCOL_VERSION
            &&& h[3] == flags
            &&& h[4] == code
            &&& codec::le_value(h.subrange(5, 13)) == request_id
            &&& codec::le_value(h.subrange(13, 17)) == len % 0x1_0000_0000
        }),
{
    let h = header_bytes(flags, code, request_id, len);
    let magic = codec::le_bytes(FRAME_MAGIC as nat, 2);
    let id = codec::le_bytes(request_id as nat, 8);
    let size = codec::le_bytes(len % 0x1_0000_0000, 4);
    codec::lemma_byte_spans();
    codec::le_bytes_then_value(FRAME_MAGIC as nat, 2);
    codec::le_bytes_then_value(request_id as nat, 8);
    codec::le_bytes_then_value(len % 0x1_0000_0000, 4);
    assert(h.subrange(0, 2) =~= magic);
    assert(h.subrange(5, 13) =~= id);
    assert(h.subrange(13, 17) =~= size);
}

impl FrameView {
    /// The frame as a receiver sees it: its length field is that of its payload.
    pub open spec fn received(self) -> Self {
        FrameView {
            header: FrameHeader { payload_len: self.payload.len() as u32, ..self.header },
            ..self
        }
    }

    /// Whether the payload is within the limit of the protocol.
    pub open spec fn fits(self) -> bool {
        self.payload.len() <= MAX_FRAME_LEN
    }
}

/// How long a frame is on the wire.
pub proof fn lemma_encoded_len(f: FrameView)
    ensures
        f.encoded().len() == HEADER_LEN + f.payload.len(),
{
    lemma_header_fields(
        f.header.flags.0,
        f.header.msg_type.code(),
        f.header.request_id,
        f.payload.len(),
    );
}

/// Decoding undoes encoding, whatever follows the frame: the frame comes back
/// and the bytes behind it are left.
pub proof fn decode_undoes_encode(f: FrameView, rest: Seq<u8>)
    requires
        f.fits(),
    ensures
        decoded(f.encoded() + rest) == Decoded::Whole(
            f.received(),
            f.encoded().len() as int,
        ),
        (f.encoded() + rest).skip(f.encoded().len() as int) == rest,
{
    let h = header_bytes(
        f.header.flags.0,
        f.header.msg_type.code(),
        f.header.request_id,
        f.payload.len(),
    );
    let s = f.encoded() + rest;
    lemma_header_fields(
        f.header.flags.0,
        f.header.msg_type.code(),
        f.header.request_id,
        f.payload.len(),
    );
    assert(s.subrange(0, 2) =~= h.subrange(0, 2));
    assert(s.subrange(5, 13) =~= h.subrange(5, 13));
    assert(s.subrange(13, 17) =~= h.subrange(13, 17));
    assert(s.subrange(17, 17int + f.payload.len()) =~= f.payload);
    assert(is_msg_code(s[4]));
    codes_are_distinct(f.header.msg_type, msg_type_of(s[4]));
    assert(s.skip(f.encoded().len() as int) =~= rest);
}

/// As long as a byte of a frame is missing, decoding waits.
pub proof fn decode_waits_for_the_whole_frame(f: FrameView, n: int)
    requires
        f.fits(),
        0 <= n < f.encoded().len(),
    ensures
        decoded(f.encoded().take(n)) is Partial,
{
    let h = header_bytes(
        f.header.flags.0,
        f.header.msg_type.code(),
        f.header.request_id,
        f.payload.len(),
    );
    let s = f.encoded().take(n);
    lemma_header_fields(
        f.header.flags.0,
        f.header.msg_type.code(),
        f.header.request_id,
        f.payload.len(),
    );
    if n >= HEADER_LEN {
        assert(s.subrange(0, 2) =~= h.subrange(0, 2));
        assert(s.subrange(13, 17) =~= h.subrange(13, 17));
    }
}

/// A frame whose payload is over the limit is refused by its header alone,
/// as long as its length fits the length field.
pub proof fn decode_refuses_long_payloads(f: FrameView, rest: Seq<u8>)
    requires
        MAX_FRAME_LEN < f.payload.len() <= u32::MAX,
    ensures
        decoded(f.encoded() + rest) == Decoded::Bad(
            CoreFault::FrameTooLarge(f.payload.len() as u32),
        ),
{
    let h = header_bytes(
        f.header.flags.0,
        f.header.msg_type.code(),
        f.header.request_id,
        f.payload.len(),
    );
    let s = f.encoded() + rest;
    lemma_header_fields(
        f.header.flags.0,
        f.header.msg_type.code(),
        f.header.request_id,
        f.payload.len(),
    );
    assert(s.subrange(0, 2) =~= h.subrange(0, 2));
    assert(s.subrange(13, 17) =~= h.subrange(13, 17));
}

/// The frames of a sequence on the wire, one behind the other.
pub open spec fn stream(frames: Seq<FrameView>) -> Seq<u8>
    decreases frames.len(),
{
    if frames.len() == 0 {
        Seq::empty()
    } else {
        frames[0].encoded() + stream(frames.skip(1))
    }
}

/// The frames that decoding takes off a byte stream until it waits or fails.
pub open spec fn decoded_all(s: Seq<u8>) -> Seq<FrameView>
    decreases s.len(),
{
    match decoded(s) {
        Decoded::Whole(f, used) => if 0 < used <= s.len() {
            seq![f] + decoded_all(s.skip(used))
        } else {
            Seq::empty()
        },
        _ => Seq::empty(),
    }
}

/// Decoding a stream of frames gives the frames in their order.
pub proof fn decode_undoes_a_stream(frames: Seq<FrameView>)
    requires
        forall|i: int| 0 <= i < frames.len() ==> (#[trigger] frames[i]).fits(),
    ensures
        decoded_all(stream(frames)) == frames.map_values(|f: FrameView| f.received()),
    decreases frames.len(),
{
    let out = frames.map_values(|f: FrameView| f.received());
    if frames.len() == 0 {
        assert(out =~= Seq::empty());
    } else {
        let rest = frames.skip(1);
        assert forall|i: int| 0 <= i < rest.len() implies (#[trigger] rest[i]).fits() by {
            assert(rest[i] == frames[i + 1]);
        }
        decode_undoes_a_stream(rest);
        decode_undoes_encode(frames[0], stream(rest));
        lemma_header_fields(
            frames[0].header.flags.0,
            frames[0].header.msg_type.code(),
            frames[0].header.request_id,
            frames[0].payload.len(),
        );
        assert(out =~= seq![frames[0].received()] + rest.map_values(|f: FrameView| f.received()));
    }
}

/// What decoding leaves of a byte stream when it waits or fails.
pub open spec fn undecoded(s: Seq<u8>) -> Seq<u8>
    decreases s.len(),
{
    match decoded(s) {
        Decoded::Whole(_, used) => if 0 < used <= s.len() {
            undecoded(s.skip(used))
        } else {
            s
        },
        _ => s,
    }
}

/// A frame at the front of a stream is the same whatever comes behind it.
proof fn lemma_whole_frame_is_stable(a: Seq<u8>, b: Seq<u8>)
    requires
        decoded(a) is Whole,
    ensures
        decoded(a + b) == decoded(a),
        0 < decoded(a)->Whole_1 <= a.len(),
        (a + b).skip(decoded(a)->Whole_1) == a.skip(decoded(a)->Whole_1) + b,
{
    let s = a + b;
    let len = codec::le_value(a.subrange(13, 17));
    assert(s.subrange(0, 2) =~= a.subrange(0, 2));
    assert(s.subrange(5, 13) =~= a.subrange(5, 13));
    assert(s.subrange(13, 17) =~= a.subrange(13, 17));
    assert(s.subrange(17, 17int + len) =~= a.subrange(17, 17int + len));
    assert(s.skip(17int + len) =~= a.skip(17int + len) + b);
}

/// It does not matter in which pieces a stream arrives: decoding what is there
/// after each piece gives the frames of the whole.
pub proof fn pieces_do_not_matter(a: Seq<u8>, b: Seq<u8>)
    ensures
        decoded_all(a + b) == decoded_all(a) + decoded_all(undecoded(a) + b),
        undecoded(a + b) == undecoded(undecoded(a) + b),
    decreases a.len(),
{
    match decoded(a) {
        Decoded::Whole(f, used) => {
            lemma_whole_frame_is_stable(a, b);
            pieces_do_not_matter(a.skip(used), b);
            assert(decoded_all(a + b) =~= decoded_all(a) + decoded_all(undecoded(a) + b));
        },
        _ => {
            assert(decoded_all(a) + decoded_all(a + b) =~= decoded_all(a + b));
        },
    }
}

/// How a frame lies on the wire: the bytes 0x4D and 0x4F, the version 1, the flags, the
/// type, the request in eight bytes and the length of the payload in four, the lowest
/// byte first, and behind these 17 bytes the whole payload.
pub proof fn frames_lie_on_the_wire_in_order(f: FrameView)
    requires
        f.payload.len() <= u32::MAX,
    ensures
        f.encoded().len() == 17 + f.payload.len(),
        f.encoded()[0] == 0x4D,
        f.encoded()[1] == 0x4F,
        f.encoded()[2] == 1,
        f.encoded()[3] == f.header.flags.0,
        f.encoded()[4] == f.header.msg_type.code(),
        codec::le_value(f.encoded().subrange(5, 13)) == f.header.request_id,
        codec::le_value(f.encoded().subrange(13, 17)) == f.payload.len(),
        f.encoded().skip(17) == f.payload,
{
    let h = header_bytes(
        f.header.flags.0,
        f.header.msg_type.code(),
        f.header.request_id,
        f.payload.len(),
    );
    lemma_header_fields(
        f.header.flags.0,
        f.header.msg_type.code(),
        f.header.request_id,
        f.payload.len(),
    );
    let magic = codec::le_bytes(0x4F4D, 2);
    codec::lowest_byte_comes_first(0x4F4D, 2, magic);
    codec::lowest_byte_comes_first(0x4F, 1, magic);
    codec::lemma_le_bytes_len(0x4F4D, 2);
    assert(magic[1] == magic.skip(1)[0]);
    assert(h[0] == magic[0] && h[1] == magic[1]);
    assert(f.encoded().subrange(5, 13) =~= h.subrange(5, 13));
    assert(f.encoded().subrange(13, 17) =~= h.subrange(13, 17));
    assert(f.encoded().skip(17) =~= f.payload);
}

/// The byte of each message type.
pub proof fn types_have_their_bytes(t: MsgType, v: u8)
    requires
        call_ensures(MsgType::to_u8, (t,), v),
    ensures
        v == match t {
            MsgType::Initialize => 1u8,
            MsgType::InitializeResult => 2,
            MsgType::ListTools => 3,
            MsgType::ListToolsResult => 4,
            MsgType::CallTool => 5,
            MsgType::CallToolResult => 6,
            MsgType::Ping => 7,
            MsgType::Pong => 8,
            MsgType::Auth => 9,
            MsgType::AuthResult => 10,
            MsgType::ShmSetup => 11,
            MsgType::ShmSetupResult => 12,
            MsgType::ListResources => 13,
            MsgType::ListResourcesResult => 14,
            MsgType::ReadResource => 15,
            MsgType::ReadResourceResult => 16,
            MsgType::ListPrompts => 17,
            MsgType::ListPromptsResult => 18,
            MsgType::GetPrompt => 19,
            MsgType::GetPromptResult => 20,
            MsgType::Cancel => 21,
            MsgType::Progress => 22,
            MsgType::SubscribeResource => 23,
            MsgType::SubscribeResourceResult => 24,
            MsgType::UnsubscribeResource => 25,
            MsgType::ResourceUpdated => 26,
            MsgType::ResourceListChanged => 27,
            MsgType::Error => 127,
        },
{
}

/// A byte is the type that writes it; the bytes that no type writes are refused, with
/// the byte in hexadecimal.
pub proof fn bytes_are_read_as_their_types(v: u8, out: Result<MsgType, CoreError>)
    requires
        call_ensures(MsgType::from_u8, (v,), out),
    ensures
        out is Ok <==> 1 <= v <= 27 || v == 127,
        out matches Ok(t) ==> t.code() == v,
        out matches Err(e) ==> e@ == CoreFault::Codec(
            "unknown msg type 0x"@ + (if v < 16 {
                seq![text::digit_char(v as nat)]
            } else {
                seq![text::digit_char((v / 16) as nat), text::digit_char((v % 16) as nat)]
            }),
        ),
{
    assert(MsgType::Initialize.code() == 1);
    assert(MsgType::InitializeResult.code() == 2);
    assert(MsgType::ListTools.code() == 3);
    assert(MsgType::ListToolsResult.code() == 4);
    assert(MsgType::CallTool.code() == 5);
    assert(MsgType::CallToolResult.code() == 6);
    assert(MsgType::Ping.code() == 7);
    assert(MsgType::Pong.code() == 8);
    assert(MsgType::Auth.code() == 9);
    assert(MsgType::AuthResult.code() == 10);
    assert(MsgType::ShmSetup.code() == 11);
    assert(MsgType::ShmSetupResult.code() == 12);
    assert(MsgType::ListResources.code() == 13);
    assert(MsgType::ListResourcesResult.code() == 14);
    assert(MsgType::ReadResource.code() == 15);
    assert(MsgType::ReadResourceResult.code() == 16);
    assert(MsgType::ListPrompts.code() == 17);
    assert(MsgType::ListPromptsResult.code() == 18);
    assert(MsgType::GetPrompt.code() == 19);
    assert(MsgType::GetPromptResult.code() == 20);
    assert(MsgType::Cancel.code() == 21);
    assert(MsgType::Progress.code() == 22);
    assert(MsgType::SubscribeResource.code() == 23);
    assert(MsgType::SubscribeResourceResult.code() == 24);
    assert(MsgType::UnsubscribeResource.code() == 25);
    assert(MsgType::ResourceUpdated.code() == 26);
    assert(MsgType::ResourceListChanged.code() == 27);
    assert(MsgType::Error.code() == 127);
    if v >= 16 {
        assert(text::digits((v / 16) as nat, 16) =~= seq![text::digit_char((v / 16) as nat)]);
        assert(text::digits(v as nat, 16) =~= seq![
            text::digit_char((v / 16) as nat),
            text::digit_char((v % 16) as nat),
        ]);
    }
}

/// Each request has an answer of its own type, those about subscriptions the same one;
/// answers, notices and withdrawals have none.
pub proof fn requests_have_their_answers(t: MsgType, out: Option<MsgType>)
    requires
        call_ensures(MsgType::answer_type, (t,), out),
    ensures
        out == match t {
            MsgType::Initialize => Some(MsgType::InitializeResult),
            MsgType::ListTools => Some(MsgType::ListToolsResult),
            MsgType::CallTool => Some(MsgType::CallToolResult),
            MsgType::Ping => Some(MsgType::Pong),
            MsgType::Auth => Some(MsgType::AuthResult),
            MsgType::ShmSetup => Some(MsgType::ShmSetupResult),
            MsgType::ListResources => Some(MsgType::ListResourcesResult),
            MsgType::ReadResource => Some(MsgType::ReadResourceResult),
            MsgType::ListPrompts => Some(MsgType::ListPromptsResult),
            MsgType::GetPrompt => Some(MsgType::GetPromptResult),
            MsgType::SubscribeResource => Some(MsgType::SubscribeResourceResult),
            MsgType::UnsubscribeResource => Some(MsgType::SubscribeResourceResult),
            _ => None,
        },
        t.answered_by() == out,
{
}

/// Each flag is a bit of its own.
pub proof fn flags_are_bits(
    f: FrameFlags,
    compressed: bool,
    encrypted: bool,
    cache_ref: bool,
    cacheable: bool,
    shm_ref: bool,
)
    requires
        call_ensures(FrameFlags::compressed, (f,), compressed),
        call_ensures(FrameFlags::encrypted, (f,), encrypted),
        call_ensures(FrameFlags::cache_ref, (f,), cache_ref),
        call_ensures(FrameFlags::cacheable, (f,), cacheable),
        call_ensures(FrameFlags::shm_ref, (f,), shm_ref),
    ensures
        compressed == (f.0 & 1 != 0),
        encrypted == (f.0 & 2 != 0),
        cache_ref == (f.0 & 4 != 0),
        cacheable == (f.0 & 8 != 0),
        shm_ref == (f.0 & 16 != 0),
{
}

/// A new frame is of the given type and request, without flags, and holds the whole
/// payload.
pub proof fn new_frames_are_what_was_asked_for(t: MsgType, id: u64, payload: Bytes, out: Frame)
    requires
        call_ensures(Frame::new, (t, id, payload), out),
    ensures
        out.header.flags.0 == 0,
        out.header.msg_type == t,
        out.header.request_id == id,
        out.payload == payload,
        buffer::bytes_of(payload).len() <= u32::MAX ==> out.header.payload_len == buffer::bytes_of(
            payload,
        ).len(),
{
}

/// What is decoded is what was on the wire: the frame takes up exactly the bytes that it
/// would be encoded to, and its payload is not over 64 MiB.
pub proof fn decoded_frames_are_the_bytes_they_take(s: Seq<u8>)
    ensures
        decoded(s) matches Decoded::Whole(f, used) ==> {
            &&& used == 17 + f.payload.len() <= s.len()
            &&& f.payload.len() <= 67_108_864
            &&& f.header.payload_len == f.payload.len()
            &&& f.encoded() == s.take(used)
        },
{
    if let Decoded::Whole(f, used) = decoded(s) {
        let h = header_bytes(
            f.header.flags.0,
            f.header.msg_type.code(),
            f.header.request_id,
            f.payload.len(),
        );
        codec::lemma_byte_spans();
        codec::le_value_then_bytes(s.subrange(0, 2));
        codec::le_value_then_bytes(s.subrange(5, 13));
        codec::le_value_then_bytes(s.subrange(13, 17));
        codec::lemma_le_bytes_len(FRAME_MAGIC as nat, 2);
        codec::lemma_le_bytes_len(f.header.request_id as nat, 8);
        codec::lemma_le_bytes_len(f.payload.len() % 0x1_0000_0000, 4);
        assert(h =~= s.take(17));
        assert(f.encoded() =~= s.take(used));
    }
}

/// What is not a frame is told by the first thing that is wrong with it: fewer than 17
/// bytes are no whole header; then the first two bytes, the version and the length are
/// looked at, and, where all of the payload is there, the type.
pub proof fn broken_headers_are_told_apart(s: Seq<u8>)
    ensures
        ({
            let len = codec::le_value(s.subrange(13, 17));
            let magic = s[0] == 0x4D && s[1] == 0x4F;
            &&& s.len() < 17 ==> decoded(s) is Partial
            &&& s.len() >= 17 && !magic ==> decoded(s) == Decoded::Bad(CoreFault::BadMagic)
            &&& s.len() >= 17 && magic && s[2] != 1 ==> decoded(s) == Decoded::Bad(
                CoreFault::BadVersion(s[2]),
            )
            &&& s.len() >= 17 && magic && s[2] == 1 && len > 67_108_864 ==> decoded(s)
                == Decoded::Bad(CoreFault::FrameTooLarge(len as u32))
            &&& s.len() >= 17 && magic && s[2] == 1 && len <= 67_108_864 && s.len() < 17 + len
                ==> decoded(s) is Partial
            &&& s.len() >= 17 && magic && s[2] == 1 && len <= 67_108_864 && s.len() >= 17 + len
                ==> (decoded(s) is Whole <==> 1 <= s[4] <= 27 || s[4] == 127)
            &&& s.len() >= 17 && magic && s[2] == 1 && len <= 67_108_864 && s.len() >= 17 + len && !(
            1 <= s[4] <= 27 || s[4] == 127) ==> decoded(s) is Bad
        }),
{
    if s.len() >= 17 {
        let m = s.subrange(0, 2);
        assert(m.skip(1).skip(1) =~= Seq::<u8>::empty());
        assert(codec::le_value(m.skip(1).skip(1)) == 0);
        assert(codec::le_value(m.skip(1)) == m.skip(1)[0] as nat);
        assert(codec::le_value(m) == s[0] + 256 * s[1]);
    }
    assert(MsgType::Initialize.code() == 1);
    assert(MsgType::InitializeResult.code() == 2);
    assert(MsgType::ListTools.code() == 3);
    assert(MsgType::ListToolsResult.code() == 4);
    assert(MsgType::CallTool.code() == 5);
    assert(MsgType::CallToolResult.code() == 6);
    assert(MsgType::Ping.code() == 7);
    assert(MsgType::Pong.code() == 8);
    assert(MsgType::Auth.code() == 9);
    assert(MsgType::AuthResult.code() == 10);
    assert(MsgType::ShmSetup.code() == 11);
    assert(MsgType::ShmSetupResult.code() == 12);
    assert(MsgType::ListResources.code() == 13);
    assert(MsgType::ListResourcesResult.code() == 14);
    assert(MsgType::ReadResource.code() == 15);
    assert(MsgType::ReadResourceResult.code() == 16);
    assert(MsgType::ListPrompts.code() == 17);
    assert(MsgType::ListPromptsResult.code() == 18);
    assert(MsgType::GetPrompt.code() == 19);
    assert(MsgType::GetPromptResult.code() == 20);
    assert(MsgType::Cancel.code() == 21);
    assert(MsgType::Progress.code() == 22);
    assert(MsgType::SubscribeResource.code() == 23);
    assert(MsgType::SubscribeResourceResult.code() == 24);
    assert(MsgType::UnsubscribeResource.code() == 25);
    assert(MsgType::ResourceUpdated.code() == 26);
    assert(MsgType::ResourceListChanged.code() == 27);
    assert(MsgType::Error.code() == 127);
}

/// A frame that is encoded is appended to what is there, and decoding takes it off again as
/// it was, with nothing else: `buf` is empty at first, and `b` is the same buffer when the
/// frame is decoded.
pub proof fn encoded_frames_are_decoded(
    f: Frame,
    buf: &mut BytesMut,
    b: &mut BytesMut,
    out: Result<Option<Frame>, CoreError>,
)
    requires
        buffer::buffer_of(*buf).len() == 0,
        f@.fits(),
        call_ensures(Frame::encode, (&f, buf), ()),
        buffer::buffer_of(*b) == buffer::buffer_of(*final(buf)),
        call_ensures(Frame::decode, (b,), out),
    ensures
        out matches Ok(Some(g)) && g.header.msg_type == f.header.msg_type && g.header.request_id
            == f.header.request_id && g.header.flags == f.header.flags && buffer::bytes_of(
            g.payload,
        ) == buffer::bytes_of(f.payload),
        buffer::buffer_of(*final(b)).len() == 0,
{
    let none = Seq::<u8>::empty();
    assert(buffer::buffer_of(*b) =~= f@.encoded() + none);
    decode_undoes_encode(f@, none);
}

/// Decoding takes exactly one frame off the front, leaves what is behind it, and touches
/// nothing where there is no whole frame.
pub proof fn decoding_takes_one_frame(
    b: &mut BytesMut,
    out: Result<Option<Frame>, CoreError>,
)
    requires
        call_ensures(Frame::decode, (b,), out),
    ensures
        out matches Ok(Some(f)) ==> f@.encoded() + buffer::buffer_of(*final(b)) == buffer::buffer_of(
            *old(b),
        ),
        !(out matches Ok(Some(_))) ==> buffer::buffer_of(*final(b)) == buffer::buffer_of(*old(b)),
        buffer::buffer_of(*old(b)).len() < 17 ==> out matches Ok(None),
{
    let s = buffer::buffer_of(*old(b));
    decoded_frames_are_the_bytes_they_take(s);
    if let Decoded::Whole(f, used) = decoded(s) {
        assert(s.take(used) + s.skip(used) =~= s);
    }
}

/// A frame can be sent up to a payload of 64 MiB, that size itself with it.
pub proof fn frames_of_every_allowed_size_fit(f: FrameView)
    ensures
        f.payload.len() <= 67_108_864 <==> f.fits(),
{
}

} // verus!
