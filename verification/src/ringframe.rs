//! Frames whose payload lies in a shared-memory ring.
//!
//! A payload of some size goes into the ring where one was set up and has room;
//! its frame then carries a reference, in the clear and uncompressed. Otherwise
//! the payload goes through the pipeline. The receiver puts the bytes of the ring
//! in the place of the reference before it does anything else with the frame.

use bytes::Bytes;
use vstd::prelude::*;
use crate::buffer;
use crate::codec;
use crate::compress;
use crate::frame;
use crate::frame::{Frame, FrameFlags, FrameHeader, FrameView, MsgType};
use crate::pipeline;
use crate::pipeline::PayloadPipeline;
use crate::shm;
use crate::shm::RingView;

verus! {

/// Whether a payload of `len` bytes is offered to the ring.
pub open spec fn wants_ring(ready: bool, len: nat) -> bool {
    ready && len >= shm::SHM_THRESHOLD
}

/// Whether a payload of `len` bytes is to be offered to the ring; `ready` says
/// whether one was set up.
pub fn offer_to_ring(ready: bool, len: usize) -> (out: bool)
    ensures
        out == wants_ring(ready, len as nat),
{
    ready && len >= shm::SHM_THRESHOLD
}

/// The frame of a payload of `len` bytes that lies in the ring at `offset`.
pub open spec fn ref_frame(msg_type: MsgType, request_id: u64, offset: u64, len: u32) -> FrameView {
    FrameView::made(0, msg_type, request_id, shm::shm_ref_bytes(offset, len)).flagged(
        FrameFlags::SHM_REF,
    )
}

/// Whether a frame carries a reference.
pub open spec fn is_shm_ref(f: FrameView) -> bool {
    frame::has_flag(f.header.flags.0, FrameFlags::SHM_REF)
}

/// Frames a payload that was written to the ring at `offset`, or one that was
/// not.
pub fn outbound(
    pipeline: &mut PayloadPipeline,
    msg_type: MsgType,
    request_id: u64,
    payload: Bytes,
    offset: Option<u64>,
) -> (out: Frame)
    requires
        old(pipeline).wf(),
        offset is None ==> old(pipeline).takes(buffer::bytes_of(payload).len()),
    ensures
        match offset {
            Some(o) => {
                &&& out@ == ref_frame(
                    msg_type,
                    request_id,
                    o,
                    (buffer::bytes_of(payload).len() % 0x1_0000_0000) as u32,
                )
                &&& *final(pipeline) == *old(pipeline)
            },
            None => {
                &&& old(pipeline).after_send(*final(pipeline))
                &&& out@ == old(pipeline).wrapped(msg_type, request_id, buffer::bytes_of(payload))
                &&& out@.payload.len() == old(pipeline).sent_len(
                    compress::packed(buffer::bytes_of(payload)).len(),
                )
                &&& buffer::bytes_of(payload).len() <= u32::MAX ==> pipeline::opened(
                    old(pipeline).key(),
                    out@,
                ) == compress::restored(buffer::bytes_of(payload))
            },
        },
        is_shm_ref(out@) <==> offset is Some,
        !pipeline::is_cache_ref(out@),
{
    match offset {
        Some(o) => {
            let len: u32 = frame::low_u32(buffer::bytes_slice(&payload).len());
            let body: [u8; 12] = shm::encode_shm_ref(o, len);
            let bytes: Bytes = buffer::bytes_from_vec(vstd::slice::slice_to_vec(&body));
            let mut f: Frame = Frame::new(msg_type, request_id, bytes);
            f.header.flags = FrameFlags(f.header.flags.0 | FrameFlags::SHM_REF);
            assert((0u8 | 16) & 16 != 0 && (0u8 | 16) & 4 == 0) by (bit_vector);
            f
        },
        None => {
            let (f, _flags): (Frame, FrameFlags) = pipeline.wrap(msg_type, request_id, payload);
            f
        },
    }
}

/// What a frame says about a ring.
#[derive(Debug, Clone, Copy)]
pub enum Carried {
    /// The payload is in the frame.
    Inline,
    /// A reference came though no ring was set up.
    NoRing,
    /// The reference is no reference.
    BadRef,
    /// The payload lies in the ring, at this position and of this length.
    InRing(u64, u32),
}

/// What a frame says about a ring.
pub open spec fn carried(f: FrameView, ready: bool) -> Carried {
    if !is_shm_ref(f) {
        Carried::Inline
    } else if !ready {
        Carried::NoRing
    } else {
        match shm::shm_ref_of(f.payload) {
            Some((offset, len)) => Carried::InRing(offset, len),
            None => Carried::BadRef,
        }
    }
}

/// What a frame says about a ring; `ready` says whether one was set up.
pub fn find_payload(frame: &Frame, ready: bool) -> (out: Carried)
    ensures
        out == carried(frame@, ready),
{
    if !frame.header.flags.shm_ref() {
        return Carried::Inline;
    }
    if !ready {
        return Carried::NoRing;
    }
    match shm::decode_shm_ref(buffer::bytes_slice(&frame.payload)) {
        Some((offset, len)) => Carried::InRing(offset, len),
        None => Carried::BadRef,
    }
}

/// What one end says of references that it cannot follow.
pub struct RefComplaints {
    pub no_ring: &'static str,
    pub bad_ref: &'static str,
}

/// The position and length of the payload in the ring, nothing where the payload
/// is in the frame, or a complaint.
pub(crate) fn ref_or_complaint(frame: &Frame, ready: bool, say: RefComplaints) -> (out: Result<
    Option<(u64, u32)>,
    String,
>)
    ensures
        match carried(frame@, ready) {
            Carried::Inline => out matches Ok(None),
            Carried::InRing(offset, len) => out matches Ok(Some(r)) && r == (offset, len),
            Carried::NoRing => out matches Err(m) && m@ == say.no_ring@,
            Carried::BadRef => out matches Err(m) && m@ == say.bad_ref@,
        },
{
    match find_payload(frame, ready) {
        Carried::Inline => Ok(None),
        Carried::InRing(offset, len) => Ok(Some((offset, len))),
        Carried::NoRing => Err(String::from_str(say.no_ring)),
        Carried::BadRef => Err(String::from_str(say.bad_ref)),
    }
}

/// A frame with the bytes of the ring in the place of its reference.
pub open spec fn resolved(f: FrameView, len: u32, data: Seq<u8>) -> FrameView {
    FrameView {
        header: FrameHeader {
            flags: FrameFlags(f.header.flags.0 & !FrameFlags::SHM_REF),
            payload_len: len,
            ..f.header
        },
        payload: data,
    }
}

/// Puts the bytes of the ring in the place of the reference.
pub fn resolve(frame: Frame, len: u32, data: Vec<u8>) -> (out: Frame)
    ensures
        out@ == resolved(frame@, len, data@),
        !is_shm_ref(out@),
{
    let flags: u8 = frame.header.flags.0;
    let cleared: u8 = flags & !FrameFlags::SHM_REF;
    assert((flags & !16u8) & 16 == 0) by (bit_vector);
    let out: Frame = Frame {
        header: FrameHeader {
            flags: FrameFlags(cleared),
            msg_type: frame.header.msg_type,
            request_id: frame.header.request_id,
            payload_len: len,
        },
        payload: buffer::bytes_from_vec(data),
    };
    out
}

/// A payload that is written to the ring arrives as it was: its frame refers to
/// the place where it lies, and with the bytes from there the frame is the one
/// that would have carried the payload itself. The receiver's pipeline leaves it
/// as it is, whatever the session key.
pub proof fn ring_carries_the_payload(
    r: RingView,
    pos: nat,
    msg_type: MsgType,
    request_id: u64,
    payload: Seq<u8>,
    key: Option<Seq<u8>>,
)
    requires
        r.wf(),
        r.room(payload.len()) == Some(pos),
    ensures
        ({
            let len = payload.len() as u32;
            let f = ref_frame(msg_type, request_id, pos as u64, len);
            let w = r.written(pos, payload);
            &&& carried(f, true) == Carried::InRing(pos as u64, len)
            &&& w.holds(pos, payload)
            &&& resolved(f, len, w.at(pos, payload.len())) == FrameView::made(
                0,
                msg_type,
                request_id,
                payload,
            )
            &&& pipeline::opened(key, resolved(f, len, w.at(pos, payload.len())))
                == compress::restored(payload)
        }),
{
    let len = payload.len() as u32;
    shm::written_record_is_held(r, pos, payload);
    shm::shm_ref_round_trip(pos as u64, len);
    assert((0u8 | 16) & 16 != 0) by (bit_vector);
    assert((0u8 | 16) & !16u8 == 0) by (bit_vector);
    assert(payload.len() % 0x1_0000_0000 == payload.len());
    assert(0u8 & 1 == 0 && 0u8 & 2 == 0) by (bit_vector);
}

/// A payload is offered to the ring exactly where there is one and the payload has 16384
/// bytes at least.
pub proof fn large_payloads_are_offered_to_the_ring(ready: bool, len: usize, out: bool)
    requires
        call_ensures(offer_to_ring, (ready, len), out),
    ensures
        out <==> ready && len >= 16_384,
{
}

/// The frame of a payload in the ring is of the type and request of the payload, is
/// marked by bit 16 and no other, and carries the position in eight bytes and the length
/// in four.
pub proof fn references_carry_place_and_length(t: MsgType, id: u64, offset: u64, len: u32)
    ensures
        ({
            let f = ref_frame(t, id, offset, len);
            &&& f.header.msg_type == t
            &&& f.header.request_id == id
            &&& f.header.flags.0 == 16
            &&& f.payload == codec::le_bytes(offset as nat, 8) + codec::le_bytes(len as nat, 4)
            &&& f.payload.len() == 12
            &&& f.header.payload_len == 12
        }),
{
    codec::lemma_le_bytes_len(offset as nat, 8);
    codec::lemma_le_bytes_len(len as nat, 4);
    assert(0u8 | 16 == 16) by (bit_vector);
}

/// A frame without bit 16 has its payload in itself. One with it says where in the ring
/// its payload lies, in 12 bytes; without a ring, or with another number of bytes, it
/// cannot be followed.
pub proof fn marked_frames_point_into_the_ring(f: Frame, ready: bool, out: Carried)
    requires
        call_ensures(find_payload, (&f, ready), out),
    ensures
        ({
            let marked = f.header.flags.0 & 16 != 0;
            let body = buffer::bytes_of(f.payload);
            &&& !marked ==> out is Inline
            &&& marked && !ready ==> out is NoRing
            &&& marked && ready && body.len() != 12 ==> out is BadRef
            &&& marked && ready && body.len() == 12 ==> out == Carried::InRing(
                codec::le_value(body.subrange(0, 8)) as u64,
                codec::le_value(body.subrange(8, 12)) as u32,
            )
        }),
{
}

/// A frame whose reference was followed is the same frame with the bytes of the ring in
/// it: its type, its request and all its flags but bit 16 stay.
pub proof fn followed_references_keep_the_frame(f: Frame, len: u32, data: Vec<u8>, out: Frame)
    requires
        call_ensures(resolve, (f, len, data), out),
    ensures
        out.header.msg_type == f.header.msg_type,
        out.header.request_id == f.header.request_id,
        out.header.payload_len == len,
        buffer::bytes_of(out.payload) == data@,
        out.header.flags.0 & 16 == 0,
        out.header.flags.0 & 0xEF == f.header.flags.0 & 0xEF,
{
    let flags = f.header.flags.0;
    assert((flags & !16u8) & 16 == 0) by (bit_vector);
    assert((flags & !16u8) & 0xEF == flags & 0xEF) by (bit_vector);
}

} // verus!
