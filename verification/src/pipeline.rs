//! What happens to a payload on its way into a frame and out of one.
//!
//! On the way out a payload is compressed where that is worth it, then sealed
//! where the session has a key; the flags of the frame say what was done. On the
//! way in the steps are undone in the other order. A frame may also carry the
//! key of a cached result in place of the result; the receiver then takes the
//! result from its own cache. Both ends use the same pipeline.

use bytes::Bytes;
use vstd::prelude::*;
use crate::buffer;
use crate::cache::{CacheKey, CacheView, ResultCache};
use crate::codec;
use crate::compress;
use crate::crypto;
use crate::crypto::SessionCipher;
use crate::frame;
use crate::frame::{Decoded, Frame, FrameFlags, FrameHeader, FrameView, MsgType};

verus! {

/// The number of results that an end of a connection remembers.
pub const PIPELINE_CACHE_CAPACITY: usize = 4096;

/// For how long a remembered result is good: five minutes, in nanoseconds.
pub const CACHE_TTL: u128 = 300_000_000_000;

/// The payload pipeline of one end of a connection.
pub struct PayloadPipeline {
    cipher: Option<SessionCipher>,
    cache: ResultCache,
}

/// The associated data of a frame: its type and its request.
pub open spec fn aad_of(msg_type: MsgType, request_id: u64) -> Seq<u8> {
    seq![msg_type.code()] + codec::le_bytes(request_id as nat, 8)
}

fn aad(msg_type: MsgType, request_id: u64) -> (out: Vec<u8>)
    ensures
        out@ == aad_of(msg_type, request_id),
{
    let mut out: Vec<u8> = Vec::new();
    out.push(msg_type.to_u8());
    codec::push_le(&mut out, request_id, 8);
    assert(out@ =~= aad_of(msg_type, request_id));
    out
}

/// The flags of a wrapped payload.
pub open spec fn wrap_flags(compressed: bool, encrypted: bool) -> u8 {
    (if compressed {
        FrameFlags::COMPRESSED
    } else {
        0
    }) | (if encrypted {
        FrameFlags::ENCRYPTED
    } else {
        0
    })
}

/// The payload in a frame under a session key, before a cached result is put
/// in its place.
pub open spec fn opened(key: Option<Seq<u8>>, f: FrameView) -> Result<Seq<u8>, Seq<char>> {
    let flags = f.header.flags.0;
    let compressed = frame::has_flag(flags, FrameFlags::COMPRESSED);
    if !frame::has_flag(flags, FrameFlags::ENCRYPTED) {
        compress::unpacked(f.payload, compressed)
    } else {
        match key {
            None => Err("encrypted frame but no session key"@),
            Some(k) => match crypto::opened_message(
                k,
                f.payload,
                aad_of(f.header.msg_type, f.header.request_id),
            ) {
                None => Err("decryption failed"@),
                Some(m) => compress::unpacked(m, compressed),
            },
        }
    }
}

/// Whether a frame carries the key of a cached result.
pub open spec fn is_cache_ref(f: FrameView) -> bool {
    frame::has_flag(f.header.flags.0, FrameFlags::CACHE_REF)
}

/// What a receiver makes of a frame at the given time.
pub open spec fn unwrapped(
    key: Option<Seq<u8>>,
    cache: CacheView,
    f: FrameView,
    now: u128,
) -> Result<Seq<u8>, Seq<char>> {
    match opened(key, f) {
        Err(e) => Err(e),
        Ok(data) => if !is_cache_ref(f) {
            Ok(data)
        } else if data.len() != 32 {
            Err("bad cache ref"@)
        } else {
            match cache.looked_up(data, now) {
                Some(value) => Ok(value),
                None => Err("cache ref miss"@),
            }
        },
    }
}

/// The receiver's cache after a frame at the given time.
pub open spec fn cache_after(
    key: Option<Seq<u8>>,
    cache: CacheView,
    f: FrameView,
    now: u128,
) -> CacheView {
    match opened(key, f) {
        Ok(data) => if is_cache_ref(f) && data.len() == 32 {
            cache.after_lookup(data, now)
        } else {
            cache
        },
        Err(_) => cache,
    }
}

impl PayloadPipeline {
    pub closed spec fn cipher(self) -> Option<SessionCipher> {
        self.cipher
    }

    pub closed spec fn cache(self) -> CacheView {
        self.cache@
    }

    pub closed spec fn cache_wf(self) -> bool {
        self.cache.wf()
    }

    /// The key of the session, where it has one.
    pub open spec fn key(self) -> Option<Seq<u8>> {
        match self.cipher() {
            Some(c) => Some(c.key()),
            None => None,
        }
    }

    pub open spec fn wf(self) -> bool {
        &&& self.cache_wf()
        &&& self.cipher() matches Some(c) ==> c.wf()
    }

    /// Whether a payload of `n` bytes can be compressed and sealed.
    pub open spec fn takes(self, n: nat) -> bool {
        &&& n >= compress::COMPRESS_THRESHOLD ==> compress::compressible(n)
        &&& self.cipher() is Some ==> crypto::sealable(n)
    }

    /// What this pipeline sends for some data.
    pub open spec fn sent(self, msg_type: MsgType, request_id: u64, data: Seq<u8>) -> Seq<u8> {
        match self.cipher() {
            Some(c) => c.seals(aad_of(msg_type, request_id), data),
            None => data,
        }
    }

    /// How many bytes this pipeline sends for `n` bytes: 28 more where it seals.
    pub open spec fn sent_len(self, n: nat) -> nat {
        if self.cipher() is Some {
            n + 28
        } else {
            n
        }
    }

    /// The frame in which this pipeline sends a payload.
    pub open spec fn wrapped(self, msg_type: MsgType, request_id: u64, payload: Seq<u8>) -> FrameView {
        FrameView::made(
            wrap_flags(compress::worth_packing(payload), self.cipher() is Some),
            msg_type,
            request_id,
            self.sent(msg_type, request_id, compress::packed(payload)),
        )
    }

    /// The frame in which this pipeline sends the key of a result.
    pub open spec fn wrapped_ref(self, msg_type: MsgType, request_id: u64, key: Seq<u8>) -> FrameView {
        FrameView::made(
            FrameFlags::CACHE_REF | wrap_flags(false, self.cipher() is Some),
            msg_type,
            request_id,
            self.sent(msg_type, request_id, key),
        )
    }

    /// Whether `next` is this pipeline after it sent one payload.
    pub open spec fn after_send(self, next: PayloadPipeline) -> bool {
        &&& next.wf()
        &&& next.cache() == self.cache()
        &&& match self.cipher() {
            Some(c) => next.cipher() matches Some(d) && c.advanced(d),
            None => next.cipher() is None,
        }
    }

    /// A pipeline without a key and with an empty cache.
    pub fn new() -> (out: PayloadPipeline)
        ensures
            out.wf(),
            out.cipher() is None,
            out.cache() == CacheView::empty(PIPELINE_CACHE_CAPACITY as nat, CACHE_TTL as nat),
    {
        PayloadPipeline {
            cipher: None,
            cache: ResultCache::new(PIPELINE_CACHE_CAPACITY, CACHE_TTL),
        }
    }

    /// Seals everything from now on under the given key.
    pub fn enable_encryption(&mut self, key: [u8; 32])
        requires
            old(self).wf(),
        ensures
            final(self).wf(),
            final(self).key() == Some(key@),
            final(self).cipher() matches Some(c) && c.counter() == 0,
            final(self).cache() == old(self).cache(),
    {
        self.cipher = Some(SessionCipher::new(&key));
    }

    /// Whether payloads are sealed.
    pub fn encryption_enabled(&self) -> (out: bool)
        ensures
            out == (self.cipher() is Some),
    {
        self.cipher.is_some()
    }

    fn seal(&mut self, msg_type: MsgType, request_id: u64, data: Bytes) -> (out: Bytes)
        requires
            old(self).wf(),
            old(self).cipher() is Some ==> crypto::sealable(buffer::bytes_of(data).len()),
        ensures
            old(self).after_send(*final(self)),
            buffer::bytes_of(out) == old(self).sent(
                msg_type,
                request_id,
                buffer::bytes_of(data),
            ),
            old(self).cipher() matches Some(c) ==> crypto::opened_message(
                c.key(),
                buffer::bytes_of(out),
                aad_of(msg_type, request_id),
            ) == Some(buffer::bytes_of(data)),
            buffer::bytes_of(out).len() == old(self).sent_len(buffer::bytes_of(data).len()),
    {
        match &mut self.cipher {
            Some(c) => {
                let tag: Vec<u8> = aad(msg_type, request_id);
                c.encrypt(buffer::bytes_slice(&data), tag.as_slice())
            },
            None => data,
        }
    }

    /// Compresses and seals a payload and frames it. Whoever has the same key
    /// gets the payload back from the frame.
    pub fn wrap(&mut self, msg_type: MsgType, request_id: u64, payload: Bytes) -> (out: (
        Frame,
        FrameFlags,
    ))
        requires
            old(self).wf(),
            old(self).takes(buffer::bytes_of(payload).len()),
        ensures
            old(self).after_send(*final(self)),
            out.0@ == old(self).wrapped(msg_type, request_id, buffer::bytes_of(payload)),
            out.1 == out.0.header.flags,
            out.0@.payload.len() == old(self).sent_len(
                compress::packed(buffer::bytes_of(payload)).len(),
            ),
            buffer::bytes_of(payload).len() <= u32::MAX ==> opened(old(self).key(), out.0@)
                == compress::restored(buffer::bytes_of(payload)),
            !is_cache_ref(out.0@),
            !frame::has_flag(out.0.header.flags.0, FrameFlags::SHM_REF),
    {
        let encrypted: bool = self.cipher.is_some();
        let (data, compressed): (Bytes, bool) = compress::maybe_compress(payload);
        let bits: u8 = (if compressed {
            FrameFlags::COMPRESSED
        } else {
            0
        }) | (if encrypted {
            FrameFlags::ENCRYPTED
        } else {
            0
        });
        let sealed: Bytes = self.seal(msg_type, request_id, data);
        proof {
            lemma_wrap_flags(compressed, encrypted);
        }
        let flags: FrameFlags = FrameFlags(bits);
        let payload_len: u32 = frame::low_u32(buffer::bytes_slice(&sealed).len());
        let frame: Frame = Frame {
            header: FrameHeader { flags, msg_type, request_id, payload_len },
            payload: sealed,
        };
        (frame, flags)
    }

    /// A frame with the key of a result in place of the result: 32 bytes, sealed
    /// like any payload. Whoever has the same session key gets the key of the
    /// result from the frame.
    pub fn wrap_cache_ref(&mut self, msg_type: MsgType, request_id: u64, key: &CacheKey) -> (out:
        Frame)
        requires
            old(self).wf(),
        ensures
            old(self).after_send(*final(self)),
            out@ == old(self).wrapped_ref(msg_type, request_id, key.0@),
            out@.payload.len() == old(self).sent_len(32),
            opened(old(self).key(), out@) == compress::restored(key.0@),
            is_cache_ref(out@),
    {
        let encrypted: bool = self.cipher.is_some();
        let bits: u8 = FrameFlags::CACHE_REF | (0 | (if encrypted {
            FrameFlags::ENCRYPTED
        } else {
            0
        }));
        let data: Bytes = buffer::bytes_from_vec(vstd::slice::slice_to_vec(key.as_bytes()));
        let sealed: Bytes = self.seal(msg_type, request_id, data);
        proof {
            lemma_wrap_flags(false, encrypted);
        }
        let payload_len: u32 = frame::low_u32(buffer::bytes_slice(&sealed).len());
        Frame {
            header: FrameHeader { flags: FrameFlags(bits), msg_type, request_id, payload_len },
            payload: sealed,
        }
    }

    /// Undoes what was done to the payload of a frame, at the given time.
    pub fn unwrap_at(&mut self, frame: &Frame, now: u128) -> (out: Result<Bytes, String>)
        requires
            old(self).wf(),
        ensures
            final(self).wf(),
            final(self).cipher() == old(self).cipher(),
            final(self).cache() == cache_after(old(self).key(), old(self).cache(), frame@, now),
            match out {
                Ok(b) => unwrapped(old(self).key(), old(self).cache(), frame@, now)
                    == compress::restored(buffer::bytes_of(b)),
                Err(e) => unwrapped(old(self).key(), old(self).cache(), frame@, now)
                    == compress::broken(e@),
            },
    {
        let flags: FrameFlags = frame.header.flags;
        let data: Bytes = if flags.encrypted() {
            match &self.cipher {
                None => return Err(String::from_str("encrypted frame but no session key")),
                Some(c) => {
                    let tag: Vec<u8> = aad(frame.header.msg_type, frame.header.request_id);
                    match c.decrypt(buffer::bytes_slice(&frame.payload), tag.as_slice()) {
                        Ok(m) => m,
                        Err(e) => return Err(e.to_string()),
                    }
                },
            }
        } else {
            buffer::bytes_clone(&frame.payload)
        };
        let data: Bytes = match compress::maybe_decompress(data, flags.compressed()) {
            Ok(m) => m,
            Err(e) => return Err(e),
        };
        if flags.cache_ref() {
            match CacheKey::from_slice(buffer::bytes_slice(&data)) {
                None => Err(String::from_str("bad cache ref")),
                Some(key) => match self.cache.get_at(&key, now) {
                    Some(value) => Ok(value),
                    None => Err(String::from_str("cache ref miss")),
                },
            }
        } else {
            Ok(data)
        }
    }

    /// Undoes what was done to the payload of a frame, now.
    pub fn unwrap(&mut self, frame: &Frame) -> (out: Result<Bytes, String>)
        requires
            old(self).wf(),
        ensures
            final(self).wf(),
            final(self).cipher() == old(self).cipher(),
            exists|now: u128|
                {
                    &&& final(self).cache() == #[trigger] cache_after(
                        old(self).key(),
                        old(self).cache(),
                        frame@,
                        now,
                    )
                    &&& match out {
                        Ok(b) => unwrapped(old(self).key(), old(self).cache(), frame@, now)
                            == compress::restored(buffer::bytes_of(b)),
                        Err(e) => unwrapped(old(self).key(), old(self).cache(), frame@, now)
                            == compress::broken(e@),
                    }
                },
    {
        let now: u128 = self.now();
        self.unwrap_at(frame, now)
    }

    /// The time on the clock of the cache.
    pub fn now(&self) -> (out: u128) {
        self.cache.now()
    }

    /// Keeps a result, so that a frame with its key can stand for it.
    pub fn remember_at(&mut self, key: CacheKey, value: Bytes, now: u128)
        requires
            old(self).wf(),
        ensures
            final(self).wf(),
            final(self).cipher() == old(self).cipher(),
            old(self).cache().after_put(
                key.0@,
                buffer::bytes_of(value),
                now,
                final(self).cache(),
            ),
    {
        self.cache.put_at(key, value, now);
    }

    /// Keeps a result from now on.
    pub fn remember(&mut self, key: CacheKey, value: Bytes)
        requires
            old(self).wf(),
        ensures
            final(self).wf(),
            final(self).cipher() == old(self).cipher(),
            exists|now: u128| #[trigger]
                old(self).cache().after_put(
                    key.0@,
                    buffer::bytes_of(value),
                    now,
                    final(self).cache(),
                ),
    {
        let now: u128 = self.now();
        self.remember_at(key, value, now);
    }

    /// Looks up a kept result.
    pub fn cache_get(&mut self, key: &CacheKey) -> (out: Option<Bytes>)
        requires
            old(self).wf(),
        ensures
            final(self).wf(),
            final(self).cipher() == old(self).cipher(),
            exists|now: u128|
                {
                    &&& final(self).cache() == #[trigger] old(self).cache().after_lookup(
                        key.0@,
                        now,
                    )
                    &&& match out {
                        Some(b) => old(self).cache().looked_up(key.0@, now) == Some(
                            buffer::bytes_of(b),
                        ),
                        None => old(self).cache().looked_up(key.0@, now) is None,
                    }
                },
    {
        let now: u128 = self.now();
        let out: Option<Bytes> = self.cache.get_at(key, now);
        assert(self.cache() == old(self).cache().after_lookup(key.0@, now));
        out
    }

    /// The number of lookups that were served and of those that were not.
    pub fn cache_stats(&self) -> (out: (u64, u64))
        ensures
            out == (self.cache().hits, self.cache().misses),
    {
        self.cache.stats()
    }
}

impl Default for PayloadPipeline {
    fn default() -> (out: PayloadPipeline)
        ensures
            out.wf(),
            out.cipher() is None,
            out.cache() == CacheView::empty(PIPELINE_CACHE_CAPACITY as nat, CACHE_TTL as nat),
    {
        PayloadPipeline::new()
    }
}

/// What the flags of a wrapped payload say.
proof fn lemma_wrap_flags(compressed: bool, encrypted: bool)
    ensures
        ({
            let w = wrap_flags(compressed, encrypted);
            &&& frame::has_flag(w, FrameFlags::COMPRESSED) == compressed
            &&& frame::has_flag(w, FrameFlags::ENCRYPTED) == encrypted
            &&& !frame::has_flag(w, FrameFlags::CACHE_REF)
            &&& !frame::has_flag(w, FrameFlags::SHM_REF)
            &&& frame::has_flag(FrameFlags::CACHE_REF | w, FrameFlags::COMPRESSED) == compressed
            &&& frame::has_flag(FrameFlags::CACHE_REF | w, FrameFlags::ENCRYPTED) == encrypted
            &&& frame::has_flag(FrameFlags::CACHE_REF | w, FrameFlags::CACHE_REF)
        }),
{
    assert(1u8 & 1 != 0 && 1u8 & 2 == 0 && 1u8 & 4 == 0 && 1u8 & 16 == 0) by (bit_vector);
    assert(2u8 & 1 == 0 && 2u8 & 2 != 0 && 2u8 & 4 == 0 && 2u8 & 16 == 0) by (bit_vector);
    assert(0u8 & 1 == 0 && 0u8 & 2 == 0 && 0u8 & 4 == 0 && 0u8 & 16 == 0) by (bit_vector);
    assert(3u8 & 1 != 0 && 3u8 & 2 != 0 && 3u8 & 4 == 0 && 3u8 & 16 == 0) by (bit_vector);
    assert(1u8 | 2 == 3 && 1u8 | 0 == 1 && 0u8 | 2 == 2 && 0u8 | 0 == 0) by (bit_vector);
    assert(4u8 | 0 == 4 && 4u8 | 1 == 5 && 4u8 | 2 == 6 && 4u8 | 3 == 7) by (bit_vector);
    assert(4u8 & 1 == 0 && 4u8 & 2 == 0 && 4u8 & 4 != 0) by (bit_vector);
    assert(5u8 & 1 != 0 && 5u8 & 2 == 0 && 5u8 & 4 != 0) by (bit_vector);
    assert(6u8 & 1 == 0 && 6u8 & 2 != 0 && 6u8 & 4 != 0) by (bit_vector);
    assert(7u8 & 1 != 0 && 7u8 & 2 != 0 && 7u8 & 4 != 0) by (bit_vector);
}

/// Between two ends with the same key, a wrapped payload arrives as it was,
/// and the receiver's cache is left alone. What is assumed of the frame is what
/// `wrap` says of it.
pub proof fn wrapped_payload_arrives(
    key: Option<Seq<u8>>,
    payload: Seq<u8>,
    f: FrameView,
    cache: CacheView,
    now: u128,
)
    requires
        opened(key, f) == compress::restored(payload),
        !is_cache_ref(f),
    ensures
        unwrapped(key, cache, f, now) == compress::restored(payload),
        cache_after(key, cache, f, now) == cache,
{
}

/// A wrapped payload crosses the wire: the other end decodes the frame off the
/// stream, whatever follows it there, and with the same key gets the payload.
pub proof fn wrapped_payload_crosses_the_wire(
    key: Option<Seq<u8>>,
    payload: Seq<u8>,
    f: FrameView,
    rest: Seq<u8>,
    cache: CacheView,
    now: u128,
)
    requires
        opened(key, f) == compress::restored(payload),
        !is_cache_ref(f),
        f.fits(),
    ensures
        frame::decoded(f.encoded() + rest) matches Decoded::Whole(g, used) && {
            &&& used == f.encoded().len()
            &&& g.header.msg_type == f.header.msg_type
            &&& g.header.request_id == f.header.request_id
            &&& unwrapped(key, cache, g, now) == compress::restored(payload)
        },
{
    frame::decode_undoes_encode(f, rest);
}

/// A frame that carries the key of a result brings back the result that the
/// receiver remembered, until that is older than the time to live; after that,
/// and for a result that was not remembered, it is refused. What is assumed of
/// the frame is what `wrap_cache_ref` says of it.
pub proof fn cache_ref_brings_back_the_result(
    session_key: Option<Seq<u8>>,
    result_key: Seq<u8>,
    f: FrameView,
    cache: CacheView,
    now: u128,
)
    requires
        opened(session_key, f) == compress::restored(result_key),
        is_cache_ref(f),
        result_key.len() == 32,
    ensures
        unwrapped(session_key, cache, f, now) == if cache.serves(result_key, now) {
            compress::restored(cache.entries[result_key].value)
        } else {
            compress::broken("cache ref miss"@)
        },
{
}

/// An end without a key refuses every sealed frame.
pub proof fn sealed_frames_need_a_key(f: FrameView, cache: CacheView, now: u128)
    requires
        frame::has_flag(f.header.flags.0, FrameFlags::ENCRYPTED),
    ensures
        unwrapped(None, cache, f, now) == compress::broken("encrypted frame but no session key"@),
{
}

/// The associated data tells frames of different types or requests apart.
pub proof fn aad_tells_type_and_request(a: MsgType, i: u64, b: MsgType, j: u64)
    requires
        aad_of(a, i) == aad_of(b, j),
    ensures
        a == b,
        i == j,
{
    codec::lemma_byte_spans();
    codec::le_bytes_then_value(i as nat, 8);
    codec::le_bytes_then_value(j as nat, 8);
    assert(aad_of(a, i)[0] == a.code());
    assert(aad_of(b, j)[0] == b.code());
    frame::codes_are_distinct(a, b);
    assert(aad_of(a, i).skip(1) =~= codec::le_bytes(i as nat, 8));
    assert(aad_of(b, j).skip(1) =~= codec::le_bytes(j as nat, 8));
}

/// The associated data of a frame is the byte of its type and its request in eight
/// bytes, the lowest first, and nothing else.
pub proof fn associated_data_is_type_and_request(t: MsgType, id: u64)
    ensures
        aad_of(t, id).len() == 9,
        aad_of(t, id)[0] == t.code(),
        codec::le_value(aad_of(t, id).skip(1)) == id,
{
    codec::lemma_byte_spans();
    codec::le_bytes_then_value(id as nat, 8);
    assert(aad_of(t, id).skip(1) =~= codec::le_bytes(id as nat, 8));
}

/// What a payload is sent as: compressed where that makes it shorter, and then sealed
/// where there is a key, with the type and the request of the frame as associated data.
/// The frame is of the given type and request, and of its flags bit 1 says that it is
/// compressed, bit 2 that it is sealed, and no other is set.
pub proof fn payloads_are_compressed_then_sealed(
    p: PayloadPipeline,
    t: MsgType,
    id: u64,
    payload: Seq<u8>,
)
    ensures
        ({
            let f = p.wrapped(t, id, payload);
            let shorter = payload.len() >= 512 && compress::lz4_packed(payload).len()
                < payload.len();
            let data = if shorter {
                compress::lz4_packed(payload)
            } else {
                payload
            };
            &&& f.header.msg_type == t
            &&& f.header.request_id == id
            &&& f.payload == match p.cipher() {
                None => data,
                Some(c) => c.seals(seq![t.code()] + codec::le_bytes(id as nat, 8), data),
            }
            &&& (f.header.flags.0 & 1 != 0) == shorter
            &&& (f.header.flags.0 & 2 != 0) == (p.cipher() is Some)
            &&& f.header.flags.0 <= 3
        }),
{
    lemma_wrap_flags(compress::worth_packing(payload), p.cipher() is Some);
    assert(1u8 | 2 == 3 && 1u8 | 0 == 1 && 0u8 | 2 == 2 && 0u8 | 0 == 0) by (bit_vector);
}

/// The key of a result is sent as it is, sealed where there is a key of the session, and
/// its frame is marked by bit 4.
pub proof fn keys_of_results_are_marked(p: PayloadPipeline, t: MsgType, id: u64, key: Seq<u8>)
    ensures
        ({
            let f = p.wrapped_ref(t, id, key);
            &&& f.header.msg_type == t
            &&& f.header.request_id == id
            &&& f.payload == match p.cipher() {
                None => key,
                Some(c) => c.seals(seq![t.code()] + codec::le_bytes(id as nat, 8), key),
            }
            &&& f.header.flags.0 & 4 != 0
            &&& f.header.flags.0 & 1 == 0
            &&& (f.header.flags.0 & 2 != 0) == (p.cipher() is Some)
        }),
{
    lemma_wrap_flags(false, p.cipher() is Some);
}

/// A payload is taken out of its frame by what the flags say: opened with the key of the
/// session and the type and request of the frame where bit 2 is set, then unpacked where
/// bit 1 is. A sealed payload without a key, and one that does not open, are refused.
pub proof fn flags_say_how_a_payload_is_taken_out(key: Option<Seq<u8>>, f: FrameView)
    ensures
        ({
            let sealed = f.header.flags.0 & 2 != 0;
            let packed = f.header.flags.0 & 1 != 0;
            let aad = seq![f.header.msg_type.code()] + codec::le_bytes(
                f.header.request_id as nat,
                8,
            );
            &&& !sealed ==> opened(key, f) == compress::unpacked(f.payload, packed)
            &&& sealed && key is None ==> opened(key, f) == compress::broken(
                "encrypted frame but no session key"@,
            )
            &&& sealed && key is Some ==> opened(key, f) == match crypto::opened_message(
                key->Some_0,
                f.payload,
                aad,
            ) {
                None => compress::broken("decryption failed"@),
                Some(m) => compress::unpacked(m, packed),
            }
        }),
{
}

/// A frame without bit 4 brings its own payload and leaves the cache alone. One with it
/// brings the result that is kept under the key in it, which has 32 bytes, and is refused
/// where there is none; the lookup is made in either case.
pub proof fn only_marked_frames_use_the_cache(
    key: Option<Seq<u8>>,
    cache: CacheView,
    f: FrameView,
    now: u128,
)
    ensures
        ({
            let marked = f.header.flags.0 & 4 != 0;
            &&& !marked ==> unwrapped(key, cache, f, now) == opened(key, f) && cache_after(
                key,
                cache,
                f,
                now,
            ) == cache
            &&& opened(key, f) is Err ==> unwrapped(key, cache, f, now) == opened(key, f)
                && cache_after(key, cache, f, now) == cache
            &&& marked ==> (opened(key, f) matches Ok(k) ==> if k.len() != 32 {
                unwrapped(key, cache, f, now) == compress::broken("bad cache ref"@) && cache_after(
                    key,
                    cache,
                    f,
                    now,
                ) == cache
            } else {
                unwrapped(key, cache, f, now) == match cache.looked_up(k, now) {
                    Some(v) => compress::restored(v),
                    None => compress::broken("cache ref miss"@),
                } && cache_after(key, cache, f, now) == cache.after_lookup(k, now)
            })
        }),
{
}

/// A new pipeline has no key and keeps nothing yet; it has places for 4096 results, each
/// for five minutes.
pub proof fn new_pipelines_are_empty(p: PayloadPipeline, key: Seq<u8>, time: u128)
    requires
        call_ensures(PayloadPipeline::new, (), p),
    ensures
        p.key() is None,
        p.cache().looked_up(key, time) is None,
        p.cache().capacity == 4096,
        p.cache().ttl == 300 * 1_000_000_000nat,
        p.cache().hits == 0 && p.cache().misses == 0,
{
}

/// Sending leaves the cache and the key as they are and uses up one number of the
/// cipher, where there is one.
pub proof fn sending_uses_up_one_number(p: PayloadPipeline, next: PayloadPipeline)
    requires
        p.wf(),
        p.after_send(next),
    ensures
        next.cache() == p.cache(),
        next.key() == p.key(),
        p.cipher() matches Some(c) ==> (next.cipher() matches Some(d) && d.prefix() == c.prefix()
            && (c.counter() < u64::MAX ==> d.counter() == c.counter() + 1)),
        p.cipher() is None ==> next.cipher() is None,
        next.wf(),
{
}

/// A wrapped payload opens, with the same key, to the whole payload, and to nothing else;
/// its frame is of the given type and number and is no key of a result. Sending it leaves
/// the cache alone.
pub proof fn wrapped_payloads_open(
    p: &mut PayloadPipeline,
    t: MsgType,
    id: u64,
    payload: Bytes,
    out: (Frame, FrameFlags),
)
    requires
        call_ensures(PayloadPipeline::wrap, (p, t, id, payload), out),
        buffer::bytes_of(payload).len() <= u32::MAX,
    ensures
        out.0.header.msg_type == t,
        out.0.header.request_id == id,
        opened(old(p).key(), out.0@) == compress::restored(buffer::bytes_of(payload)),
        (out.0.header.flags.0 & 2 != 0) == (old(p).key() is Some),
        out.0.header.flags.0 & 4 == 0,
        out.1 == out.0.header.flags,
        final(p).cache() == old(p).cache(),
        final(p).key() == old(p).key(),
{
    payloads_are_compressed_then_sealed(*old(p), t, id, buffer::bytes_of(payload));
}

/// What was remembered is what a frame with its key brings, as long as it lives.
pub proof fn remembered_results_come_back(
    p: &mut PayloadPipeline,
    key: CacheKey,
    value: Bytes,
    time: u128,
    q: &mut PayloadPipeline,
    f: Frame,
    later: u128,
    out: Result<Bytes, String>,
)
    requires
        call_ensures(PayloadPipeline::remember_at, (p, key, value, time), ()),
        q.cache() == final(p).cache(),
        call_ensures(PayloadPipeline::unwrap_at, (q, &f, later), out),
        opened(q.key(), f@) == compress::restored(key.0@),
        f.header.flags.0 & 4 != 0,
    ensures
        later <= time || later - time <= old(p).cache().ttl ==> (out matches Ok(b)
            && buffer::bytes_of(b) == buffer::bytes_of(value)),
        later > time && later - time > old(p).cache().ttl ==> (out matches Err(m) && m@
            == "cache ref miss"@),
{
    crate::cache::results_live_for_their_time(
        old(p).cache(),
        key.0@,
        buffer::bytes_of(value),
        time,
        final(p).cache(),
        later,
    );
}

/// A frame that is no key of a result brings its own payload and leaves the cache alone; a
/// sealed one without a key of the session is refused.
pub proof fn frames_bring_their_payload(
    p: &mut PayloadPipeline,
    f: Frame,
    now: u128,
    out: Result<Bytes, String>,
)
    requires
        call_ensures(PayloadPipeline::unwrap_at, (p, &f, now), out),
        f.header.flags.0 & 4 == 0,
    ensures
        match opened(old(p).key(), f@) {
            Ok(data) => out matches Ok(b) && buffer::bytes_of(b) == data,
            Err(e) => out matches Err(m) && m@ == e,
        },
        f.header.flags.0 & 2 != 0 && old(p).key() is None ==> (out matches Err(m) && m@
            == "encrypted frame but no session key"@),
        final(p).cache() == old(p).cache(),
        final(p).key() == old(p).key(),
{
}

/// From then on everything is sealed under the given key, and the cache stays.
pub proof fn keys_are_taken_over(p: &mut PayloadPipeline, key: [u8; 32])
    requires
        call_ensures(PayloadPipeline::enable_encryption, (p, key), ()),
    ensures
        final(p).key() == Some(key@),
        final(p).cache() == old(p).cache(),
        final(p).cipher() matches Some(c) && c.counter() == 0,
{
}

/// The key of a result goes out marked as such, under the type and number, and opens to the
/// whole key.
pub proof fn wrapped_keys_open(
    p: &mut PayloadPipeline,
    t: MsgType,
    id: u64,
    key: CacheKey,
    out: Frame,
)
    requires
        call_ensures(PayloadPipeline::wrap_cache_ref, (p, t, id, &key), out),
    ensures
        out.header.msg_type == t,
        out.header.request_id == id,
        out.header.flags.0 & 4 != 0,
        opened(old(p).key(), out@) == compress::restored(key.0@),
        final(p).cache() == old(p).cache(),
{
}

/// Whatever the time is, a frame that is no key brings its own payload, what is remembered
/// is kept under its key as it is, and a kept result is given as it is or not at all.
pub proof fn payloads_do_not_depend_on_the_time(
    p: &mut PayloadPipeline,
    f: Frame,
    out: Result<Bytes, String>,
    q: &mut PayloadPipeline,
    key: CacheKey,
    value: Bytes,
    r: &mut PayloadPipeline,
    got: Option<Bytes>,
    on: bool,
)
    requires
        call_ensures(PayloadPipeline::unwrap, (p, &f), out),
        call_ensures(PayloadPipeline::remember, (q, key, value), ()),
        call_ensures(PayloadPipeline::cache_get, (r, &key), got),
        call_ensures(PayloadPipeline::encryption_enabled, (&*p,), on),
    ensures
        f.header.flags.0 & 4 == 0 ==> match opened(old(p).key(), f@) {
            Ok(data) => out matches Ok(b) && buffer::bytes_of(b) == data,
            Err(e) => out matches Err(m) && m@ == e,
        },
        final(q).cache().entries.contains_key(key.0@) && final(q).cache().entries[key.0@].value
            == buffer::bytes_of(value),
        got matches Some(b) ==> old(r).cache().entries.contains_key(key.0@) && buffer::bytes_of(b)
            == old(r).cache().entries[key.0@].value,
        on <==> old(p).key() is Some,
{
}

} // verus!
