//! LZ4 compression of payloads that are worth it.

use bytes::Bytes;
use vstd::prelude::*;
use crate::buffer;
use crate::codec;

verus! {

/// A payload shorter than this is left as it is.
pub const COMPRESS_THRESHOLD: usize = 512;

/// What `lz4_flex::compress_prepend_size` makes of a byte string on the target of
/// this build. The compressor looks for matches by machine words, so that targets of
/// another word size may pack the same bytes in another way, which unpacks to the
/// same bytes.
pub uninterp spec fn lz4_packed(data: Seq<u8>) -> Seq<u8>;

/// What `lz4_flex::decompress_size_prepended` makes of a byte string: the bytes
/// or the text of its error.
pub uninterp spec fn lz4_unpacked(data: Seq<u8>) -> Result<Seq<u8>, Seq<char>>;

/// The outcome of a payload that could be restored.
pub open spec fn restored(payload: Seq<u8>) -> Result<Seq<u8>, Seq<char>> {
    Ok(payload)
}

/// The outcome of a payload that could not be restored, for the given reason.
pub open spec fn broken(reason: Seq<char>) -> Result<Seq<u8>, Seq<char>> {
    Err(reason)
}

/// Whether the compressor's output buffer for `n` bytes can be allocated.
pub open spec fn compressible(n: nat) -> bool {
    n * 110 <= usize::MAX && 24 + n * 110 / 100 <= isize::MAX
}

/// Whether the announced size of a packed byte string can be allocated.
pub open spec fn fits_memory(data: Seq<u8>) -> bool {
    data.len() >= 4 ==> codec::le_value(data.take(4)) <= isize::MAX
}

/// The sum of the bytes of a length field that begins at `i`: bytes of 255 and
/// one more.
pub open spec fn field_sum(s: Seq<u8>, i: int) -> nat
    decreases s.len() - i,
{
    if i < 0 || i >= s.len() {
        0
    } else if s[i] == 255 {
        255 + field_sum(s, i + 1)
    } else {
        s[i] as nat
    }
}

/// The place behind a length field that begins at `i`.
pub open spec fn field_end(s: Seq<u8>, i: int) -> int
    decreases s.len() - i,
{
    if i < 0 || i >= s.len() {
        s.len() as int
    } else if s[i] == 255 {
        field_end(s, i + 1)
    } else {
        i + 1
    }
}

/// The largest sum of a length field that the decoder can add up: in 32 bits, and
/// then to `more` in a machine word.
pub open spec fn max_field(more: nat) -> int {
    if usize::MAX - more < u32::MAX {
        usize::MAX - more
    } else {
        u32::MAX as int
    }
}

/// Whether the decoder can add up every length that it reads in an LZ4 block, from
/// the token at `i` on, with `done` of `size` bytes restored. A token is followed by
/// the length of its literals where its high half is 15, by the literals and, unless
/// the block ends there, by the offset of its match in two bytes and the length of
/// its match where its low half is 15. Where the decoder refuses the block for
/// another reason, it reads no further.
pub open spec fn lengths_fit(s: Seq<u8>, i: int, done: nat, size: nat) -> bool
    decreases s.len() - i,
{
    if i < 0 || i >= s.len() {
        true
    } else {
        let long_literals = s[i] / 16 == 15;
        let long_match = s[i] % 16 == 15;
        let from = if long_literals {
            field_end(s, i + 1)
        } else {
            i + 1
        };
        let literals = if long_literals {
            15 + field_sum(s, i + 1)
        } else {
            (s[i] / 16) as nat
        };
        let at = from + literals;
        let have = done + literals;
        if long_literals && field_sum(s, i + 1) > max_field(15) {
            false
        } else if at + 2 > s.len() || have > size {
            true
        } else {
            let offset = s[at] + 256 * s[at + 1];
            let matched = if long_match {
                19 + field_sum(s, at + 2)
            } else {
                4 + (s[i] % 16) as nat
            };
            let next = if long_match {
                field_end(s, at + 2)
            } else {
                at + 2
            };
            if offset == 0 {
                true
            } else if long_match && field_sum(s, at + 2) > max_field(have + 19) {
                false
            } else if have + matched > size || offset > have || !(i < next <= s.len()) {
                true
            } else {
                lengths_fit(s, next, have + matched, size)
            }
        }
    }
}

/// Whether the decoder can add up every length that it reads in a packed byte
/// string: an announced size in four bytes and an LZ4 block.
pub open spec fn can_be_read(s: Seq<u8>) -> bool {
    lengths_fit(s, 4, 0, codec::le_value(s.take(4)))
}

/// `lz4_flex::compress_prepend_size`: an LZ4 block behind the length of the
/// input in four bytes, the lowest first. As long as that length fits its four
/// bytes, unpacking gives the input back, and no length in the block, none of
/// which is over that of the input, is too large for the decoder to add up.
#[verifier::external_body]
fn lz4_pack(data: &[u8]) -> (out: Vec<u8>)
    requires
        compressible(data@.len()),
    ensures
        out@ == lz4_packed(data@),
        out@.len() >= 4,
        codec::le_value(out@.take(4)) == data@.len() % 0x1_0000_0000,
        data@.len() <= u32::MAX ==> lz4_unpacked(out@) == restored(data@),
        data@.len() <= u32::MAX ==> can_be_read(out@),
{
    lz4_flex::compress_prepend_size(data)
}

/// `lz4_flex::decompress_size_prepended`, with its error as text. It allocates
/// the size that the first four bytes announce. A length that cannot be added up
/// stops a build with overflow checks.
#[verifier::external_body]
fn lz4_unpack(data: &[u8]) -> (out: Result<Vec<u8>, String>)
    requires
        fits_memory(data@),
        can_be_read(data@),
    ensures
        match out {
            Ok(v) => lz4_unpacked(data@) == restored(v@),
            Err(e) => lz4_unpacked(data@) == broken(e@),
        },
{
    lz4_flex::decompress_size_prepended(data).map_err(|e| e.to_string())
}

/// Whether a payload is sent compressed: it is long enough and gets shorter.
pub open spec fn worth_packing(payload: Seq<u8>) -> bool {
    payload.len() >= COMPRESS_THRESHOLD && lz4_packed(payload).len() < payload.len()
}

/// A payload in the form in which it is sent.
pub open spec fn packed(payload: Seq<u8>) -> Seq<u8> {
    if worth_packing(payload) {
        lz4_packed(payload)
    } else {
        payload
    }
}

/// A payload that was received in the given form.
pub open spec fn unpacked(payload: Seq<u8>, compressed: bool) -> Result<Seq<u8>, Seq<char>> {
    if !compressed {
        Ok(payload)
    } else if !fits_memory(payload) {
        Err("announced size exceeds memory"@)
    } else if !can_be_read(payload) {
        Err("length out of range"@)
    } else {
        lz4_unpacked(payload)
    }
}

/// Reads the length field that begins at `i`: its sum and the place behind it, or
/// nothing where the sum is over `max`.
fn read_field(data: &[u8], i: usize, max: usize) -> (out: Option<(usize, usize)>)
    requires
        i <= data@.len(),
    ensures
        match out {
            Some((sum, end)) => {
                &&& sum == field_sum(data@, i as int) <= max
                &&& end == field_end(data@, i as int)
                &&& i <= end <= data@.len()
            },
            None => field_sum(data@, i as int) > max,
        },
{
    let mut sum: usize = 0;
    let mut at: usize = i;
    while at < data.len() && data[at] == 255
        invariant
            i <= at <= data@.len(),
            sum <= max,
            field_sum(data@, i as int) == sum + field_sum(data@, at as int),
            field_end(data@, i as int) == field_end(data@, at as int),
        decreases data@.len() - at,
    {
        if max - sum < 255 {
            return None;
        }
        sum = sum + 255;
        at = at + 1;
    }
    if at < data.len() {
        let last: usize = data[at] as usize;
        if max - sum < last {
            return None;
        }
        sum = sum + last;
        at = at + 1;
    }
    Some((sum, at))
}

/// The largest sum of a length field that is added to `more`.
fn field_limit(more: usize) -> (out: usize)
    ensures
        out == max_field(more as nat),
{
    let room: usize = usize::MAX - more;
    if room < u32::MAX as usize {
        room
    } else {
        u32::MAX as usize
    }
}

/// Whether every length that the decoder reads in the block behind the announced
/// size can be added up.
fn check_lengths(data: &[u8], size: usize) -> (out: bool)
    requires
        size <= isize::MAX,
    ensures
        out == lengths_fit(data@, 4, 0, size as nat),
{
    let mut i: usize = 4;
    let mut done: usize = 0;
    while i < data.len()
        invariant
            done <= size <= isize::MAX,
            lengths_fit(data@, 4, 0, size as nat) == lengths_fit(
                data@,
                i as int,
                done as nat,
                size as nat,
            ),
        decreases data@.len() - i,
    {
        let token: u8 = data[i];
        let mut literals: usize = (token / 16) as usize;
        let mut from: usize = i + 1;
        if literals == 15 {
            match read_field(data, from, field_limit(15)) {
                Some((sum, end)) => {
                    literals = 15 + sum;
                    from = end;
                },
                None => return false,
            }
        }
        if data.len() - from < 2 || data.len() - from - 2 < literals || size - done < literals {
            return true;
        }
        let at: usize = from + literals;
        let have: usize = done + literals;
        let offset: usize = data[at] as usize + 256 * data[at + 1] as usize;
        if offset == 0 {
            return true;
        }
        let mut matched: usize = 4 + (token % 16) as usize;
        let mut next: usize = at + 2;
        if token % 16 == 15 {
            match read_field(data, next, field_limit(have + 19)) {
                Some((sum, end)) => {
                    matched = 19 + sum;
                    next = end;
                },
                None => return false,
            }
        }
        if size - have < matched || offset > have {
            return true;
        }
        done = have + matched;
        i = next;
    }
    true
}

/// Compresses a payload that is worth it; the second part says whether it
/// did. What comes out unpacks to the payload.
pub fn maybe_compress(payload: Bytes) -> (out: (Bytes, bool))
    requires
        buffer::bytes_of(payload).len() >= COMPRESS_THRESHOLD ==> compressible(
            buffer::bytes_of(payload).len(),
        ),
    ensures
        out.1 == worth_packing(buffer::bytes_of(payload)),
        buffer::bytes_of(out.0) == packed(buffer::bytes_of(payload)),
        !out.1 ==> out.0 == payload,
        buffer::bytes_of(payload).len() <= u32::MAX ==> unpacked(buffer::bytes_of(out.0), out.1)
            == restored(buffer::bytes_of(payload)),
{
    let data: &[u8] = buffer::bytes_slice(&payload);
    if data.len() < COMPRESS_THRESHOLD {
        return (payload, false);
    }
    let compressed: Vec<u8> = lz4_pack(data);
    if compressed.len() < data.len() {
        (buffer::bytes_from_vec(compressed), true)
    } else {
        (payload, false)
    }
}

/// Undoes the compression of a payload that is marked as compressed.
pub fn maybe_decompress(payload: Bytes, compressed: bool) -> (out: Result<Bytes, String>)
    ensures
        match out {
            Ok(b) => unpacked(buffer::bytes_of(payload), compressed) == restored(
                buffer::bytes_of(b),
            ),
            Err(e) => unpacked(buffer::bytes_of(payload), compressed) == broken(e@),
        },
{
    if !compressed {
        return Ok(payload);
    }
    let data: &[u8] = buffer::bytes_slice(&payload);
    if data.len() >= 4 {
        let size: u64 = codec::read_le(data, 0, 4);
        assert(data@.subrange(0, 4) =~= data@.take(4));
        if size > isize::MAX as u64 {
            return Err(String::from_str("announced size exceeds memory"));
        }
        if !check_lengths(data, size as usize) {
            return Err(String::from_str("length out of range"));
        }
    }
    match lz4_unpack(data) {
        Ok(v) => Ok(buffer::bytes_from_vec(v)),
        Err(e) => Err(e),
    }
}

/// Compression never makes a payload longer.
pub proof fn packing_never_grows(payload: Seq<u8>)
    ensures
        packed(payload).len() <= payload.len(),
        payload.len() < COMPRESS_THRESHOLD ==> packed(payload) == payload,
{
}

/// A payload is compressed exactly where it has 512 bytes at least and the LZ4 form of it
/// is shorter; it is then sent in that form, and as it is otherwise. What was not
/// compressed is taken as it came.
pub proof fn only_what_gets_shorter_is_compressed(
    payload: Bytes,
    sent: (Bytes, bool),
    came: Bytes,
    back: Result<Bytes, String>,
)
    requires
        call_ensures(maybe_compress, (payload,), sent),
        call_ensures(maybe_decompress, (came, false), back),
    ensures
        ({
            let data = buffer::bytes_of(payload);
            let shorter = data.len() >= 512 && lz4_packed(data).len() < data.len();
            &&& sent.1 == shorter
            &&& buffer::bytes_of(sent.0) == if shorter {
                lz4_packed(data)
            } else {
                data
            }
        }),
        back matches Ok(b) && buffer::bytes_of(b) == buffer::bytes_of(came),
{
}

/// What came compressed is what LZ4 makes of all of it, unless its announced size is over
/// what memory can hold or a length in it cannot be added up: what it gives, or what it
/// complains of.
pub proof fn compressed_payloads_are_unpacked(came: Bytes, back: Result<Bytes, String>)
    requires
        call_ensures(maybe_decompress, (came, true), back),
        fits_memory(buffer::bytes_of(came)),
        can_be_read(buffer::bytes_of(came)),
    ensures
        match lz4_unpacked(buffer::bytes_of(came)) {
            Ok(data) => back matches Ok(b) && buffer::bytes_of(b) == data,
            Err(reason) => back matches Err(e) && e@ == reason,
        },
{
}

/// The sum of a length field is at most 255 for each byte that is left.
proof fn lemma_field_sum_is_bounded(s: Seq<u8>, i: int)
    ensures
        0 <= i <= s.len() ==> field_sum(s, i) <= 255 * (s.len() - i),
        !(0 <= i < s.len()) ==> field_sum(s, i) == 0,
    decreases s.len() - i,
{
    if 0 <= i < s.len() {
        lemma_field_sum_is_bounded(s, i + 1);
    }
}

/// No block is refused for its lengths that is too short to hold one that cannot be
/// added up in 32 bits and in a machine word.
pub proof fn short_blocks_are_not_refused_for_their_lengths(
    s: Seq<u8>,
    i: int,
    done: nat,
    size: nat,
)
    requires
        255 * s.len() <= u32::MAX,
        255 * s.len() + size + 19 <= usize::MAX,
        done <= size,
    ensures
        lengths_fit(s, i, done, size),
    decreases s.len() - i,
{
    if 0 <= i < s.len() {
        let long_literals = s[i] / 16 == 15;
        let from = if long_literals {
            field_end(s, i + 1)
        } else {
            i + 1
        };
        let literals = if long_literals {
            15 + field_sum(s, i + 1)
        } else {
            (s[i] / 16) as nat
        };
        let at = from + literals;
        let have = done + literals;
        let long_match = s[i] % 16 == 15;
        let matched = if long_match {
            19 + field_sum(s, at + 2)
        } else {
            4 + (s[i] % 16) as nat
        };
        let next = if long_match {
            field_end(s, at + 2)
        } else {
            at + 2
        };
        lemma_field_sum_is_bounded(s, i + 1);
        lemma_field_sum_is_bounded(s, at + 2);
        if have + matched <= size && i < next <= s.len() {
            short_blocks_are_not_refused_for_their_lengths(s, next, have + matched, size);
        }
    }
}

/// A length field whose bytes add up to more than 32 bits hold is refused, where the
/// decoder would come to it first.
pub proof fn lengths_that_overflow_are_refused(s: Seq<u8>)
    requires
        s.len() > 4,
        s[4] / 16 == 15,
        field_sum(s, 5) > u32::MAX,
    ensures
        !can_be_read(s),
        fits_memory(s) ==> unpacked(s, true) == broken("length out of range"@),
{
}

/// A size that 31 bits can hold is never too large.
pub proof fn ordinary_sizes_fit(s: Seq<u8>)
    requires
        s.len() >= 4,
        codec::le_value(s.take(4)) <= 0x7FFF_FFFF,
    ensures
        fits_memory(s),
{
}

/// A compressed payload that announces more than memory can hold is refused for that, and
/// one whose first length cannot be added up for that, whatever else is in it.
pub proof fn what_is_too_large_is_refused(came: Bytes, back: Result<Bytes, String>)
    requires
        call_ensures(maybe_decompress, (came, true), back),
        buffer::bytes_of(came).len() >= 4,
    ensures
        ({
            let data = buffer::bytes_of(came);
            let announced = codec::le_value(data.take(4));
            &&& announced > isize::MAX ==> (back matches Err(e) && e@
                == "announced size exceeds memory"@)
            &&& announced <= isize::MAX && data.len() > 4 && data[4] / 16 == 15 && field_sum(
                data,
                5,
            ) > u32::MAX ==> (back matches Err(e) && e@ == "length out of range"@)
            &&& announced <= isize::MAX && data.len() == 4 ==> match lz4_unpacked(data) {
                Ok(v) => back matches Ok(b) && buffer::bytes_of(b) == v,
                Err(reason) => back matches Err(e) && e@ == reason,
            }
        }),
{
}

/// Literals and a match that the decoder gets through do not matter for what comes behind
/// them: the block is refused for its lengths exactly where the rest of it is.
pub proof fn what_is_read_does_not_matter_for_the_rest(
    s: Seq<u8>,
    i: int,
    done: nat,
    size: nat,
    literals: nat,
    matched: nat,
)
    requires
        0 <= i,
        literals < 15,
        4 <= matched < 19,
        i + literals + 3 <= s.len(),
        s[i] == 16 * literals + matched - 4,
        1 <= s[i + 1 + literals] + 256 * s[i + 2 + literals] <= done + literals,
        done + literals + matched <= size,
    ensures
        lengths_fit(s, i, done, size) == lengths_fit(
            s,
            i + literals + 3,
            done + literals + matched,
            size,
        ),
{
}

/// The same of literals and a match whose lengths both go on in further bytes.
pub proof fn what_is_read_at_length_does_not_matter_for_the_rest(
    s: Seq<u8>,
    i: int,
    done: nat,
    size: nat,
    at: int,
    next: int,
)
    requires
        0 <= i < s.len(),
        s[i] == 255,
        at == field_end(s, i + 1) + 15 + field_sum(s, i + 1),
        i < at,
        at + 2 <= next <= s.len(),
        next == field_end(s, at + 2),
        1 <= s[at] + 256 * s[at + 1] <= done + 15 + field_sum(s, i + 1),
        done + 15 + field_sum(s, i + 1) + 19 + field_sum(s, at + 2) <= size,
        size <= u32::MAX,
    ensures
        lengths_fit(s, i, done, size) == lengths_fit(
            s,
            next,
            done + 15 + field_sum(s, i + 1) + 19 + field_sum(s, at + 2),
            size,
        ),
{
}

/// A length field is bytes of 255 and one more: it ends behind the first byte that is not
/// 255, and its sum is that of its bytes.
pub proof fn length_fields_end_at_the_first_smaller_byte(s: Seq<u8>, i: int, n: nat)
    requires
        0 <= i,
        i + n < s.len(),
        forall|j: int| i <= j < i + n ==> s[j] == 255,
        s[i + n] != 255,
    ensures
        field_end(s, i) == i + n + 1,
        field_sum(s, i) == 255 * n + s[i + n],
    decreases n,
{
    if n > 0 {
        length_fields_end_at_the_first_smaller_byte(s, i + 1, (n - 1) as nat);
    }
}

/// A payload whose compressed form can be addressed in 32 bits can be compressed.
pub proof fn ordinary_payloads_can_be_compressed(n: nat)
    requires
        n <= 39_045_157,
    ensures
        compressible(n),
{
}

} // verus!
