//! The two ends of a framed byte stream, without the stream: what was read and
//! not yet decoded, and what was encoded and not yet written.

use bytes::BytesMut;
use vstd::prelude::*;
use crate::buffer;
use crate::error::{CoreError, CoreFault};
use crate::frame;
use crate::frame::{Decoded, Frame, FrameView};

verus! {

/// The read end. The bytes that come from the stream are appended to `buf`.
pub struct FrameReader {
    pub buf: BytesMut,
    pub bytes_read: u64,
}

/// What became of reading from the stream.
#[derive(Debug, Clone, Copy, PartialEq, Eq, Structural)]
pub enum ReadStep {
    /// Bytes came; try to decode.
    More,
    /// The stream ended between two frames.
    Closed,
}

/// What the end of the stream means to a reader with the given bytes left: it may
/// only come between two frames.
pub open spec fn at_the_end(buffered: Seq<u8>) -> Result<ReadStep, CoreFault> {
    if buffered.len() == 0 {
        Ok(ReadStep::Closed)
    } else {
        Err(CoreFault::Incomplete)
    }
}

impl FrameReader {
    /// The bytes that wait to be decoded.
    pub open spec fn buffered(self) -> Seq<u8> {
        buffer::buffer_of(self.buf)
    }

    /// How many bytes came from the stream, as a counter of 64 bits.
    pub open spec fn total(self) -> u64 {
        self.bytes_read
    }

    /// Nothing was read.
    pub fn new() -> (out: FrameReader)
        ensures
            out.buffered() == Seq::<u8>::empty(),
            out.total() == 0,
    {
        FrameReader { buf: buffer::buffer_new(), bytes_read: 0 }
    }

    /// How many bytes came from the stream.
    pub fn bytes_read(&self) -> (out: u64)
        ensures
            out == self.total(),
    {
        self.bytes_read
    }

    /// Takes the next frame off what was read, without reading more.
    pub fn next_buffered(&mut self) -> (out: Result<Option<Frame>, CoreError>)
        ensures
            final(self).total() == old(self).total(),
            match frame::decoded(old(self).buffered()) {
                Decoded::Partial => {
                    &&& out matches Ok(None)
                    &&& final(self).buffered() == old(self).buffered()
                },
                Decoded::Bad(fault) => {
                    &&& out matches Err(e) && e@ == fault
                    &&& final(self).buffered() == old(self).buffered()
                },
                Decoded::Whole(f, used) => {
                    &&& out matches Ok(Some(g)) && g@ == f
                    &&& final(self).buffered() == old(self).buffered().skip(used)
                },
            },
    {
        Frame::decode(&mut self.buf)
    }

    /// Appends bytes that came from the stream.
    pub fn feed(&mut self, data: &[u8]) -> (out: Result<ReadStep, CoreError>)
        requires
            old(self).buffered().len() + data@.len() <= isize::MAX,
        ensures
            final(self).buffered() == old(self).buffered() + data@,
            final(self).total() == old(self).total().wrapping_add(data@.len() as u64),
            data@.len() > 0 ==> out == Ok::<ReadStep, CoreError>(ReadStep::More),
            data@.len() == 0 ==> match at_the_end(old(self).buffered()) {
                Ok(step) => out == Ok::<ReadStep, CoreError>(step),
                Err(fault) => out matches Err(e) && e@ == fault,
            },
    {
        buffer::buffer_put_slice(&mut self.buf, data);
        self.received(data.len())
    }

    /// Takes note that `n` bytes were appended to `buf`. None at all is the end
    /// of the stream, which may only come between two frames.
    pub fn received(&mut self, n: usize) -> (out: Result<ReadStep, CoreError>)
        ensures
            final(self).buffered() == old(self).buffered(),
            final(self).total() == old(self).total().wrapping_add(n as u64),
            n > 0 ==> out == Ok::<ReadStep, CoreError>(ReadStep::More),
            n == 0 ==> match at_the_end(old(self).buffered()) {
                Ok(step) => out == Ok::<ReadStep, CoreError>(step),
                Err(fault) => out matches Err(e) && e@ == fault,
            },
    {
        self.bytes_read = self.bytes_read.wrapping_add(n as u64);
        if n > 0 {
            return Ok(ReadStep::More);
        }
        if buffer::buffer_slice(&self.buf).len() == 0 {
            Ok(ReadStep::Closed)
        } else {
            Err(CoreError::Incomplete)
        }
    }
}

/// The write end.
pub struct FrameWriter {
    buf: BytesMut,
    bytes_written: u64,
}

impl FrameWriter {
    /// The bytes that wait to be written.
    pub closed spec fn queued(self) -> Seq<u8> {
        buffer::buffer_of(self.buf)
    }

    /// How many bytes were written to the stream, as a counter of 64 bits.
    pub closed spec fn total(self) -> u64 {
        self.bytes_written
    }

    /// Nothing was queued.
    pub fn new() -> (out: FrameWriter)
        ensures
            out.queued() == Seq::<u8>::empty(),
            out.total() == 0,
    {
        FrameWriter { buf: buffer::buffer_new(), bytes_written: 0 }
    }

    /// How many bytes were written to the stream.
    pub fn bytes_written(&self) -> (out: u64)
        ensures
            out == self.total(),
    {
        self.bytes_written
    }

    /// Puts a frame behind what waits to be written.
    pub fn queue(&mut self, frame: &Frame)
        requires
            old(self).queued().len() + frame@.encoded().len() <= isize::MAX,
        ensures
            final(self).queued() == old(self).queued() + frame@.encoded(),
            final(self).total() == old(self).total(),
    {
        proof {
            frame::lemma_encoded_len(frame@);
        }
        frame.encode(&mut self.buf);
    }

    /// What has to be written to the stream; nothing where it is empty.
    pub fn pending(&self) -> (out: &[u8])
        ensures
            out@ == self.queued(),
    {
        buffer::buffer_slice(&self.buf)
    }

    /// Takes note of what became of writing everything pending: that it was done,
    /// or why not. What was not written keeps waiting and does not count.
    pub fn written(&mut self, outcome: Result<(), String>) -> (out: Result<(), CoreError>)
        ensures
            match outcome {
                Ok(_) => {
                    &&& out is Ok
                    &&& final(self).queued() == Seq::<u8>::empty()
                    &&& final(self).total() == old(self).total().wrapping_add(
                        old(self).queued().len() as u64,
                    )
                },
                Err(reason) => {
                    &&& out matches Err(e) && e@ == CoreFault::Codec(reason@)
                    &&& final(self).queued() == old(self).queued()
                    &&& final(self).total() == old(self).total()
                },
            },
    {
        match outcome {
            Ok(_) => {
                let n: usize = buffer::buffer_slice(&self.buf).len();
                self.bytes_written = self.bytes_written.wrapping_add(n as u64);
                buffer::buffer_clear(&mut self.buf);
                Ok(())
            },
            Err(reason) => Err(CoreError::Codec(reason)),
        }
    }
}

/// Frames that are queued one after the other are what the other end decodes, in
/// the same order.
pub proof fn queued_frames_arrive_in_order(frames: Seq<FrameView>, next: FrameView)
    requires
        forall|i: int| 0 <= i < frames.len() ==> (#[trigger] frames[i]).fits(),
        next.fits(),
    ensures
        frame::stream(frames) + next.encoded() == frame::stream(frames.push(next)),
        frame::decoded_all(frame::stream(frames) + next.encoded()) == frames.push(next).map_values(
            |f: FrameView| f.received(),
        ),
{
    lemma_stream_grows(frames, next);
    frame::decode_undoes_a_stream(frames.push(next));
}

/// The pieces of a stream, one behind the other.
pub open spec fn joined_pieces(pieces: Seq<Seq<u8>>) -> Seq<u8>
    decreases pieces.len(),
{
    if pieces.len() == 0 {
        Seq::empty()
    } else {
        pieces[0] + joined_pieces(pieces.skip(1))
    }
}

/// The frames that a reader gives out, with `buffered` bytes at first, when it
/// takes the pieces one after the other and all whole frames after each.
pub open spec fn read_in_pieces(buffered: Seq<u8>, pieces: Seq<Seq<u8>>) -> Seq<FrameView>
    decreases pieces.len(),
{
    if pieces.len() == 0 {
        Seq::empty()
    } else {
        let have = buffered + pieces[0];
        frame::decoded_all(have) + read_in_pieces(frame::undecoded(have), pieces.skip(1))
    }
}

/// The bytes that a reader is left with after that.
pub open spec fn left_after_pieces(buffered: Seq<u8>, pieces: Seq<Seq<u8>>) -> Seq<u8>
    decreases pieces.len(),
{
    if pieces.len() == 0 {
        buffered
    } else {
        left_after_pieces(frame::undecoded(buffered + pieces[0]), pieces.skip(1))
    }
}

/// How many bytes a reader has counted after that, with `total` at first.
pub open spec fn total_after_pieces(total: u64, pieces: Seq<Seq<u8>>) -> u64
    decreases pieces.len(),
{
    if pieces.len() == 0 {
        total
    } else {
        total_after_pieces(total.wrapping_add(pieces[0].len() as u64), pieces.skip(1))
    }
}

/// Any number of frames and the first `n` bytes of one more, cut into any pieces: the
/// whole frames come out of a reader in their order, and the `n` bytes are left. The
/// end of the stream then is a clean one where there are none, and else an error. The
/// reader has counted the bytes of all pieces.
pub proof fn reader_gives_out_the_frames(
    frames: Seq<FrameView>,
    next: FrameView,
    n: int,
    pieces: Seq<Seq<u8>>,
)
    requires
        forall|i: int| 0 <= i < frames.len() ==> (#[trigger] frames[i]).fits(),
        next.fits(),
        0 <= n < next.encoded().len(),
        joined_pieces(pieces) == frame::stream(frames) + next.encoded().take(n),
    ensures
        read_in_pieces(Seq::empty(), pieces) == frames.map_values(|f: FrameView| f.received()),
        left_after_pieces(Seq::empty(), pieces) == next.encoded().take(n),
        at_the_end(left_after_pieces(Seq::empty(), pieces)) == if n == 0 {
            Ok::<ReadStep, CoreFault>(ReadStep::Closed)
        } else {
            Err::<ReadStep, CoreFault>(CoreFault::Incomplete)
        },
        joined_pieces(pieces).len() <= u64::MAX ==> total_after_pieces(0, pieces)
            == joined_pieces(pieces).len(),
{
    let none = Seq::<u8>::empty();
    let whole = frame::stream(frames);
    let part = next.encoded().take(n);
    frame::decode_undoes_a_stream(frames);
    lemma_nothing_is_left(frames);
    frame::decode_waits_for_the_whole_frame(next, n);
    frame::pieces_do_not_matter(whole, part);
    assert(none + part =~= part);
    assert(frame::decoded_all(whole + part) =~= frame::decoded_all(whole));
    lemma_undecoded_waits(none);
    lemma_pieces(none, pieces);
    assert(none + joined_pieces(pieces) =~= whole + part);
    if joined_pieces(pieces).len() <= u64::MAX {
        lemma_total(0, pieces);
    }
}

/// The bytes of the pieces are counted one piece after the other.
proof fn lemma_total(total: u64, pieces: Seq<Seq<u8>>)
    requires
        total + joined_pieces(pieces).len() <= u64::MAX,
    ensures
        total_after_pieces(total, pieces) == total + joined_pieces(pieces).len(),
    decreases pieces.len(),
{
    if pieces.len() > 0 {
        lemma_total((total + pieces[0].len()) as u64, pieces.skip(1));
    }
}

/// What a reader takes from a stream in pieces is what it would take at once.
proof fn lemma_pieces(buffered: Seq<u8>, pieces: Seq<Seq<u8>>)
    requires
        frame::decoded_all(buffered).len() == 0,
        frame::undecoded(buffered) == buffered,
    ensures
        read_in_pieces(buffered, pieces) == frame::decoded_all(buffered + joined_pieces(pieces)),
        left_after_pieces(buffered, pieces) == frame::undecoded(
            buffered + joined_pieces(pieces),
        ),
    decreases pieces.len(),
{
    if pieces.len() == 0 {
        assert(buffered + joined_pieces(pieces) =~= buffered);
        assert(read_in_pieces(buffered, pieces) =~= frame::decoded_all(buffered));
    } else {
        let have = buffered + pieces[0];
        let rest = joined_pieces(pieces.skip(1));
        assert(buffered + joined_pieces(pieces) =~= have + rest);
        lemma_undecoded_waits(have);
        lemma_pieces(frame::undecoded(have), pieces.skip(1));
        frame::pieces_do_not_matter(have, rest);
    }
}

/// What decoding leaves holds no whole frame at its front.
proof fn lemma_undecoded_waits(s: Seq<u8>)
    ensures
        frame::decoded_all(frame::undecoded(s)) == Seq::<FrameView>::empty(),
        frame::undecoded(frame::undecoded(s)) == frame::undecoded(s),
    decreases s.len(),
{
    match frame::decoded(s) {
        Decoded::Whole(_, used) => if 0 < used <= s.len() {
            lemma_undecoded_waits(s.skip(used));
        },
        _ => {},
    }
}

/// Decoding leaves nothing of a stream of frames.
proof fn lemma_nothing_is_left(frames: Seq<FrameView>)
    requires
        forall|i: int| 0 <= i < frames.len() ==> (#[trigger] frames[i]).fits(),
    ensures
        frame::undecoded(frame::stream(frames)) == Seq::<u8>::empty(),
    decreases frames.len(),
{
    if frames.len() > 0 {
        let rest = frames.skip(1);
        assert forall|i: int| 0 <= i < rest.len() implies (#[trigger] rest[i]).fits() by {
            assert(rest[i] == frames[i + 1]);
        }
        lemma_nothing_is_left(rest);
        frame::decode_undoes_encode(frames[0], frame::stream(rest));
        frame::lemma_encoded_len(frames[0]);
    }
}

proof fn lemma_stream_grows(frames: Seq<FrameView>, next: FrameView)
    ensures
        frame::stream(frames) + next.encoded() == frame::stream(frames.push(next)),
    decreases frames.len(),
{
    if frames.len() == 0 {
        assert(frames.push(next).skip(1) =~= Seq::<FrameView>::empty());
        assert(frame::stream(frames.push(next).skip(1)) =~= Seq::<u8>::empty());
        assert(frame::stream(frames) + next.encoded() =~= frame::stream(frames.push(next)));
    } else {
        lemma_stream_grows(frames.skip(1), next);
        assert(frames.push(next).skip(1) =~= frames.skip(1).push(next));
        assert(frame::stream(frames) + next.encoded() =~= frame::stream(frames.push(next)));
    }
}

/// What comes from the stream is added to what waits, and counted; the end of the stream is
/// clean exactly where nothing waits.
pub proof fn fed_bytes_wait(
    r: &mut FrameReader,
    data: &[u8],
    out: Result<ReadStep, CoreError>,
)
    requires
        call_ensures(FrameReader::feed, (r, data), out),
        r.total() + data@.len() <= u64::MAX,
    ensures
        final(r).buffered() == old(r).buffered() + data@,
        final(r).total() == old(r).total() + data@.len(),
        data@.len() > 0 ==> out matches Ok(ReadStep::More),
        data@.len() == 0 && old(r).buffered().len() == 0 ==> out matches Ok(ReadStep::Closed),
        data@.len() == 0 && old(r).buffered().len() > 0 ==> (out matches Err(e) && e is Incomplete),
{
}

/// A frame is taken off the front of what waits, and the rest goes on waiting.
pub proof fn read_frames_leave_the_rest(
    r: &mut FrameReader,
    out: Result<Option<Frame>, CoreError>,
)
    requires
        call_ensures(FrameReader::next_buffered, (r,), out),
    ensures
        out matches Ok(Some(f)) ==> f@.encoded() + final(r).buffered() == old(r).buffered(),
        !(out matches Ok(Some(_))) ==> final(r).buffered() == old(r).buffered(),
        final(r).total() == old(r).total(),
{
    let s = old(r).buffered();
    frame::decoded_frames_are_the_bytes_they_take(s);
    if let Decoded::Whole(f, used) = frame::decoded(s) {
        assert(s.take(used) + s.skip(used) =~= s);
    }
}

/// A frame that is queued waits behind what was queued before, and all of it is what has to
/// be written. Once that is done nothing waits and all of it is counted; where it failed,
/// all of it goes on waiting and none is counted.
pub proof fn queued_frames_wait_until_written(
    w: &mut FrameWriter,
    f: Frame,
    v: &mut FrameWriter,
    pending: &[u8],
    outcome: Result<(), String>,
    out: Result<(), CoreError>,
)
    requires
        call_ensures(FrameWriter::queue, (w, &f), ()),
        *v == *final(w),
        call_ensures(FrameWriter::pending, (&*v,), pending),
        call_ensures(FrameWriter::written, (v, outcome), out),
        v.total() + v.queued().len() <= u64::MAX,
    ensures
        pending@ == old(w).queued() + f@.encoded(),
        outcome is Ok ==> out is Ok && final(v).queued().len() == 0 && final(v).total() == old(
            w,
        ).total() + pending@.len(),
        outcome matches Err(m) ==> (out matches Err(CoreError::Codec(e)) && e@ == m@) && final(v).queued() == pending@ && final(v).total() == old(w).total(),
{
}

/// The counts are told as they are, and what was appended by the stream itself is counted
/// in the same way as what is fed.
pub proof fn counts_are_told(
    r: &mut FrameReader,
    n: usize,
    out: Result<ReadStep, CoreError>,
    reader: FrameReader,
    read: u64,
    writer: FrameWriter,
    wrote: u64,
)
    requires
        call_ensures(FrameReader::received, (r, n), out),
        call_ensures(FrameReader::bytes_read, (&reader,), read),
        call_ensures(FrameWriter::bytes_written, (&writer,), wrote),
        r.total() + n <= u64::MAX,
    ensures
        final(r).buffered() == old(r).buffered(),
        final(r).total() == old(r).total() + n,
        n > 0 ==> out matches Ok(ReadStep::More),
        n == 0 && old(r).buffered().len() == 0 ==> out matches Ok(ReadStep::Closed),
        n == 0 && old(r).buffered().len() > 0 ==> (out matches Err(e) && e is Incomplete),
        read == reader.total(),
        wrote == writer.total(),
{
}

} // verus!
