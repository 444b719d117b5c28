//! A byte stream over a session that sends and receives whole blocks of bytes.

use vstd::prelude::*;

verus! {

/// The read side of a stream over a session: what is left of the last block.
pub struct SessionStream<S> {
    session: S,
    pending: Vec<u8>,
    pos: usize,
}

impl<S> SessionStream<S> {
    pub closed spec fn wf(self) -> bool {
        self.pos <= self.pending@.len()
    }

    /// The session underneath.
    pub closed spec fn endpoint(self) -> S {
        self.session
    }

    /// The bytes that came and were not read yet.
    pub closed spec fn left(self) -> Seq<u8> {
        self.pending@.skip(self.pos as int)
    }

    /// A stream of which nothing was read.
    pub fn new(session: S) -> (out: SessionStream<S>)
        ensures
            out.wf(),
            out.endpoint() == session,
            out.left() == Seq::<u8>::empty(),
    {
        let out: SessionStream<S> = SessionStream { session, pending: Vec::new(), pos: 0 };
        assert(out.left() =~= Seq::<u8>::empty());
        out
    }

    /// The session underneath, to send and receive blocks with.
    pub fn session(&mut self) -> (out: &mut S)
        ensures
            *out == old(self).endpoint(),
            final(self).endpoint() == *final(out),
            final(self).left() == old(self).left(),
            old(self).wf() ==> final(self).wf(),
    {
        &mut self.session
    }

    /// Whether the next block is needed before anything can be read.
    pub fn needs_block(&self) -> (out: bool)
        requires
            self.wf(),
        ensures
            out == (self.left().len() == 0),
    {
        self.pos >= self.pending.len()
    }

    /// Takes the next block of the session.
    pub fn refill(&mut self, block: Vec<u8>)
        requires
            old(self).wf(),
            old(self).left().len() == 0,
        ensures
            final(self).wf(),
            final(self).endpoint() == old(self).endpoint(),
            final(self).left() == block@,
    {
        self.pending = block;
        self.pos = 0;
        assert(self.left() =~= block@);
    }

    /// Reads what is left of the block, but no more than there is room for.
    pub fn read(&mut self, room: usize) -> (out: Vec<u8>)
        requires
            old(self).wf(),
        ensures
            final(self).wf(),
            final(self).endpoint() == old(self).endpoint(),
            out@.len() == if room < old(self).left().len() {
                room as nat
            } else {
                old(self).left().len()
            },
            out@ + final(self).left() == old(self).left(),
    {
        let have: usize = self.pending.len() - self.pos;
        let n: usize = if room < have {
            room
        } else {
            have
        };
        let piece: &[u8] = vstd::slice::slice_subrange(
            self.pending.as_slice(),
            self.pos,
            self.pos + n,
        );
        let out: Vec<u8> = vstd::slice::slice_to_vec(piece);
        self.pos = self.pos + n;
        assert(out@ + self.left() =~= old(self).left());
        out
    }
}

/// A block is read as it came, in any pieces: what is read and what is left are together
/// what was there, and as much is read as there is room for.
pub proof fn blocks_are_read_in_pieces<S>(
    s: &mut SessionStream<S>,
    room: usize,
    out: Vec<u8>,
    t: &mut SessionStream<S>,
    block: Vec<u8>,
)
    requires
        call_ensures(SessionStream::<S>::read, (s, room), out),
        call_ensures(SessionStream::<S>::refill, (t, block), ()),
    ensures
        out@ + final(s).left() == old(s).left(),
        out@.len() == room || final(s).left().len() == 0,
        out@.len() <= room,
        final(s).endpoint() == old(s).endpoint(),
        final(t).left() == block@,
        final(t).endpoint() == old(t).endpoint(),
{
}

/// Another block is asked for exactly where nothing is left of the last; a new stream has
/// nothing.
pub proof fn blocks_are_asked_for_when_needed<S>(
    s: SessionStream<S>,
    out: bool,
    session: S,
    fresh: SessionStream<S>,
)
    requires
        call_ensures(SessionStream::<S>::needs_block, (&s,), out),
        call_ensures(SessionStream::<S>::new, (session,), fresh),
    ensures
        out <==> s.left().len() == 0,
        fresh.left().len() == 0,
        fresh.endpoint() == session,
{
}

} // verus!
