//! The shared-memory ring for large payloads.
//!
//! One side writes records into a ring that both sides map, and sends only a
//! reference of 12 bytes in the frame; the other side reads the records in the
//! order of the frames and gives their room back. The two cursors only ever
//! count up: `head` is behind the last record written, `tail` behind the last
//! record given back, and the place of a position in memory is its remainder by
//! the capacity. A record lies in one piece; where it would cross the end of the
//! memory it starts at the next lap. A record that finds no room is sent in its
//! frame.

use vstd::arithmetic::div_mod::*;
use vstd::prelude::*;
use crate::codec;

verus! {

/// The capacity of a ring, unless something else is asked for.
pub const DEFAULT_SHM_CAP: usize = 4_194_304;

/// The largest capacity of a ring.
pub const MAX_SHM_CAP: usize = 67_108_864;

/// The shortest payload that goes through a ring.
pub const SHM_THRESHOLD: usize = 16_384;

/// The room before the data of a mapped ring: the two cursors, each on cache
/// lines of its own.
pub const RING_HEADER: usize = 128;

/// The position at which a record of `len` bytes would start.
pub open spec fn start_of(cap: nat, head: nat, len: nat) -> nat {
    if head % cap + len > cap {
        (head + (cap - head % cap)) as nat
    } else {
        head
    }
}

/// The position that a record of `len` bytes gets, if there is room for it.
pub open spec fn room_for(cap: nat, head: nat, tail: nat, len: nat) -> Option<nat> {
    let pos = start_of(cap, head, len);
    if 0 < len <= cap && tail <= pos + len <= u64::MAX && pos + len - tail <= cap {
        Some(pos)
    } else {
        None
    }
}

/// Whether a record of `len` bytes at `offset` can have been written: it lies
/// in one piece and before `head`.
pub open spec fn readable(cap: nat, head: nat, offset: nat, len: nat) -> bool {
    0 < len <= cap && offset % cap + len <= cap && offset + len <= head
}

/// Where a record of `len` bytes is to be written, if there is room: at the
/// returned position, with `head` behind it afterwards.
pub fn plan_write(cap: usize, head: u64, tail: u64, len: usize) -> (out: Option<u64>)
    requires
        cap > 0,
    ensures
        match out {
            Some(pos) => room_for(cap as nat, head as nat, tail as nat, len as nat) == Some(
                pos as nat,
            ),
            None => room_for(cap as nat, head as nat, tail as nat, len as nat) is None,
        },
{
    if len == 0 || len > cap {
        return None;
    }
    let capacity: u64 = cap as u64;
    let size: u64 = len as u64;
    let at: u64 = head % capacity;
    let skip: u64 = if size > capacity - at {
        capacity - at
    } else {
        0
    };
    if skip > u64::MAX - head {
        return None;
    }
    let pos: u64 = head + skip;
    if size > u64::MAX - pos {
        return None;
    }
    let end: u64 = pos + size;
    if tail > end || end - tail > capacity {
        return None;
    }
    Some(pos)
}

/// Whether a record of `len` bytes at `offset` can be read; `tail` is behind it
/// afterwards.
pub fn plan_read(cap: usize, head: u64, offset: u64, len: usize) -> (out: bool)
    requires
        cap > 0,
    ensures
        out == readable(cap as nat, head as nat, offset as nat, len as nat),
{
    if len == 0 || len > cap {
        return false;
    }
    let capacity: u64 = cap as u64;
    let size: u64 = len as u64;
    if size > capacity - offset % capacity {
        return false;
    }
    size <= head && offset <= head - size
}

/// A ring in the memory of this process.
pub struct ShmRing {
    data: Vec<u8>,
    head: u64,
    tail: u64,
}

/// A ring as its memory and its two cursors.
#[verifier::ext_equal]
pub struct RingView {
    pub bytes: Seq<u8>,
    pub head: nat,
    pub tail: nat,
}

impl RingView {
    /// The capacity.
    pub open spec fn cap(self) -> nat {
        self.bytes.len()
    }

    /// The capacity is within its limits and nothing was given back that was
    /// not written.
    pub open spec fn wf(self) -> bool {
        0 < self.cap() <= MAX_SHM_CAP && self.tail <= self.head
    }

    /// The `len` bytes at a position.
    pub open spec fn at(self, offset: nat, len: nat) -> Seq<u8> {
        self.bytes.subrange((offset % self.cap()) as int, (offset % self.cap() + len) as int)
    }

    /// The position that a record would get.
    pub open spec fn room(self, len: nat) -> Option<nat> {
        room_for(self.cap(), self.head, self.tail, len)
    }

    /// The ring after a record was written at `pos`.
    pub open spec fn written(self, pos: nat, data: Seq<u8>) -> RingView {
        let from = (pos % self.cap()) as int;
        RingView {
            bytes: self.bytes.take(from) + data + self.bytes.skip(from + data.len()),
            head: pos + data.len(),
            tail: self.tail,
        }
    }

    /// The ring after the records up to `end` were given back.
    pub open spec fn released(self, end: nat) -> RingView {
        RingView { tail: end, ..self }
    }

    /// Whether a record is in the ring, complete and not given back.
    pub open spec fn holds(self, offset: nat, data: Seq<u8>) -> bool {
        &&& readable(self.cap(), self.head, offset, data.len())
        &&& self.tail <= offset
        &&& self.at(offset, data.len()) == data
    }
}

impl View for ShmRing {
    type V = RingView;

    closed spec fn view(&self) -> RingView {
        RingView { bytes: self.data@, head: self.head as nat, tail: self.tail as nat }
    }
}

impl ShmRing {
    /// An empty ring.
    pub fn create(cap: usize) -> (out: ShmRing)
        requires
            0 < cap <= MAX_SHM_CAP,
        ensures
            out@.wf(),
            out@.cap() == cap,
            out@.head == 0,
            out@.tail == 0,
    {
        let mut data: Vec<u8> = Vec::new();
        data.resize(cap, 0);
        ShmRing { data, head: 0, tail: 0 }
    }

    /// The number of bytes that the ring has room for.
    pub fn capacity(&self) -> (out: usize)
        ensures
            out == self@.cap(),
    {
        self.data.len()
    }

    /// Writes a record and returns its position, or `None` where there is no
    /// room.
    pub fn try_write(&mut self, data: &[u8]) -> (out: Option<u64>)
        requires
            old(self)@.wf(),
        ensures
            final(self)@.wf(),
            match out {
                Some(pos) => {
                    &&& old(self)@.room(data@.len()) == Some(pos as nat)
                    &&& final(self)@ == old(self)@.written(pos as nat, data@)
                },
                None => old(self)@.room(data@.len()) is None && final(self)@ == old(self)@,
            },
    {
        let cap: usize = self.data.len();
        let len: usize = data.len();
        match plan_write(cap, self.head, self.tail, len) {
            None => None,
            Some(pos) => {
                let from: usize = (pos % cap as u64) as usize;
                proof {
                    lemma_start_fits(cap as nat, self.head as nat, len as nat);
                }
                let ghost before = self.data@;
                let mut i: usize = 0;
                while i < len
                    invariant
                        i <= len,
                        len == data@.len(),
                        self.data@.len() == before.len() == cap,
                        from + len <= cap,
                        self.head == old(self).head,
                        self.tail == old(self).tail,
                        forall|k: int|
                            0 <= k < cap ==> #[trigger] self.data@[k] == if from <= k < from + i {
                                data@[k - from]
                            } else {
                                before[k]
                            },
                    decreases len - i,
                {
                    self.data.set(from + i, data[i]);
                    i = i + 1;
                }
                self.head = pos + len as u64;
                assert(self@.bytes =~= old(self)@.written(pos as nat, data@).bytes);
                Some(pos)
            },
        }
    }

    /// Reads a record and gives its room back, with that of every record before
    /// it; `None` where the reference cannot be right.
    pub fn read_release(&mut self, offset: u64, len: usize) -> (out: Option<Vec<u8>>)
        requires
            old(self)@.wf(),
        ensures
            final(self)@.wf(),
            match out {
                Some(v) => {
                    &&& readable(old(self)@.cap(), old(self)@.head, offset as nat, len as nat)
                    &&& v@ == old(self)@.at(offset as nat, len as nat)
                    &&& final(self)@ == old(self)@.released((offset + len) as nat)
                },
                None => {
                    &&& !readable(old(self)@.cap(), old(self)@.head, offset as nat, len as nat)
                    &&& final(self)@ == old(self)@
                },
            },
    {
        let cap: usize = self.data.len();
        if !plan_read(cap, self.head, offset, len) {
            return None;
        }
        let from: usize = (offset % cap as u64) as usize;
        let piece: &[u8] = vstd::slice::slice_subrange(self.data.as_slice(), from, from + len);
        let out: Vec<u8> = vstd::slice::slice_to_vec(piece);
        self.tail = offset + len as u64;
        Some(out)
    }
}

/// A record that is given a position lies in one piece there.
proof fn lemma_start_fits(cap: nat, head: nat, len: nat)
    requires
        cap > 0,
        len <= cap,
    ensures
        start_of(cap, head, len) % cap + len <= cap,
        start_of(cap, head, len) >= head,
{
    if head % cap + len > cap {
        let r = head % cap;
        let q = head / cap;
        lemma_fundamental_div_mod(head as int, cap as int);
        assert(head + (cap - r) == cap * (q + 1)) by (nonlinear_arith)
            requires
                head == cap * q + r,
        ;
        lemma_mod_multiples_basic((q + 1) as int, cap as int);
        assert(cap * (q + 1) == (q + 1) * cap) by (nonlinear_arith);
    }
}

/// A record that was written can be read back as it was.
pub proof fn written_record_is_held(r: RingView, pos: nat, data: Seq<u8>)
    requires
        r.wf(),
        r.room(data.len()) == Some(pos),
    ensures
        r.written(pos, data).wf(),
        r.written(pos, data).cap() == r.cap(),
        r.written(pos, data).holds(pos, data),
{
    lemma_start_fits(r.cap(), r.head, data.len());
    let w = r.written(pos, data);
    assert(w.bytes.len() == r.bytes.len());
    assert(w.at(pos, data.len()) =~= data);
}

/// Positions less than a capacity apart lie in different places.
proof fn lemma_places_differ(x: nat, y: nat, cap: nat)
    requires
        cap > 0,
        x < y < x + cap,
    ensures
        x % cap != y % cap,
{
    if x % cap == y % cap {
        lemma_fundamental_div_mod(x as int, cap as int);
        lemma_fundamental_div_mod(y as int, cap as int);
        let d = y / cap - x / cap;
        assert(y - x == cap * d) by (nonlinear_arith)
            requires
                x == cap * (x / cap) + x % cap,
                y == cap * (y / cap) + y % cap,
                x % cap == y % cap,
                d == y / cap - x / cap,
        ;
        assert(d >= 1 ==> cap * d >= cap) by (nonlinear_arith)
            requires
                cap > 0,
        ;
        assert(d <= 0 ==> cap * d <= 0) by (nonlinear_arith)
            requires
                cap > 0,
        ;
    }
}

/// The place of a position inside a record that lies in one piece.
proof fn lemma_place_inside(offset: nat, i: nat, cap: nat)
    requires
        cap > 0,
        offset % cap + i < cap,
    ensures
        (offset + i) % cap == offset % cap + i,
{
    lemma_fundamental_div_mod(offset as int, cap as int);
    let q = offset / cap;
    let r = offset % cap + i;
    assert(cap * q == q * cap) by (nonlinear_arith);
    lemma_fundamental_div_mod_converse((offset + i) as int, cap as int, q as int, r as int);
}

/// Writing a record leaves every record alone that was not given back.
pub proof fn write_keeps_held_records(
    r: RingView,
    pos: nat,
    data: Seq<u8>,
    offset: nat,
    record: Seq<u8>,
)
    requires
        r.wf(),
        r.room(data.len()) == Some(pos),
        r.holds(offset, record),
    ensures
        r.written(pos, data).holds(offset, record),
{
    let cap = r.cap();
    let w = r.written(pos, data);
    lemma_start_fits(cap, r.head, data.len());
    assert(w.bytes.len() == r.bytes.len());
    assert forall|i: int| 0 <= i < record.len() implies #[trigger] w.at(offset, record.len())[i]
        == record[i] by {
        let place = (offset % cap + i) as int;
        lemma_place_inside(offset, i as nat, cap);
        let from = (pos % cap) as int;
        assert(r.at(offset, record.len())[i] == record[i]);
        if from <= place < from + data.len() {
            let j = (place - from) as nat;
            lemma_place_inside(pos, j, cap);
            lemma_places_differ((offset + i) as nat, pos + j, cap);
        }
    }
    assert(w.at(offset, record.len()) =~= record);
}

/// Reading a held record returns it and keeps every record behind it.
pub proof fn read_returns_held_records(
    r: RingView,
    offset: nat,
    record: Seq<u8>,
    later: nat,
    next: Seq<u8>,
)
    requires
        r.wf(),
        r.holds(offset, record),
        offset + record.len() <= later,
        r.holds(later, next),
    ensures
        readable(r.cap(), r.head, offset, record.len()),
        r.at(offset, record.len()) == record,
        r.released(offset + record.len()).wf(),
        r.released(offset + record.len()).holds(later, next),
{
}

/// Whether these records are in the ring, in the order in which they were
/// written; each is given with its position.
pub open spec fn lined_up(r: RingView, records: Seq<(nat, Seq<u8>)>) -> bool {
    &&& forall|i: int|
        0 <= i < records.len() ==> r.holds((#[trigger] records[i]).0, records[i].1)
    &&& forall|i: int, j: int|
        0 <= i < j < records.len() ==> (#[trigger] records[i]).0 + records[i].1.len() <= (
        #[trigger] records[j]).0
}

/// The ring is a queue: a record that is written is behind all others, and
/// reading the first one returns it and leaves the others in their order.
pub proof fn ring_is_a_queue(
    r: RingView,
    records: Seq<(nat, Seq<u8>)>,
    pos: nat,
    data: Seq<u8>,
)
    requires
        r.wf(),
        lined_up(r, records),
    ensures
        r.room(data.len()) == Some(pos) ==> lined_up(
            r.written(pos, data),
            records.push((pos, data)),
        ),
        records.len() > 0 ==> {
            let first = records[0];
            &&& readable(r.cap(), r.head, first.0, first.1.len())
            &&& r.at(first.0, first.1.len()) == first.1
            &&& lined_up(r.released(first.0 + first.1.len()), records.skip(1))
        },
{
    if r.room(data.len()) == Some(pos) {
        let w = r.written(pos, data);
        let more = records.push((pos, data));
        written_record_is_held(r, pos, data);
        lemma_start_fits(r.cap(), r.head, data.len());
        assert forall|i: int| 0 <= i < more.len() implies w.holds(
            (#[trigger] more[i]).0,
            more[i].1,
        ) by {
            if i < records.len() {
                assert(more[i] == records[i]);
                write_keeps_held_records(r, pos, data, records[i].0, records[i].1);
            }
        }
        assert forall|i: int, j: int| 0 <= i < j < more.len() implies (#[trigger] more[i]).0
            + more[i].1.len() <= (#[trigger] more[j]).0 by {
            assert(more[i] == records[i]);
            assert(r.holds(records[i].0, records[i].1));
            if j < records.len() {
                assert(more[j] == records[j]);
            }
        }
    }
    if records.len() > 0 {
        let first = records[0];
        let rest = records.skip(1);
        let after = r.released(first.0 + first.1.len());
        assert(r.holds(first.0, first.1));
        assert forall|i: int| 0 <= i < rest.len() implies after.holds(
            (#[trigger] rest[i]).0,
            rest[i].1,
        ) by {
            assert(rest[i] == records[i + 1]);
        }
        assert forall|i: int, j: int| 0 <= i < j < rest.len() implies (#[trigger] rest[i]).0
            + rest[i].1.len() <= (#[trigger] rest[j]).0 by {
            assert(rest[i] == records[i + 1]);
            assert(rest[j] == records[j + 1]);
        }
    }
}

/// A ring whose records were all given back takes every record that fits
/// without crossing its end, or before the cursors on the next lap.
pub proof fn drained_ring_has_room(r: RingView, len: nat)
    requires
        r.wf(),
        r.tail == r.head,
        r.head + 2 * r.cap() <= u64::MAX,
        0 < len <= r.cap(),
    ensures
        r.room(len) is Some <==> (r.head % r.cap() + len <= r.cap() || len <= r.head % r.cap()),
{
}

/// A ring without enough room writes nothing: a record is never written over
/// one that was not given back.
pub proof fn full_ring_has_no_room(r: RingView, len: nat)
    requires
        r.wf(),
        r.head + len - r.tail > r.cap(),
    ensures
        r.room(len) is None,
{
}

/// A reference into a ring on the wire.
pub open spec fn shm_ref_bytes(offset: u64, len: u32) -> Seq<u8> {
    codec::le_bytes(offset as nat, 8) + codec::le_bytes(len as nat, 4)
}

/// The reference that a payload carries.
pub open spec fn shm_ref_of(payload: Seq<u8>) -> Option<(u64, u32)> {
    if payload.len() == 12 {
        Some(
            (
                codec::le_value(payload.subrange(0, 8)) as u64,
                codec::le_value(payload.subrange(8, 12)) as u32,
            ),
        )
    } else {
        None
    }
}

/// Writes a reference.
pub fn encode_shm_ref(offset: u64, len: u32) -> (out: [u8; 12])
    ensures
        out@ == shm_ref_bytes(offset, len),
{
    let mut parts: Vec<u8> = Vec::new();
    codec::push_le(&mut parts, offset, 8);
    codec::push_le(&mut parts, len as u64, 4);
    proof {
        codec::lemma_le_bytes_len(offset as nat, 8);
        codec::lemma_le_bytes_len(len as nat, 4);
        assert(parts@ =~= shm_ref_bytes(offset, len));
    }
    let mut out: [u8; 12] = [0u8;12];
    let mut i: usize = 0;
    while i < 12
        invariant
            i <= 12,
            parts@.len() == 12,
            forall|k: int| 0 <= k < i ==> out@[k] == parts@[k],
        decreases 12 - i,
    {
        out[i] = parts[i];
        i = i + 1;
    }
    assert(out@ =~= parts@);
    out
}

/// Reads a reference; `None` where the payload has another length.
pub fn decode_shm_ref(payload: &[u8]) -> (out: Option<(u64, u32)>)
    ensures
        out == shm_ref_of(payload@),
{
    if payload.len() != 12 {
        return None;
    }
    let offset: u64 = codec::read_le(payload, 0, 8);
    let len: u64 = codec::read_le(payload, 8, 4);
    proof {
        codec::lemma_byte_spans();
    }
    Some((offset, len as u32))
}

/// Reading undoes writing a reference.
pub proof fn shm_ref_round_trip(offset: u64, len: u32)
    ensures
        shm_ref_of(shm_ref_bytes(offset, len)) == Some((offset, len)),
{
    codec::lemma_byte_spans();
    codec::le_bytes_then_value(offset as nat, 8);
    codec::le_bytes_then_value(len as nat, 4);
    let b = shm_ref_bytes(offset, len);
    assert(b.subrange(0, 8) =~= codec::le_bytes(offset as nat, 8));
    assert(b.subrange(8, 12) =~= codec::le_bytes(len as nat, 4));
}

/// Whether a ring of the given capacity may be mapped.
pub fn valid_cap(cap: usize) -> (out: bool)
    ensures
        out == (0 < cap <= MAX_SHM_CAP),
{
    cap != 0 && cap <= MAX_SHM_CAP
}

/// What became of an attempt to send one byte, with a file descriptor or
/// without.
#[derive(Debug, Clone, Copy, PartialEq, Eq, Structural)]
pub enum SendStep {
    Sent,
    /// Wait until the socket takes data, then try again.
    Wait,
    /// Give up with the error of the operating system.
    Failed,
}

/// What to do after an attempt to send: `n` is the result of the call and
/// `would_block` whether its error was that the socket is not ready.
pub fn send_step(n: isize, would_block: bool) -> (out: SendStep)
    ensures
        out == (if n >= 0 {
            SendStep::Sent
        } else if would_block {
            SendStep::Wait
        } else {
            SendStep::Failed
        }),
{
    if n >= 0 {
        SendStep::Sent
    } else if would_block {
        SendStep::Wait
    } else {
        SendStep::Failed
    }
}

/// What became of an attempt to receive a file descriptor.
#[derive(Debug, Clone, Copy, PartialEq, Eq, Structural)]
pub enum RecvStep {
    /// Wait until the socket has data, then try again.
    Wait,
    /// Give up with the error of the operating system.
    Failed,
    /// The other side closed the connection.
    Closed,
    /// The other side has no descriptor to give.
    Declined,
    /// The message came without a descriptor.
    NoFd,
    /// The descriptor is no descriptor.
    BadFd,
    Accepted,
}

/// What an attempt to receive means: the result of the call, whether its error
/// was that the socket is not ready, the byte that came, and the descriptor
/// that came with it, if any.
pub open spec fn received(n: isize, would_block: bool, byte: u8, fd: Option<i32>) -> RecvStep {
    if n < 0 {
        if would_block {
            RecvStep::Wait
        } else {
            RecvStep::Failed
        }
    } else if n == 0 {
        RecvStep::Closed
    } else if byte == 0 {
        RecvStep::Declined
    } else {
        match fd {
            None => RecvStep::NoFd,
            Some(d) => if d < 0 {
                RecvStep::BadFd
            } else {
                RecvStep::Accepted
            },
        }
    }
}

/// What to do after an attempt to receive a file descriptor.
pub fn recv_step(n: isize, would_block: bool, byte: u8, fd: Option<i32>) -> (out: RecvStep)
    ensures
        out == received(n, would_block, byte, fd),
{
    if n < 0 {
        if would_block {
            RecvStep::Wait
        } else {
            RecvStep::Failed
        }
    } else if n == 0 {
        RecvStep::Closed
    } else if byte == 0 {
        RecvStep::Declined
    } else {
        match fd {
            None => RecvStep::NoFd,
            Some(d) => if d < 0 {
                RecvStep::BadFd
            } else {
                RecvStep::Accepted
            },
        }
    }
}

/// What became of waiting for a socket.
#[derive(Debug, Clone, Copy, PartialEq, Eq, Structural)]
pub enum PollStep {
    Ready,
    TimedOut,
    /// Give up with the error of the operating system.
    Failed,
}

/// For how long a socket is waited for, in milliseconds.
pub const FD_EXCHANGE_TIMEOUT_MS: i32 = 5000;

/// What to do after waiting for a socket: `r` is the result of the call.
pub fn poll_step(r: i32) -> (out: PollStep)
    ensures
        out == (if r < 0 {
            PollStep::Failed
        } else if r == 0 {
            PollStep::TimedOut
        } else {
            PollStep::Ready
        }),
{
    if r < 0 {
        PollStep::Failed
    } else if r == 0 {
        PollStep::TimedOut
    } else {
        PollStep::Ready
    }
}

/// A record gets the place right behind the last one where it fits before the end of the
/// memory, and the beginning of the next lap where it does not. It gets it exactly where
/// from there to what was not given back there is room for all of it.
pub proof fn records_get_the_next_place_that_is_free(
    cap: usize,
    head: u64,
    tail: u64,
    len: usize,
    out: Option<u64>,
)
    requires
        call_ensures(plan_write, (cap, head, tail, len), out),
        0 < cap,
        tail <= head,
        head + 2 * cap <= u64::MAX,
    ensures
        ({
            let at = head as int % cap as int;
            let pos = if at + len <= cap {
                head as int
            } else {
                head + cap - at
            };
            match out {
                Some(p) => p == pos && 0 < len <= cap && pos + len - tail <= cap,
                None => len == 0 || len > cap || pos + len - tail > cap,
            }
        }),
{
}

/// A record can be read exactly where it lies in one piece within the memory and before
/// the end of what was written.
pub proof fn records_are_read_where_they_were_written(
    cap: usize,
    head: u64,
    offset: u64,
    len: usize,
    out: bool,
)
    requires
        call_ensures(plan_read, (cap, head, offset, len), out),
        0 < cap,
    ensures
        out <==> 0 < len <= cap && offset as int % cap as int + len <= cap && offset + len <= head,
{
}

/// Writing a record puts its bytes one behind the other from its place on and changes no
/// other byte; the next record goes behind it, and nothing is given back.
pub proof fn writing_touches_nothing_else(r: RingView, pos: nat, data: Seq<u8>, i: int)
    requires
        r.wf(),
        r.room(data.len()) == Some(pos),
        0 <= i < r.bytes.len(),
    ensures
        ({
            let w = r.written(pos, data);
            let from = pos as int % r.bytes.len() as int;
            &&& w.bytes.len() == r.bytes.len()
            &&& w.bytes[i] == if from <= i < from + data.len() {
                data[i - from]
            } else {
                r.bytes[i]
            }
            &&& w.head == pos + data.len()
            &&& w.tail == r.tail
        }),
{
    lemma_start_fits(r.cap(), r.head, data.len());
}

/// What is read of a record are the bytes from its place on. Giving it back changes
/// nothing but how far has been given back: up to its end.
pub proof fn reading_gives_the_bytes_at_the_place(
    r: RingView,
    offset: nat,
    len: nat,
    i: int,
    end: nat,
)
    requires
        r.wf(),
        readable(r.cap(), r.head, offset, len),
        0 <= i < len,
    ensures
        r.at(offset, len).len() == len,
        r.at(offset, len)[i] == r.bytes[offset as int % r.bytes.len() as int + i],
        r.released(end).tail == end,
        r.released(end).head == r.head,
        r.released(end).bytes == r.bytes,
{
}

/// A new ring is empty and has the capacity that was asked for; capacities go up to 64
/// MiB, and a ring has 4 MiB unless something else is asked for.
pub proof fn new_rings_are_empty(cap: usize, r: ShmRing, valid: bool, len: nat)
    requires
        call_ensures(ShmRing::create, (cap,), r),
        0 < cap <= 67_108_864,
        call_ensures(valid_cap, (len as usize,), valid),
        len <= usize::MAX,
    ensures
        r@.bytes.len() == cap,
        r@.head == 0 && r@.tail == 0,
        0 < len <= cap ==> r@.room(len) == Some(0nat),
        valid <==> 0 < len <= 67_108_864,
        DEFAULT_SHM_CAP == 4_194_304,
        SHM_THRESHOLD == 16_384,
        FD_EXCHANGE_TIMEOUT_MS == 5000,
{
}

/// A reference is the position in eight bytes and the length in four, the lowest byte
/// first, and is read as it was written; nothing but 12 bytes is a reference.
pub proof fn references_are_place_and_length(
    offset: u64,
    len: u32,
    out: [u8; 12],
    payload: &[u8],
    back: Option<(u64, u32)>,
)
    requires
        call_ensures(encode_shm_ref, (offset, len), out),
        call_ensures(decode_shm_ref, (payload,), back),
    ensures
        codec::le_value(out@.subrange(0, 8)) == offset,
        codec::le_value(out@.subrange(8, 12)) == len,
        payload@ == out@ ==> back == Some((offset, len)),
        back is Some <==> payload@.len() == 12,
{
    codec::lemma_byte_spans();
    codec::le_bytes_then_value(offset as nat, 8);
    codec::le_bytes_then_value(len as nat, 4);
    assert(out@.subrange(0, 8) =~= codec::le_bytes(offset as nat, 8));
    assert(out@.subrange(8, 12) =~= codec::le_bytes(len as nat, 4));
    shm_ref_round_trip(offset, len);
}

/// A descriptor is accepted exactly where a message came, its byte is not zero, and a
/// descriptor that is one came with it. Where nothing came the reason is told: the socket
/// is not ready, failed, or was closed; where something came, what was wrong with it.
pub proof fn descriptors_are_taken_with_care(
    n: isize,
    would_block: bool,
    byte: u8,
    fd: Option<i32>,
    out: RecvStep,
)
    requires
        call_ensures(recv_step, (n, would_block, byte, fd), out),
    ensures
        out is Accepted <==> n > 0 && byte != 0 && fd is Some && fd->Some_0 >= 0,
        out is Wait <==> n < 0 && would_block,
        out is Failed <==> n < 0 && !would_block,
        out is Closed <==> n == 0,
        out is Declined <==> n > 0 && byte == 0,
        out is NoFd <==> n > 0 && byte != 0 && fd is None,
        out is BadFd <==> n > 0 && byte != 0 && fd is Some && fd->Some_0 < 0,
{
}

/// A record is written where there is room for it, right behind the last one or at the
/// beginning of the next lap, and reading it where it was written gives it back whole and
/// gives its room back. `r` is the ring of the write and `d` the same ring when it is read.
pub proof fn written_records_are_read_back(
    r: &mut ShmRing,
    d: &mut ShmRing,
    data: &[u8],
    pos: u64,
    out: Option<Vec<u8>>,
)
    requires
        r@.wf(),
        call_ensures(ShmRing::try_write, (r, data), Some(pos)),
        d@ == final(r)@,
        call_ensures(ShmRing::read_release, (d, pos, data@.len() as usize), out),
        data@.len() <= usize::MAX,
    ensures
        out matches Some(v) && v@ == data@,
        final(d)@.tail == pos + data@.len(),
        final(d)@.head == pos + data@.len(),
        final(d)@.bytes == final(r)@.bytes,
{
    written_record_is_held(old(r)@, pos as nat, data@);
}

/// Whether there is room for a record is decided by its length, the cursors and the
/// capacity alone. A record that finds none changes nothing.
pub proof fn records_find_room_where_there_is(r: &mut ShmRing, data: &[u8], out: Option<u64>)
    requires
        r@.wf(),
        r@.head + 2 * r@.bytes.len() <= u64::MAX,
        call_ensures(ShmRing::try_write, (r, data), out),
    ensures
        ({
            let cap = old(r)@.bytes.len() as int;
            let len = data@.len();
            let at = old(r)@.head as int % cap;
            let pos = if at + len <= cap {
                old(r)@.head as int
            } else {
                old(r)@.head + cap - at
            };
            &&& out is Some <==> 0 < len <= cap && pos + len - old(r)@.tail <= cap
            &&& out matches Some(p) ==> p == pos
            &&& out is None ==> final(r)@ == old(r)@
        }),
{
}

/// Nothing comes of a reference that cannot have been written, and it changes nothing.
pub proof fn wrong_references_give_nothing(
    r: &mut ShmRing,
    offset: u64,
    len: usize,
    out: Option<Vec<u8>>,
)
    requires
        r@.wf(),
        call_ensures(ShmRing::read_release, (r, offset, len), out),
    ensures
        ({
            let cap = old(r)@.bytes.len() as int;
            let good = 0 < len <= cap && offset as int % cap + len <= cap && offset + len
                <= old(r)@.head;
            &&& out is Some <==> good
            &&& !good ==> final(r)@ == old(r)@
            &&& good ==> final(r)@.tail == offset + len && final(r)@.head == old(r)@.head
                && final(r)@.bytes == old(r)@.bytes
        }),
{
}

/// What becomes of sending and of waiting goes by the result of the call: it went, or the
/// socket is not ready, or it failed; it is ready, or the time is over, or it failed.
pub proof fn results_of_calls_are_told_apart(
    n: isize,
    would_block: bool,
    sent: SendStep,
    r: i32,
    waited: PollStep,
    ring: ShmRing,
    cap: usize,
)
    requires
        call_ensures(send_step, (n, would_block), sent),
        call_ensures(poll_step, (r,), waited),
        call_ensures(ShmRing::capacity, (&ring,), cap),
    ensures
        sent is Sent <==> n >= 0,
        sent is Wait <==> n < 0 && would_block,
        sent is Failed <==> n < 0 && !would_block,
        waited is Ready <==> r > 0,
        waited is TimedOut <==> r == 0,
        waited is Failed <==> r < 0,
        cap == ring@.bytes.len(),
{
}

} // verus!
