//! A cache of tool results, addressed by what was asked.
//!
//! The key of a result is the digest of the tool's name and its arguments. Both
//! ends of a connection keep such a cache, so that a result that the other end
//! has seen before is sent as its key. An entry is served until it is older than
//! the time to live; when the cache is full, the least recently used of up to
//! eight entries makes room.

use bytes::Bytes;
use std::time::Instant;
use vstd::hash_map::StringHashMap;
use vstd::prelude::*;
use vstd::utf8::*;
use crate::auth;
use crate::buffer;
use crate::hex;

verus! {

/// `std::time::Instant`, a point of the machine's monotonic clock.
#[verifier::external_type_specification]
#[verifier::external_body]
pub struct ExInstant(Instant);

/// `Instant::now`. Nothing is known of the time.
#[verifier::external_body]
fn clock_start() -> (out: Instant) {
    Instant::now()
}

/// `Instant::elapsed`, in nanoseconds. Nothing is known of the time.
#[verifier::external_body]
fn clock_elapsed(start: &Instant) -> (out: u128) {
    start.elapsed().as_nanos()
}

/// The key of a cached result.
#[derive(Debug, Clone, Copy, PartialEq, Eq, Hash)]
pub struct CacheKey(pub [u8; 32]);

/// What the key of a call is the digest of: the name of the tool, a zero byte
/// and the arguments.
pub open spec fn key_text(tool_name: Seq<char>, args: Seq<u8>) -> Seq<u8> {
    encode_utf8(tool_name).push(0u8) + args
}

/// The key of a call.
pub open spec fn key_of(tool_name: Seq<char>, args: Seq<u8>) -> Seq<u8> {
    auth::sha256(key_text(tool_name, args))
}

impl CacheKey {
    /// The key of a call of a tool with the given arguments.
    pub fn compute(tool_name: &str, canonical_args: &[u8]) -> (out: CacheKey)
        ensures
            out.0@ == key_of(tool_name@, canonical_args@),
    {
        let mut text: Vec<u8> = vstd::slice::slice_to_vec(tool_name.as_bytes());
        text.push(0);
        text.extend_from_slice(canonical_args);
        assert(text@ =~= key_text(tool_name@, canonical_args@));
        CacheKey(auth::sha256_digest(text.as_slice()))
    }

    /// The bytes of the key.
    pub fn as_bytes(&self) -> (out: &[u8; 32])
        ensures
            out@ == self.0@,
    {
        &self.0
    }

    /// The key with the given bytes, if there are as many as a key has.
    pub fn from_slice(s: &[u8]) -> (out: Option<CacheKey>)
        ensures
            match out {
                Some(k) => k.0@ == s@,
                None => s@.len() != 32,
            },
    {
        if s.len() != 32 {
            return None;
        }
        Some(CacheKey(hex::to_array32(s)))
    }
}

struct Entry {
    key: CacheKey,
    value: Bytes,
    inserted: u128,
    last_used: u128,
}

/// A result in the cache, with the times at which it came and was last used.
pub struct EntryView {
    pub value: Seq<u8>,
    pub inserted: u128,
    pub last_used: u128,
}

impl Entry {
    spec fn model(self) -> EntryView {
        EntryView {
            value: buffer::bytes_of(self.value),
            inserted: self.inserted,
            last_used: self.last_used,
        }
    }
}

/// The number of entries among which the one that makes room is looked for.
pub const EVICTION_SAMPLE: usize = 8;

/// A cache of results. Times are nanoseconds on the cache's own clock.
pub struct ResultCache {
    entries: Vec<Entry>,
    /// Where the entry of a key stands, by the hexadecimal text of the key.
    index: StringHashMap<usize>,
    capacity: usize,
    ttl: u128,
    hits: u64,
    misses: u64,
    /// Where the next sample begins.
    cursor: usize,
    clock: Instant,
}

/// The cache as a map from keys to results.
#[verifier::ext_equal]
pub struct CacheView {
    pub entries: Map<Seq<u8>, EntryView>,
    pub capacity: nat,
    pub ttl: nat,
    pub hits: u64,
    pub misses: u64,
}

/// How long ago `since` was at `now`; nothing lies in the future.
pub open spec fn age(since: u128, now: u128) -> nat {
    if now >= since {
        (now - since) as nat
    } else {
        0
    }
}

/// A counter after one more event; it starts over behind its last value.
pub open spec fn counted(n: u64) -> u64 {
    if n == u64::MAX {
        0
    } else {
        (n + 1) as u64
    }
}

impl CacheView {
    /// An empty cache.
    pub open spec fn empty(capacity: nat, ttl: nat) -> Self {
        CacheView { entries: Map::empty(), capacity, ttl, hits: 0, misses: 0 }
    }

    /// Whether a lookup of the key at the given time is served.
    pub open spec fn serves(self, key: Seq<u8>, now: u128) -> bool {
        self.entries.contains_key(key) && age(self.entries[key].inserted, now) <= self.ttl
    }

    /// What a lookup at the given time returns.
    pub open spec fn looked_up(self, key: Seq<u8>, now: u128) -> Option<Seq<u8>> {
        if self.serves(key, now) {
            Some(self.entries[key].value)
        } else {
            None
        }
    }

    /// The cache after a lookup at the given time.
    pub open spec fn after_lookup(self, key: Seq<u8>, now: u128) -> Self {
        if self.serves(key, now) {
            CacheView {
                entries: self.entries.insert(
                    key,
                    EntryView { last_used: now, ..self.entries[key] },
                ),
                hits: counted(self.hits),
                ..self
            }
        } else {
            CacheView {
                entries: self.entries.remove(key),
                misses: counted(self.misses),
                ..self
            }
        }
    }

    /// Whether a result with a new key has to wait for room.
    pub open spec fn full(self) -> bool {
        self.entries.dom().len() >= self.capacity
    }

    /// Whether `next` is the cache after a result was put at the given time.
    pub open spec fn after_put(self, key: Seq<u8>, value: Seq<u8>, now: u128, next: Self) -> bool {
        let fresh = EntryView { value, inserted: now, last_used: now };
        &&& next.capacity == self.capacity
        &&& next.ttl == self.ttl
        &&& next.hits == self.hits
        &&& next.misses == self.misses
        &&& if self.full() && !self.entries.contains_key(key) && self.entries.dom().len() > 0 {
            exists|victim: Seq<u8>| #[trigger]
                makes_room(self.entries, victim) && next.entries == self.entries.remove(
                    victim,
                ).insert(key, fresh)
        } else {
            next.entries == self.entries.insert(key, fresh)
        }
    }
}

/// Whether an entry may be dropped for a new one: it is the least recently used
/// of a sample of eight entries, or of all where there are fewer.
pub open spec fn makes_room(entries: Map<Seq<u8>, EntryView>, victim: Seq<u8>) -> bool {
    exists|sample: Set<Seq<u8>>| #[trigger]
        is_sample(entries, sample) && sample.contains(victim) && forall|k: Seq<u8>| #[trigger]
            sample.contains(k) ==> entries[victim].last_used <= entries[k].last_used
}

/// Whether a set of keys is a sample of the entries.
pub open spec fn is_sample(entries: Map<Seq<u8>, EntryView>, sample: Set<Seq<u8>>) -> bool {
    &&& sample.subset_of(entries.dom())
    &&& sample.len() == if entries.dom().len() < EVICTION_SAMPLE {
        entries.dom().len()
    } else {
        EVICTION_SAMPLE as nat
    }
}

impl View for ResultCache {
    type V = CacheView;

    closed spec fn view(&self) -> CacheView {
        CacheView {
            entries: self.by_key(),
            capacity: self.capacity as nat,
            ttl: self.ttl as nat,
            hits: self.hits,
            misses: self.misses,
        }
    }
}

impl ResultCache {
    spec fn slot(self, key: Seq<u8>) -> int {
        self.index@[hex::hex_text(key)] as int
    }

    spec fn key_at(self, i: int) -> Seq<u8> {
        self.entries@[i].key.0@
    }

    spec fn by_key(self) -> Map<Seq<u8>, EntryView> {
        Map::new(
            |k: Seq<u8>| self.index@.contains_key(hex::hex_text(k)),
            |k: Seq<u8>| self.entries@[self.slot(k)].model(),
        )
    }

    /// The index knows exactly the entries.
    pub closed spec fn wf(self) -> bool {
        &&& forall|i: int|
            0 <= i < self.entries@.len() ==> self.index@.contains_key(
                hex::hex_text(#[trigger] self.key_at(i)),
            ) && self.index@[hex::hex_text(self.key_at(i))] == i
        &&& forall|t: Seq<char>| #[trigger]
            self.index@.contains_key(t) ==> self.index@[t] < self.entries@.len() && hex::hex_text(
                self.key_at(self.index@[t] as int),
            ) == t
    }

    /// How many entries the cache holds.
    proof fn lemma_len(self)
        requires
            self.wf(),
        ensures
            self.by_key().dom().finite(),
            self.by_key().dom().len() == self.entries@.len(),
    {
        let keys = Seq::new(self.entries@.len(), |i: int| self.key_at(i));
        assert forall|i: int, j: int|
            0 <= i < keys.len() && 0 <= j < keys.len() && i != j implies keys[i] != keys[j] by {
            assert(self.index@[hex::hex_text(self.key_at(i))] == i);
            assert(self.index@[hex::hex_text(self.key_at(j))] == j);
        }
        assert(keys.no_duplicates());
        keys.unique_seq_to_set();
        assert forall|k: Seq<u8>| #[trigger]
            self.by_key().dom().contains(k) == keys.to_set().contains(k) by {
            if self.by_key().dom().contains(k) {
                let i = self.slot(k);
                hex::hex_injective(self.key_at(i), k);
                assert(keys[i] == k);
            }
            if keys.to_set().contains(k) {
                let i = choose|i: int| 0 <= i < keys.len() && keys[i] == k;
                assert(self.key_at(i) == k);
            }
        }
        assert(self.by_key().dom() =~= keys.to_set());
    }

    /// An empty cache for `capacity` results, each served for `ttl` nanoseconds.
    /// The clock starts now.
    pub fn new(capacity: usize, ttl: u128) -> (out: ResultCache)
        ensures
            out.wf(),
            out@ == CacheView::empty(capacity as nat, ttl as nat),
    {
        let out: ResultCache = ResultCache {
            entries: Vec::new(),
            index: StringHashMap::new(),
            capacity,
            ttl,
            hits: 0,
            misses: 0,
            cursor: 0,
            clock: clock_start(),
        };
        assert(out@ =~= CacheView::empty(capacity as nat, ttl as nat));
        out
    }

    /// Drops the entry in the given place.
    fn remove_at(&mut self, at: usize)
        requires
            old(self).wf(),
            at < old(self).entries@.len(),
        ensures
            final(self).wf(),
            final(self)@ == (CacheView {
                entries: old(self)@.entries.remove(old(self).key_at(at as int)),
                ..old(self)@
            }),
    {
        let ghost before = *self;
        let ghost gone = self.key_at(at as int);
        let name: String = hex::hex(&self.entries[at].key.0);
        assert(self.index@[hex::hex_text(self.key_at(at as int))] == at);
        self.index.remove(name.as_str());
        self.entries.swap_remove(at);
        if at < self.entries.len() {
            let moved: String = hex::hex(&self.entries[at].key.0);
            self.index.insert(moved, at);
        }
        proof {
            let last = before.entries@.len() - 1;
            assert forall|i: int| 0 <= i < self.entries@.len() implies self.index@.contains_key(
                hex::hex_text(#[trigger] self.key_at(i)),
            ) && self.index@[hex::hex_text(self.key_at(i))] == i by {
                let j = if i == at {
                    last
                } else {
                    i
                };
                assert(self.key_at(i) == before.key_at(j));
                assert(before.index@[hex::hex_text(before.key_at(j))] == j);
                assert(before.index@[hex::hex_text(before.key_at(at as int))] == at);
                assert(before.index@[hex::hex_text(before.key_at(last))] == last);
            }
            assert forall|t: Seq<char>| #[trigger] self.index@.contains_key(t) implies self.index@[t]
                < self.entries@.len() && hex::hex_text(self.key_at(self.index@[t] as int))
                == t by {
                let moved = hex::hex_text(before.key_at(last));
                assert(before.index@[moved] == last);
                if at != last && t == moved {
                    assert(self.index@[t] == at);
                    assert(self.key_at(at as int) == before.key_at(last));
                } else {
                    assert(before.index@.contains_key(t));
                    let i = before.index@[t] as int;
                    assert(hex::hex_text(before.key_at(i)) == t);
                    assert(i != at);
                    assert(i != last);
                    assert(self.key_at(i) == before.key_at(i));
                }
            }
            let want = before.by_key().remove(gone);
            let moved = hex::hex_text(before.key_at(last));
            assert(before.index@.contains_key(moved) && before.index@[moved] == last);
            assert(at != last ==> moved != hex::hex_text(gone));
            assert(at < last ==> self.key_at(at as int) == before.key_at(last));
            assert forall|k: Seq<u8>| #[trigger]
                self.by_key().dom().contains(k) == want.dom().contains(k) by {
                assert(self.by_key().dom().contains(k) == self.index@.contains_key(
                    hex::hex_text(k),
                ));
                assert(before.by_key().dom().contains(k) == before.index@.contains_key(
                    hex::hex_text(k),
                ));
                if hex::hex_text(k) == hex::hex_text(gone) {
                    hex::hex_injective(k, gone);
                }
            }
            assert forall|k: Seq<u8>| #[trigger] want.dom().contains(k) implies self.by_key()[k]
                == want[k] by {
                let i = before.slot(k);
                assert(hex::hex_text(before.key_at(i)) == hex::hex_text(k));
                assert(i != at) by {
                    if i == at {
                        hex::hex_injective(k, gone);
                    }
                }
                if i == last {
                    assert(self.slot(k) == at);
                } else {
                    assert(hex::hex_text(before.key_at(last)) != hex::hex_text(k));
                    assert(self.slot(k) == i);
                }
            }
            assert(self.by_key() =~= want);
        }
    }

    /// Looks up a result at the given time.
    pub fn get_at(&mut self, key: &CacheKey, now: u128) -> (out: Option<Bytes>)
        requires
            old(self).wf(),
        ensures
            final(self).wf(),
            final(self)@ == old(self)@.after_lookup(key.0@, now),
            match out {
                Some(b) => old(self)@.looked_up(key.0@, now) == Some(buffer::bytes_of(b)),
                None => old(self)@.looked_up(key.0@, now) is None,
            },
    {
        let ghost before = *self;
        let name: String = hex::hex(&key.0);
        let place: Option<usize> = match self.index.get(name.as_str()) {
            Some(at) => Some(*at),
            None => None,
        };
        if let Some(at) = place {
            proof {
                hex::hex_injective(self.key_at(at as int), key.0@);
            }
            let inserted: u128 = self.entries[at].inserted;
            let since: u128 = if now >= inserted {
                now - inserted
            } else {
                0
            };
            if since <= self.ttl {
                self.entries[at].last_used = now;
                self.hits =
                if self.hits == u64::MAX {
                    0
                } else {
                    self.hits + 1
                };
                proof {
                    assert forall|i: int| 0 <= i < self.entries@.len() implies #[trigger]
                    self.key_at(i) == before.key_at(i) by {}
                    let want = before@.after_lookup(key.0@, now);
                    assert(before.by_key().dom().contains(key.0@));
                    assert(before@.serves(key.0@, now));
                    assert(self.by_key().dom() =~= want.entries.dom());
                    assert forall|k: Seq<u8>| #[trigger]
                        want.entries.dom().contains(k) implies self.by_key()[k]
                        == want.entries[k] by {
                        if self.slot(k) == at {
                            hex::hex_injective(self.key_at(at as int), k);
                        }
                    }
                    assert(self.by_key() =~= want.entries);
                }
                return Some(buffer::bytes_clone(&self.entries[at].value));
            }
            self.remove_at(at);
        }
        let ghost middle = *self;
        self.misses =
        if self.misses == u64::MAX {
            0
        } else {
            self.misses + 1
        };
        proof {
            assert forall|i: int| 0 <= i < self.entries@.len() implies #[trigger] self.key_at(i)
                == middle.key_at(i) by {}
            assert(self.by_key() =~= middle.by_key());
            assert(before.by_key().remove(key.0@) =~= middle.by_key());
        }
        assert(self@ =~= before@.after_lookup(key.0@, now));
        None
    }

    /// The place, `step` places behind `start`, in a circle of `n` places.
    spec fn around(start: int, step: int, n: int) -> int {
        if start + step < n {
            start + step
        } else {
            start + step - n
        }
    }

    /// Drops the least recently used entry of a sample.
    fn evict_lru(&mut self)
        requires
            old(self).wf(),
            old(self).entries@.len() > 0,
        ensures
            final(self).wf(),
            exists|victim: Seq<u8>| #[trigger]
                makes_room(old(self)@.entries, victim) && final(self)@ == (CacheView {
                    entries: old(self)@.entries.remove(victim),
                    ..old(self)@
                }),
    {
        let n: usize = self.entries.len();
        let size: usize = if n < EVICTION_SAMPLE {
            n
        } else {
            EVICTION_SAMPLE
        };
        let start: usize = if self.cursor < n {
            self.cursor
        } else {
            0
        };
        let ghost before = *self;
        let mut best: usize = start;
        let mut at: usize = start;
        let mut seen: usize = 1;
        while seen < size
            invariant
                n == self.entries@.len(),
                *self == before,
                0 < seen <= size <= n,
                start < n,
                at == Self::around(start as int, seen - 1, n as int),
                at < n,
                best < n,
                exists|j: int|
                    0 <= j < seen && best == #[trigger] Self::around(start as int, j, n as int),
                forall|j: int|
                    0 <= j < seen ==> self.entries@[best as int].last_used
                        <= self.entries@[#[trigger] Self::around(
                        start as int,
                        j,
                        n as int,
                    )].last_used,
            decreases size - seen,
        {
            at =
            if at + 1 < n {
                at + 1
            } else {
                0
            };
            assert(at == Self::around(start as int, seen as int, n as int));
            if self.entries[at].last_used < self.entries[best].last_used {
                best = at;
            }
            seen = seen + 1;
        }
        self.cursor =
        if at + 1 < n {
            at + 1
        } else {
            0
        };
        let ghost victim = before.key_at(best as int);
        proof {
            let old_map = before.by_key();
            before.lemma_len();
            let sample = Seq::new(
                size as nat,
                |j: int| before.key_at(Self::around(start as int, j, n as int)),
            );
            assert forall|i: int, j: int|
                0 <= i < sample.len() && 0 <= j < sample.len() && i != j implies sample[i]
                != sample[j] by {
                let a = Self::around(start as int, i, n as int);
                let b = Self::around(start as int, j, n as int);
                assert(before.index@[hex::hex_text(before.key_at(a))] == a);
                assert(before.index@[hex::hex_text(before.key_at(b))] == b);
            }
            assert(sample.no_duplicates());
            sample.unique_seq_to_set();
            let set = sample.to_set();
            assert forall|k: Seq<u8>| #[trigger] set.contains(k) implies old_map.dom().contains(k)
                && old_map[victim].last_used <= old_map[k].last_used by {
                let j = choose|j: int| 0 <= j < sample.len() && sample[j] == k;
                let a = Self::around(start as int, j, n as int);
                assert(before.index@[hex::hex_text(before.key_at(a))] == a);
                assert(before.index@[hex::hex_text(before.key_at(best as int))] == best);
            }
            let j = choose|j: int|
                0 <= j < size && best == #[trigger] Self::around(start as int, j, n as int);
            assert(sample[j] == victim);
            assert(set.contains(victim));
            assert(is_sample(old_map, set));
            assert(makes_room(old_map, victim));
        }
        let ghost middle = *self;
        assert(middle@ == before@ && middle.wf()) by {
            assert forall|i: int| 0 <= i < middle.entries@.len() implies #[trigger] middle.key_at(i)
                == before.key_at(i) by {}
            assert(middle.by_key() =~= before.by_key());
        }
        self.remove_at(best);
    }

    /// Puts a result at the given time, in place of an older one of its key.
    /// Where the cache is full and the key is new, an entry makes room.
    pub fn put_at(&mut self, key: CacheKey, value: Bytes, now: u128)
        requires
            old(self).wf(),
        ensures
            final(self).wf(),
            old(self)@.after_put(key.0@, buffer::bytes_of(value), now, final(self)@),
    {
        let ghost before = *self;
        let name: String = hex::hex(&key.0);
        let known: bool = self.index.contains_key(name.as_str());
        proof {
            self.lemma_len();
        }
        if self.entries.len() >= self.capacity && !known && self.entries.len() > 0 {
            self.evict_lru();
        }
        let ghost middle = *self;
        let entry: Entry = Entry { key, value, inserted: now, last_used: now };
        let place: Option<usize> = match self.index.get(name.as_str()) {
            Some(at) => Some(*at),
            None => None,
        };
        match place {
            Some(at) => {
                proof {
                    hex::hex_injective(self.key_at(at as int), key.0@);
                }
                self.entries.set(at, entry);
            },
            None => {
                let at: usize = self.entries.len();
                self.entries.push(entry);
                self.index.insert(name, at);
            },
        }
        proof {
            let fresh = EntryView {
                value: buffer::bytes_of(value),
                inserted: now,
                last_used: now,
            };
            let text = hex::hex_text(key.0@);
            let own = self.index@[text] as int;
            assert(self.key_at(own) == key.0@);
            assert forall|i: int| 0 <= i < self.entries@.len() implies self.index@.contains_key(
                hex::hex_text(#[trigger] self.key_at(i)),
            ) && self.index@[hex::hex_text(self.key_at(i))] == i by {
                if i != own {
                    assert(self.key_at(i) == middle.key_at(i));
                    assert(middle.index@[hex::hex_text(middle.key_at(i))] == i);
                }
            }
            assert forall|t: Seq<char>| #[trigger] self.index@.contains_key(t) implies self.index@[t]
                < self.entries@.len() && hex::hex_text(self.key_at(self.index@[t] as int))
                == t by {
                if t != text {
                    assert(middle.index@.contains_key(t));
                    let i = middle.index@[t] as int;
                    assert(self.key_at(i) == middle.key_at(i)) by {
                        assert(i != own);
                    }
                }
            }
            assert forall|k: Seq<u8>| #[trigger] self.by_key().dom().contains(k)
                == middle.by_key().insert(key.0@, fresh).dom().contains(k) by {
                if hex::hex_text(k) == text {
                    hex::hex_injective(k, key.0@);
                }
            }
            assert forall|k: Seq<u8>| #[trigger] self.by_key().dom().contains(k) implies self.by_key()[k]
                == middle.by_key().insert(key.0@, fresh)[k] by {
                if k != key.0@ {
                    if hex::hex_text(k) == text {
                        hex::hex_injective(k, key.0@);
                    }
                    let i = self.slot(k);
                    assert(hex::hex_text(self.key_at(i)) == hex::hex_text(k));
                    assert(i != own);
                }
            }
            assert(self.by_key() =~= middle.by_key().insert(key.0@, fresh));
        }
    }

    /// The time on the cache's own clock.
    pub fn now(&self) -> (out: u128) {
        clock_elapsed(&self.clock)
    }

    /// Looks up a result now.
    pub fn get(&mut self, key: &CacheKey) -> (out: Option<Bytes>)
        requires
            old(self).wf(),
        ensures
            final(self).wf(),
            exists|now: u128|
                {
                    &&& final(self)@ == #[trigger] old(self)@.after_lookup(key.0@, now)
                    &&& match out {
                        Some(b) => old(self)@.looked_up(key.0@, now) == Some(buffer::bytes_of(b)),
                        None => old(self)@.looked_up(key.0@, now) is None,
                    }
                },
    {
        let now: u128 = self.now();
        self.get_at(key, now)
    }

    /// Puts a result now.
    pub fn put(&mut self, key: CacheKey, value: Bytes)
        requires
            old(self).wf(),
        ensures
            final(self).wf(),
            exists|now: u128| #[trigger]
                old(self)@.after_put(key.0@, buffer::bytes_of(value), now, final(self)@),
    {
        let now: u128 = self.now();
        self.put_at(key, value, now);
    }

    /// The number of lookups that were served and of those that were not.
    pub fn stats(&self) -> (out: (u64, u64))
        ensures
            out == (self@.hits, self@.misses),
    {
        (self.hits, self.misses)
    }
}

/// A result that was put is served until it is older than the time to live.
pub proof fn put_then_lookup(
    c: CacheView,
    key: Seq<u8>,
    value: Seq<u8>,
    put_time: u128,
    next: CacheView,
    time: u128,
)
    requires
        c.after_put(key, value, put_time, next),
    ensures
        next.looked_up(key, time) == if age(put_time, time) <= c.ttl {
            Some(value)
        } else {
            None
        },
{
}

/// A put changes no other entry; one that is gone was the least recently used
/// of a sample of a full cache.
pub proof fn put_leaves_other_entries(
    c: CacheView,
    key: Seq<u8>,
    value: Seq<u8>,
    time: u128,
    next: CacheView,
    other: Seq<u8>,
)
    requires
        c.after_put(key, value, time, next),
        other != key,
    ensures
        next.entries.contains_key(other) ==> c.entries.contains_key(other) && next.entries[other]
            == c.entries[other],
        c.entries.contains_key(other) && !next.entries.contains_key(other) ==> c.full()
            && !c.entries.contains_key(key) && makes_room(c.entries, other),
{
}

/// A lookup changes no other entry.
pub proof fn lookup_leaves_other_entries(
    c: CacheView,
    key: Seq<u8>,
    time: u128,
    other: Seq<u8>,
)
    requires
        other != key,
    ensures
        c.after_lookup(key, time).entries.contains_key(other) == c.entries.contains_key(other),
        c.after_lookup(key, time).entries[other] == c.entries[other],
{
}

/// An entry older than the time to live is not served and is dropped by the
/// lookup that finds it so.
pub proof fn stale_entries_are_dropped(c: CacheView, key: Seq<u8>, time: u128)
    requires
        c.entries.contains_key(key),
        age(c.entries[key].inserted, time) > c.ttl,
    ensures
        c.looked_up(key, time) is None,
        !c.after_lookup(key, time).entries.contains_key(key),
{
}

impl CacheView {
    /// Whether the cache holds no more than its capacity, or one result where
    /// the capacity is zero.
    pub open spec fn bounded(self) -> bool {
        &&& self.entries.dom().finite()
        &&& self.entries.dom().len() <= if self.capacity == 0 {
            1
        } else {
            self.capacity
        }
    }
}

/// The cache never holds more than its capacity (one result where that is
/// zero), whatever is put and looked up.
pub proof fn cache_stays_bounded(
    c: CacheView,
    key: Seq<u8>,
    value: Seq<u8>,
    time: u128,
    next: CacheView,
)
    requires
        c.bounded(),
    ensures
        CacheView::empty(c.capacity, c.ttl).bounded(),
        c.after_lookup(key, time).bounded(),
        c.after_put(key, value, time, next) ==> next.bounded(),
{
    assert(CacheView::empty(c.capacity, c.ttl).entries.dom() =~= Set::<Seq<u8>>::empty());
    let looked = c.after_lookup(key, time);
    if c.serves(key, time) {
        assert(looked.entries.dom() =~= c.entries.dom());
    } else {
        assert(looked.entries.dom() =~= c.entries.dom().remove(key));
    }
    if c.after_put(key, value, time, next) {
        let fresh = EntryView { value, inserted: time, last_used: time };
        if c.full() && !c.entries.contains_key(key) && c.entries.dom().len() > 0 {
            let victim = choose|victim: Seq<u8>| #[trigger]
                makes_room(c.entries, victim) && next.entries == c.entries.remove(victim).insert(
                    key,
                    fresh,
                );
            assert(c.entries.dom().contains(victim));
            assert(next.entries.dom() =~= c.entries.dom().remove(victim).insert(key));
        } else {
            assert(next.entries.dom() =~= c.entries.dom().insert(key));
            if c.entries.contains_key(key) {
                assert(next.entries.dom() =~= c.entries.dom());
            }
        }
    }
}

/// What the key of a call is made from holds the whole call: the name of the tool,
/// one zero byte and every byte of the arguments, in this order and nothing else. The
/// key is the SHA-256 digest of it. `key` is what the call is given.
pub proof fn key_covers_the_whole_call(name: &str, args: &[u8], key: CacheKey)
    requires
        call_ensures(CacheKey::compute, (name, args), key),
    ensures
        ({
            let text = key_text(name@, args@);
            let n = encode_utf8(name@).len();
            &&& text.len() == n + 1 + args@.len()
            &&& text.take(n as int) == encode_utf8(name@)
            &&& text[n as int] == 0
            &&& text.skip(n as int + 1) == args@
            &&& key.0@ == auth::sha256(encode_utf8(name@) + seq![0u8] + args@)
        }),
{
    let text = key_text(name@, args@);
    let n = encode_utf8(name@).len();
    assert(text.take(n as int) =~= encode_utf8(name@));
    assert(text.skip(n as int + 1) =~= args@);
    assert(text =~= encode_utf8(name@) + seq![0u8] + args@);
}

/// Two calls are digested from the same bytes only where they are the same call: of
/// the same tool, with the same arguments. The names hold no zero byte.
pub proof fn keys_tell_calls_apart(a: Seq<char>, x: Seq<u8>, b: Seq<char>, y: Seq<u8>)
    requires
        key_text(a, x) == key_text(b, y),
        !encode_utf8(a).contains(0u8),
        !encode_utf8(b).contains(0u8),
    ensures
        a == b,
        x == y,
{
    let s = key_text(a, x);
    let m = encode_utf8(a).len() as int;
    let n = encode_utf8(b).len() as int;
    assert(s[m] == 0 && s[n] == 0);
    if m < n {
        assert(encode_utf8(b)[m] == key_text(b, y)[m]);
        assert(encode_utf8(b).contains(0u8));
    }
    if n < m {
        assert(encode_utf8(a)[n] == key_text(a, x)[n]);
        assert(encode_utf8(a).contains(0u8));
    }
    assert(encode_utf8(a) =~= s.take(m));
    assert(encode_utf8(b) =~= s.take(n));
    assert(x =~= s.skip(m + 1));
    assert(y =~= s.skip(n + 1));
    encode_utf8_decode_utf8(a);
    encode_utf8_decode_utf8(b);
}

/// A result is served for exactly its time to live, counted from when it was put: at
/// any later time up to that it comes back as it was put, and after that it does not.
/// A time before it was put counts as no time at all.
pub proof fn results_live_for_their_time(
    c: CacheView,
    key: Seq<u8>,
    value: Seq<u8>,
    put_time: u128,
    next: CacheView,
    time: u128,
)
    requires
        c.after_put(key, value, put_time, next),
    ensures
        time <= put_time || time - put_time <= c.ttl ==> next.looked_up(key, time) == Some(value),
        time > put_time && time - put_time > c.ttl ==> next.looked_up(key, time) is None,
{
}

/// Being looked up does not make a result live longer: a lookup that was served leaves
/// the result and the time at which it was put as they are, and takes note of the use.
pub proof fn lookups_do_not_prolong_life(c: CacheView, key: Seq<u8>, time: u128, later: u128)
    requires
        c.looked_up(key, time) is Some,
    ensures
        ({
            let next = c.after_lookup(key, time);
            &&& next.looked_up(key, later) == c.looked_up(key, later)
            &&& next.entries[key].value == c.entries[key].value
            &&& next.entries[key].inserted == c.entries[key].inserted
            &&& next.entries[key].last_used == time
            &&& next.capacity == c.capacity && next.ttl == c.ttl
        }),
{
}

/// A key that was not put, or is no longer there, is not served, and looking for it
/// adds nothing.
pub proof fn unknown_keys_are_not_served(c: CacheView, key: Seq<u8>, time: u128)
    requires
        !c.entries.contains_key(key),
    ensures
        c.looked_up(key, time) is None,
        c.after_lookup(key, time).entries == c.entries,
{
    assert(c.entries.remove(key) =~= c.entries);
}

/// Each lookup is counted once: as a hit where it is served, as a miss where not. A
/// put counts as neither.
pub proof fn lookups_are_counted(
    c: CacheView,
    key: Seq<u8>,
    value: Seq<u8>,
    time: u128,
    next: CacheView,
)
    requires
        c.hits < u64::MAX,
        c.misses < u64::MAX,
    ensures
        ({
            let looked = c.after_lookup(key, time);
            &&& c.looked_up(key, time) is Some ==> looked.hits == c.hits + 1 && looked.misses
                == c.misses
            &&& c.looked_up(key, time) is None ==> looked.hits == c.hits && looked.misses
                == c.misses + 1
        }),
        c.after_put(key, value, time, next) ==> next.hits == c.hits && next.misses == c.misses,
{
}

/// As long as the cache holds fewer results than its capacity, and whenever the key is
/// there already, a put drops nothing: every other result is served as before.
pub proof fn nothing_is_dropped_without_need(
    c: CacheView,
    key: Seq<u8>,
    value: Seq<u8>,
    time: u128,
    next: CacheView,
    other: Seq<u8>,
    later: u128,
)
    requires
        c.after_put(key, value, time, next),
        c.entries.dom().len() < c.capacity || c.entries.contains_key(key),
        other != key,
    ensures
        next.entries.contains_key(other) == c.entries.contains_key(other),
        next.looked_up(other, later) == c.looked_up(other, later),
        next.entries.contains_key(key),
{
}

/// What a full cache drops for a new result is one result, and one that was used no
/// later than those of a sample: of all where there are up to eight, and else of eight.
pub proof fn the_least_recently_used_makes_room(
    c: CacheView,
    key: Seq<u8>,
    value: Seq<u8>,
    time: u128,
    next: CacheView,
)
    requires
        c.after_put(key, value, time, next),
        c.entries.dom().finite(),
        c.entries.dom().len() > 0,
        c.entries.dom().len() >= c.capacity,
        !c.entries.contains_key(key),
    ensures
        exists|gone: Seq<u8>, sample: Set<Seq<u8>>|
            {
                &&& c.entries.contains_key(gone) && !next.entries.contains_key(gone)
                &&& next.entries.dom() == c.entries.dom().remove(gone).insert(key)
                &&& #[trigger] sample.contains(gone) && sample.subset_of(c.entries.dom())
                &&& sample.len() == (if c.entries.dom().len() < 8 {
                    c.entries.dom().len()
                } else {
                    8
                })
                &&& c.entries.dom().len() <= 8 ==> sample == c.entries.dom()
                &&& forall|k: Seq<u8>| #[trigger]
                    sample.contains(k) ==> c.entries[gone].last_used <= c.entries[k].last_used
            },
{
    let fresh = EntryView { value, inserted: time, last_used: time };
    let gone = choose|victim: Seq<u8>| #[trigger]
        makes_room(c.entries, victim) && next.entries == c.entries.remove(victim).insert(
            key,
            fresh,
        );
    let sample = choose|sample: Set<Seq<u8>>| #[trigger]
        is_sample(c.entries, sample) && sample.contains(gone) && forall|k: Seq<u8>| #[trigger]
            sample.contains(k) ==> c.entries[gone].last_used <= c.entries[k].last_used;
    assert(c.entries.dom().contains(gone));
    assert(next.entries.dom() =~= c.entries.dom().remove(gone).insert(key));
    vstd::set_lib::lemma_len_subset(sample, c.entries.dom());
    if c.entries.dom().len() <= 8 {
        vstd::set_lib::lemma_subset_equality(sample, c.entries.dom());
    }
    assert(sample.contains(gone));
}

/// A new cache is empty and has the capacity and the time to live that were asked for.
pub proof fn new_caches_are_empty(
    capacity: usize,
    ttl: u128,
    out: ResultCache,
    key: Seq<u8>,
    time: u128,
)
    requires
        call_ensures(ResultCache::new, (capacity, ttl), out),
    ensures
        out@.capacity == capacity,
        out@.ttl == ttl,
        out@.looked_up(key, time) is None,
        out@.hits == 0 && out@.misses == 0,
{
}

/// What is put is found again as it was put, under its key, for its time to live, and
/// looking it up does not change that. `c` is the cache of the put, `d` the same cache when
/// the result is looked up, and `out` what comes out.
pub proof fn what_is_put_is_found(
    c: &mut ResultCache,
    d: &mut ResultCache,
    key: CacheKey,
    value: Bytes,
    put_time: u128,
    time: u128,
    out: Option<Bytes>,
)
    requires
        call_ensures(ResultCache::put_at, (c, key, value, put_time), ()),
        d@ == final(c)@,
        call_ensures(ResultCache::get_at, (d, &key, time), out),
    ensures
        time <= put_time || time - put_time <= old(c)@.ttl ==> (out matches Some(b)
            && buffer::bytes_of(b) == buffer::bytes_of(value)),
        time > put_time && time - put_time > old(c)@.ttl ==> out is None,
        final(d)@.ttl == old(c)@.ttl,
        final(d)@.capacity == old(c)@.capacity,
{
}

/// A lookup gives what the cache has, and is counted: as a hit where something comes out,
/// and as a miss where nothing does.
pub proof fn lookups_give_what_is_there(
    c: &mut ResultCache,
    key: CacheKey,
    time: u128,
    out: Option<Bytes>,
)
    requires
        call_ensures(ResultCache::get_at, (c, &key, time), out),
        c@.hits < u64::MAX,
        c@.misses < u64::MAX,
    ensures
        out is Some <==> old(c)@.entries.contains_key(key.0@) && (time
            <= old(c)@.entries[key.0@].inserted || time - old(c)@.entries[key.0@].inserted
            <= old(c)@.ttl),
        out matches Some(b) ==> buffer::bytes_of(b) == old(c)@.entries[key.0@].value
            && final(c)@.hits == old(c)@.hits + 1 && final(c)@.misses == old(c)@.misses,
        out is None ==> final(c)@.hits == old(c)@.hits && final(c)@.misses == old(c)@.misses + 1,
{
}

/// A put leaves everything else where it is, as long as there is room or the key is there
/// already.
pub proof fn puts_leave_the_rest(
    c: &mut ResultCache,
    key: CacheKey,
    value: Bytes,
    time: u128,
    other: Seq<u8>,
)
    requires
        call_ensures(ResultCache::put_at, (c, key, value, time), ()),
        c@.entries.dom().len() < c@.capacity || c@.entries.contains_key(key.0@),
        other != key.0@,
    ensures
        final(c)@.entries.contains_key(other) == old(c)@.entries.contains_key(other),
        old(c)@.entries.contains_key(other) ==> final(c)@.entries[other] == old(c)@.entries[other],
        final(c)@.hits == old(c)@.hits && final(c)@.misses == old(c)@.misses,
{
}

/// Whatever the time is, a lookup gives the result under its key or nothing, and nothing
/// where there is none; one whose time to live is without end is always given. A put under
/// a key replaces what is there, and is the only thing that adds a key.
pub proof fn lookups_give_no_other_result(
    c: &mut ResultCache,
    key: CacheKey,
    out: Option<Bytes>,
    d: &mut ResultCache,
    put_key: CacheKey,
    value: Bytes,
    other: Seq<u8>,
)
    requires
        call_ensures(ResultCache::get, (c, &key), out),
        call_ensures(ResultCache::put, (d, put_key, value), ()),
        other != put_key.0@,
    ensures
        out matches Some(b) ==> old(c)@.entries.contains_key(key.0@) && buffer::bytes_of(b) == old(
            c,
        )@.entries[key.0@].value,
        old(c)@.entries.contains_key(key.0@) && old(c)@.ttl >= u128::MAX ==> out is Some,
        final(d)@.entries.contains_key(put_key.0@),
        final(d)@.entries[put_key.0@].value == buffer::bytes_of(value),
        final(d)@.entries.contains_key(other) ==> old(d)@.entries.contains_key(other)
            && final(d)@.entries[other] == old(d)@.entries[other],
        old(d)@.entries.contains_key(other) && old(d)@.entries.dom().len() < old(d)@.capacity
            ==> final(d)@.entries.contains_key(other),
{
}

/// A key is its 32 bytes: those are given, and are a key again; any other number of bytes is
/// none. The counts that are told are those of the lookups.
pub proof fn keys_are_their_bytes(
    key: CacheKey,
    bytes: &[u8; 32],
    s: &[u8],
    out: Option<CacheKey>,
    c: ResultCache,
    stats: (u64, u64),
)
    requires
        call_ensures(CacheKey::as_bytes, (&key,), bytes),
        call_ensures(CacheKey::from_slice, (s,), out),
        call_ensures(ResultCache::stats, (&c,), stats),
    ensures
        bytes@ == key.0@,
        out is Some <==> s@.len() == 32,
        out matches Some(k) ==> k.0@ == s@,
        stats.0 == c@.hits && stats.1 == c@.misses,
{
    if let Some(k) = out {
        assert(k.0@.len() == 32);
    }
}

} // verus!
