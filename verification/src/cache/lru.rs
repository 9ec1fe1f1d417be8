//! An LRU cache with optional per-entry expiry and byte-aware capacity.
//!
//! Bounding the *number* of entries says nothing about memory when entry sizes
//! vary by orders of magnitude, and bounding *bytes* alone lets a flood of tiny
//! entries balloon the bookkeeping. [`LruCache`] enforces both, and evicts by
//! least-recent use until each is satisfied.
//!
//! Every operation that depends on the time comes twice: under its plain name
//! it reads the clock of the cache, and with `_at` it takes the time as an
//! argument. [`LruCache::now`] tells the time of that clock.

use crate::buffers;
use crate::ratio::Ratio;
use crate::time::{Clock, Duration, Instant};
use bytes::Bytes;
use vstd::prelude::*;

verus! {

/// Measures how much of a cache's byte budget a value consumes.
///
/// Implemented for the common payload types; implement it for your own value
/// type to make byte-aware capacity meaningful.
pub trait Weight {
    /// This value's size in bytes.
    spec fn size(&self) -> nat;

    /// Returns this value's size in bytes.
    fn weight(&self) -> (n: usize)
        ensures
            n == self.size(),
    ;
}

impl Weight for Vec<u8> {
    open spec fn size(&self) -> nat {
        self@.len()
    }

    fn weight(&self) -> usize {
        self.len()
    }
}

impl Weight for Bytes {
    open spec fn size(&self) -> nat {
        buffers::shared(*self).len()
    }

    fn weight(&self) -> usize {
        buffers::shared_len(self)
    }
}

impl Weight for String {
    open spec fn size(&self) -> nat {
        vstd::utf8::encode_utf8(self@).len() as usize as nat
    }

    fn weight(&self) -> usize {
        self.as_str().len()
    }
}

impl Weight for &[u8] {
    open spec fn size(&self) -> nat {
        self@.len()
    }

    fn weight(&self) -> usize {
        self.len()
    }
}

impl Weight for usize {
    open spec fn size(&self) -> nat {
        (usize::BITS / 8) as nat
    }

    fn weight(&self) -> usize {
        (usize::BITS / 8) as usize
    }
}

impl Weight for u8 {
    open spec fn size(&self) -> nat {
        1
    }

    fn weight(&self) -> usize {
        1
    }
}

impl Weight for u16 {
    open spec fn size(&self) -> nat {
        2
    }

    fn weight(&self) -> usize {
        2
    }
}

impl Weight for u32 {
    open spec fn size(&self) -> nat {
        4
    }

    fn weight(&self) -> usize {
        4
    }
}

impl Weight for u64 {
    open spec fn size(&self) -> nat {
        8
    }

    fn weight(&self) -> usize {
        8
    }
}

impl Weight for u128 {
    open spec fn size(&self) -> nat {
        16
    }

    fn weight(&self) -> usize {
        16
    }
}

impl Weight for i32 {
    open spec fn size(&self) -> nat {
        4
    }

    fn weight(&self) -> usize {
        4
    }
}

impl Weight for i64 {
    open spec fn size(&self) -> nat {
        8
    }

    fn weight(&self) -> usize {
        8
    }
}

impl Weight for () {
    open spec fn size(&self) -> nat {
        0
    }

    fn weight(&self) -> usize {
        0
    }
}

/// What a cache needs of its keys: to tell them apart.
///
/// Implement it for your own key type; two keys are the same key when they have
/// the same view.
pub trait CacheKey: View + Sized {
    /// Returns `true` when both are the same key.
    fn same_key(&self, other: &Self) -> (r: bool)
        ensures
            r == (self.view() == other.view()),
    ;
}

impl CacheKey for String {
    fn same_key(&self, other: &String) -> bool {
        *self == *other
    }
}

impl CacheKey for u64 {
    fn same_key(&self, other: &u64) -> bool {
        *self == *other
    }
}

impl CacheKey for u128 {
    fn same_key(&self, other: &u128) -> bool {
        *self == *other
    }
}

/// Why an entry left the cache.
#[derive(Debug, Clone, Copy, PartialEq, Eq, Hash, Structural)]
#[non_exhaustive]
pub enum EvictionReason {
    /// Displaced because the cache exceeded its entry or byte capacity.
    Capacity,
    /// Removed because its time to live had elapsed.
    Expired,
    /// Removed explicitly by the caller.
    Removed,
}

/// A snapshot of cache activity.
#[derive(Debug, Clone, Copy, PartialEq, Eq, Default)]
pub struct CacheStats {
    /// Lookups that found a live entry.
    pub hits: u64,
    /// Lookups that found nothing.
    pub misses: u64,
    /// Entries evicted to stay within capacity.
    pub evictions: u64,
    /// Entries dropped because they had expired.
    pub expirations: u64,
    /// Entries currently held.
    pub entries: usize,
    /// Bytes currently held, by the [`Weight`] of each value.
    pub bytes: usize,
}

impl CacheStats {
    /// Returns the fraction of lookups that were hits; zero before any lookup.
    pub fn hit_ratio(&self) -> (r: Ratio)
        requires
            self.hits + self.misses <= u64::MAX,
        ensures
            r == Ratio::share(self.hits as nat, (self.hits + self.misses) as nat),
    {
        Ratio::of(self.hits, self.hits + self.misses)
    }
}

/// An entry together with its bookkeeping.
#[derive(Debug)]
struct Entry<K, V> {
    key: K,
    value: V,
    weight: usize,
    expires_at: Option<Instant>,
}

/// One cached value: its key's identity, the value, the bytes it accounts for,
/// and the point in time from which it counts as absent.
pub struct Slot<I, V> {
    /// The identity of the key.
    pub key: I,
    /// The value.
    pub value: V,
    /// The bytes the value accounts for.
    pub weight: nat,
    /// From when on the entry counts as absent, if ever.
    pub expires_at: Option<Instant>,
}

impl<I, V> Slot<I, V> {
    /// The entry counts as absent at `now`.
    pub open spec fn expired(self, now: Instant) -> bool {
        self.expires_at matches Some(deadline) && now.nanos() >= deadline.nanos()
    }
}

/// What a cache holds, from the least to the most recently used entry, and how
/// it has been used.
#[verifier::ext_equal]
pub struct CacheState<I, V> {
    /// The entries, from the least to the most recently used.
    pub entries: Seq<Slot<I, V>>,
    /// The entry capacity.
    pub max_entries: nat,
    /// The byte capacity, if there is one.
    pub max_bytes: Option<usize>,
    /// The time to live of entries inserted without one.
    pub default_ttl: Option<Duration>,
    /// Lookups that found a live entry.
    pub hits: nat,
    /// Lookups that found nothing.
    pub misses: nat,
    /// Entries evicted to stay within capacity.
    pub evictions: nat,
    /// Entries dropped because they had expired.
    pub expirations: nat,
}

/// The bytes that all entries account for.
pub open spec fn total_weight<I, V>(entries: Seq<Slot<I, V>>) -> nat
    decreases entries.len(),
{
    if entries.len() == 0 {
        0
    } else {
        total_weight(entries.drop_last()) + entries.last().weight
    }
}

/// How many entries will expire.
pub open spec fn expiring<I, V>(entries: Seq<Slot<I, V>>) -> nat
    decreases entries.len(),
{
    if entries.len() == 0 {
        0
    } else {
        expiring(entries.drop_last()) + if entries.last().expires_at is Some {
            1nat
        } else {
            0
        }
    }
}

/// The entries that have not expired, in the same order.
pub open spec fn live<I, V>(entries: Seq<Slot<I, V>>, now: Instant) -> Seq<Slot<I, V>>
    decreases entries.len(),
{
    if entries.len() == 0 {
        Seq::empty()
    } else if entries.last().expired(now) {
        live(entries.drop_last(), now)
    } else {
        live(entries.drop_last(), now).push(entries.last())
    }
}

/// The entry at `i` has this key.
pub open spec fn holds_at<I, V>(entries: Seq<Slot<I, V>>, key: I, i: int) -> bool {
    0 <= i < entries.len() && entries[i].key == key
}

/// Where the entry with this key stands, if there is one.
pub open spec fn position<I, V>(entries: Seq<Slot<I, V>>, key: I) -> Option<int> {
    if exists|i: int| holds_at(entries, key, i) {
        Some(choose|i: int| holds_at(entries, key, i))
    } else {
        None
    }
}

/// No key occurs twice.
pub open spec fn distinct_keys<I, V>(entries: Seq<Slot<I, V>>) -> bool {
    forall|i: int, j: int|
        0 <= i < j < entries.len() ==> (#[trigger] entries[i]).key != (#[trigger] entries[j]).key
}

/// The entries exceed the number or the bytes that the cache may hold.
pub open spec fn over_capacity<I, V>(
    entries: Seq<Slot<I, V>>,
    max_entries: nat,
    max_bytes: Option<usize>,
) -> bool {
    ||| entries.len() > max_entries
    ||| max_bytes matches Some(max) && total_weight(entries) > max
}

/// What is left when the least recently used entries give way, one by one, for
/// as long as the rest is over capacity. The last entry always stays.
pub open spec fn evicted<I, V>(
    entries: Seq<Slot<I, V>>,
    max_entries: nat,
    max_bytes: Option<usize>,
) -> Seq<Slot<I, V>>
    decreases entries.len(),
{
    if over_capacity(entries, max_entries, max_bytes) && entries.len() > 1 {
        evicted(entries.drop_first(), max_entries, max_bytes)
    } else {
        entries
    }
}

impl<I, V> CacheState<I, V> {
    /// An empty cache of at least one entry's capacity.
    pub open spec fn empty(max_entries: usize) -> CacheState<I, V> {
        CacheState {
            entries: Seq::empty(),
            max_entries: if max_entries == 0 {
                1
            } else {
                max_entries as nat
            },
            max_bytes: None,
            default_ttl: None,
            hits: 0,
            misses: 0,
            evictions: 0,
            expirations: 0,
        }
    }

    /// Every cache holds each key at most once, and no more entries than it
    /// may.
    pub open spec fn wf(self) -> bool {
        &&& self.max_entries >= 1
        &&& self.entries.len() <= self.max_entries
        &&& distinct_keys(self.entries)
    }

    /// The statistics have room to count one more operation.
    pub open spec fn can_count(self) -> bool {
        &&& self.hits < u64::MAX
        &&& self.misses < u64::MAX
        &&& self.evictions + self.entries.len() < u64::MAX
        &&& self.expirations + self.entries.len() < u64::MAX
    }

    /// The entries other than the one with this key.
    pub open spec fn others(self, key: I) -> Seq<Slot<I, V>> {
        match position(self.entries, key) {
            Some(i) => self.entries.remove(i),
            None => self.entries,
        }
    }

    /// The value with this key, expired or not.
    pub open spec fn stored(self, key: I) -> Option<V> {
        match position(self.entries, key) {
            Some(i) => Some(self.entries[i].value),
            None => None,
        }
    }

    /// The value with this key, if it has not expired.
    pub open spec fn found(self, key: I, now: Instant) -> Option<V> {
        match position(self.entries, key) {
            Some(i) => if self.entries[i].expired(now) {
                None
            } else {
                Some(self.entries[i].value)
            },
            None => None,
        }
    }

    /// The cache without its expired entries.
    pub open spec fn purged(self, now: Instant) -> CacheState<I, V> {
        CacheState {
            entries: live(self.entries, now),
            expirations: (self.expirations + (self.entries.len() - live(
                self.entries,
                now,
            ).len())) as nat,
            ..self
        }
    }

    /// The cache brought back within its capacity: expired entries go first,
    /// and after them the least recently used ones.
    pub open spec fn enforced(self, now: Instant) -> CacheState<I, V> {
        let swept = if over_capacity(self.entries, self.max_entries, self.max_bytes) {
            self.purged(now)
        } else {
            self
        };
        let kept = evicted(swept.entries, self.max_entries, self.max_bytes);
        CacheState {
            entries: kept,
            evictions: (self.evictions + (swept.entries.len() - kept.len())) as nat,
            ..swept
        }
    }

    /// The cache after an insertion.
    pub open spec fn inserted(self, slot: Slot<I, V>, now: Instant) -> CacheState<I, V> {
        CacheState { entries: self.others(slot.key).push(slot), ..self }.enforced(now)
    }

    /// The cache after a lookup: a live entry becomes the most recently used
    /// one, an expired one is dropped.
    pub open spec fn looked_up(self, key: I, now: Instant) -> CacheState<I, V> {
        match position(self.entries, key) {
            None => CacheState { misses: self.misses + 1, ..self },
            Some(i) => if self.entries[i].expired(now) {
                CacheState {
                    entries: self.entries.remove(i),
                    misses: self.misses + 1,
                    expirations: self.expirations + 1,
                    ..self
                }
            } else {
                CacheState {
                    entries: self.entries.remove(i).push(self.entries[i]),
                    hits: self.hits + 1,
                    ..self
                }
            },
        }
    }

    /// The cache after a removal.
    pub open spec fn removed(self, key: I, now: Instant) -> CacheState<I, V> {
        match position(self.entries, key) {
            None => self,
            Some(i) => CacheState {
                entries: self.entries.remove(i),
                expirations: if self.entries[i].expired(now) {
                    self.expirations + 1
                } else {
                    self.expirations
                },
                ..self
            },
        }
    }
}

proof fn position_is_unique<I, V>(entries: Seq<Slot<I, V>>, key: I, i: int)
    requires
        distinct_keys(entries),
        holds_at(entries, key, i),
    ensures
        position(entries, key) == Some(i),
{
    let j = choose|j: int| holds_at(entries, key, j);
    assert(holds_at(entries, key, j));
    if i < j {
        assert(entries[i].key != entries[j].key);
    } else if j < i {
        assert(entries[j].key != entries[i].key);
    }
}

proof fn weight_of_removal<I, V>(entries: Seq<Slot<I, V>>, i: int)
    requires
        0 <= i < entries.len(),
    ensures
        total_weight(entries) == total_weight(entries.remove(i)) + entries[i].weight,
        expiring(entries) == expiring(entries.remove(i)) + if entries[i].expires_at is Some {
            1nat
        } else {
            0
        },
    decreases entries.len(),
{
    if i == entries.len() - 1 {
        assert(entries.remove(i) =~= entries.drop_last());
    } else {
        weight_of_removal(entries.drop_last(), i);
        assert(entries.remove(i).drop_last() =~= entries.drop_last().remove(i));
        assert(entries.remove(i).last() == entries.last());
    }
}

proof fn weight_of_push<I, V>(entries: Seq<Slot<I, V>>, slot: Slot<I, V>)
    ensures
        total_weight(entries.push(slot)) == total_weight(entries) + slot.weight,
        expiring(entries.push(slot)) == expiring(entries) + if slot.expires_at is Some {
            1nat
        } else {
            0
        },
{
    assert(entries.push(slot).drop_last() =~= entries);
}

proof fn expiring_is_bounded<I, V>(entries: Seq<Slot<I, V>>)
    ensures
        expiring(entries) <= entries.len(),
    decreases entries.len(),
{
    if entries.len() > 0 {
        expiring_is_bounded(entries.drop_last());
    }
}

proof fn nothing_expires_without_deadline<I, V>(entries: Seq<Slot<I, V>>, now: Instant)
    requires
        expiring(entries) == 0,
    ensures
        live(entries, now) == entries,
        forall|i: int| 0 <= i < entries.len() ==> (#[trigger] entries[i]).expires_at is None,
    decreases entries.len(),
{
    if entries.len() > 0 {
        nothing_expires_without_deadline(entries.drop_last(), now);
        assert(entries.drop_last().push(entries.last()) =~= entries);
        assert forall|i: int| 0 <= i < entries.len() implies (
        #[trigger] entries[i]).expires_at is None by {
            if i < entries.len() - 1 {
                assert(entries.drop_last()[i].expires_at is None);
            }
        }
    } else {
        assert(live(entries, now) =~= entries);
    }
}

/// What is live was there before, in the same order, and is not expired.
proof fn live_is_sublist<I, V>(entries: Seq<Slot<I, V>>, now: Instant)
    ensures
        live(entries, now).len() <= entries.len(),
        total_weight(live(entries, now)) <= total_weight(entries),
        forall|i: int|
            0 <= i < live(entries, now).len() ==> !(#[trigger] live(entries, now)[i]).expired(now)
                && entries.contains(live(entries, now)[i]),
        distinct_keys(entries) ==> distinct_keys(live(entries, now)),
    decreases entries.len(),
{
    if entries.len() > 0 {
        let front = entries.drop_last();
        live_is_sublist(front, now);
        let l = live(entries, now);
        assert forall|i: int| 0 <= i < l.len() implies !(#[trigger] l[i]).expired(now)
            && entries.contains(l[i]) by {
            if i < live(front, now).len() {
                assert(front.contains(live(front, now)[i]));
                let k = choose|k: int| 0 <= k < front.len() && front[k] == live(front, now)[i];
                assert(entries[k] == l[i]);
            } else {
                assert(entries[entries.len() - 1] == l[i]);
            }
        }
        if !entries.last().expired(now) {
            weight_of_push(live(front, now), entries.last());
        }
        if distinct_keys(entries) {
            assert(distinct_keys(front));
            assert forall|i: int, j: int| 0 <= i < j < l.len() implies (#[trigger] l[i]).key != (
            #[trigger] l[j]).key by {
                if j == live(front, now).len() {
                    assert(front.contains(live(front, now)[i]));
                    let k = choose|k: int| 0 <= k < front.len() && front[k] == live(front, now)[i];
                    assert(entries[k].key != entries[entries.len() - 1].key);
                } else {
                    assert(live(front, now)[i].key != live(front, now)[j].key);
                }
            }
        }
    }
}

proof fn live_of_push<I, V>(entries: Seq<Slot<I, V>>, slot: Slot<I, V>, now: Instant)
    ensures
        live(entries.push(slot), now) == if slot.expired(now) {
            live(entries, now)
        } else {
            live(entries, now).push(slot)
        },
{
    assert(entries.push(slot).drop_last() =~= entries);
}

/// Eviction takes entries from the least recently used end only, and stops as
/// soon as the rest fits or a single entry is left.
pub proof fn eviction_takes_the_least_recent<I, V>(
    entries: Seq<Slot<I, V>>,
    max_entries: nat,
    max_bytes: Option<usize>,
)
    requires
        max_entries >= 1,
    ensures
        ({
            let kept = evicted(entries, max_entries, max_bytes);
            &&& kept.len() <= entries.len()
            &&& kept == entries.skip(entries.len() - kept.len())
            &&& entries.len() > 0 ==> kept.len() > 0
            &&& over_capacity(kept, max_entries, max_bytes) ==> kept.len() <= 1
            &&& forall|n: int|
                kept.len() < n <= entries.len() ==> over_capacity(
                    #[trigger] entries.skip(entries.len() - n),
                    max_entries,
                    max_bytes,
                )
        }),
    decreases entries.len(),
{
    let kept = evicted(entries, max_entries, max_bytes);
    if over_capacity(entries, max_entries, max_bytes) && entries.len() > 1 {
        let tail = entries.drop_first();
        eviction_takes_the_least_recent(tail, max_entries, max_bytes);
        assert(tail.skip(tail.len() - kept.len()) =~= entries.skip(entries.len() - kept.len()));
        assert forall|n: int| kept.len() < n <= entries.len() implies over_capacity(
            #[trigger] entries.skip(entries.len() - n),
            max_entries,
            max_bytes,
        ) by {
            if n == entries.len() {
                assert(entries.skip(0) =~= entries);
            } else {
                assert(tail.skip(tail.len() - n) =~= entries.skip(entries.len() - n));
            }
        }
    } else {
        assert(entries.skip(0) =~= entries);
    }
}

/// After an insertion the cache is within its entry capacity, and within its
/// byte capacity unless a single entry is left. The inserted entry is among
/// what is left, as the most recently used one, unless it had expired already.
pub proof fn insertion_respects_capacity<I, V>(
    state: CacheState<I, V>,
    slot: Slot<I, V>,
    now: Instant,
)
    requires
        state.wf(),
    ensures
        ({
            let after = state.inserted(slot, now);
            &&& after.wf()
            &&& over_capacity(after.entries, after.max_entries, after.max_bytes)
                ==> after.entries.len() <= 1
            &&& !slot.expired(now) ==> after.entries.len() > 0 && after.entries.last() == slot
        }),
{
    let pushed = state.others(slot.key).push(slot);
    others_is_sublist(state, slot.key);
    assert(distinct_keys(pushed));
    let swept = if over_capacity(pushed, state.max_entries, state.max_bytes) {
        live(pushed, now)
    } else {
        pushed
    };
    live_is_sublist(pushed, now);
    live_of_push(state.others(slot.key), slot, now);
    eviction_takes_the_least_recent(swept, state.max_entries, state.max_bytes);
    let kept = evicted(swept, state.max_entries, state.max_bytes);
    assert(distinct_keys(kept)) by {
        assert forall|i: int, j: int| 0 <= i < j < kept.len() implies (#[trigger] kept[i]).key != (
        #[trigger] kept[j]).key by {
            let d = swept.len() - kept.len();
            assert(kept[i] == swept[i + d] && kept[j] == swept[j + d]);
        }
    }
    if !slot.expired(now) {
        assert(swept.last() == slot);
    }
}

/// The other entries are entries of the cache, in the same order, and none of
/// them has the key.
proof fn others_is_sublist<I, V>(state: CacheState<I, V>, key: I)
    requires
        distinct_keys(state.entries),
    ensures
        state.others(key).len() <= state.entries.len(),
        distinct_keys(state.others(key)),
        forall|i: int|
            0 <= i < state.others(key).len() ==> (#[trigger] state.others(key)[i]).key != key,
        forall|i: int|
            0 <= i < state.others(key).len() ==> state.entries.contains(
                #[trigger] state.others(key)[i],
            ),
{
    match position(state.entries, key) {
        Some(p) => {
            let e = state.entries;
            let o = e.remove(p);
            assert(holds_at(e, key, p));
            assert forall|i: int| 0 <= i < o.len() implies (#[trigger] o[i]).key != key
                && e.contains(o[i]) by {
                if i < p {
                    assert(o[i] == e[i]);
                    assert(e[i].key != e[p].key);
                } else {
                    assert(o[i] == e[i + 1]);
                    assert(e[p].key != e[i + 1].key);
                }
            }
            assert forall|i: int, j: int| 0 <= i < j < o.len() implies (#[trigger] o[i]).key != (
            #[trigger] o[j]).key by {
                let a = if i < p {
                    i
                } else {
                    i + 1
                };
                let b = if j < p {
                    j
                } else {
                    j + 1
                };
                assert(o[i] == e[a] && o[j] == e[b]);
            }
        },
        None => {
            assert forall|i: int| 0 <= i < state.entries.len() implies (
            #[trigger] state.entries[i]).key != key by {
                assert(!holds_at(state.entries, key, i));
            }
        },
    }
}

/// A live entry that is looked up becomes the last one that eviction would
/// take, and the order of the others does not change.
pub proof fn lookup_refreshes<I, V>(state: CacheState<I, V>, key: I, now: Instant)
    requires
        state.wf(),
        state.found(key, now) is Some,
    ensures
        ({
            let after = state.looked_up(key, now);
            &&& after.wf()
            &&& after.entries.last().key == key
            &&& Some(after.entries.last().value) == state.found(key, now)
            &&& after.entries.drop_last() == state.others(key)
            &&& after.found(key, now) == state.found(key, now)
        }),
{
    let i = position(state.entries, key)->0;
    assert(holds_at(state.entries, key, i));
    others_is_sublist(state, key);
    let after = state.looked_up(key, now);
    assert(after.entries.drop_last() =~= state.entries.remove(i));
    position_is_unique(after.entries, key, after.entries.len() - 1);
}

/// Looking up or removing keeps a cache well-formed.
pub proof fn operations_keep_shape<I, V>(state: CacheState<I, V>, key: I, now: Instant)
    requires
        state.wf(),
    ensures
        state.looked_up(key, now).wf(),
        state.removed(key, now).wf(),
        state.purged(now).wf(),
        state.removed(key, now).found(key, now) is None,
{
    others_is_sublist(state, key);
    live_is_sublist(state.entries, now);
    let after = state.removed(key, now);
    assert(after.entries == state.others(key));
    assert(position(after.entries, key) is None) by {
        if exists|i: int| holds_at(after.entries, key, i) {
            let i = choose|i: int| holds_at(after.entries, key, i);
            assert(state.others(key)[i].key != key);
        }
    }
    if position(state.entries, key) is Some {
        assert(holds_at(state.entries, key, position(state.entries, key)->0));
    }
}

/// What is in the cache after an insertion is the inserted entry or was in the
/// cache before, under the same key.
pub proof fn insertion_adds_one_entry<I, V>(state: CacheState<I, V>, slot: Slot<I, V>, now: Instant)
    requires
        state.wf(),
    ensures
        forall|i: int|
            0 <= i < state.inserted(slot, now).entries.len() ==> {
                let e = #[trigger] state.inserted(slot, now).entries[i];
                e == slot || (state.entries.contains(e) && e.key != slot.key)
            },
        !slot.expired(now) ==> state.inserted(slot, now).found(slot.key, now) == Some(slot.value),
        forall|key: I|
            key != slot.key && (#[trigger] state.inserted(slot, now).stored(key)) is Some
                ==> state.inserted(slot, now).stored(key) == state.stored(key),
{
    let after = state.inserted(slot, now);
    insertion_respects_capacity(state, slot, now);
    others_is_sublist(state, slot.key);
    let others = state.others(slot.key);
    let pushed = others.push(slot);
    live_is_sublist(pushed, now);
    let swept = if over_capacity(pushed, state.max_entries, state.max_bytes) {
        live(pushed, now)
    } else {
        pushed
    };
    eviction_takes_the_least_recent(swept, state.max_entries, state.max_bytes);
    assert forall|i: int| 0 <= i < after.entries.len() implies {
        let e = #[trigger] after.entries[i];
        e == slot || (state.entries.contains(e) && e.key != slot.key)
    } by {
        let e = after.entries[i];
        assert(e == swept[i + (swept.len() - after.entries.len())]);
        assert(pushed.contains(e));
        let k = choose|k: int| 0 <= k < pushed.len() && pushed[k] == e;
        if k < others.len() {
            assert(others[k] == e);
        }
    }
    if !slot.expired(now) {
        position_is_unique(after.entries, slot.key, after.entries.len() - 1);
    }
    assert forall|key: I|
        key != slot.key && (#[trigger] after.stored(key)) is Some implies after.stored(key)
        == state.stored(key) by {
        let i = position(after.entries, key)->0;
        assert(holds_at(after.entries, key, i));
        let e = after.entries[i];
        assert(state.entries.contains(e));
        let j = choose|j: int| 0 <= j < state.entries.len() && state.entries[j] == e;
        assert(holds_at(state.entries, key, j));
        position_is_unique(state.entries, key, j);
    }
}

proof fn all_stay_live<I, V>(entries: Seq<Slot<I, V>>, now: Instant)
    requires
        forall|i: int| 0 <= i < entries.len() ==> !(#[trigger] entries[i]).expired(now),
    ensures
        live(entries, now) == entries,
    decreases entries.len(),
{
    if entries.len() > 0 {
        let rest = entries.drop_last();
        assert forall|i: int| 0 <= i < rest.len() implies !(#[trigger] rest[i]).expired(now) by {
            assert(rest[i] == entries[i]);
        }
        all_stay_live(rest, now);
        assert(!entries[entries.len() - 1].expired(now));
        assert(rest.push(entries.last()) =~= entries);
    }
}

/// An insertion among live entries: the key holds the value, the entries fit both
/// limits or the inserted one is the only one left, and those that gave way are
/// the shortest run of least recently used entries for which that is so, the
/// inserted one being the most recently used. They are counted as evictions, and
/// nothing counts as expired.
pub proof fn insertion_evicts_no_more_than_it_must<I, V>(
    state: CacheState<I, V>,
    slot: Slot<I, V>,
    now: Instant,
)
    requires
        state.wf(),
        forall|i: int| 0 <= i < state.entries.len() ==> !(#[trigger] state.entries[i]).expired(now),
        !slot.expired(now),
    ensures
        ({
            let with = state.others(slot.key).push(slot);
            let after = state.inserted(slot, now);
            let gone = with.len() - after.entries.len();
            &&& 0 <= gone < with.len()
            &&& after.entries == with.skip(gone)
            &&& after.entries.last() == slot
            &&& after.found(slot.key, now) == Some(slot.value)
            &&& !over_capacity(after.entries, state.max_entries, state.max_bytes) || after.entries
                == seq![slot]
            &&& forall|n: int|
                0 <= n < gone ==> over_capacity(
                    #[trigger] with.skip(n),
                    state.max_entries,
                    state.max_bytes,
                )
            &&& after.evictions == state.evictions + gone
            &&& after.expirations == state.expirations
            &&& after.hits == state.hits && after.misses == state.misses
        }),
{
    let others = state.others(slot.key);
    let with = others.push(slot);
    let after = state.inserted(slot, now);
    others_is_sublist(state, slot.key);
    assert forall|i: int| 0 <= i < with.len() implies !(#[trigger] with[i]).expired(now) by {
        if i < others.len() {
            assert(state.entries.contains(others[i]));
        }
    }
    all_stay_live(with, now);
    eviction_takes_the_least_recent(with, state.max_entries, state.max_bytes);
    insertion_respects_capacity(state, slot, now);
    insertion_adds_one_entry(state, slot, now);
    let gone = with.len() - after.entries.len();
    if over_capacity(after.entries, state.max_entries, state.max_bytes) {
        assert(after.entries =~= seq![slot]);
    }
    assert forall|n: int| 0 <= n < gone implies over_capacity(
        #[trigger] with.skip(n),
        state.max_entries,
        state.max_bytes,
    ) by {
        assert(with.skip(with.len() - (with.len() - n)) == with.skip(n));
    }
}

/// A lookup loses no entry but the expired one it asked for, and changes no
/// value.
pub proof fn lookup_keeps_values<I, V>(state: CacheState<I, V>, key: I, other: I, now: Instant)
    requires
        state.wf(),
        other != key || state.found(key, now) is Some,
    ensures
        state.looked_up(key, now).stored(other) == state.stored(other),
{
    let after = state.looked_up(key, now);
    operations_keep_shape(state, key, now);
    match position(state.entries, key) {
        None => {},
        Some(p) => {
            assert(holds_at(state.entries, key, p));
            match position(state.entries, other) {
                Some(q) => {
                    assert(holds_at(state.entries, other, q));
                    let r = if q < p {
                        q
                    } else if q > p {
                        q - 1
                    } else {
                        after.entries.len() - 1
                    };
                    assert(after.entries[r] == state.entries[q]);
                    position_is_unique(after.entries, other, r);
                },
                None => {
                    if exists|i: int| holds_at(after.entries, other, i) {
                        let i = choose|i: int| holds_at(after.entries, other, i);
                        let j = if i < p {
                            i
                        } else if i < state.entries.len() - 1 {
                            i + 1
                        } else {
                            p
                        };
                        assert(after.entries[i] == state.entries[j]);
                        assert(holds_at(state.entries, other, j));
                    }
                },
            }
        },
    }
}

/// An LRU cache with optional expiry and byte-aware capacity.
#[derive(Debug)]
pub struct LruCache<K, V> {
    /// From the least to the most recently used.
    entries: Vec<Entry<K, V>>,
    max_entries: usize,
    max_bytes: Option<usize>,
    default_ttl: Option<Duration>,
    bytes: usize,
    /// How many entries carry an expiry. When zero, expiry scanning is skipped.
    ttl_entries: usize,
    hits: u64,
    misses: u64,
    evictions: u64,
    expirations: u64,
    clock: Clock,
}

spec fn slots<K: CacheKey, V>(entries: Seq<Entry<K, V>>) -> Seq<Slot<K::V, V>> {
    Seq::new(
        entries.len(),
        |i: int|
            Slot {
                key: entries[i].key.view(),
                value: entries[i].value,
                weight: entries[i].weight as nat,
                expires_at: entries[i].expires_at,
            },
    )
}

impl<K: CacheKey, V: Weight> View for LruCache<K, V> {
    type V = CacheState<K::V, V>;

    closed spec fn view(&self) -> CacheState<K::V, V> {
        CacheState {
            entries: slots(self.entries@),
            max_entries: self.max_entries as nat,
            max_bytes: self.max_bytes,
            default_ttl: self.default_ttl,
            hits: self.hits as nat,
            misses: self.misses as nat,
            evictions: self.evictions as nat,
            expirations: self.expirations as nat,
        }
    }
}

impl<K: CacheKey, V: Weight> LruCache<K, V> {
    /// The running totals agree with the entries.
    spec fn totals_agree(&self) -> bool {
        &&& self.bytes == total_weight(self@.entries)
        &&& self.ttl_entries == expiring(self@.entries)
    }

    /// The cache holds each key once, is within its entry capacity, and its
    /// running totals agree with its entries.
    pub closed spec fn wf(&self) -> bool {
        &&& self@.wf()
        &&& self.totals_agree()
    }

    /// A well-formed cache has a well-formed state.
    pub proof fn state_is_wf(&self)
        requires
            self.wf(),
        ensures
            self@.wf(),
            total_weight(self@.entries) <= usize::MAX,
    {
    }

    /// Creates a cache holding at most `max_entries` entries.
    ///
    /// A capacity of zero is raised to one; a cache that can hold nothing would
    /// silently discard every insert.
    pub fn new(max_entries: usize) -> (c: LruCache<K, V>)
        ensures
            c.wf(),
            c.made_at().nanos() == 0,
            c@ == CacheState::<K::V, V>::empty(max_entries),
    {
        let c = LruCache {
            entries: Vec::new(),
            max_entries: if max_entries == 0 {
                1
            } else {
                max_entries
            },
            max_bytes: None,
            default_ttl: None,
            bytes: 0,
            ttl_entries: 0,
            hits: 0,
            misses: 0,
            evictions: 0,
            expirations: 0,
            clock: Clock::start(),
        };
        assert(c@.entries =~= Seq::empty());
        c
    }

    /// Also bounds the cache by total bytes.
    ///
    /// A single value larger than this budget is still stored, but it will
    /// evict everything else to make room.
    pub fn with_max_bytes(self, max_bytes: usize) -> (c: LruCache<K, V>)
        requires
            self.wf(),
        ensures
            c.wf(),
            c.made_at() == self.made_at(),
            c@ == (CacheState { max_bytes: Some(max_bytes), ..self@ }),
    {
        LruCache { max_bytes: Some(max_bytes), ..self }
    }

    /// Applies a default time to live to entries inserted without one.
    pub fn with_default_ttl(self, ttl: Duration) -> (c: LruCache<K, V>)
        requires
            self.wf(),
        ensures
            c.wf(),
            c.made_at() == self.made_at(),
            c@ == (CacheState { default_ttl: Some(ttl), ..self@ }),
    {
        LruCache { default_ttl: Some(ttl), ..self }
    }

    /// When the cache was made, on its own clock.
    pub closed spec fn made_at(&self) -> Instant {
        self.clock.first()
    }

    /// Returns the time on the clock of the cache, which starts at zero when the
    /// cache is made.
    pub fn now(&self) -> (t: Instant)
        ensures
            t.nanos() >= self.made_at().nanos(),
    {
        self.clock.now()
    }

    fn expired_at(&self, i: usize, now: Instant) -> (r: bool)
        requires
            i < self@.entries.len(),
        ensures
            r == self@.entries[i as int].expired(now),
    {
        match self.entries[i].expires_at {
            Some(deadline) => now.reached(&deadline),
            None => false,
        }
    }

    /// Where the entry with this key stands.
    fn find(&self, key: &K) -> (r: Option<usize>)
        requires
            distinct_keys(self@.entries),
        ensures
            match r {
                Some(i) => position(self@.entries, key.view()) == Some(i as int) && i
                    < self@.entries.len(),
                None => position(self@.entries, key.view()) is None,
            },
    {
        let mut i: usize = 0;
        while i < self.entries.len()
            invariant
                i <= self.entries@.len(),
                distinct_keys(self@.entries),
                forall|j: int| 0 <= j < i ==> !#[trigger] holds_at(self@.entries, key.view(), j),
            decreases self.entries@.len() - i,
        {
            if self.entries[i].key.same_key(key) {
                proof {
                    position_is_unique(self@.entries, key.view(), i as int);
                }
                return Some(i);
            }
            i += 1;
        }
        None
    }

    /// Takes the entry at `i` out and keeps the running totals right.
    fn take_at(&mut self, i: usize) -> (e: Entry<K, V>)
        requires
            old(self).totals_agree(),
            i < old(self)@.entries.len(),
        ensures
            e == old(self).entries@[i as int],
            final(self).totals_agree(),
            final(self).made_at() == old(self).made_at(),
            final(self)@ == (CacheState {
                entries: old(self)@.entries.remove(i as int),
                ..old(self)@
            }),
    {
        let ghost before = self@.entries;
        proof {
            weight_of_removal(before, i as int);
            expiring_is_bounded(before);
        }
        let e = self.entries.remove(i);
        self.bytes = self.bytes - e.weight;
        if e.expires_at.is_some() {
            self.ttl_entries = self.ttl_entries - 1;
        }
        assert(self@.entries =~= before.remove(i as int));
        e
    }

    /// Puts an entry at the most recently used end and keeps the running totals
    /// right.
    fn put_last(&mut self, e: Entry<K, V>)
        requires
            old(self).totals_agree(),
            total_weight(old(self)@.entries) + e.weight <= usize::MAX,
            old(self)@.entries.len() < usize::MAX,
        ensures
            final(self).totals_agree(),
            final(self).made_at() == old(self).made_at(),
            final(self)@ == (CacheState {
                entries: old(self)@.entries.push(
                    Slot {
                        key: e.key.view(),
                        value: e.value,
                        weight: e.weight as nat,
                        expires_at: e.expires_at,
                    },
                ),
                ..old(self)@
            }),
    {
        let ghost before = self@.entries;
        let ghost slot = Slot {
            key: e.key.view(),
            value: e.value,
            weight: e.weight as nat,
            expires_at: e.expires_at,
        };
        proof {
            weight_of_push(before, slot);
            expiring_is_bounded(before);
        }
        self.bytes = self.bytes + e.weight;
        if e.expires_at.is_some() {
            self.ttl_entries = self.ttl_entries + 1;
        }
        self.entries.push(e);
        assert(self@.entries =~= before.push(slot));
    }

    /// Returns the number of entries that are live at `now`.
    pub fn len_at(&self, now: Instant) -> (n: usize)
        requires
            self.wf(),
        ensures
            n == live(self@.entries, now).len(),
    {
        if self.ttl_entries == 0 {
            proof {
                nothing_expires_without_deadline(self@.entries, now);
            }
            return self.entries.len();
        }
        let mut n: usize = 0;
        let mut i: usize = 0;
        assert(self@.entries.take(0) =~= Seq::empty());
        while i < self.entries.len()
            invariant
                i <= self.entries@.len(),
                n <= i,
                n == live(self@.entries.take(i as int), now).len(),
            decreases self.entries@.len() - i,
        {
            assert(self@.entries.take(i as int + 1).drop_last() =~= self@.entries.take(i as int));
            if !self.expired_at(i, now) {
                n += 1;
            }
            i += 1;
        }
        assert(self@.entries.take(i as int) =~= self@.entries);
        n
    }

    /// Returns the number of live entries, excluding expired ones.
    pub fn len(&self) -> (n: usize)
        requires
            self.wf(),
        ensures
            exists|now: Instant|
                now.nanos() >= self.made_at().nanos() && n == #[trigger] live(
                    self@.entries,
                    now,
                ).len(),
    {
        self.len_at(self.now())
    }

    /// Returns `true` if no live entry remains.
    pub fn is_empty(&self) -> (r: bool)
        requires
            self.wf(),
        ensures
            exists|now: Instant|
                now.nanos() >= self.made_at().nanos() && r == (#[trigger] live(
                    self@.entries,
                    now,
                ).len() == 0),
    {
        self.len() == 0
    }

    /// Returns the total weight of stored values.
    pub fn bytes(&self) -> (n: usize)
        requires
            self.wf(),
        ensures
            n == total_weight(self@.entries),
    {
        self.bytes
    }

    /// Returns the entry capacity.
    pub fn max_entries(&self) -> (n: usize)
        ensures
            n == self@.max_entries,
    {
        self.max_entries
    }

    /// Returns how many entries carry an expiry.
    pub fn ttl_entries(&self) -> (n: usize)
        requires
            self.wf(),
        ensures
            n == expiring(self@.entries),
    {
        self.ttl_entries
    }

    /// Returns a snapshot of cache activity.
    pub fn stats(&self) -> (s: CacheStats)
        requires
            self.wf(),
        ensures
            s.hits == self@.hits,
            s.misses == self@.misses,
            s.evictions == self@.evictions,
            s.expirations == self@.expirations,
            s.entries == self@.entries.len(),
            s.bytes == total_weight(self@.entries),
    {
        CacheStats {
            hits: self.hits,
            misses: self.misses,
            evictions: self.evictions,
            expirations: self.expirations,
            entries: self.entries.len(),
            bytes: self.bytes,
        }
    }

    /// Inserts a value, returning the previous one if the key was present.
    ///
    /// Uses the cache's default time to live, if one is configured.
    pub fn insert(&mut self, key: K, value: V) -> (previous: Option<V>)
        requires
            old(self).wf(),
            old(self)@.can_count(),
            old(self)@.entries.len() < usize::MAX,
            total_weight(old(self)@.others(key.view())) + value.size() <= usize::MAX,
        ensures
            final(self).wf(),
            final(self).made_at() == old(self).made_at(),
            previous == old(self)@.stored(key.view()),
            exists|now: Instant|
                {
                    &&& now.nanos() >= old(self).made_at().nanos()
                    &&& final(self)@ == #[trigger] old(self)@.inserted(
                        Slot {
                            key: key.view(),
                            value,
                            weight: value.size(),
                            expires_at: deadline(now, old(self)@.default_ttl),
                        },
                        now,
                    )
                },
    {
        let now = self.now();
        let ttl = self.default_ttl;
        self.insert_at(key, value, ttl, now)
    }

    /// Inserts a value that expires after `ttl`, overriding any default.
    pub fn insert_with_ttl(&mut self, key: K, value: V, ttl: Duration) -> (previous: Option<V>)
        requires
            old(self).wf(),
            old(self)@.can_count(),
            old(self)@.entries.len() < usize::MAX,
            total_weight(old(self)@.others(key.view())) + value.size() <= usize::MAX,
        ensures
            final(self).wf(),
            final(self).made_at() == old(self).made_at(),
            previous == old(self)@.stored(key.view()),
            exists|now: Instant|
                {
                    &&& now.nanos() >= old(self).made_at().nanos()
                    &&& final(self)@ == #[trigger] old(self)@.inserted(
                        Slot {
                            key: key.view(),
                            value,
                            weight: value.size(),
                            expires_at: deadline(now, Some(ttl)),
                        },
                        now,
                    )
                },
    {
        let now = self.now();
        self.insert_at(key, value, Some(ttl), now)
    }

    /// Inserts a value at `now`, to expire after `ttl` if one is given.
    pub fn insert_at(&mut self, key: K, value: V, ttl: Option<Duration>, now: Instant) -> (previous:
        Option<V>)
        requires
            old(self).wf(),
            old(self)@.can_count(),
            old(self)@.entries.len() < usize::MAX,
            total_weight(old(self)@.others(key.view())) + value.size() <= usize::MAX,
        ensures
            final(self).wf(),
            final(self).made_at() == old(self).made_at(),
            previous == old(self)@.stored(key.view()),
            final(self)@ == old(self)@.inserted(
                Slot {
                    key: key.view(),
                    value,
                    weight: value.size(),
                    expires_at: deadline(now, ttl),
                },
                now,
            ),
    {
        let weight: usize = value.weight();
        let expires_at = match ttl {
            Some(ttl) => Some(now.saturating_add(ttl)),
            None => None,
        };
        proof {
            others_is_sublist(self@, key.view());
            insertion_respects_capacity(
                self@,
                Slot { key: key.view(), value, weight: weight as nat, expires_at },
                now,
            );
        }
        let ghost before = self@;
        let previous = match self.find(&key) {
            Some(i) => {
                let e = self.take_at(i);
                Some(e.value)
            },
            None => None,
        };
        assert(self@ =~= (CacheState { entries: before.others(key.view()), ..before }));
        self.put_last(Entry { key, value, weight, expires_at });
        self.enforce_capacity(now);
        previous
    }

    /// Returns a reference to a value that is live at `now`, marking it recently
    /// used. An expired entry is treated as absent and removed.
    pub fn get_at(&mut self, key: &K, now: Instant) -> (r: Option<&V>)
        requires
            old(self).wf(),
            old(self)@.can_count(),
        ensures
            final(self).wf(),
            final(self).made_at() == old(self).made_at(),
            final(self)@ == old(self)@.looked_up(key.view(), now),
            match r {
                Some(v) => old(self)@.found(key.view(), now) == Some(*v),
                None => old(self)@.found(key.view(), now) is None,
            },
    {
        let ghost before = self@;
        proof {
            operations_keep_shape(self@, key.view(), now);
        }
        let i = match self.find(key) {
            Some(i) => i,
            None => {
                self.misses = self.misses + 1;
                assert(self@ =~= before.looked_up(key.view(), now));
                return None;
            },
        };
        if self.expired_at(i, now) {
            let _ = self.take_at(i);
            self.expirations = self.expirations + 1;
            self.misses = self.misses + 1;
            assert(self@ =~= before.looked_up(key.view(), now));
            return None;
        }
        self.hits = self.hits + 1;
        proof {
            weight_of_removal(before.entries, i as int);
        }
        let e = self.take_at(i);
        self.put_last(e);
        assert(self@ =~= before.looked_up(key.view(), now));
        Some(&self.entries[self.entries.len() - 1].value)
    }

    /// Returns a reference to a live value, marking it recently used.
    ///
    /// An expired entry is treated as absent and removed.
    pub fn get(&mut self, key: &K) -> (r: Option<&V>)
        requires
            old(self).wf(),
            old(self)@.can_count(),
        ensures
            final(self).wf(),
            final(self).made_at() == old(self).made_at(),
            exists|now: Instant|
                {
                    &&& now.nanos() >= old(self).made_at().nanos()
                    &&& final(self)@ == #[trigger] old(self)@.looked_up(key.view(), now)
                    &&& match r {
                        Some(v) => old(self)@.found(key.view(), now) == Some(*v),
                        None => old(self)@.found(key.view(), now) is None,
                    }
                },
    {
        let now = self.now();
        self.get_at(key, now)
    }

    /// Returns `true` if an entry is live at `now`, without marking it used.
    pub fn contains_key_at(&self, key: &K, now: Instant) -> (r: bool)
        requires
            self.wf(),
        ensures
            r == (self@.found(key.view(), now) is Some),
    {
        match self.find(key) {
            Some(i) => !self.expired_at(i, now),
            None => false,
        }
    }

    /// Returns `true` if a live entry exists, without marking it used.
    pub fn contains_key(&self, key: &K) -> (r: bool)
        requires
            self.wf(),
        ensures
            exists|now: Instant|
                now.nanos() >= self.made_at().nanos() && r == (#[trigger] self@.found(
                    key.view(),
                    now,
                ) is Some),
    {
        self.contains_key_at(key, self.now())
    }

    /// Removes an entry, returning its value if it was live at `now`.
    pub fn remove_at(&mut self, key: &K, now: Instant) -> (r: Option<V>)
        requires
            old(self).wf(),
            old(self)@.can_count(),
        ensures
            final(self).wf(),
            final(self).made_at() == old(self).made_at(),
            final(self)@ == old(self)@.removed(key.view(), now),
            r == old(self)@.found(key.view(), now),
    {
        let ghost before = self@;
        proof {
            operations_keep_shape(self@, key.view(), now);
        }
        let i = match self.find(key) {
            Some(i) => i,
            None => {
                return None;
            },
        };
        let expired = self.expired_at(i, now);
        let e = self.take_at(i);
        if expired {
            self.expirations = self.expirations + 1;
            assert(self@ =~= before.removed(key.view(), now));
            None
        } else {
            assert(self@ =~= before.removed(key.view(), now));
            Some(e.value)
        }
    }

    /// Removes an entry, returning its value if it was live.
    pub fn remove(&mut self, key: &K) -> (r: Option<V>)
        requires
            old(self).wf(),
            old(self)@.can_count(),
        ensures
            final(self).wf(),
            final(self).made_at() == old(self).made_at(),
            exists|now: Instant|
                {
                    &&& now.nanos() >= old(self).made_at().nanos()
                    &&& final(self)@ == #[trigger] old(self)@.removed(key.view(), now)
                    &&& r == old(self)@.found(key.view(), now)
                },
    {
        let now = self.now();
        self.remove_at(key, now)
    }

    /// Removes every entry.
    pub fn clear(&mut self)
        requires
            old(self).wf(),
        ensures
            final(self).wf(),
            final(self).made_at() == old(self).made_at(),
            final(self)@ == (CacheState { entries: Seq::empty(), ..old(self)@ }),
    {
        let ghost before = self@;
        self.entries.clear();
        self.bytes = 0;
        self.ttl_entries = 0;
        assert(self@ =~= (CacheState { entries: Seq::empty(), ..before }));
    }

    /// Drops all entries that have expired at `now`, returning how many were
    /// removed.
    pub fn purge_expired_at(&mut self, now: Instant) -> (n: usize)
        requires
            old(self).wf(),
            old(self)@.can_count(),
        ensures
            final(self).wf(),
            final(self).made_at() == old(self).made_at(),
            final(self)@ == old(self)@.purged(now),
            n == old(self)@.entries.len() - live(old(self)@.entries, now).len(),
    {
        proof {
            operations_keep_shape(self@, arbitrary(), now);
        }
        self.sweep(now)
    }

    fn sweep(&mut self, now: Instant) -> (n: usize)
        requires
            old(self).totals_agree(),
            old(self)@.expirations + old(self)@.entries.len() <= u64::MAX,
        ensures
            final(self).totals_agree(),
            final(self).made_at() == old(self).made_at(),
            final(self)@ == old(self)@.purged(now),
            n == old(self)@.entries.len() - live(old(self)@.entries, now).len(),
    {
        let ghost before = self@;
        proof {
            live_is_sublist(before.entries, now);
        }
        if self.ttl_entries == 0 {
            proof {
                nothing_expires_without_deadline(self@.entries, now);
            }
            assert(self@ =~= before.purged(now));
            return 0;
        }
        let mut removed: usize = 0;
        let mut i: usize = 0;
        let ghost count = self.entries.len();
        assert(before.entries.take(0) =~= Seq::empty());
        assert(self@.entries =~= live(before.entries.take(0), now) + before.entries.skip(0));
        while i < self.entries.len()
            invariant
                self.totals_agree(),
                self.made_at() == old(self).made_at(),
                i <= self@.entries.len(),
                before.entries.len() == count,
                i + removed <= before.entries.len(),
                self@.entries.len() + removed == before.entries.len(),
                live(before.entries.take(i + removed), now).len() == i,
                self@.entries == live(before.entries.take(i + removed), now)
                    + before.entries.skip(i + removed),
                self@ == (CacheState { entries: self@.entries, ..before }),
            decreases self@.entries.len() - i,
        {
            let ghost k = i + removed;
            let ghost l = live(before.entries.take(k), now);
            assert(before.entries.take(k + 1).drop_last() =~= before.entries.take(k));
            assert(before.entries.take(k + 1).last() == before.entries[k]);
            assert(self@.entries[i as int] == before.entries[k]);
            if self.expired_at(i, now) {
                let _ = self.take_at(i);
                removed += 1;
                assert((l + before.entries.skip(k)).remove(i as int) =~= l + before.entries.skip(
                    k + 1,
                ));
                assert(self@ =~= (CacheState { entries: self@.entries, ..before }));
            } else {
                assert(l + before.entries.skip(k) =~= l.push(before.entries[k])
                    + before.entries.skip(k + 1));
                i += 1;
            }
        }
        assert(before.entries.take(i + removed) =~= before.entries);
        assert(self@.entries =~= live(before.entries, now));
        self.expirations = self.expirations + removed as u64;
        assert(self@ =~= before.purged(now));
        removed
    }

    /// Drops all expired entries, returning how many were removed.
    ///
    /// Expiry is otherwise lazy: an expired entry costs nothing until it is
    /// looked at. Call this periodically if entries may go untouched for long.
    pub fn purge_expired(&mut self) -> (n: usize)
        requires
            old(self).wf(),
            old(self)@.can_count(),
        ensures
            final(self).wf(),
            final(self).made_at() == old(self).made_at(),
            exists|now: Instant|
                {
                    &&& now.nanos() >= old(self).made_at().nanos()
                    &&& final(self)@ == #[trigger] old(self)@.purged(now)
                    &&& n == old(self)@.entries.len() - live(old(self)@.entries, now).len()
                },
    {
        let now = self.now();
        self.purge_expired_at(now)
    }

    /// Evicts until both the entry and byte limits are satisfied.
    fn enforce_capacity(&mut self, now: Instant)
        requires
            old(self).totals_agree(),
            old(self)@.max_entries >= 1,
            old(self)@.evictions + old(self)@.entries.len() <= u64::MAX,
            old(self)@.expirations + old(self)@.entries.len() <= u64::MAX,
        ensures
            final(self).totals_agree(),
            final(self).made_at() == old(self).made_at(),
            final(self)@ == old(self)@.enforced(now),
    {
        let ghost before = self@;
        proof {
            live_is_sublist(before.entries, now);
        }
        if self.over_capacity() {
            let _ = self.sweep(now);
        }
        let ghost swept = self@;
        while self.over_capacity() && self.entries.len() > 1
            invariant
                self.totals_agree(),
                self.made_at() == old(self).made_at(),
                swept.evictions + swept.entries.len() <= u64::MAX,
                self@.evictions == swept.evictions + (swept.entries.len() - self@.entries.len()),
                self@.entries.len() <= swept.entries.len(),
                self@ == (CacheState {
                    entries: self@.entries,
                    evictions: self@.evictions,
                    ..swept
                }),
                evicted(self@.entries, self@.max_entries, self@.max_bytes) == evicted(
                    swept.entries,
                    swept.max_entries,
                    swept.max_bytes,
                ),
            decreases self@.entries.len(),
        {
            assert(self@.entries.remove(0) =~= self@.entries.drop_first());
            let _ = self.take_at(0);
            self.evictions = self.evictions + 1;
        }
        assert(self@ =~= before.enforced(now));
    }

    fn over_capacity(&self) -> (r: bool)
        requires
            self.totals_agree(),
        ensures
            r == over_capacity(self@.entries, self@.max_entries, self@.max_bytes),
    {
        if self.entries.len() > self.max_entries {
            return true;
        }
        match self.max_bytes {
            Some(max) => self.bytes > max,
            None => false,
        }
    }
}

/// When an entry inserted at `now` expires.
pub open spec fn deadline(now: Instant, ttl: Option<Duration>) -> Option<Instant> {
    match ttl {
        Some(ttl) => Some(now.after(ttl)),
        None => None,
    }
}

/// An entry is live until exactly its time to live has passed since it was inserted,
/// and for good without one.
pub proof fn entries_live_for_their_time<I, V>(
    slot: Slot<I, V>,
    inserted: Instant,
    ttl: Duration,
    now: Instant,
)
    ensures
        inserted.nanos() + ttl.nanos() <= u128::MAX && slot.expires_at == deadline(
            inserted,
            Some(ttl),
        ) ==> (slot.expired(now) <==> now.nanos() >= inserted.nanos() + ttl.nanos()),
        slot.expires_at == deadline(inserted, None) ==> !slot.expired(now),
{
    crate::time::spans_lie_between_points(inserted, inserted, ttl);
}

/// The bytes of entries add up.
pub proof fn weights_add_up<I, V>(entries: Seq<Slot<I, V>>, more: Seq<Slot<I, V>>)
    ensures
        total_weight(entries + more) == total_weight(entries) + total_weight(more),
        more.len() == 1 ==> total_weight(more) == more[0].weight,
    decreases more.len(),
{
    if more.len() == 0 {
        assert(entries + more =~= entries);
    } else {
        weights_add_up(entries, more.drop_last());
        assert((entries + more).drop_last() =~= entries + more.drop_last());
        if more.len() == 1 {
            assert(more.drop_last() =~= Seq::empty());
        }
    }
}

/// What expires can be counted: one for each entry with a deadline.
pub proof fn deadlines_add_up<I, V>(entries: Seq<Slot<I, V>>, more: Seq<Slot<I, V>>)
    ensures
        expiring(entries + more) == expiring(entries) + expiring(more),
        more.len() == 1 ==> expiring(more) == if more[0].expires_at is Some {
            1nat
        } else {
            0
        },
    decreases more.len(),
{
    if more.len() == 0 {
        assert(entries + more =~= entries);
    } else {
        deadlines_add_up(entries, more.drop_last());
        assert((entries + more).drop_last() =~= entries + more.drop_last());
        if more.len() == 1 {
            assert(more.drop_last() =~= Seq::empty());
        }
    }
}

/// Purging drops the entries whose deadline has come and no others, keeps the rest in
/// order, and counts what it dropped as expired.
pub proof fn purging_drops_exactly_the_expired<I, V>(state: CacheState<I, V>, now: Instant)
    ensures
        ({
            let fresh = |s: Slot<I, V>|
                s.expires_at is None || now.nanos() < s.expires_at->0.nanos();
            let after = state.purged(now);
            &&& after.entries == state.entries.filter(fresh)
            &&& live(state.entries, now) == state.entries.filter(fresh)
            &&& after.expirations + after.entries.len() == state.expirations
                + state.entries.len()
            &&& after.hits == state.hits && after.misses == state.misses
            &&& after.evictions == state.evictions
            &&& after.max_entries == state.max_entries && after.max_bytes == state.max_bytes
            &&& after.default_ttl == state.default_ttl
        }),
    decreases state.entries.len(),
{
    let fresh = |s: Slot<I, V>| s.expires_at is None || now.nanos() < s.expires_at->0.nanos();
    live_is_sublist(state.entries, now);
    reveal(Seq::filter);
    if state.entries.len() > 0 {
        let last = state.entries.last();
        assert(fresh(last) == !last.expired(now));
        purging_drops_exactly_the_expired(
            CacheState { entries: state.entries.drop_last(), ..state },
            now,
        );
    } else {
        assert(state.entries.filter(fresh) =~= Seq::empty());
    }
}

/// A lookup finds an entry whose deadline has not come, counts as a hit and makes it
/// the most recently used one. One whose deadline has come counts as a miss and as
/// expired, and leaves. The other entries keep their order.
pub proof fn lookups_are_counted<I, V>(
    state: CacheState<I, V>,
    before: Seq<Slot<I, V>>,
    slot: Slot<I, V>,
    behind: Seq<Slot<I, V>>,
    now: Instant,
)
    requires
        state.wf(),
        state.entries == before.push(slot) + behind,
    ensures
        ({
            let after = state.looked_up(slot.key, now);
            let late = slot.expires_at is Some && now.nanos() >= slot.expires_at->0.nanos();
            &&& state.stored(slot.key) == Some(slot.value)
            &&& state.found(slot.key, now) == if late {
                None
            } else {
                Some(slot.value)
            }
            &&& state.others(slot.key) == before + behind
            &&& late ==> after.entries == before + behind && after.misses == state.misses + 1
                && after.expirations == state.expirations + 1 && after.hits == state.hits
            &&& !late ==> after.entries == (before + behind).push(slot) && after.hits == state.hits
                + 1 && after.misses == state.misses && after.expirations == state.expirations
            &&& after.evictions == state.evictions
            &&& after.max_entries == state.max_entries && after.max_bytes == state.max_bytes
            &&& after.default_ttl == state.default_ttl
        }),
{
    position_is_unique(state.entries, slot.key, before.len() as int);
    assert(state.entries.remove(before.len() as int) =~= before + behind);
}

/// A lookup of what is not there counts as a miss and changes nothing else.
pub proof fn missing_keys_are_misses<I, V>(state: CacheState<I, V>, key: I, now: Instant)
    requires
        forall|i: int| 0 <= i < state.entries.len() ==> (#[trigger] state.entries[i]).key != key,
    ensures
        state.found(key, now) is None,
        state.stored(key) is None,
        state.others(key) == state.entries,
        state.removed(key, now) == state,
        state.looked_up(key, now).entries == state.entries,
        state.looked_up(key, now).misses == state.misses + 1,
        state.looked_up(key, now).hits == state.hits,
        state.looked_up(key, now).expirations == state.expirations,
        state.looked_up(key, now).evictions == state.evictions,
        state.looked_up(key, now).max_entries == state.max_entries,
        state.looked_up(key, now).max_bytes == state.max_bytes,
        state.looked_up(key, now).default_ttl == state.default_ttl,
{
    if exists|i: int| holds_at(state.entries, key, i) {
        let i = choose|i: int| holds_at(state.entries, key, i);
        assert(state.entries[i].key == key);
    }
}

/// A removal takes out the one entry, which counts as expired where its deadline had
/// come, and leaves the others as they were.
pub proof fn removals_take_one_entry<I, V>(
    state: CacheState<I, V>,
    before: Seq<Slot<I, V>>,
    slot: Slot<I, V>,
    behind: Seq<Slot<I, V>>,
    now: Instant,
)
    requires
        state.wf(),
        state.entries == before.push(slot) + behind,
    ensures
        ({
            let after = state.removed(slot.key, now);
            let late = slot.expires_at is Some && now.nanos() >= slot.expires_at->0.nanos();
            &&& after.entries == before + behind
            &&& after.expirations == state.expirations + if late {
                1nat
            } else {
                0
            }
            &&& after.hits == state.hits && after.misses == state.misses
            &&& after.evictions == state.evictions
            &&& after.max_entries == state.max_entries && after.max_bytes == state.max_bytes
            &&& after.default_ttl == state.default_ttl
        }),
{
    lookups_are_counted(state, before, slot, behind, now);
    position_is_unique(state.entries, slot.key, before.len() as int);
}

/// An insertion replaces the entry of its key and loses nothing as long as everything
/// fits. Where it does not, expired entries give way first, and as long as the others
/// fit, none of them does. Where they do not fit either, the most recently used ones
/// stay: as many as fit, and at least one.
pub proof fn insertions_keep_what_fits<I, V>(
    state: CacheState<I, V>,
    slot: Slot<I, V>,
    now: Instant,
)
    requires
        state.wf(),
    ensures
        ({
            let with = state.others(slot.key).push(slot);
            let fresh = with.filter(
                |s: Slot<I, V>| s.expires_at is None || now.nanos() < s.expires_at->0.nanos(),
            );
            let fits = |some: Seq<Slot<I, V>>|
                some.len() <= state.max_entries && (state.max_bytes is None || total_weight(some)
                    <= state.max_bytes->0);
            let after = state.inserted(slot, now);
            let kept = after.entries.len() as int;
            &&& fits(with) ==> after.entries == with && after.expirations == state.expirations
                && after.evictions == state.evictions
            &&& !fits(with) ==> {
                &&& after.expirations + fresh.len() == state.expirations + with.len()
                &&& after.evictions + kept == state.evictions + fresh.len()
                &&& kept <= fresh.len() && after.entries == fresh.skip(fresh.len() - kept)
                &&& fits(fresh) ==> after.entries == fresh
                &&& fresh.len() > 0 ==> kept > 0
                &&& kept > 1 ==> fits(after.entries)
                &&& forall|n: int|
                    0 <= n < fresh.len() - kept ==> !fits(#[trigger] fresh.skip(n))
            }
            &&& after.hits == state.hits && after.misses == state.misses
            &&& after.max_entries == state.max_entries && after.max_bytes == state.max_bytes
            &&& after.default_ttl == state.default_ttl
        }),
{
    let with = state.others(slot.key).push(slot);
    let pushed = CacheState { entries: with, ..state };
    purging_drops_exactly_the_expired(pushed, now);
    let fresh = live(with, now);
    eviction_takes_the_least_recent(fresh, state.max_entries, state.max_bytes);
    let after = state.inserted(slot, now);
    let kept = after.entries.len() as int;
    if over_capacity(with, state.max_entries, state.max_bytes) {
        assert(fresh.skip(0) =~= fresh);
        assert forall|n: int| 0 <= n < fresh.len() - kept implies over_capacity(
            #[trigger] fresh.skip(n),
            state.max_entries,
            state.max_bytes,
        ) by {
            assert(fresh.skip(fresh.len() - (fresh.len() - n)) == fresh.skip(n));
        }
    }
}

/// A new cache is empty, has counted nothing, and has room for the entries it was
/// asked to hold, but for at least one.
pub proof fn new_caches_are_empty<I, V>(max_entries: usize)
    ensures
        ({
            let c = CacheState::<I, V>::empty(max_entries);
            &&& c.entries.len() == 0
            &&& c.hits == 0 && c.misses == 0 && c.evictions == 0 && c.expirations == 0
            &&& c.max_entries >= 1 && max_entries <= c.max_entries <= max_entries + 1
            &&& max_entries >= 1 ==> c.max_entries == max_entries
            &&& c.max_bytes is None && c.default_ttl is None
        }),
{
}

} // verus!
