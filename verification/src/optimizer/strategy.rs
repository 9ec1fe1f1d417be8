//! Concrete strategies derived from network conditions.
//!
//! * [`CompressionStrategy`] says whether to compress, how hard, and above what
//!   size.
//! * [`CacheStrategy`] says whether to cache, how much, and for how long.
//! * [`DeltaSyncStrategy`] says whether to send differences instead of whole
//!   payloads.
//!
//! All three are plain values. They describe what a caller *should* do; nothing
//! here performs any of it.

use crate::optimizer::quality::NetworkQuality;
use crate::ratio::Ratio;
use crate::time::Duration;
use vstd::prelude::*;

verus! {

/// The smallest payload worth compressing, in bytes.
///
/// Below this, codec framing overhead exceeds any plausible saving.
pub const MIN_COMPRESSIBLE: usize = 128;

/// The smallest payload worth diffing against a cached base.
///
/// Below this the difference is unlikely to be smaller than simply resending.
pub const MIN_DELTA_PAYLOAD: usize = 512;

/// How to compress outbound payloads.
#[derive(Debug, Clone, Copy, PartialEq, Eq, Structural)]
#[non_exhaustive]
pub struct CompressionStrategy {
    /// Whether to compress at all.
    pub enabled: bool,
    /// The level on the abstract scale from 0 to 100.
    pub level: u8,
    /// Payloads smaller than this are sent uncompressed regardless.
    pub min_payload: usize,
}

impl CompressionStrategy {
    /// The strategy for a link of this quality.
    pub open spec fn suited(quality: NetworkQuality) -> CompressionStrategy {
        CompressionStrategy {
            enabled: quality !is Excellent,
            level: match quality {
                NetworkQuality::Critical => 95,
                NetworkQuality::Poor => 85,
                NetworkQuality::Fair => 55,
                NetworkQuality::Good => 25,
                NetworkQuality::Excellent => 0,
            },
            min_payload: MIN_COMPRESSIBLE,
        }
    }

    /// Returns a strategy suited to `quality`.
    ///
    /// Compressing pays exactly when the transmission time saved exceeds the CPU
    /// time spent. A degraded link has slow transmission, so it can afford a lot
    /// of CPU; a fast one cannot.
    pub fn for_quality(quality: NetworkQuality) -> (s: CompressionStrategy)
        ensures
            s == CompressionStrategy::suited(quality),
    {
        let (enabled, level): (bool, u8) = match quality {
            NetworkQuality::Critical => (true, 95),
            NetworkQuality::Poor => (true, 85),
            NetworkQuality::Fair => (true, 55),
            NetworkQuality::Good => (true, 25),
            // On a fast link most payloads transmit in less time than
            // compressing them would take.
            NetworkQuality::Excellent => (false, 0),
        };
        CompressionStrategy { enabled, level, min_payload: MIN_COMPRESSIBLE }
    }

    /// A strategy that never compresses.
    pub fn disabled() -> (s: CompressionStrategy)
        ensures
            s == (CompressionStrategy { enabled: false, level: 0, min_payload: MIN_COMPRESSIBLE }),
    {
        CompressionStrategy { enabled: false, level: 0, min_payload: MIN_COMPRESSIBLE }
    }

    /// Returns `true` if a payload of `len` bytes should be compressed.
    pub fn applies_to(&self, len: usize) -> (r: bool)
        ensures
            r == (self.enabled && len >= self.min_payload),
    {
        self.enabled && len >= self.min_payload
    }

    /// Returns a copy with a different minimum payload size.
    pub fn with_min_payload(self, min_payload: usize) -> (s: CompressionStrategy)
        ensures
            s == (CompressionStrategy { min_payload, ..self }),
    {
        CompressionStrategy { enabled: self.enabled, level: self.level, min_payload }
    }
}

impl Default for CompressionStrategy {
    fn default() -> (s: CompressionStrategy)
        ensures
            s == CompressionStrategy::suited(NetworkQuality::Good),
    {
        CompressionStrategy::for_quality(NetworkQuality::default())
    }
}

/// How to use the local cache.
///
/// Caching trades memory for bandwidth, so the worse the link, the more memory
/// is worth spending and the longer entries are worth keeping.
#[derive(Debug, Clone, Copy, PartialEq, Eq, Structural)]
#[non_exhaustive]
pub struct CacheStrategy {
    /// Whether caching is worth its memory under these conditions.
    pub enabled: bool,
    /// Suggested cache capacity in bytes.
    pub capacity_bytes: usize,
    /// Suggested time to live for entries.
    pub ttl: Duration,
    /// Entries smaller than this are not worth keeping.
    pub min_entry_size: usize,
}

/// How many mebibytes to cache on a link of this quality.
pub open spec fn cache_mebibytes(quality: NetworkQuality) -> nat {
    match quality {
        NetworkQuality::Critical => 64,
        NetworkQuality::Poor => 32,
        NetworkQuality::Fair => 16,
        NetworkQuality::Good => 8,
        NetworkQuality::Excellent => 4,
    }
}

/// For how many seconds to cache on a link of this quality.
pub open spec fn cache_seconds(quality: NetworkQuality) -> nat {
    match quality {
        NetworkQuality::Critical => 3600,
        NetworkQuality::Poor => 900,
        NetworkQuality::Fair => 300,
        NetworkQuality::Good => 120,
        NetworkQuality::Excellent => 60,
    }
}

impl CacheStrategy {
    /// The strategy suits a link of this quality.
    pub open spec fn suits(self, quality: NetworkQuality) -> bool {
        &&& self.enabled
        &&& self.capacity_bytes == cache_mebibytes(quality) * 1024 * 1024
        &&& self.ttl.nanos() == cache_seconds(quality) * 1_000_000_000
        &&& self.min_entry_size == 64
    }

    /// Returns a strategy suited to `quality`.
    ///
    /// A degraded link keeps entries far longer: re-fetching is expensive, so
    /// slightly stale data is usually the better trade. A fast link can afford
    /// freshness.
    pub fn for_quality(quality: NetworkQuality) -> (s: CacheStrategy)
        ensures
            s.suits(quality),
    {
        let (mebibytes, ttl_secs): (usize, u64) = match quality {
            NetworkQuality::Critical => (64, 3600),
            NetworkQuality::Poor => (32, 900),
            NetworkQuality::Fair => (16, 300),
            NetworkQuality::Good => (8, 120),
            NetworkQuality::Excellent => (4, 60),
        };
        CacheStrategy {
            enabled: true,
            capacity_bytes: mebibytes * 1024 * 1024,
            ttl: Duration::from_secs(ttl_secs),
            min_entry_size: 64,
        }
    }

    /// A strategy that caches nothing.
    pub fn disabled() -> (s: CacheStrategy)
        ensures
            !s.enabled,
            s.capacity_bytes == 0,
            s.ttl.nanos() == 0,
            s.min_entry_size == usize::MAX,
    {
        CacheStrategy {
            enabled: false,
            capacity_bytes: 0,
            ttl: Duration::zero(),
            min_entry_size: usize::MAX,
        }
    }

    /// Returns `true` if an entry of `len` bytes is worth caching.
    pub fn applies_to(&self, len: usize) -> (r: bool)
        ensures
            r == (self.enabled && len >= self.min_entry_size),
    {
        self.enabled && len >= self.min_entry_size
    }
}

impl Default for CacheStrategy {
    fn default() -> (s: CacheStrategy)
        ensures
            s.suits(NetworkQuality::Good),
    {
        CacheStrategy::for_quality(NetworkQuality::default())
    }
}

/// Whether to send differences instead of whole payloads.
///
/// Delta synchronization is the largest available bandwidth saving when it
/// applies, because an unchanged payload costs nothing but a digest. It is also
/// the most expensive to get wrong: both peers must agree on the base version,
/// and a stale base means resending everything plus the wasted attempt.
#[derive(Debug, Clone, Copy, PartialEq, Eq, Structural)]
#[non_exhaustive]
pub struct DeltaSyncStrategy {
    /// Whether delta synchronization is worth attempting.
    pub enabled: bool,
    /// Payloads smaller than this are sent whole.
    pub min_payload: usize,
    /// How old a base version may be before it is refreshed outright.
    pub max_base_age: Duration,
    /// If a computed delta exceeds this fraction of the original, the original
    /// is sent instead.
    pub max_delta_ratio: Ratio,
}

/// For how many seconds a base may be diffed against.
pub open spec fn base_seconds(quality: NetworkQuality) -> nat {
    match quality {
        NetworkQuality::Critical => 3600,
        NetworkQuality::Poor => 900,
        NetworkQuality::Fair => 300,
        NetworkQuality::Good | NetworkQuality::Excellent => 60,
    }
}

/// How many tenths of the original a delta may be.
pub open spec fn delta_tenths(quality: NetworkQuality) -> nat {
    match quality {
        NetworkQuality::Critical => 9,
        NetworkQuality::Poor => 8,
        NetworkQuality::Fair => 7,
        NetworkQuality::Good | NetworkQuality::Excellent => 5,
    }
}

impl DeltaSyncStrategy {
    /// The strategy suits a link of this quality.
    pub open spec fn suits(self, quality: NetworkQuality) -> bool {
        &&& self.enabled == quality.degraded()
        &&& self.min_payload == MIN_DELTA_PAYLOAD
        &&& self.max_base_age.nanos() == base_seconds(quality) * 1_000_000_000
        &&& self.max_delta_ratio == (Ratio {
            numerator: delta_tenths(quality) as u64,
            denominator: 10,
        })
    }

    /// Returns a strategy suited to `quality`.
    ///
    /// Delta sync is enabled only from [`NetworkQuality::Fair`] down. On a fast
    /// link the CPU and bookkeeping cost more than the bytes saved, and a stale
    /// base can cost a whole extra round trip.
    pub fn for_quality(quality: NetworkQuality) -> (s: DeltaSyncStrategy)
        ensures
            s.suits(quality),
    {
        let (secs, tenths): (u64, u64) = match quality {
            NetworkQuality::Critical => (3600, 9),
            NetworkQuality::Poor => (900, 8),
            NetworkQuality::Fair => (300, 7),
            NetworkQuality::Good | NetworkQuality::Excellent => (60, 5),
        };
        DeltaSyncStrategy {
            enabled: quality.is_degraded(),
            min_payload: MIN_DELTA_PAYLOAD,
            max_base_age: Duration::from_secs(secs),
            max_delta_ratio: Ratio::new(tenths, 10),
        }
    }

    /// A strategy that never sends deltas.
    pub fn disabled() -> (s: DeltaSyncStrategy)
        ensures
            !s.enabled,
            s.min_payload == MIN_DELTA_PAYLOAD,
            s.max_base_age.nanos() == 0,
            s.max_delta_ratio == (Ratio { numerator: 0, denominator: 1 }),
    {
        DeltaSyncStrategy {
            enabled: false,
            min_payload: MIN_DELTA_PAYLOAD,
            max_base_age: Duration::zero(),
            max_delta_ratio: Ratio::new(0, 1),
        }
    }

    /// Returns `true` if a payload of `len` bytes should be diffed.
    pub fn applies_to(&self, len: usize) -> (r: bool)
        ensures
            r == (self.enabled && len >= self.min_payload),
    {
        self.enabled && len >= self.min_payload
    }

    /// Returns `true` if a delta of `delta_len` is worth sending in place of an
    /// original of `original_len`. No saving is possible on an empty original.
    pub fn accepts_delta(&self, delta_len: usize, original_len: usize) -> (r: bool)
        ensures
            r == (self.enabled && original_len > 0 && delta_len * self.max_delta_ratio.denominator
                <= self.max_delta_ratio.numerator * original_len),
    {
        if !self.enabled || original_len == 0 {
            return false;
        }
        self.max_delta_ratio.admits(delta_len as u64, original_len as u64)
    }

    /// Returns `true` if a base captured `age` ago may still be diffed against.
    pub fn accepts_base_age(&self, age: Duration) -> (r: bool)
        ensures
            r == (self.enabled && age.nanos() <= self.max_base_age.nanos()),
    {
        self.enabled && !self.max_base_age.is_shorter_than(&age)
    }
}

impl Default for DeltaSyncStrategy {
    fn default() -> (s: DeltaSyncStrategy)
        ensures
            s.suits(NetworkQuality::Good),
    {
        DeltaSyncStrategy::for_quality(NetworkQuality::default())
    }
}

/// The worse the link, the more is conserved: it compresses at least as hard,
/// caches at least as much for at least as long, and settles for smaller savings
/// from deltas against older bases.
pub proof fn worse_links_conserve_more(
    worse: NetworkQuality,
    better: NetworkQuality,
    worse_cache: CacheStrategy,
    better_cache: CacheStrategy,
    worse_delta: DeltaSyncStrategy,
    better_delta: DeltaSyncStrategy,
)
    requires
        worse.rank() <= better.rank(),
        worse_cache.suits(worse),
        better_cache.suits(better),
        worse_delta.suits(worse),
        better_delta.suits(better),
    ensures
        CompressionStrategy::suited(worse).level >= CompressionStrategy::suited(better).level,
        CompressionStrategy::suited(better).enabled ==> CompressionStrategy::suited(worse).enabled,
        worse_cache.capacity_bytes >= better_cache.capacity_bytes,
        worse_cache.ttl.nanos() >= better_cache.ttl.nanos(),
        better_delta.enabled ==> worse_delta.enabled,
        worse_delta.max_base_age.nanos() >= better_delta.max_base_age.nanos(),
        worse_delta.max_delta_ratio.numerator >= better_delta.max_delta_ratio.numerator,
        worse_delta.max_delta_ratio.denominator == better_delta.max_delta_ratio.denominator,
{
}

/// What is worth doing steps with the grade: everything but an excellent link
/// compresses, harder with each grade down; deltas are sent from fair down; and with
/// each grade down twice as much is cached, for longer. A delta has to save
/// something, always.
pub proof fn strategies_step_with_the_grade(
    q: NetworkQuality,
    next: NetworkQuality,
    cache: CacheStrategy,
    next_cache: CacheStrategy,
    delta: DeltaSyncStrategy,
)
    requires
        q.rank() + 1 == next.rank(),
        cache.suits(q),
        next_cache.suits(next),
        delta.suits(q),
    ensures
        CompressionStrategy::suited(NetworkQuality::Excellent).enabled == false,
        CompressionStrategy::suited(NetworkQuality::Excellent).level == 0,
        CompressionStrategy::suited(q).enabled,
        100 >= CompressionStrategy::suited(q).level > CompressionStrategy::suited(next).level,
        CompressionStrategy::suited(q).min_payload == 128,
        cache.enabled && next_cache.enabled,
        cache.capacity_bytes == 2 * next_cache.capacity_bytes,
        next is Excellent ==> next_cache.capacity_bytes == 4 * 1024 * 1024,
        cache.ttl.nanos() > next_cache.ttl.nanos() >= 60 * 1_000_000_000,
        cache.min_entry_size == 64,
        delta.enabled <==> q is Critical || q is Poor || q is Fair,
        delta.min_payload == 512,
        delta.max_base_age.nanos() >= 60 * 1_000_000_000,
        0 < delta.max_delta_ratio.numerator < delta.max_delta_ratio.denominator,
{
}

/// How hard to compress on each link, from not at all to nearly the most, and how long
/// what was cached or sent before is worth keeping there.
pub proof fn strategies_have_their_measure(
    q: NetworkQuality,
    cache: CacheStrategy,
    delta: DeltaSyncStrategy,
)
    requires
        cache.suits(q),
        delta.suits(q),
    ensures
        CompressionStrategy::suited(q).level == match q {
            NetworkQuality::Critical => 95int,
            NetworkQuality::Poor => 85,
            NetworkQuality::Fair => 55,
            NetworkQuality::Good => 25,
            NetworkQuality::Excellent => 0,
        },
        cache.ttl.nanos() == 60_000_000_000 * match q {
            NetworkQuality::Critical => 60int,
            NetworkQuality::Poor => 15,
            NetworkQuality::Fair => 5,
            NetworkQuality::Good => 2,
            NetworkQuality::Excellent => 1,
        },
        delta.enabled ==> delta.max_base_age == cache.ttl,
        !delta.enabled ==> delta.max_base_age.nanos() == 60_000_000_000,
        10 * delta.max_delta_ratio.numerator == delta.max_delta_ratio.denominator * match q {
            NetworkQuality::Critical => 9int,
            NetworkQuality::Poor => 8,
            NetworkQuality::Fair => 7,
            NetworkQuality::Good => 5,
            NetworkQuality::Excellent => 5,
        },
{
    crate::time::Duration::same_length(delta.max_base_age, cache.ttl);
}

} // verus!
