//! Content-addressed deduplication.
//!
//! Network traffic repeats itself: the same asset, the same config blob, the
//! same response to a polling client. Sending it once and from there on sending
//! a short digest is the largest bandwidth saving available.
//!
//! [`Deduplicator`] tracks what a peer has already received. The first time a
//! payload is offered it returns the bytes; every subsequent time it returns a
//! [`Reference`] the peer can resolve from its own store.
//!
//! # On the digest
//!
//! The digest has 128 bits, is fast and dependency-free, and is **not
//! cryptographic**. It is appropriate when both peers are trusted and the
//! concern is accidental collision, not a deliberate one.

use crate::buffers;
use crate::cache::lru;
use crate::cache::lru::{CacheKey, CacheState, LruCache, Slot};
use crate::ratio::Ratio;
use crate::text;
use crate::time::Instant;
use bytes::Bytes;
use std::collections::HashMap;
use vstd::prelude::*;

verus! {

/// Where the first accumulator starts.
pub const SEED_A: u64 = 0x517c_c1b7_2722_0a95;

/// Where the second accumulator starts.
pub const SEED_B: u64 = 0x2545_F491_4F6C_DD1D;

/// The multiplier of the first accumulator.
pub const PRIME_A: u64 = 0x0100_0000_01b3;

/// The multiplier of the second accumulator.
pub const PRIME_B: u64 = 0x9E37_79B9_7F4A_7C15;

/// The final multiplier of the first accumulator.
pub const AVALANCHE_A: u64 = 0xff51_afd7_ed55_8ccd;

/// The final multiplier of the second accumulator.
pub const AVALANCHE_B: u64 = 0xc4ce_b9fe_1a85_ec53;

/// The size in bytes of a digest on the wire.
pub const DIGEST_LEN: usize = 16;

/// A 128-bit content digest. Not cryptographically secure.
#[derive(Debug, Clone, Copy, PartialEq, Eq, Hash, PartialOrd, Ord, Structural)]
pub struct Digest {
    value: u128,
}

/// `x` with its bits moved up by thirteen places, those that fall off the top
/// coming back at the bottom.
pub open spec fn rotate13(x: u64) -> u64 {
    (x << 13) | (x >> 51)
}

/// The first accumulator after one more byte.
pub open spec fn step_a(a: u64, byte: u8) -> u64 {
    rotate13((a ^ (byte as u64)).wrapping_mul(PRIME_A))
}

/// The second accumulator after one more byte, at position `index`.
pub open spec fn step_b(b: u64, byte: u8, index: u64) -> u64 {
    let sum = b.wrapping_add((byte as u64).wrapping_mul(index | 1));
    (sum ^ (sum >> 29)).wrapping_mul(PRIME_B)
}

/// The two accumulators after the bytes of `data`, for a payload of `len` bytes.
pub open spec fn accumulated(data: Seq<u8>, len: u64) -> (u64, u64)
    decreases data.len(),
{
    if data.len() == 0 {
        (SEED_A ^ len, SEED_B.wrapping_add(len))
    } else {
        let (a, b) = accumulated(data.drop_last(), len);
        let index = (data.len() - 1) as u64;
        (step_a(a, data.last()), step_b(b, data.last(), index))
    }
}

/// The first accumulator, spread over its whole width.
pub open spec fn finish_a(a: u64) -> u64 {
    let mixed = (a ^ (a >> 33)).wrapping_mul(AVALANCHE_A);
    mixed ^ (mixed >> 33)
}

/// The second accumulator, spread over its whole width.
pub open spec fn finish_b(b: u64) -> u64 {
    let mixed = (b ^ (b >> 31)).wrapping_mul(AVALANCHE_B);
    mixed ^ (mixed >> 31)
}

/// The digest of `data`: the first accumulator in the upper half, the second in
/// the lower half.
pub open spec fn digest_of(data: Seq<u8>) -> u128 {
    let (a, b) = accumulated(data, data.len() as u64);
    (finish_a(a) * 0x1_0000_0000_0000_0000 + finish_b(b)) as u128
}

/// A multiplier that has an inverse, to within 64 bits, takes no two numbers to one.
proof fn multiplying_is_one_to_one(x: u64, y: u64, p: u64, q: u64, k: int)
    requires
        p * q == 1 + k * 0x1_0000_0000_0000_0000,
        x != y,
    ensures
        x.wrapping_mul(p) != y.wrapping_mul(p),
{
    let m = 0x1_0000_0000_0000_0000int;
    if x.wrapping_mul(p) == y.wrapping_mul(p) {
        let (a, b) = ((x * p) / m, (y * p) / m);
        vstd::arithmetic::div_mod::lemma_fundamental_div_mod(x * p, m);
        vstd::arithmetic::div_mod::lemma_fundamental_div_mod(y * p, m);
        let d = x - y;
        let t = a - b;
        assert(d * p == m * t) by (nonlinear_arith)
            requires
                x * p - y * p == m * a - m * b,
                d == x - y,
                t == a - b,
        ;
        assert(d == m * (t * q - d * k)) by (nonlinear_arith)
            requires
                d * p == m * t,
                p * q == 1 + k * m,
        ;
        let e = t * q - d * k;
        assert(d == 0) by (nonlinear_arith)
            requires
                d == m * e,
                -m < d < m,
                m > 0,
        ;
    }
}

/// An odd multiplier takes no two bytes to one number.
proof fn odd_multiples_of_bytes_differ(x: u8, y: u8, index: u64)
    requires
        x != y,
    ensures
        (x as u64).wrapping_mul(index | 1) != (y as u64).wrapping_mul(index | 1),
{
    let odd = index | 1;
    let low = odd % 256;
    let a = x as u64;
    let b = y as u64;
    assert(((index | 1) % 256) & 1 == 1) by (bit_vector);
    if (x as u64).wrapping_mul(odd) == (y as u64).wrapping_mul(odd) {
        let m = 0x1_0000_0000_0000_0000int;
        let (u, v) = ((x * odd) as int, (y * odd) as int);
        vstd::arithmetic::div_mod::lemma_fundamental_div_mod(u, m);
        vstd::arithmetic::div_mod::lemma_fundamental_div_mod(v, m);
        assert(u % 256 == v % 256);
        vstd::arithmetic::div_mod::lemma_mul_mod_noop_right(x as int, odd as int, 256);
        vstd::arithmetic::div_mod::lemma_mul_mod_noop_right(y as int, odd as int, 256);
        assert(0 <= a * low < 0x1_0000 && 0 <= b * low < 0x1_0000) by (nonlinear_arith)
            requires
                0 <= a < 256,
                0 <= b < 256,
                0 <= low < 256,
        ;
        bytes_are_told_apart(a, b, low, (a * low) as u64, (b * low) as u64);
    }
}

proof fn bytes_are_told_apart(a: u64, b: u64, odd: u64, u: u64, v: u64)
    by (bit_vector)
    requires
        a < 256,
        b < 256,
        odd < 256,
        odd & 1 == 1,
        u == a * odd,
        v == b * odd,
        u % 256 == v % 256,
    ensures
        a == b,
{
}

proof fn steps_are_one_to_one(
    a: u64,
    b: u64,
    other_a: u64,
    other_b: u64,
    x: u8,
    y: u8,
    index: u64,
)
    ensures
        x != y ==> step_a(a, x) != step_a(a, y),
        a != other_a ==> step_a(a, x) != step_a(other_a, x),
        x != y ==> step_b(b, x, index) != step_b(b, y, index),
        b != other_b ==> step_b(b, x, index) != step_b(other_b, x, index),
{
    let (bx, by) = (x as u64, y as u64);
    if x != y {
        assert(a ^ bx != a ^ by) by (bit_vector)
            requires
                bx != by,
        ;
        turning_is_one_to_one(a ^ bx, a ^ by);
        odd_multiples_of_bytes_differ(x, y, index);
        folding_is_one_to_one(
            b.wrapping_add(bx.wrapping_mul(index | 1)),
            b.wrapping_add(by.wrapping_mul(index | 1)),
        );
    }
    if a != other_a {
        assert(a ^ bx != other_a ^ bx) by (bit_vector)
            requires
                a != other_a,
        ;
        turning_is_one_to_one(a ^ bx, other_a ^ bx);
    }
    if b != other_b {
        folding_is_one_to_one(
            b.wrapping_add(bx.wrapping_mul(index | 1)),
            other_b.wrapping_add(bx.wrapping_mul(index | 1)),
        );
    }
}

proof fn turning_is_one_to_one(x: u64, y: u64)
    requires
        x != y,
    ensures
        rotate13(x.wrapping_mul(PRIME_A)) != rotate13(y.wrapping_mul(PRIME_A)),
{
    multiplying_is_one_to_one(x, y, PRIME_A, 0xce96_5057_aff6_957b, 887_285_111_055);
    let (u, v) = (x.wrapping_mul(PRIME_A), y.wrapping_mul(PRIME_A));
    assert(((u << 13) | (u >> 51)) != ((v << 13) | (v >> 51))) by (bit_vector)
        requires
            u != v,
    ;
}

proof fn folding_is_one_to_one(x: u64, y: u64)
    requires
        x != y,
    ensures
        (x ^ (x >> 29)).wrapping_mul(PRIME_B) != (y ^ (y >> 29)).wrapping_mul(PRIME_B),
{
    assert(x ^ (x >> 29) != y ^ (y >> 29)) by (bit_vector)
        requires
            x != y,
    ;
    multiplying_is_one_to_one(
        x ^ (x >> 29),
        y ^ (y >> 29),
        PRIME_B,
        0xf1de_83e1_9937_733d,
        10_771_413_168_148_108_919,
    );
}

proof fn finishing_is_one_to_one(x: u64, y: u64)
    requires
        x != y,
    ensures
        finish_a(x) != finish_a(y),
        finish_b(x) != finish_b(y),
{
    assert(x ^ (x >> 33) != y ^ (y >> 33)) by (bit_vector)
        requires
            x != y,
    ;
    assert(x ^ (x >> 31) != y ^ (y >> 31)) by (bit_vector)
        requires
            x != y,
    ;
    multiplying_is_one_to_one(
        x ^ (x >> 33),
        y ^ (y >> 33),
        AVALANCHE_A,
        0x4f74_430c_22a5_4005,
        5_710_046_619_856_821_070,
    );
    multiplying_is_one_to_one(
        x ^ (x >> 31),
        y ^ (y >> 31),
        AVALANCHE_B,
        0x9cb4_b2f8_1293_37db,
        8_680_939_279_959_119_233,
    );
    let (u, v) = (
        (x ^ (x >> 33)).wrapping_mul(AVALANCHE_A),
        (y ^ (y >> 33)).wrapping_mul(AVALANCHE_A),
    );
    assert(u ^ (u >> 33) != v ^ (v >> 33)) by (bit_vector)
        requires
            u != v,
    ;
    let (w, z) = (
        (x ^ (x >> 31)).wrapping_mul(AVALANCHE_B),
        (y ^ (y >> 31)).wrapping_mul(AVALANCHE_B),
    );
    assert(w ^ (w >> 31) != z ^ (z >> 31)) by (bit_vector)
        requires
            w != z,
    ;
}

proof fn accumulators_differ(data: Seq<u8>, other: Seq<u8>, i: int, len: u64)
    requires
        data.len() == other.len(),
        0 <= i < data.len(),
        data[i] != other[i],
        forall|j: int| 0 <= j < data.len() && j != i ==> #[trigger] data[j] == other[j],
    ensures
        accumulated(data, len).0 != accumulated(other, len).0,
        accumulated(data, len).1 != accumulated(other, len).1,
    decreases data.len(),
{
    let (front, other_front) = (data.drop_last(), other.drop_last());
    let (a, b) = accumulated(front, len);
    let (c, d) = accumulated(other_front, len);
    let index = (data.len() - 1) as u64;
    if i == data.len() - 1 {
        assert(front =~= other_front) by {
            assert forall|j: int| 0 <= j < front.len() implies front[j] == other_front[j] by {
                assert(data[j] == other[j]);
            }
        }
    } else {
        assert forall|j: int| 0 <= j < front.len() && j != i implies #[trigger] front[j]
            == other_front[j] by {
            assert(data[j] == other[j]);
        }
        accumulators_differ(front, other_front, i, len);
        assert(data[data.len() - 1] == other[data.len() - 1]);
    }
    steps_are_one_to_one(a, b, c, d, data.last(), other.last(), index);
}

/// Every byte counts, wherever it stands: two payloads of one length that differ in
/// a single byte have different digests, and differ in both halves of them.
pub proof fn every_byte_counts(data: Seq<u8>, other: Seq<u8>, i: int)
    requires
        data.len() == other.len(),
        0 <= i < data.len(),
        data[i] != other[i],
        forall|j: int| 0 <= j < data.len() && j != i ==> #[trigger] data[j] == other[j],
    ensures
        digest_of(data) != digest_of(other),
        digest_of(data) / 0x1_0000_0000_0000_0000 != digest_of(other) / 0x1_0000_0000_0000_0000,
        digest_of(data) % 0x1_0000_0000_0000_0000 != digest_of(other) % 0x1_0000_0000_0000_0000,
{
    let len = data.len() as u64;
    accumulators_differ(data, other, i, len);
    let (a, b) = accumulated(data, len);
    let (c, d) = accumulated(other, len);
    finishing_is_one_to_one(a, c);
    finishing_is_one_to_one(b, d);
}

/// The last `n` bytes of `value`, most significant first.
pub open spec fn be_bytes(value: nat, n: nat) -> Seq<u8>
    decreases n,
{
    if n == 0 {
        Seq::empty()
    } else {
        be_bytes(value / 256, (n - 1) as nat).push((value % 256) as u8)
    }
}

/// The number that `bytes` denote, most significant first.
pub open spec fn be_value(bytes: Seq<u8>) -> nat
    decreases bytes.len(),
{
    if bytes.len() == 0 {
        0
    } else {
        be_value(bytes.drop_last()) * 256 + bytes.last() as nat
    }
}

/// Reading back the bytes of a number gives the number, if they are enough to
/// hold it.
pub proof fn be_round_trip(value: nat, n: nat)
    requires
        value < vstd::arithmetic::power::pow(256, n),
    ensures
        be_bytes(value, n).len() == n,
        be_value(be_bytes(value, n)) == value,
    decreases n,
{
    vstd::arithmetic::power::lemma_pow0(256);
    if n > 0 {
        let m = (n - 1) as nat;
        vstd::arithmetic::power::lemma_pow1(256);
        vstd::arithmetic::power::lemma_pow_adds(256, 1, m);
        let p = vstd::arithmetic::power::pow(256, m);
        assert(value / 256 < p) by (nonlinear_arith)
            requires
                (value as int) < 256 * p,
        ;
        be_round_trip(value / 256, m);
        assert(be_bytes(value, n).drop_last() =~= be_bytes(value / 256, m));
    }
}

proof fn be_value_is_bounded(bytes: Seq<u8>)
    ensures
        be_value(bytes) < vstd::arithmetic::power::pow(256, bytes.len()),
    decreases bytes.len(),
{
    vstd::arithmetic::power::lemma_pow0(256);
    if bytes.len() > 0 {
        let m = (bytes.len() - 1) as nat;
        be_value_is_bounded(bytes.drop_last());
        vstd::arithmetic::power::lemma_pow1(256);
        vstd::arithmetic::power::lemma_pow_adds(256, 1, m);
        let p = vstd::arithmetic::power::pow(256, m);
        let v = be_value(bytes.drop_last());
        assert(v * 256 + 255 < 256 * p) by (nonlinear_arith)
            requires
                v + 1 <= p,
        ;
    }
}

proof fn sixteen_bytes_hold_a_digest()
    ensures
        vstd::arithmetic::power::pow(256, 16) == 0x1_0000_0000_0000_0000_0000_0000_0000_0000int,
{
    reveal(vstd::arithmetic::power::pow);
    reveal_with_fuel(vstd::arithmetic::power::pow, 17);
    assert(vstd::arithmetic::power::pow(256, 4) == 0x1_0000_0000);
    assert(vstd::arithmetic::power::pow(256, 8) == 0x1_0000_0000_0000_0000int) by {
        vstd::arithmetic::power::lemma_pow_adds(256, 4, 4);
    }
    vstd::arithmetic::power::lemma_pow_adds(256, 8, 8);
}

impl View for Digest {
    type V = u128;

    closed spec fn view(&self) -> u128 {
        self.value
    }
}

impl CacheKey for Digest {
    fn same_key(&self, other: &Digest) -> bool {
        self.value == other.value
    }
}

impl Digest {
    /// A digest is its number.
    pub proof fn same_value(a: Digest, b: Digest)
        ensures
            a@ == b@ <==> a == b,
    {
    }

    /// Computes the digest of `data`.
    ///
    /// Two independent 64-bit accumulators are combined, so that the 128-bit
    /// result is not merely a padded 64-bit hash; the second is seeded and
    /// stepped differently from the first.
    pub fn of(data: &[u8]) -> (d: Digest)
        ensures
            d@ == digest_of(data@),
    {
        let len: u64 = data.len() as u64;
        let mut a: u64 = SEED_A ^ len;
        let mut b: u64 = SEED_B.wrapping_add(len);
        let mut i: usize = 0;
        assert(data@.take(0) =~= Seq::empty());
        while i < data.len()
            invariant
                i <= data@.len(),
                (a, b) == accumulated(data@.take(i as int), len),
            decreases data@.len() - i,
        {
            let byte: u64 = data[i] as u64;
            assert(data@.take(i as int + 1).drop_last() =~= data@.take(i as int));
            let mixed: u64 = (a ^ byte).wrapping_mul(PRIME_A);
            a = (mixed << 13) | (mixed >> 51);
            let sum: u64 = b.wrapping_add(byte.wrapping_mul((i as u64) | 1));
            b = (sum ^ (sum >> 29)).wrapping_mul(PRIME_B);
            i += 1;
        }
        assert(data@.take(i as int) =~= data@);
        let mixed_a: u64 = (a ^ (a >> 33)).wrapping_mul(AVALANCHE_A);
        let last_a: u64 = mixed_a ^ (mixed_a >> 33);
        let mixed_b: u64 = (b ^ (b >> 31)).wrapping_mul(AVALANCHE_B);
        let last_b: u64 = mixed_b ^ (mixed_b >> 31);
        Digest { value: (last_a as u128) * 0x1_0000_0000_0000_0000 + (last_b as u128) }
    }

    /// Returns the digest as a 128-bit integer.
    pub fn as_u128(self) -> (n: u128)
        ensures
            n == self@,
    {
        self.value
    }

    /// Returns the digest as 16 big-endian bytes, ready for the wire.
    pub fn to_bytes(self) -> (b: [u8; DIGEST_LEN])
        ensures
            b@ == be_bytes(self@ as nat, 16),
    {
        let mut out: [u8; DIGEST_LEN] = [0u8; DIGEST_LEN];
        let mut left: u128 = self.value;
        let mut i: usize = DIGEST_LEN;
        assert(out@.skip(16) =~= Seq::empty());
        assert(be_bytes(left as nat, 16) + out@.skip(16) =~= be_bytes(left as nat, 16));
        while i > 0
            invariant
                i <= DIGEST_LEN,
                be_bytes(left as nat, i as nat) + out@.skip(i as int) == be_bytes(
                    self@ as nat,
                    16,
                ),
            decreases i,
        {
            let ghost tail = out@.skip(i as int);
            let ghost digit = (left % 256) as u8;
            out[i - 1] = (left % 256) as u8;
            assert(out@.skip(i - 1) =~= seq![digit] + tail);
            assert(be_bytes((left / 256) as nat, (i - 1) as nat) + (seq![digit] + tail) =~= be_bytes(
                left as nat,
                i as nat,
            ) + tail);
            left = left / 256;
            i -= 1;
        }
        assert(be_bytes(left as nat, 0) + out@.skip(0) =~= out@);
        out
    }

    /// Reconstructs a digest from 16 big-endian bytes.
    pub fn from_bytes(bytes: [u8; DIGEST_LEN]) -> (d: Digest)
        ensures
            d@ == be_value(bytes@),
    {
        let mut value: u128 = 0;
        let mut i: usize = 0;
        assert(bytes@.take(0) =~= Seq::empty());
        while i < DIGEST_LEN
            invariant
                i <= DIGEST_LEN,
                value == be_value(bytes@.take(i as int)),
            decreases DIGEST_LEN - i,
        {
            assert(bytes@.take(i as int + 1).drop_last() =~= bytes@.take(i as int));
            proof {
                be_value_is_bounded(bytes@.take(i as int + 1));
                sixteen_bytes_hold_a_digest();
                vstd::arithmetic::power::lemma_pow_increases(256, (i + 1) as nat, 16);
            }
            value = value * 256 + bytes[i] as u128;
            i += 1;
        }
        assert(bytes@.take(i as int) =~= bytes@);
        Digest { value }
    }

    /// A digest survives a trip over the wire: reading back its bytes gives the
    /// same digest.
    pub proof fn wire_round_trip(self)
        ensures
            be_value(be_bytes(self@ as nat, 16)) == self@,
    {
        sixteen_bytes_hold_a_digest();
        be_round_trip(self@ as nat, 16);
    }

    /// Returns the digest as 32 hexadecimal digits.
    pub fn to_string(&self) -> (s: String)
        ensures
            s@ == text::padded(self@ as nat, 16, 32),
    {
        let mut s = String::new();
        text::push_padded(&mut s, self.value, 16, 32);
        assert(s@ =~= text::padded(self@ as nat, 16, 32));
        s
    }
}

/// What to transmit for a given payload.
#[derive(Debug, Clone, PartialEq, Eq)]
#[non_exhaustive]
pub enum Reference {
    /// The peer has not seen this content; send the bytes.
    Content {
        /// The content digest, so that the peer can index what it receives.
        digest: Digest,
        /// The payload itself.
        data: Bytes,
    },
    /// The peer already holds this content; send only the digest.
    Cached {
        /// The digest identifying content the peer already has.
        digest: Digest,
        /// The size the peer will reconstruct, useful for accounting.
        original_len: usize,
    },
}

impl Reference {
    /// The content digest either way.
    pub open spec fn key(self) -> Digest {
        match self {
            Reference::Content { digest, .. } => digest,
            Reference::Cached { digest, .. } => digest,
        }
    }

    /// Returns the content digest either way.
    pub fn digest(&self) -> (d: Digest)
        ensures
            d == self.key(),
    {
        match self {
            Reference::Content { digest, .. } => *digest,
            Reference::Cached { digest, .. } => *digest,
        }
    }

    /// Returns `true` when only a digest needs to travel.
    pub fn is_cached(&self) -> (r: bool)
        ensures
            r == (*self is Cached),
    {
        match self {
            Reference::Content { .. } => false,
            Reference::Cached { .. } => true,
        }
    }

    /// Returns the number of bytes this reference puts on the wire.
    ///
    /// A cached reference costs only the digest.
    pub fn wire_len(&self) -> (n: usize)
        ensures
            n == match *self {
                Reference::Content { data, .. } => buffers::shared(data).len() + 16,
                Reference::Cached { .. } => 16,
            },
    {
        match self {
            Reference::Content { data, .. } => buffers::shared_len(data) + DIGEST_LEN,
            Reference::Cached { .. } => DIGEST_LEN,
        }
    }

    /// The bytes saved compared with sending the payload in full.
    pub open spec fn saving(self) -> nat {
        match self {
            Reference::Content { .. } => 0,
            Reference::Cached { original_len, .. } => if original_len >= DIGEST_LEN {
                (original_len - DIGEST_LEN) as nat
            } else {
                0
            },
        }
    }

    /// Returns the bytes saved compared with sending the payload in full.
    pub fn bytes_saved(&self) -> (n: usize)
        ensures
            n == self.saving(),
    {
        match self {
            Reference::Content { .. } => 0,
            Reference::Cached { original_len, .. } => original_len.saturating_sub(DIGEST_LEN),
        }
    }
}

/// A snapshot of deduplication activity.
#[derive(Debug, Clone, Copy, PartialEq, Eq, Default)]
pub struct DedupStats {
    /// Payloads offered for transmission.
    pub offered: u64,
    /// Payloads that were already known to the peer.
    pub deduplicated: u64,
    /// Total bytes saved by sending digests instead of content.
    pub bytes_saved: u64,
    /// Distinct payloads currently remembered.
    pub remembered: usize,
}

impl DedupStats {
    /// Returns the fraction of offered payloads that were deduplicated; zero
    /// before anything has been offered.
    pub fn dedup_ratio(&self) -> (r: Ratio)
        ensures
            r == Ratio::share(self.deduplicated as nat, self.offered as nat),
    {
        Ratio::of(self.deduplicated, self.offered)
    }
}

/// The default minimum payload size worth deduplicating.
///
/// A digest is 16 bytes, so deduplicating anything much smaller than this saves
/// little and only adds bookkeeping.
pub const DEFAULT_MIN_DEDUP_SIZE: usize = 64;

/// Tracks which payloads a peer already holds.
#[derive(Debug)]
pub struct Deduplicator {
    seen: LruCache<Digest, usize>,
    offered: u64,
    deduplicated: u64,
    bytes_saved: u64,
    min_size: usize,
}

/// What a deduplicator remembers and has counted.
#[verifier::ext_equal]
pub struct DedupState {
    /// The payloads the peer is known to hold: digest and size.
    pub seen: CacheState<u128, usize>,
    /// Payloads offered for transmission.
    pub offered: u64,
    /// Payloads that were already known to the peer.
    pub deduplicated: u64,
    /// Total bytes saved by sending digests instead of content.
    pub bytes_saved: u64,
    /// The smallest payload worth deduplicating.
    pub min_size: usize,
}

/// The entry for a payload of this digest and size: it accounts for one word
/// and does not expire.
pub open spec fn payload_slot(digest: u128, len: usize) -> Slot<u128, usize> {
    Slot { key: digest, value: len, weight: (usize::BITS / 8) as nat, expires_at: None }
}

/// Every entry is that of a payload, so none is ever forgotten for its age.
pub open spec fn ageless(entries: Seq<Slot<u128, usize>>) -> bool {
    forall|i: int|
        0 <= i < entries.len() ==> (#[trigger] entries[i]) == payload_slot(
            entries[i].key,
            entries[i].value,
        )
}

/// Some point in time. Where no entry expires, it does not matter which.
pub open spec fn any_time() -> Instant {
    arbitrary()
}

impl DedupState {
    /// Nothing offered yet, with room to remember `capacity` payloads.
    pub open spec fn initial(capacity: usize, min_size: usize) -> DedupState {
        DedupState {
            seen: CacheState::empty(capacity),
            offered: 0,
            deduplicated: 0,
            bytes_saved: 0,
            min_size,
        }
    }

    /// The cache of digests is well-formed, has no byte limit and never forgets
    /// for age.
    pub open spec fn wf(self) -> bool {
        &&& self.seen.wf()
        &&& self.seen.default_ttl is None
        &&& ageless(self.seen.entries)
    }

    /// The size of the payload with this digest, if the peer is known to hold
    /// it.
    pub open spec fn known(self, digest: u128) -> Option<usize> {
        self.seen.stored(digest)
    }

    /// A payload is sent as a digest: it is large enough, and the peer is known
    /// to hold it.
    pub open spec fn deduplicates(self, data: Seq<u8>) -> bool {
        data.len() >= self.min_size && self.known(digest_of(data)) is Some
    }

    /// The statistics and the bookkeeping have room for one more payload.
    pub open spec fn has_room(self, data: Seq<u8>) -> bool {
        &&& self.seen.can_count()
        &&& self.seen.misses + 1 < u64::MAX
        &&& self.offered < u64::MAX
        &&& self.deduplicated < u64::MAX
        &&& self.known(digest_of(data)) matches Some(len) ==> self.bytes_saved + len <= u64::MAX
        &&& (self.seen.entries.len() + 1) * (usize::BITS / 8) <= usize::MAX
    }

    /// The deduplicator after a payload was offered.
    pub open spec fn after_offer(self, data: Seq<u8>) -> DedupState {
        let digest = digest_of(data);
        let counted = DedupState { offered: (self.offered + 1) as u64, ..self };
        if data.len() < self.min_size {
            counted
        } else if self.known(digest) is Some {
            let len = self.known(digest)->0;
            DedupState {
                seen: self.seen.looked_up(digest, any_time()),
                deduplicated: (self.deduplicated + 1) as u64,
                bytes_saved: (self.bytes_saved + if len >= DIGEST_LEN {
                    len - DIGEST_LEN
                } else {
                    0
                }) as u64,
                ..counted
            }
        } else {
            DedupState {
                seen: self.seen.looked_up(digest, any_time()).inserted(
                    payload_slot(digest, data.len() as usize),
                    any_time(),
                ),
                ..counted
            }
        }
    }

    /// `r` is how a payload is to be transmitted.
    pub open spec fn transmits(self, data: Seq<u8>, r: Reference) -> bool {
        &&& r.key()@ == digest_of(data)
        &&& match r {
            Reference::Content { data: payload, .. } => !self.deduplicates(data)
                && buffers::shared(payload) == data,
            Reference::Cached { original_len, .. } => self.deduplicates(data) && self.known(
                digest_of(data),
            ) == Some(original_len),
        }
    }
}

proof fn live_of_ageless(entries: Seq<Slot<u128, usize>>, now: Instant)
    requires
        ageless(entries),
    ensures
        lru::live(entries, now) == entries,
    decreases entries.len(),
{
    if entries.len() > 0 {
        assert(ageless(entries.drop_last())) by {
            assert forall|i: int| 0 <= i < entries.drop_last().len() implies (
            #[trigger] entries.drop_last()[i]) == payload_slot(
                entries.drop_last()[i].key,
                entries.drop_last()[i].value,
            ) by {
                assert(entries.drop_last()[i] == entries[i]);
            }
        }
        live_of_ageless(entries.drop_last(), now);
        assert(entries.drop_last().push(entries.last()) =~= entries);
        assert(entries.last() == entries[entries.len() - 1]);
    } else {
        assert(lru::live(entries, now) =~= entries);
    }
}

proof fn weight_of_ageless(entries: Seq<Slot<u128, usize>>)
    requires
        ageless(entries),
    ensures
        lru::total_weight(entries) == entries.len() * (usize::BITS / 8),
    decreases entries.len(),
{
    if entries.len() > 0 {
        assert(ageless(entries.drop_last())) by {
            assert forall|i: int| 0 <= i < entries.drop_last().len() implies (
            #[trigger] entries.drop_last()[i]) == payload_slot(
                entries.drop_last()[i].key,
                entries.drop_last()[i].value,
            ) by {
                assert(entries.drop_last()[i] == entries[i]);
            }
        }
        weight_of_ageless(entries.drop_last());
        let n = entries.len() as int;
        let w = (usize::BITS / 8) as int;
        assert((n - 1) * w + w == n * w) by (nonlinear_arith);
        assert(entries.last() == entries[entries.len() - 1]);
    }
}

/// Where no entry expires, a lookup has the same outcome at any time.
proof fn lookup_is_timeless(state: CacheState<u128, usize>, key: u128, t: Instant)
    requires
        state.wf(),
        ageless(state.entries),
    ensures
        state.looked_up(key, t) == state.looked_up(key, any_time()),
        state.found(key, t) == state.stored(key),
        state.looked_up(key, t).wf(),
        ageless(state.looked_up(key, t).entries),
{
    lru::operations_keep_shape(state, key, t);
    let after = state.looked_up(key, t);
    if let Some(p) = lru::position(state.entries, key) {
        assert(lru::holds_at(state.entries, key, p));
        assert forall|i: int| 0 <= i < after.entries.len() implies (#[trigger] after.entries[i])
            == payload_slot(after.entries[i].key, after.entries[i].value) by {
            let j = if i < p {
                i
            } else if i < state.entries.len() - 1 {
                i + 1
            } else {
                p
            };
            assert(after.entries[i] == state.entries[j]);
        }
    }
}

/// Where no entry expires, an insertion has the same outcome at any time.
proof fn insertion_is_timeless(state: CacheState<u128, usize>, key: u128, len: usize, t: Instant)
    requires
        state.wf(),
        ageless(state.entries),
    ensures
        state.inserted(payload_slot(key, len), t) == state.inserted(
            payload_slot(key, len),
            any_time(),
        ),
        state.inserted(payload_slot(key, len), t).wf(),
        ageless(state.inserted(payload_slot(key, len), t).entries),
{
    let slot = payload_slot(key, len);
    lru::insertion_respects_capacity(state, slot, t);
    lru::insertion_adds_one_entry(state, slot, t);
    let pushed = state.others(key).push(slot);
    assert(ageless(pushed)) by {
        assert forall|i: int| 0 <= i < pushed.len() implies (#[trigger] pushed[i]) == payload_slot(
            pushed[i].key,
            pushed[i].value,
        ) by {
            if i < state.others(key).len() {
                match lru::position(state.entries, key) {
                    Some(p) => {
                        assert(lru::holds_at(state.entries, key, p));
                        let j = if i < p {
                            i
                        } else {
                            i + 1
                        };
                        assert(pushed[i] == state.entries[j]);
                    },
                    None => {
                        assert(pushed[i] == state.entries[i]);
                    },
                }
            }
        }
    }
    live_of_ageless(pushed, t);
    live_of_ageless(pushed, any_time());
    let after = state.inserted(slot, t);
    assert forall|i: int| 0 <= i < after.entries.len() implies (#[trigger] after.entries[i])
        == payload_slot(after.entries[i].key, after.entries[i].value) by {
        let e = after.entries[i];
        if e != slot {
            let j = choose|j: int| 0 <= j < state.entries.len() && state.entries[j] == e;
            assert(state.entries[j] == e);
        }
    }
}

impl View for Deduplicator {
    type V = DedupState;

    closed spec fn view(&self) -> DedupState {
        DedupState {
            seen: self.seen@,
            offered: self.offered,
            deduplicated: self.deduplicated,
            bytes_saved: self.bytes_saved,
            min_size: self.min_size,
        }
    }
}

impl Deduplicator {
    /// What is remembered is well-formed and does not age.
    pub closed spec fn wf(&self) -> bool {
        self.seen.wf() && self@.wf()
    }

    /// A well-formed deduplicator has a well-formed state.
    pub proof fn state_is_wf(&self)
        requires
            self.wf(),
        ensures
            self@.wf(),
    {
    }

    /// Creates a deduplicator remembering up to `capacity` distinct payloads.
    pub fn new(capacity: usize) -> (d: Deduplicator)
        ensures
            d.wf(),
            d@ == DedupState::initial(capacity, DEFAULT_MIN_DEDUP_SIZE),
    {
        Deduplicator {
            seen: LruCache::new(capacity),
            offered: 0,
            deduplicated: 0,
            bytes_saved: 0,
            min_size: DEFAULT_MIN_DEDUP_SIZE,
        }
    }

    /// Sets the smallest payload worth deduplicating.
    pub fn with_min_size(self, min_size: usize) -> (d: Deduplicator)
        requires
            self.wf(),
        ensures
            d.wf(),
            d@ == (DedupState { min_size, ..self@ }),
    {
        Deduplicator { min_size, ..self }
    }

    /// Returns a snapshot of deduplication activity.
    pub fn stats(&self) -> (s: DedupStats)
        requires
            self.wf(),
        ensures
            s.offered == self@.offered,
            s.deduplicated == self@.deduplicated,
            s.bytes_saved == self@.bytes_saved,
            s.remembered == self@.seen.entries.len(),
    {
        let remembered: usize = self.seen.len();
        proof {
            let now = choose|now: Instant| remembered == #[trigger] lru::live(
                self@.seen.entries,
                now,
            ).len();
            live_of_ageless(self@.seen.entries, now);
        }
        DedupStats {
            offered: self.offered,
            deduplicated: self.deduplicated,
            bytes_saved: self.bytes_saved,
            remembered,
        }
    }

    /// Decides how `data` should be transmitted.
    ///
    /// Payloads below the minimum size are always sent as content, since a
    /// digest would not be smaller.
    pub fn offer(&mut self, data: Bytes) -> (r: Reference)
        requires
            old(self).wf(),
            old(self)@.has_room(buffers::shared(data)),
        ensures
            final(self).wf(),
            final(self)@ == old(self)@.after_offer(buffers::shared(data)),
            old(self)@.transmits(buffers::shared(data), r),
    {
        let ghost before = self@;
        let ghost bytes = buffers::shared(data);
        self.offered = self.offered + 1;
        let digest = Digest::of(buffers::shared_slice(&data));
        let len: usize = buffers::shared_len(&data);
        if len < self.min_size {
            assert(self@ =~= before.after_offer(bytes));
            return Reference::Content { digest, data };
        }
        let ghost seen = self.seen@;
        let hit: Option<usize> = match self.seen.get(&digest) {
            Some(n) => Some(*n),
            None => None,
        };
        proof {
            let now = choose|now: Instant|
                {
                    &&& self.seen@ == #[trigger] seen.looked_up(digest@, now)
                    &&& hit == seen.found(digest@, now)
                };
            lookup_is_timeless(seen, digest@, now);
        }
        match hit {
            Some(original_len) => {
                self.deduplicated = self.deduplicated + 1;
                let reference = Reference::Cached { digest, original_len };
                self.bytes_saved = self.bytes_saved + reference.bytes_saved() as u64;
                assert(self@ =~= before.after_offer(bytes));
                reference
            },
            None => {
                let ghost looked = self.seen@;
                proof {
                    assert(lru::position(seen.entries, digest@) is None);
                    assert(looked.entries == seen.entries);
                    weight_of_ageless(looked.entries);
                    let n = looked.entries.len() as int;
                    let w = (usize::BITS / 8) as int;
                    assert(n * w + w == (n + 1) * w) by (nonlinear_arith);
                    assert((n + 1) * w >= n + 1) by (nonlinear_arith)
                        requires
                            w >= 1,
                            n >= 0,
                    ;
                }
                let _ = self.seen.insert(digest, len);
                proof {
                    let slot = payload_slot(digest@, len);
                    let now = choose|now: Instant|
                        self.seen@ == #[trigger] looked.inserted(
                            Slot {
                                key: digest@,
                                value: len,
                                weight: (usize::BITS / 8) as nat,
                                expires_at: lru::deadline(now, looked.default_ttl),
                            },
                            now,
                        );
                    insertion_is_timeless(looked, digest@, len, now);
                }
                assert(self@ =~= before.after_offer(bytes));
                Reference::Content { digest, data }
            },
        }
    }

    /// Returns `true` if the peer is known to hold this content.
    pub fn contains(&self, digest: Digest) -> (r: bool)
        requires
            self.wf(),
        ensures
            r == (self@.known(digest@) is Some),
    {
        let r = self.seen.contains_key(&digest);
        proof {
            let now = choose|now: Instant| r == (#[trigger] self@.seen.found(digest@, now) is Some);
            lookup_is_timeless(self@.seen, digest@, now);
        }
        r
    }

    /// Forgets everything, as after a peer reconnects with a cold cache.
    pub fn reset(&mut self)
        requires
            old(self).wf(),
        ensures
            final(self).wf(),
            final(self)@ == (DedupState {
                seen: CacheState { entries: Seq::empty(), ..old(self)@.seen },
                ..old(self)@
            }),
    {
        let ghost before = self@;
        self.seen.clear();
        assert(self@ =~= (DedupState {
            seen: CacheState { entries: Seq::empty(), ..before.seen },
            ..before
        }));
    }
}

/// The receiving side of deduplication: resolves digests back to content.
///
/// A sender's [`Deduplicator`] and a receiver's [`DedupStore`] must agree about
/// what the receiver holds. If they disagree, after a restart say, the receiver
/// reports a miss and the sender should resend the content.
#[derive(Debug)]
pub struct DedupStore {
    contents: HashMap<u128, Bytes>,
}

impl View for DedupStore {
    type V = Map<u128, Seq<u8>>;

    closed spec fn view(&self) -> Map<u128, Seq<u8>> {
        self.contents@.map_values(|b: Bytes| buffers::shared(b))
    }
}

/// The store after a reference was resolved.
pub open spec fn store_after(store: Map<u128, Seq<u8>>, r: Reference) -> Map<u128, Seq<u8>> {
    match r {
        Reference::Content { digest, data } => store.insert(digest@, buffers::shared(data)),
        Reference::Cached { .. } => store,
    }
}

/// The content that a reference stands for, if the store can tell.
pub open spec fn resolved(store: Map<u128, Seq<u8>>, r: Reference) -> Option<Seq<u8>> {
    match r {
        Reference::Content { data, .. } => Some(buffers::shared(data)),
        Reference::Cached { digest, .. } => if store.contains_key(digest@) {
            Some(store[digest@])
        } else {
            None
        },
    }
}

impl DedupStore {
    /// Creates an empty store.
    pub fn new() -> (s: DedupStore)
        ensures
            s@ == Map::<u128, Seq<u8>>::empty(),
    {
        let s = DedupStore { contents: HashMap::new() };
        assert(s@ =~= Map::empty());
        s
    }

    /// Returns the number of stored payloads.
    pub fn len(&self) -> (n: usize)
        ensures
            n == self@.dom().len(),
    {
        broadcast use vstd::std_specs::hash::group_hash_axioms;

        assert(self@.dom() =~= self.contents@.dom());
        self.contents.len()
    }

    /// Returns `true` if nothing is stored.
    pub fn is_empty(&self) -> (r: bool)
        ensures
            r == (self@.dom().len() == 0),
    {
        self.len() == 0
    }

    /// Resolves a received reference to its content.
    ///
    /// Returns `None` for a cached reference this store does not hold, which
    /// means that the sender's view is stale and the content must be requested.
    pub fn resolve(&mut self, reference: &Reference) -> (r: Option<Bytes>)
        ensures
            final(self)@ == store_after(old(self)@, *reference),
            match r {
                Some(b) => resolved(old(self)@, *reference) == Some(buffers::shared(b)),
                None => resolved(old(self)@, *reference) is None,
            },
    {
        broadcast use vstd::std_specs::hash::group_hash_axioms;

        let ghost before = self@;
        match reference {
            Reference::Content { digest, data } => {
                let stored = data.clone();
                let _ = self.contents.insert(digest.as_u128(), stored);
                assert(self@ =~= store_after(before, *reference));
                Some(data.clone())
            },
            Reference::Cached { digest, .. } => {
                let key: u128 = digest.as_u128();
                match self.contents.get(&key) {
                    Some(b) => Some(b.clone()),
                    None => None,
                }
            },
        }
    }

    /// Removes everything.
    pub fn clear(&mut self)
        ensures
            final(self)@ == Map::<u128, Seq<u8>>::empty(),
    {
        self.contents.clear();
        assert(self@ =~= Map::empty());
    }
}

impl Default for DedupStore {
    fn default() -> (s: DedupStore)
        ensures
            s@ == Map::<u128, Seq<u8>>::empty(),
    {
        DedupStore::new()
    }
}

/// A sender and a receiver are in step: whatever the sender believes the
/// receiver to hold, it holds, under its digest.
pub open spec fn in_step(sender: DedupState, receiver: Map<u128, Seq<u8>>) -> bool {
    forall|d: u128|
        (#[trigger] sender.known(d)) is Some ==> receiver.contains_key(d) && digest_of(receiver[d])
            == d
}

/// A payload offered by a sender that is in step reaches the receiver in full,
/// whether as content or as a digest, and the two stay in step.
///
/// That holds unless the receiver's store has another payload with the same
/// digest, for the digest is not cryptographic.
pub proof fn offered_payload_is_resolved(
    sender: DedupState,
    receiver: Map<u128, Seq<u8>>,
    data: Seq<u8>,
    r: Reference,
)
    requires
        sender.wf(),
        in_step(sender, receiver),
        sender.transmits(data, r),
        receiver.contains_key(digest_of(data)) ==> receiver[digest_of(data)] == data,
    ensures
        resolved(receiver, r) == Some(data),
        in_step(sender.after_offer(data), store_after(receiver, r)),
{
    let digest = digest_of(data);
    let after = sender.after_offer(data);
    let store = store_after(receiver, r);
    lookup_is_timeless(sender.seen, digest, any_time());
    let looked = sender.seen.looked_up(digest, any_time());
    let slot = payload_slot(digest, data.len() as usize);
    lru::insertion_adds_one_entry(looked, slot, any_time());
    assert forall|d: u128| (#[trigger] after.known(d)) is Some implies store.contains_key(d)
        && digest_of(store[d]) == d by {
        if data.len() < sender.min_size {
            assert(sender.known(d) is Some);
        } else if d != digest {
            lru::lookup_keeps_values(sender.seen, digest, d, any_time());
            assert(looked.stored(d) == sender.known(d));
            if !sender.deduplicates(data) {
                assert(looked.inserted(slot, any_time()).stored(d) == looked.stored(d));
            }
            assert(sender.known(d) is Some);
        } else if sender.deduplicates(data) {
            assert(sender.known(d) is Some);
        }
    }
}

/// The sender after the payloads were offered, in order.
pub open spec fn after_offers(sender: DedupState, payloads: Seq<Seq<u8>>) -> DedupState
    decreases payloads.len(),
{
    if payloads.len() == 0 {
        sender
    } else {
        after_offers(sender, payloads.drop_last()).after_offer(payloads.last())
    }
}

/// The store after the references were resolved, in order.
pub open spec fn store_after_all(store: Map<u128, Seq<u8>>, refs: Seq<Reference>) -> Map<
    u128,
    Seq<u8>,
>
    decreases refs.len(),
{
    if refs.len() == 0 {
        store
    } else {
        store_after(store_after_all(store, refs.drop_last()), refs.last())
    }
}

/// Each reference is how the payload at its place is transmitted, once those before
/// it were offered.
pub open spec fn all_transmitted(
    sender: DedupState,
    payloads: Seq<Seq<u8>>,
    refs: Seq<Reference>,
) -> bool {
    &&& refs.len() == payloads.len()
    &&& forall|i: int|
        0 <= i < payloads.len() ==> after_offers(sender, payloads.take(i)).transmits(
            #[trigger] payloads[i],
            refs[i],
        )
}

/// No two different payloads have the same digest.
pub open spec fn without_collisions(payloads: Seq<Seq<u8>>) -> bool {
    forall|i: int, j: int|
        0 <= i < payloads.len() && 0 <= j < payloads.len() && #[trigger] digest_of(payloads[i])
            == #[trigger] digest_of(payloads[j]) ==> payloads[i] == payloads[j]
}

proof fn offers_keep_shape(sender: DedupState, data: Seq<u8>)
    requires
        sender.wf(),
    ensures
        sender.after_offer(data).wf(),
{
    let digest = digest_of(data);
    lookup_is_timeless(sender.seen, digest, any_time());
    insertion_is_timeless(
        sender.seen.looked_up(digest, any_time()),
        digest,
        data.len() as usize,
        any_time(),
    );
}

/// What the store holds under `d` is one of the payloads, and has that digest.
spec fn holds_one_of(store: Map<u128, Seq<u8>>, payloads: Seq<Seq<u8>>, d: u128) -> bool {
    exists|j: int|
        0 <= j < payloads.len() && #[trigger] digest_of(payloads[j]) == d && store[d]
            == payloads[j]
}

proof fn peers_stay_in_step(
    sender: DedupState,
    payloads: Seq<Seq<u8>>,
    refs: Seq<Reference>,
    k: int,
)
    requires
        sender.wf(),
        sender.seen.entries.len() == 0,
        all_transmitted(sender, payloads, refs),
        without_collisions(payloads),
        0 <= k <= payloads.len(),
    ensures
        ({
            let s = after_offers(sender, payloads.take(k));
            let store = store_after_all(Map::empty(), refs.take(k));
            &&& s.wf()
            &&& in_step(s, store)
            &&& forall|d: u128| #[trigger]
                store.contains_key(d) ==> holds_one_of(store, payloads, d)
            &&& k < payloads.len() ==> resolved(store, refs[k]) == Some(payloads[k])
        }),
    decreases k,
{
    let s = after_offers(sender, payloads.take(k));
    let store = store_after_all(Map::empty(), refs.take(k));
    if k == 0 {
        assert forall|d: u128| (#[trigger] s.known(d)) is Some implies false by {
            let p = lru::position(s.seen.entries, d)->0;
            assert(lru::holds_at(s.seen.entries, d, p));
        }
    } else {
        peers_stay_in_step(sender, payloads, refs, k - 1);
        let data = payloads[k - 1];
        let r = refs[k - 1];
        let s0 = after_offers(sender, payloads.take(k - 1));
        let store0 = store_after_all(Map::empty(), refs.take(k - 1));
        assert(payloads.take(k).drop_last() =~= payloads.take(k - 1));
        assert(refs.take(k).drop_last() =~= refs.take(k - 1));
        assert(s0.transmits(data, r));
        offers_keep_shape(s0, data);
        if store0.contains_key(digest_of(data)) {
            assert(holds_one_of(store0, payloads, digest_of(data)));
        }
        offered_payload_is_resolved(s0, store0, data, r);
        assert forall|d: u128| #[trigger] store.contains_key(d) implies holds_one_of(
            store,
            payloads,
            d,
        ) by {
            if store0.contains_key(d) && store[d] == store0[d] {
                assert(holds_one_of(store0, payloads, d));
            } else {
                assert(digest_of(payloads[k - 1]) == d && store[d] == payloads[k - 1]);
            }
        }
    }
    if k < payloads.len() {
        let data = payloads[k];
        assert(s.transmits(data, refs[k]));
        if store.contains_key(digest_of(data)) {
            assert(holds_one_of(store, payloads, digest_of(data)));
        }
        offered_payload_is_resolved(s, store, data, refs[k]);
    }
}

proof fn initial_states_are_wf(capacity: usize, min_size: usize)
    ensures
        DedupState::initial(capacity, min_size).wf(),
        DedupState::initial(capacity, min_size).seen.entries.len() == 0,
{
}

/// A sender and a store that both started empty, whatever the sender's capacity:
/// as long as every reference is resolved in the order in which it was offered,
/// each gives back the payload it was offered for, whether that went as content or
/// as a digest. That holds unless two payloads have the same digest.
pub proof fn every_offered_payload_is_resolved(
    capacity: usize,
    min_size: usize,
    payloads: Seq<Seq<u8>>,
    refs: Seq<Reference>,
    i: int,
)
    requires
        all_transmitted(DedupState::initial(capacity, min_size), payloads, refs),
        without_collisions(payloads),
        0 <= i < payloads.len(),
    ensures
        resolved(store_after_all(Map::empty(), refs.take(i)), refs[i]) == Some(payloads[i]),
{
    initial_states_are_wf(capacity, min_size);
    peers_stay_in_step(DedupState::initial(capacity, min_size), payloads, refs, i);
}

/// What an offer changes: it is counted; a payload sent as a digest counts as
/// deduplicated, and what that saves is its size less the sixteen bytes of the digest.
/// A payload too small is neither remembered nor recognised.
pub proof fn offers_are_counted(sender: DedupState, data: Seq<u8>, r: Reference)
    requires
        sender.wf(),
        sender.has_room(data),
        data.len() <= usize::MAX,
        sender.transmits(data, r),
    ensures
        ({
            let after = sender.after_offer(data);
            &&& after.offered == sender.offered + 1
            &&& after.deduplicated == sender.deduplicated + if r is Cached {
                1int
            } else {
                0
            }
            &&& after.bytes_saved == sender.bytes_saved + r.saving()
            &&& after.min_size == sender.min_size
            &&& data.len() < sender.min_size ==> r is Content && after.seen == sender.seen
            &&& r is Content ==> r.saving() == 0
            &&& r matches Reference::Cached { original_len, .. } ==> {
                &&& original_len >= 16 ==> r.saving() + 16 == original_len
                &&& original_len < 16 ==> r.saving() == 0
            }
        }),
{
}

/// A payload is sent in full once: where it is large enough, it is recognised from
/// then on, by its digest and with its size.
pub proof fn payloads_are_sent_in_full_once(sender: DedupState, data: Seq<u8>, again: Reference)
    requires
        sender.wf(),
        data.len() <= usize::MAX,
        data.len() >= sender.min_size,
        sender.after_offer(data).transmits(data, again),
    ensures
        again is Cached,
        again.key()@ == digest_of(data),
        sender.known(digest_of(data)) is None ==> (again matches Reference::Cached {
            original_len,
            ..
        } && original_len == data.len()),
        sender.known(digest_of(data)) is Some ==> (again matches Reference::Cached {
            original_len,
            ..
        } && Some(original_len) == sender.known(digest_of(data))),
{
    let digest = digest_of(data);
    let looked_up = sender.seen.looked_up(digest, any_time());
    lookup_is_timeless(sender.seen, digest, any_time());
    if sender.known(digest) is Some {
        lru::lookup_keeps_values(sender.seen, digest, digest, any_time());
    } else {
        let slot = payload_slot(digest, data.len() as usize);
        lru::insertion_adds_one_entry(looked_up, slot, any_time());
        lru::operations_keep_shape(sender.seen, digest, any_time());
        let after = looked_up.inserted(slot, any_time());
        insertion_is_timeless(looked_up, digest, data.len() as usize, any_time());
        lookup_is_timeless(after, digest, any_time());
    }
}

/// A payload that was never offered is sent in full, whatever it looks like: only
/// what is remembered under its digest is recognised.
pub proof fn new_payloads_are_sent_in_full(
    capacity: usize,
    min_size: usize,
    data: Seq<u8>,
    r: Reference,
)
    requires
        DedupState::initial(capacity, min_size).transmits(data, r),
    ensures
        r matches Reference::Content { digest, data: payload } && digest@ == digest_of(data)
            && buffers::shared(payload) == data,
        DedupState::initial(capacity, min_size).offered == 0,
        DedupState::initial(capacity, min_size).deduplicated == 0,
        DedupState::initial(capacity, min_size).bytes_saved == 0,
        DedupState::initial(capacity, min_size).min_size == min_size,
{
    let seen = DedupState::initial(capacity, min_size).seen;
    lru::missing_keys_are_misses(seen, digest_of(data), any_time());
}

/// A store keeps content under its digest and gives back what it kept last; content
/// resolves to itself, and a digest to nothing where the store has nothing.
pub proof fn stores_give_back_what_they_keep(
    store: Map<u128, Seq<u8>>,
    content: Reference,
    later: Reference,
    digest: u128,
)
    requires
        content is Content,
        later is Cached,
    ensures
        content matches Reference::Content { digest: d, data } && resolved(store, content) == Some(
            buffers::shared(data),
        ) && store_after(store, content).contains_key(d@) && store_after(store, content)[d@]
            == buffers::shared(data),
        later.key()@ == content.key()@ ==> resolved(store_after(store, content), later) == resolved(
            store,
            content,
        ),
        later.key()@ != content.key()@ ==> resolved(store_after(store, content), later) == resolved(
            store,
            later,
        ),
        digest != content.key()@ ==> store_after(store, content).contains_key(digest)
            == store.contains_key(digest),
        !store.contains_key(later.key()@) ==> resolved(store, later) is None,
        store.contains_key(later.key()@) ==> resolved(store, later) == Some(store[later.key()@]),
        store_after(store, later) == store,
{
}

} // verus!
