//! Key material and nonce sequencing.
//!
//! Authenticated encryption is unforgiving in two places, and both are handled
//! here rather than left to callers:
//!
//! 1. **Nonce reuse.** Encrypting two different messages with the same key and
//!    nonce leaks the plaintexts and the authentication key.
//!    [`NonceSequence`] counts, never repeats, and refuses to continue when its
//!    budget is spent rather than wrapping.
//! 2. **Key material outliving its use.** [`Key`] zeroes itself on drop.

use crate::encryption::error::{Error, Result};
use rand_core::RngCore;
use subtle::ConstantTimeEq;
use vstd::prelude::*;
use zeroize::Zeroize;

verus! {

/// The size of a symmetric key, in bytes.
pub const KEY_LEN: usize = 32;

/// The size of a nonce, in bytes.
pub const NONCE_LEN: usize = 12;

/// The size of an authentication tag, in bytes.
pub const TAG_LEN: usize = 16;

/// How many messages one key may protect before it must be rotated: 2^48, far
/// below the range of the counter.
pub const MAX_MESSAGES_PER_KEY: u64 = 281474976710656;

/// `Zeroize::zeroize` of the `zeroize` crate overwrites every byte with zero,
/// in a way that the compiler may not remove. It does not panic.
#[verifier::external_body]
fn wipe(bytes: &mut [u8; KEY_LEN])
    ensures
        final(bytes)@ == Seq::new(KEY_LEN as nat, |i: int| 0u8),
    opens_invariants none
    no_unwind
{
    bytes.zeroize()
}

/// `ConstantTimeEq::ct_eq` of the `subtle` crate tells whether two slices hold
/// the same bytes. That its running time does not depend on where they differ
/// is not stated.
#[verifier::external_body]
fn constant_time_eq(a: &[u8], b: &[u8]) -> (r: bool)
    ensures
        r == (a@ == b@),
{
    a.ct_eq(b).into()
}

/// `OsRng::try_fill_bytes` of the `rand_core` crate asks the operating system
/// for random bytes, or reports why there are none. Nothing is known of what
/// comes back.
#[verifier::external_body]
fn system_random_bytes() -> (r: std::result::Result<[u8; KEY_LEN], String>) {
    let mut bytes = [0u8; KEY_LEN];
    match rand_core::OsRng.try_fill_bytes(&mut bytes) {
        Ok(()) => Ok(bytes),
        Err(error) => Err(error.to_string()),
    }
}

/// A symmetric key.
///
/// The bytes are zeroed when the key is dropped, and nothing here prints them:
/// a key logged by accident is a key disclosed.
pub struct Key {
    bytes: [u8; KEY_LEN],
}

impl View for Key {
    type V = Seq<u8>;

    closed spec fn view(&self) -> Seq<u8> {
        self.bytes@
    }
}

impl Drop for Key {
    /// Zeroes the key material.
    fn drop(&mut self)
        ensures
            final(self)@ == Seq::new(KEY_LEN as nat, |i: int| 0u8),
        opens_invariants none
        no_unwind
    {
        wipe(&mut self.bytes)
    }
}

impl Clone for Key {
    fn clone(&self) -> (k: Key)
        ensures
            k@ == self@,
    {
        Key { bytes: self.bytes }
    }
}

impl Key {
    /// Creates a key from raw bytes.
    pub fn from_bytes(bytes: [u8; KEY_LEN]) -> (k: Key)
        ensures
            k@ == bytes@,
    {
        Key { bytes }
    }

    /// Creates a key from a slice of exactly [`KEY_LEN`] bytes.
    ///
    /// Padding or truncating would produce a key that works locally and fails
    /// to interoperate, or one with less entropy than it appears to have.
    pub fn from_slice(bytes: &[u8]) -> (r: Result<Key>)
        ensures
            match r {
                Ok(k) => bytes@.len() == KEY_LEN && k@ == bytes@,
                Err(e) => bytes@.len() != KEY_LEN && e == (Error::InvalidKeyLength {
                    expected: KEY_LEN,
                    actual: bytes@.len() as usize,
                }),
            },
    {
        if bytes.len() != KEY_LEN {
            return Err(Error::InvalidKeyLength { expected: KEY_LEN, actual: bytes.len() });
        }
        let mut array: [u8; KEY_LEN] = [0u8; KEY_LEN];
        let mut i: usize = 0;
        while i < KEY_LEN
            invariant
                i <= KEY_LEN,
                bytes@.len() == KEY_LEN,
                forall|j: int| 0 <= j < i ==> array@[j] == bytes@[j],
            decreases KEY_LEN - i,
        {
            array[i] = bytes[i];
            i += 1;
        }
        assert(array@ =~= bytes@);
        Ok(Key { bytes: array })
    }

    /// Makes a key of what the random source delivered, or reports its failure.
    pub fn from_random(outcome: std::result::Result<[u8; KEY_LEN], String>) -> (r: Result<Key>)
        ensures
            match outcome {
                Ok(bytes) => r matches Ok(k) && k@ == bytes@,
                Err(reason) => r == Err::<Key, Error>(Error::RandomSource { reason }),
            },
    {
        match outcome {
            Ok(bytes) => Ok(Key { bytes }),
            Err(reason) => Err(Error::RandomSource { reason }),
        }
    }

    /// Generates a key from the operating system's random source.
    ///
    /// A failure of the source is not recoverable by retrying.
    pub fn generate() -> (r: Result<Key>)
        ensures
            match r {
                Ok(k) => k@.len() == KEY_LEN,
                Err(e) => e is RandomSource,
            },
    {
        Key::from_random(system_random_bytes())
    }

    /// Returns the key bytes.
    ///
    /// Copying them into a longer-lived buffer defeats the zeroing this type
    /// performs.
    pub fn as_bytes(&self) -> (b: &[u8; KEY_LEN])
        ensures
            b@ == self@,
    {
        &self.bytes
    }

    /// A description that is fit for a log: it does not depend on the key.
    pub fn debug_string(&self) -> (s: String)
        ensures
            s@ == "Key(<redacted>)"@,
    {
        "Key(<redacted>)".to_owned()
    }
}

impl PartialEq for Key {
    /// Compares in constant time: a comparison that returns early leaks how
    /// much of the key matched.
    fn eq(&self, other: &Key) -> (r: bool) {
        constant_time_eq(self.bytes.as_slice(), other.bytes.as_slice())
    }
}

impl vstd::std_specs::cmp::PartialEqSpecImpl for Key {
    open spec fn obeys_eq_spec() -> bool {
        true
    }

    open spec fn eq_spec(&self, other: &Key) -> bool {
        self@ == other@
    }
}

impl Eq for Key {

}

/// Which direction a key protects.
///
/// Each direction gets its own key, derived from the same shared secret, so
/// that a message cannot be reflected at its sender.
#[derive(Debug, Clone, Copy, PartialEq, Eq, Hash, Structural)]
#[non_exhaustive]
pub enum Direction {
    /// Traffic from the client to the server.
    ClientToServer,
    /// Traffic from the server to the client.
    ServerToClient,
}

impl Direction {
    /// The opposite direction.
    pub open spec fn opposite(self) -> Direction {
        match self {
            Direction::ClientToServer => Direction::ServerToClient,
            Direction::ServerToClient => Direction::ClientToServer,
        }
    }

    /// Returns the opposite direction.
    pub fn peer(self) -> (d: Direction)
        ensures
            d == self.opposite(),
    {
        match self {
            Direction::ClientToServer => Direction::ServerToClient,
            Direction::ServerToClient => Direction::ClientToServer,
        }
    }

    /// The opposite of the opposite is the direction itself, and never the
    /// direction one started from.
    pub proof fn opposite_reverses(self)
        ensures
            self.opposite().opposite() == self,
            self.opposite() != self,
    {
    }

    /// The bytes that separate this direction's key from the other's.
    pub open spec fn label_bytes(self) -> Seq<u8> {
        match self {
            Direction::ClientToServer => vstd::utf8::encode_utf8("nexusnet v1 client-to-server"@),
            Direction::ServerToClient => vstd::utf8::encode_utf8("nexusnet v1 server-to-client"@),
        }
    }

    /// Returns the HKDF info string that separates this direction's key.
    pub fn label(self) -> (b: &'static [u8])
        ensures
            b@ == self.label_bytes(),
    {
        match self {
            Direction::ClientToServer => "nexusnet v1 client-to-server".as_bytes(),
            Direction::ServerToClient => "nexusnet v1 server-to-client".as_bytes(),
        }
    }

    /// The two directions have different labels; identical ones would derive
    /// identical keys and allow reflection.
    pub proof fn labels_differ(self)
        ensures
            self.label_bytes() != self.opposite().label_bytes(),
    {
        reveal_strlit("nexusnet v1 client-to-server");
        reveal_strlit("nexusnet v1 server-to-client");
        vstd::string::is_ascii_spec_bytes("nexusnet v1 client-to-server");
        vstd::string::is_ascii_spec_bytes("nexusnet v1 server-to-client");
        let a = vstd::utf8::encode_utf8("nexusnet v1 client-to-server"@);
        let b = vstd::utf8::encode_utf8("nexusnet v1 server-to-client"@);
        assert(a[12] == 99u8 && b[12] == 115u8);
    }

    /// The direction in words.
    pub open spec fn text(self) -> Seq<char> {
        match self {
            Direction::ClientToServer => "client-to-server"@,
            Direction::ServerToClient => "server-to-client"@,
        }
    }

    /// Returns the direction in words.
    pub fn to_string(&self) -> (s: String)
        ensures
            s@ == self.text(),
    {
        match self {
            Direction::ClientToServer => "client-to-server".to_owned(),
            Direction::ServerToClient => "server-to-client".to_owned(),
        }
    }
}

/// A nonce for one message.
#[derive(Debug, Clone, Copy, PartialEq, Eq)]
pub struct Nonce {
    bytes: [u8; NONCE_LEN],
}

/// The nonce bytes of a counter value: four zero bytes, and the counter with
/// its most significant byte first.
pub open spec fn nonce_bytes(counter: u64) -> Seq<u8> {
    seq![
        0u8,
        0u8,
        0u8,
        0u8,
        (counter / 0x100000000000000) as u8,
        (counter / 0x1000000000000 % 256) as u8,
        (counter / 0x10000000000 % 256) as u8,
        (counter / 0x100000000 % 256) as u8,
        (counter / 0x1000000 % 256) as u8,
        (counter / 0x10000 % 256) as u8,
        (counter / 0x100 % 256) as u8,
        (counter % 256) as u8,
    ]
}

/// Different counters give different nonces.
pub proof fn nonces_are_distinct(a: u64, b: u64)
    requires
        nonce_bytes(a) == nonce_bytes(b),
    ensures
        a == b,
{
    let x = nonce_bytes(a);
    let y = nonce_bytes(b);
    assert(a / 0x100000000000000 == b / 0x100000000000000) by {
        assert(x[4] == y[4]);
    }
    assert(x[5] == y[5]);
    same_prefix_extends(a, b, 0x1000000000000);
    assert(x[6] == y[6]);
    same_prefix_extends(a, b, 0x10000000000);
    assert(x[7] == y[7]);
    same_prefix_extends(a, b, 0x100000000);
    assert(x[8] == y[8]);
    same_prefix_extends(a, b, 0x1000000);
    assert(x[9] == y[9]);
    same_prefix_extends(a, b, 0x10000);
    assert(x[10] == y[10]);
    same_prefix_extends(a, b, 0x100);
    assert(x[11] == y[11]);
    same_prefix_extends(a, b, 1);
}

/// Two numbers that agree above a byte, and in that byte, agree from there on
/// up.
proof fn same_prefix_extends(a: u64, b: u64, unit: int)
    requires
        unit > 0,
        a as int / (unit * 256) == b as int / (unit * 256),
        (a as int / unit) % 256 == (b as int / unit) % 256,
    ensures
        a as int / unit == b as int / unit,
{
    vstd::arithmetic::div_mod::lemma_div_denominator(a as int, unit, 256);
    vstd::arithmetic::div_mod::lemma_div_denominator(b as int, unit, 256);
    vstd::arithmetic::div_mod::lemma_fundamental_div_mod(a as int / unit, 256);
    vstd::arithmetic::div_mod::lemma_fundamental_div_mod(b as int / unit, 256);
}

impl View for Nonce {
    type V = Seq<u8>;

    closed spec fn view(&self) -> Seq<u8> {
        self.bytes@
    }
}

impl Nonce {
    /// Returns the nonce bytes.
    pub fn as_bytes(&self) -> (b: &[u8; NONCE_LEN])
        ensures
            b@ == self@,
    {
        &self.bytes
    }

    /// Reconstructs the nonce a peer used.
    ///
    /// Receiving is safe: the counter arrives with the message, and the wrong
    /// one simply fails to authenticate.
    pub fn from_counter(counter: u64) -> (n: Nonce)
        ensures
            n@ == nonce_bytes(counter),
    {
        let bytes: [u8; NONCE_LEN] = [
            0,
            0,
            0,
            0,
            (counter / 0x100000000000000) as u8,
            (counter / 0x1000000000000 % 256) as u8,
            (counter / 0x10000000000 % 256) as u8,
            (counter / 0x100000000 % 256) as u8,
            (counter / 0x1000000 % 256) as u8,
            (counter / 0x10000 % 256) as u8,
            (counter / 0x100 % 256) as u8,
            (counter % 256) as u8,
        ];
        assert(bytes@ =~= nonce_bytes(counter));
        Nonce { bytes }
    }
}

/// Issues never-repeating nonces for one key.
#[derive(Debug)]
pub struct NonceSequence {
    counter: u64,
    exhausted: bool,
}

impl NonceSequence {
    /// How many nonces have been issued.
    pub closed spec fn issued(&self) -> u64 {
        self.counter
    }

    /// The sequence has refused to go on.
    pub closed spec fn stopped(&self) -> bool {
        self.exhausted
    }

    /// No more nonces are issued than one key may use, and the sequence stops only
    /// once all of them are.
    #[verifier::type_invariant]
    pub open spec fn within_budget(self) -> bool {
        &&& self.issued() <= MAX_MESSAGES_PER_KEY
        &&& self.stopped() ==> self.issued() == MAX_MESSAGES_PER_KEY
    }

    /// Another nonce can be had.
    pub open spec fn has_budget(&self) -> bool {
        !self.stopped() && self.issued() < MAX_MESSAGES_PER_KEY
    }

    /// Creates a sequence starting at zero.
    pub fn new() -> (s: NonceSequence)
        ensures
            s.issued() == 0,
            !s.stopped(),
            s.within_budget(),
    {
        NonceSequence { counter: 0, exhausted: false }
    }

    /// Continues a sequence of which `issued` nonces have been used already.
    pub fn resume(issued: u64) -> (s: NonceSequence)
        requires
            issued <= MAX_MESSAGES_PER_KEY,
        ensures
            s.issued() == issued,
            !s.stopped(),
            s.within_budget(),
    {
        NonceSequence { counter: issued, exhausted: false }
    }

    /// Returns how many nonces have been issued.
    pub fn counter(&self) -> (n: u64)
        ensures
            n == self.issued(),
    {
        self.counter
    }

    /// Returns `true` once the sequence refuses to issue more.
    pub fn is_exhausted(&self) -> (r: bool)
        ensures
            r == self.stopped(),
    {
        self.exhausted
    }

    /// Returns `true` when the key should be rotated soon: from three quarters
    /// of the budget, which leaves room to rotate in an orderly way.
    pub fn should_rotate(&self) -> (r: bool)
        ensures
            r == (self.issued() >= MAX_MESSAGES_PER_KEY / 4 * 3),
    {
        self.counter >= (MAX_MESSAGES_PER_KEY / 4) * 3
    }

    /// Issues the next nonce, or refuses once the budget is spent.
    ///
    /// Failing to send is a bad outcome; reusing a nonce is a catastrophic one.
    pub fn next_nonce(&mut self) -> (r: Result<Nonce>)
        ensures
            final(self).within_budget(),
            match r {
                Ok(n) => {
                    &&& old(self).has_budget()
                    &&& n@ == nonce_bytes(old(self).issued())
                    &&& final(self).issued() == old(self).issued() + 1
                    &&& !final(self).stopped()
                },
                Err(e) => {
                    &&& !old(self).has_budget()
                    &&& old(self).issued() == MAX_MESSAGES_PER_KEY
                    &&& e == (Error::NonceExhausted { messages: MAX_MESSAGES_PER_KEY })
                    &&& final(self).issued() == old(self).issued()
                    &&& final(self).stopped()
                },
            },
    {
        proof {
            use_type_invariant(&*self);
        }
        if self.exhausted || self.counter >= MAX_MESSAGES_PER_KEY {
            self.exhausted = true;
            return Err(Error::NonceExhausted { messages: self.counter });
        }
        let nonce = Nonce::from_counter(self.counter);
        self.counter = self.counter + 1;
        Ok(nonce)
    }

    /// Resets the sequence, as after installing a fresh key.
    ///
    /// Calling this without also changing the key reuses every nonce.
    pub fn reset(&mut self)
        ensures
            final(self).issued() == 0,
            !final(self).stopped(),
            final(self).within_budget(),
    {
        *self = NonceSequence { counter: 0, exhausted: false };
    }
}

impl Clone for NonceSequence {
    fn clone(&self) -> (s: NonceSequence)
        ensures
            s == *self,
    {
        proof {
            use_type_invariant(self);
        }
        NonceSequence { counter: self.counter, exhausted: self.exhausted }
    }
}

impl Default for NonceSequence {
    fn default() -> (s: NonceSequence)
        ensures
            s.issued() == 0,
            !s.stopped(),
            s.within_budget(),
    {
        NonceSequence::new()
    }
}

/// A nonce carries its counter: after four zero bytes come eight that write the
/// counter in base 256, the most significant first.
pub proof fn nonces_carry_their_counter(counter: u64)
    ensures
        ({
            let n = nonce_bytes(counter);
            &&& n.len() == 12
            &&& n[0] == 0 && n[1] == 0 && n[2] == 0 && n[3] == 0
            &&& counter == n[11] + 256 * (n[10] + 256 * (n[9] + 256 * (n[8] + 256 * (n[7] + 256 * (
            n[6] + 256 * (n[5] + 256 * n[4]))))))
        }),
{
    let n = nonce_bytes(counter);
    let c = counter as int;
    assert(c / 0x100000000000000 < 256);
    assert(n[4] == c / 0x100000000000000);
    assert(n[5] == c / 0x1000000000000 % 256);
    assert(n[6] == c / 0x10000000000 % 256);
    assert(n[7] == c / 0x100000000 % 256);
    assert(n[8] == c / 0x1000000 % 256);
    assert(n[9] == c / 0x10000 % 256);
    assert(n[10] == c / 0x100 % 256);
    assert(n[11] == c % 256);
}

/// One key protects 2^48 messages and no more: a sequence has budget as long as fewer
/// nonces were issued.
pub proof fn keys_protect_so_many_messages(s: NonceSequence)
    requires
        s.within_budget(),
    ensures
        s.issued() <= 0x1_0000_0000_0000,
        s.has_budget() <==> s.issued() < 0x1_0000_0000_0000,
        s.stopped() ==> s.issued() == 0x1_0000_0000_0000,
{
}

/// Both peers of a connection name a direction alike, and it is one of two.
pub proof fn directions_come_in_pairs(d: Direction, e: Direction)
    ensures
        e == d || e == d.opposite(),
        Direction::ClientToServer.label_bytes() == vstd::utf8::encode_utf8(
            "nexusnet v1 client-to-server"@,
        ),
        Direction::ServerToClient.label_bytes() == vstd::utf8::encode_utf8(
            "nexusnet v1 server-to-client"@,
        ),
{
}

} // verus!
