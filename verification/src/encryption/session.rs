//! Session keys, replay protection, and the encrypted-message interface.

use crate::encryption::cipher;
use crate::encryption::cipher::{Cipher, Sealer};
use crate::encryption::error::{Error, Result};
use crate::encryption::keys;
use crate::encryption::keys::{Direction, Key, Nonce, NonceSequence, KEY_LEN, TAG_LEN};
use vstd::prelude::*;

verus! {

/// The 32 bytes that HKDF-SHA256 derives from a salt, a secret and an info
/// string.
pub uninterp spec fn hkdf_sha256(salt: Seq<u8>, secret: Seq<u8>, info: Seq<u8>) -> Seq<u8>;

/// `Hkdf::<Sha256>::new` and `expand` of the `hkdf` crate, for 32 bytes of
/// output. Expansion refuses only more than 255 blocks of 32 bytes, so here it
/// always succeeds.
#[verifier::external_body]
fn hkdf_sha256_expand(salt: &[u8], secret: &[u8], info: &[u8]) -> (r: std::result::Result<
    [u8; KEY_LEN],
    String,
>)
    ensures
        r is Ok,
        r matches Ok(okm) ==> okm@ == hkdf_sha256(salt@, secret@, info@),
{
    let mut okm = [0u8; KEY_LEN];
    match hkdf::Hkdf::<sha2::Sha256>::new(Some(salt), secret).expand(info, &mut okm) {
        Ok(()) => Ok(okm),
        Err(error) => Err(error.to_string()),
    }
}

/// The key for one direction of a session.
pub open spec fn session_key(secret: Seq<u8>, salt: Seq<u8>, direction: Direction) -> Seq<u8> {
    hkdf_sha256(salt, secret, direction.label_bytes())
}

/// Makes a key of what derivation delivered, or reports its failure.
pub fn derived_or_failed(outcome: std::result::Result<[u8; KEY_LEN], String>) -> (r: Result<Key>)
    ensures
        match outcome {
            Ok(bytes) => r matches Ok(k) && k@ == bytes@,
            Err(reason) => r == Err::<Key, Error>(Error::KeyDerivation { reason }),
        },
{
    match outcome {
        Ok(bytes) => Ok(Key::from_bytes(bytes)),
        Err(reason) => Err(Error::KeyDerivation { reason }),
    }
}

/// Derives a directional key from a shared secret.
///
/// HKDF-SHA256 with a per-direction info string gives the two directions
/// independent keys from the same secret.
pub fn derive_key(shared_secret: &[u8], salt: &[u8], direction: Direction) -> (r: Result<Key>)
    ensures
        r matches Ok(k) && k@ == session_key(shared_secret@, salt@, direction),
{
    derived_or_failed(hkdf_sha256_expand(salt, shared_secret, direction.label()))
}

/// How many message counters behind the highest seen are still accepted.
///
/// A datagram transport reorders, so requiring strictly increasing counters
/// would drop legitimate traffic. The window accepts recent stragglers while
/// still refusing anything already seen.
pub const REPLAY_WINDOW: u64 = 64;

/// Rejects replayed and unacceptably old messages.
///
/// Authentication proves that a message was created by the key holder. It says
/// nothing about when: a recorded message authenticates perfectly a second
/// time. Only counter tracking stops that.
pub struct ReplayFilter {
    highest: u64,
    /// The accepted counters that are still inside the window.
    seen: Vec<u64>,
    started: bool,
    rejected: u64,
    /// Every counter ever accepted.
    accepted: Ghost<Set<u64>>,
}

impl ReplayFilter {
    /// Every counter ever accepted.
    pub closed spec fn accepted(&self) -> Set<u64> {
        self.accepted@
    }

    /// The highest counter accepted so far, or zero.
    pub closed spec fn top(&self) -> u64 {
        self.highest
    }

    /// How many messages have been rejected.
    pub closed spec fn rejections(&self) -> u64 {
        self.rejected
    }

    /// The filter remembers every accepted counter that is still inside the
    /// window.
    pub closed spec fn wf(&self) -> bool {
        &&& !self.started ==> self.accepted() == Set::<u64>::empty() && self.highest == 0
        &&& self.started ==> self.accepted().contains(self.highest)
        &&& forall|c: u64| #[trigger] self.accepted().contains(c) ==> c <= self.highest
        &&& forall|c: u64|
            self.seen@.contains(c) <==> #[trigger] self.accepted().contains(c) && c + REPLAY_WINDOW
                >= self.highest
    }

    /// A counter is admitted if it was never accepted before and does not lie
    /// further behind the highest one than the window reaches.
    pub open spec fn admits(&self, counter: u64) -> bool {
        &&& !self.accepted().contains(counter)
        &&& self.accepted() == Set::<u64>::empty() || counter + REPLAY_WINDOW >= self.top()
    }

    /// Creates an empty filter.
    pub fn new() -> (f: ReplayFilter)
        ensures
            f.wf(),
            f.accepted() == Set::<u64>::empty(),
            f.top() == 0,
            f.rejections() == 0,
    {
        ReplayFilter {
            highest: 0,
            seen: Vec::new(),
            started: false,
            rejected: 0,
            accepted: Ghost(Set::empty()),
        }
    }

    /// Returns the highest counter accepted so far.
    pub fn highest(&self) -> (n: u64)
        ensures
            n == self.top(),
    {
        self.highest
    }

    /// Returns how many messages have been rejected.
    pub fn rejected(&self) -> (n: u64)
        ensures
            n == self.rejections(),
    {
        self.rejected
    }

    fn has_seen(&self, counter: u64) -> (r: bool)
        ensures
            r == self.seen@.contains(counter),
    {
        let mut i: usize = 0;
        while i < self.seen.len()
            invariant
                i <= self.seen@.len(),
                forall|j: int| 0 <= j < i ==> self.seen@[j] != counter,
            decreases self.seen@.len() - i,
        {
            if self.seen[i] == counter {
                assert(self.seen@[i as int] == counter);
                return true;
            }
            i += 1;
        }
        false
    }

    /// The counters of `seen` that are still inside the window below `highest`.
    fn within_window(seen: &Vec<u64>, highest: u64) -> (kept: Vec<u64>)
        ensures
            forall|c: u64|
                kept@.contains(c) <==> #[trigger] seen@.contains(c) && c + REPLAY_WINDOW >= highest,
    {
        let mut kept: Vec<u64> = Vec::new();
        let floor: u64 = highest.saturating_sub(REPLAY_WINDOW);
        let mut i: usize = 0;
        while i < seen.len()
            invariant
                i <= seen@.len(),
                floor == if highest >= REPLAY_WINDOW {
                    highest - REPLAY_WINDOW
                } else {
                    0
                },
                forall|j: int|
                    0 <= j < kept@.len() ==> seen@.contains(#[trigger] kept@[j]) && kept@[j] >= floor,
                forall|j: int|
                    0 <= j < i && seen@[j] >= floor ==> kept@.contains(#[trigger] seen@[j]),
            decreases seen@.len() - i,
        {
            let c: u64 = seen[i];
            if c >= floor {
                let ghost before = kept@;
                kept.push(c);
                assert forall|j: int| 0 <= j < i + 1 && seen@[j] >= floor implies kept@.contains(
                    #[trigger] seen@[j],
                ) by {
                    if j < i {
                        let k = choose|k: int| 0 <= k < before.len() && before[k] == seen@[j];
                        assert(kept@[k] == seen@[j]);
                    } else {
                        assert(kept@[before.len() as int] == c);
                    }
                }
            }
            i += 1;
        }
        assert forall|c: u64|
            kept@.contains(c) <==> #[trigger] seen@.contains(c) && c + REPLAY_WINDOW >= highest by {
            if seen@.contains(c) && c + REPLAY_WINDOW >= highest {
                let j = choose|j: int| 0 <= j < seen@.len() && seen@[j] == c;
                assert(kept@.contains(seen@[j]));
            }
            if kept@.contains(c) {
                let j = choose|j: int| 0 <= j < kept@.len() && kept@[j] == c;
                assert(seen@.contains(kept@[j]));
            }
        }
        kept
    }

    /// Accepts `counter` if it has not been seen and is not too old.
    pub fn accept(&mut self, counter: u64) -> (r: Result<()>)
        requires
            old(self).wf(),
            old(self).rejections() < u64::MAX,
        ensures
            final(self).wf(),
            if old(self).admits(counter) {
                &&& r is Ok
                &&& final(self).accepted() == old(self).accepted().insert(counter)
                &&& final(self).top() == if counter > old(self).top() {
                    counter
                } else {
                    old(self).top()
                }
                &&& final(self).rejections() == old(self).rejections()
            } else {
                &&& r == Err::<(), Error>(Error::Replay { counter })
                &&& final(self).accepted() == old(self).accepted()
                &&& final(self).top() == old(self).top()
                &&& final(self).rejections() == old(self).rejections() + 1
            },
    {
        if self.started {
            if self.has_seen(counter) || counter < self.highest.saturating_sub(REPLAY_WINDOW) {
                assert(!self.admits(counter)) by {
                    assert(self.accepted().contains(self.highest));
                    assert(self.seen@.contains(counter) ==> self.accepted().contains(counter));
                }
                self.rejected = self.rejected + 1;
                return Err(Error::Replay { counter });
            }
        }
        assert(!self.accepted().contains(counter));
        let highest: u64 = if counter > self.highest {
            counter
        } else {
            self.highest
        };
        let mut seen = ReplayFilter::within_window(&self.seen, highest);
        let ghost kept = seen@;
        seen.push(counter);
        let ghost accepted = self.accepted@.insert(counter);
        proof {
            assert forall|c: u64|
                seen@.contains(c) <==> #[trigger] accepted.contains(c) && c + REPLAY_WINDOW
                    >= highest by {
                assert(seen@[kept.len() as int] == counter);
                if seen@.contains(c) && c != counter {
                    let j = choose|j: int| 0 <= j < seen@.len() && seen@[j] == c;
                    assert(kept[j] == c);
                    assert(kept.contains(c));
                    assert(self.seen@.contains(c));
                    assert(self.accepted().contains(c));
                }
                if accepted.contains(c) && c + REPLAY_WINDOW >= highest && c != counter {
                    assert(self.accepted().contains(c));
                    assert(self.seen@.contains(c));
                    assert(kept.contains(c));
                    let j = choose|j: int| 0 <= j < kept.len() && kept[j] == c;
                    assert(seen@[j] == c);
                }
            }
        }
        self.started = true;
        self.highest = highest;
        self.seen = seen;
        self.accepted = Ghost(accepted);
        Ok(())
    }
}

impl Clone for ReplayFilter {
    fn clone(&self) -> (f: ReplayFilter)
        ensures
            f.accepted() == self.accepted(),
            f.top() == self.top(),
            f.rejections() == self.rejections(),
            self.wf() ==> f.wf(),
    {
        ReplayFilter {
            highest: self.highest,
            seen: self.seen.clone(),
            started: self.started,
            rejected: self.rejected,
            accepted: Ghost(self.accepted@),
        }
    }
}

impl Default for ReplayFilter {
    fn default() -> (f: ReplayFilter)
        ensures
            f.wf(),
            f.accepted() == Set::<u64>::empty(),
            f.top() == 0,
            f.rejections() == 0,
    {
        ReplayFilter::new()
    }
}

/// A counter that was accepted once is refused ever after, however far the
/// filter has moved on: what was accepted stays accepted, and what is accepted
/// is not admitted.
pub proof fn accepted_counters_stay_refused(before: ReplayFilter, after: ReplayFilter, counter: u64)
    requires
        before.accepted().contains(counter),
        before.accepted().subset_of(after.accepted()),
    ensures
        !after.admits(counter),
{
}

/// A message ready for the wire.
#[derive(Debug, Clone, PartialEq, Eq)]
pub struct SealedMessage {
    /// The counter that produced the nonce, needed by the receiver.
    pub counter: u64,
    /// The ciphertext, including its authentication tag.
    pub ciphertext: Vec<u8>,
}

impl SealedMessage {
    /// Returns the total bytes this message puts on the wire.
    ///
    /// The counter travels as 8 bytes alongside the ciphertext.
    pub fn wire_len(&self) -> (n: usize)
        requires
            self.ciphertext@.len() + 8 <= usize::MAX,
        ensures
            n == self.ciphertext@.len() + 8,
    {
        self.ciphertext.len() + 8
    }
}

/// What one direction of a session knows.
pub struct SessionState {
    /// The cipher in use.
    pub cipher: Cipher,
    /// The bytes of the key in use.
    pub key: Seq<u8>,
    /// The direction that is protected.
    pub direction: Direction,
    /// How many nonces this key has used.
    pub issued: u64,
    /// The key has refused to protect more.
    pub stopped: bool,
    /// The counters of every message opened with this key.
    pub accepted: Set<u64>,
    /// The highest of them, or zero.
    pub highest: u64,
    /// How many messages were rejected as replays under this key.
    pub rejected: u64,
    /// How many messages have been sealed.
    pub sealed: u64,
    /// How many messages have been opened.
    pub opened: u64,
}

impl SessionState {
    /// A message with this counter is not a replay.
    pub open spec fn admits(self, counter: u64) -> bool {
        &&& !self.accepted.contains(counter)
        &&& self.accepted == Set::<u64>::empty() || counter + REPLAY_WINDOW >= self.highest
    }

    /// What the cipher makes of a message that arrives.
    pub open spec fn authentic(
        self,
        counter: u64,
        ciphertext: Seq<u8>,
        associated_data: Seq<u8>,
    ) -> Option<Seq<u8>> {
        self.cipher.opened(self.key, keys::nonce_bytes(counter), ciphertext, associated_data)
    }

    /// The state once a key is derived anew: nonces and counters start again, and
    /// what was counted stays counted.
    pub open spec fn rotated(self, secret: Seq<u8>, salt: Seq<u8>) -> SessionState {
        SessionState {
            key: session_key(secret, salt, self.direction),
            issued: 0,
            stopped: false,
            accepted: Set::empty(),
            highest: 0,
            rejected: 0,
            ..self
        }
    }

    /// The state once a message with this counter has been opened.
    pub open spec fn after_opening(self, counter: u64) -> SessionState {
        SessionState {
            accepted: self.accepted.insert(counter),
            highest: if counter > self.highest {
                counter
            } else {
                self.highest
            },
            opened: (self.opened + 1) as u64,
            ..self
        }
    }
}

/// A message that one peer seals, the other opens, and opens once: whatever
/// authentic message the sender makes of a plaintext, a receiver with the same
/// cipher and key makes the plaintext of it again, and refuses it from there on.
pub proof fn sealed_messages_open_once(
    sender: SessionState,
    receiver: SessionState,
    counter: u64,
    ciphertext: Seq<u8>,
    plaintext: Seq<u8>,
    associated_data: Seq<u8>,
)
    requires
        sender.authentic(counter, ciphertext, associated_data) == Some(plaintext),
        receiver.cipher == sender.cipher,
        receiver.key == sender.key,
    ensures
        receiver.authentic(counter, ciphertext, associated_data) == Some(plaintext),
        !receiver.after_opening(counter).admits(counter),
        forall|later: u64|
            !(#[trigger] receiver.after_opening(counter).after_opening(later)).admits(counter),
{
}

/// Rotation starts two peers of one direction and cipher afresh: the first message
/// has counter zero, the receiver admits it, and makes the plaintext of it again.
/// Direction, cipher and the counts of messages stay.
pub proof fn rotation_starts_both_peers_afresh(
    sender: SessionState,
    receiver: SessionState,
    secret: Seq<u8>,
    salt: Seq<u8>,
    ciphertext: Seq<u8>,
    plaintext: Seq<u8>,
    associated_data: Seq<u8>,
)
    requires
        sender.cipher == receiver.cipher,
        sender.direction == receiver.direction,
        sender.rotated(secret, salt).authentic(0, ciphertext, associated_data) == Some(plaintext),
    ensures
        sender.rotated(secret, salt).issued == 0,
        !sender.rotated(secret, salt).stopped,
        receiver.rotated(secret, salt).key == sender.rotated(secret, salt).key,
        receiver.rotated(secret, salt).admits(0),
        receiver.rotated(secret, salt).authentic(0, ciphertext, associated_data) == Some(plaintext),
        sender.rotated(secret, salt).direction == sender.direction,
        sender.rotated(secret, salt).cipher == sender.cipher,
        sender.rotated(secret, salt).sealed == sender.sealed,
        sender.rotated(secret, salt).opened == sender.opened,
{
}

/// A session that refuses to seal more has used every nonce that one key may use,
/// and no session ever uses more.
pub proof fn stopped_sessions_have_spent_their_budget(s: SessionCrypto)
    requires
        s.wf(),
    ensures
        s@.issued <= keys::MAX_MESSAGES_PER_KEY,
        s@.stopped ==> s@.issued == keys::MAX_MESSAGES_PER_KEY,
{
}

/// Protects one direction of a connection.
pub struct SessionCrypto {
    sealer: Sealer,
    nonces: NonceSequence,
    replay: ReplayFilter,
    direction: Direction,
    messages_sealed: u64,
    messages_opened: u64,
}

impl View for SessionCrypto {
    type V = SessionState;

    closed spec fn view(&self) -> SessionState {
        SessionState {
            cipher: self.sealer.algorithm(),
            key: self.sealer.key_bytes(),
            direction: self.direction,
            issued: self.nonces.issued(),
            stopped: self.nonces.stopped(),
            accepted: self.replay.accepted(),
            highest: self.replay.top(),
            rejected: self.replay.rejections(),
            sealed: self.messages_sealed,
            opened: self.messages_opened,
        }
    }
}

impl SessionCrypto {
    /// The replay filter remembers what it has to, and the nonces are within the
    /// budget of the key.
    pub closed spec fn wf(&self) -> bool {
        &&& self.replay.wf()
        &&& self.nonces.within_budget()
    }

    /// Creates crypto state for one direction of a connection.
    pub fn new(
        shared_secret: &[u8],
        salt: &[u8],
        direction: Direction,
        cipher: Cipher,
    ) -> (r: Result<SessionCrypto>)
        ensures
            r matches Ok(s) && s.wf() && s@ == (SessionState {
                cipher,
                key: session_key(shared_secret@, salt@, direction),
                direction,
                issued: 0,
                stopped: false,
                accepted: Set::empty(),
                highest: 0,
                rejected: 0,
                sealed: 0,
                opened: 0,
            }),
    {
        let key = match derive_key(shared_secret, salt, direction) {
            Ok(key) => key,
            Err(e) => {
                return Err(e);
            },
        };
        Ok(
            SessionCrypto {
                sealer: Sealer::new(cipher, key),
                nonces: NonceSequence::new(),
                replay: ReplayFilter::new(),
                direction,
                messages_sealed: 0,
                messages_opened: 0,
            },
        )
    }

    /// Returns the direction this state protects.
    pub fn direction(&self) -> (d: Direction)
        ensures
            d == self@.direction,
    {
        self.direction
    }

    /// Returns the cipher in use.
    pub fn cipher(&self) -> (c: Cipher)
        ensures
            c == self@.cipher,
    {
        self.sealer.cipher()
    }

    /// Returns how many messages have been sealed.
    pub fn messages_sealed(&self) -> (n: u64)
        ensures
            n == self@.sealed,
    {
        self.messages_sealed
    }

    /// Returns how many messages have been opened.
    pub fn messages_opened(&self) -> (n: u64)
        ensures
            n == self@.opened,
    {
        self.messages_opened
    }

    /// Returns how many messages were rejected as replays.
    pub fn replays_rejected(&self) -> (n: u64)
        ensures
            n == self@.rejected,
    {
        self.replay.rejected()
    }

    /// Returns `true` when the key should be rotated.
    pub fn should_rotate(&self) -> (r: bool)
        ensures
            r == (self@.issued >= keys::MAX_MESSAGES_PER_KEY / 4 * 3),
    {
        self.nonces.should_rotate()
    }

    /// Encrypts a message under a nonce that this key has not used before.
    ///
    /// A session with the same cipher and key that has not opened this message
    /// yet makes the plaintext of it again.
    pub fn seal(&mut self, plaintext: &[u8], associated_data: &[u8]) -> (r: Result<SealedMessage>)
        requires
            old(self).wf(),
            plaintext@.len() + TAG_LEN <= isize::MAX,
            old(self)@.sealed < u64::MAX,
        ensures
            final(self).wf(),
            if old(self)@.issued >= keys::MAX_MESSAGES_PER_KEY {
                &&& r == Err::<SealedMessage, Error>(
                    Error::NonceExhausted { messages: keys::MAX_MESSAGES_PER_KEY },
                )
                &&& final(self)@ == (SessionState { stopped: true, ..old(self)@ })
            } else if old(self)@.cipher.accepts(plaintext@.len(), associated_data@.len()) {
                &&& r matches Ok(m)
                &&& m.counter == old(self)@.issued
                &&& m.ciphertext@ == old(self)@.cipher.sealed(
                    old(self)@.key,
                    keys::nonce_bytes(m.counter),
                    plaintext@,
                    associated_data@,
                )
                &&& m.ciphertext@.len() == plaintext@.len() + TAG_LEN
                &&& old(self)@.authentic(m.counter, m.ciphertext@, associated_data@) == Some(
                    plaintext@,
                )
                &&& final(self)@ == (SessionState {
                    issued: (old(self)@.issued + 1) as u64,
                    sealed: (old(self)@.sealed + 1) as u64,
                    ..old(self)@
                })
            } else {
                &&& r == Err::<SealedMessage, Error>(
                    Error::InputTooLarge {
                        len: plaintext@.len() as usize,
                        associated_len: associated_data@.len() as usize,
                    },
                )
                &&& final(self)@ == (SessionState {
                    issued: (old(self)@.issued + 1) as u64,
                    ..old(self)@
                })
            },
    {
        let counter: u64 = self.nonces.counter();
        let nonce = match self.nonces.next_nonce() {
            Ok(nonce) => nonce,
            Err(e) => {
                return Err(e);
            },
        };
        let ciphertext = match self.sealer.seal(nonce, plaintext, associated_data) {
            Ok(c) => c,
            Err(e) => {
                return Err(e);
            },
        };
        self.messages_sealed = self.messages_sealed + 1;
        Ok(SealedMessage { counter, ciphertext })
    }

    /// Decrypts a message, rejecting replays.
    ///
    /// Authentication is checked first: a message that cannot be proven genuine
    /// leaves the session as it was, so that forged counters cannot cause
    /// legitimate messages to be dropped.
    pub fn open(&mut self, message: &SealedMessage, associated_data: &[u8]) -> (r: Result<Vec<u8>>)
        requires
            old(self).wf(),
            old(self)@.rejected < u64::MAX,
            old(self)@.opened < u64::MAX,
        ensures
            final(self).wf(),
            ({
                let authentic = old(self)@.authentic(
                    message.counter,
                    message.ciphertext@,
                    associated_data@,
                );
                if message.ciphertext@.len() < TAG_LEN || authentic is None {
                    &&& cipher::open_outcome(r, message.ciphertext@, authentic)
                    &&& final(self)@ == old(self)@
                } else if old(self)@.admits(message.counter) {
                    &&& cipher::open_outcome(r, message.ciphertext@, authentic)
                    &&& final(self)@ == old(self)@.after_opening(message.counter)
                } else {
                    &&& r == Err::<Vec<u8>, Error>(Error::Replay { counter: message.counter })
                    &&& final(self)@ == (SessionState {
                        rejected: (old(self)@.rejected + 1) as u64,
                        ..old(self)@
                    })
                }
            }),
    {
        let nonce = Nonce::from_counter(message.counter);
        let plaintext = match self.sealer.open(
            nonce,
            message.ciphertext.as_slice(),
            associated_data,
        ) {
            Ok(m) => m,
            Err(e) => {
                return Err(e);
            },
        };
        match self.replay.accept(message.counter) {
            Ok(()) => {},
            Err(e) => {
                return Err(e);
            },
        }
        self.messages_opened = self.messages_opened + 1;
        Ok(plaintext)
    }

    /// Installs a freshly derived key, restarts the nonce sequence and forgets
    /// the counters that the old key used.
    pub fn rotate(&mut self, shared_secret: &[u8], salt: &[u8]) -> (r: Result<()>)
        requires
            old(self).wf(),
        ensures
            final(self).wf(),
            r is Ok,
            final(self)@ == old(self)@.rotated(shared_secret@, salt@),
    {
        let key = match derive_key(shared_secret, salt, self.direction) {
            Ok(key) => key,
            Err(e) => {
                return Err(e);
            },
        };
        self.sealer = Sealer::new(self.sealer.cipher(), key);
        self.nonces.reset();
        self.replay = ReplayFilter::new();
        Ok(())
    }
}

/// The two directions of one connection use keys that are derived from the same secret
/// and salt under different labels.
pub proof fn directions_use_different_labels(
    secret: Seq<u8>,
    salt: Seq<u8>,
    direction: Direction,
)
    ensures
        session_key(secret, salt, direction) == hkdf_sha256(salt, secret, direction.label_bytes()),
        session_key(secret, salt, direction.opposite()) == hkdf_sha256(
            salt,
            secret,
            direction.opposite().label_bytes(),
        ),
        direction.label_bytes() != direction.opposite().label_bytes(),
{
    direction.labels_differ();
}

/// Which messages are not replays: one ahead of all that were opened always is none;
/// one up to 64 behind the highest is none unless it was opened before; and one
/// further behind is refused. Before any was opened, each is admitted.
pub proof fn the_replay_window_reaches_back_64(s: SessionState, f: ReplayFilter, counter: u64)
    requires
        forall|c: u64| #[trigger] s.accepted.contains(c) ==> c <= s.highest,
        f.wf(),
    ensures
        s.accepted == Set::<u64>::empty() ==> s.admits(counter),
        counter > s.highest ==> s.admits(counter),
        counter <= s.highest <= counter + 64 ==> (s.admits(counter) <==> !s.accepted.contains(
            counter,
        )),
        s.accepted.contains(s.highest) && counter + 64 < s.highest ==> !s.admits(counter),
        f.accepted() == Set::<u64>::empty() ==> f.admits(counter),
        counter > f.top() ==> f.admits(counter),
        counter <= f.top() <= counter + 64 ==> (f.admits(counter) <==> !f.accepted().contains(
            counter,
        )),
        f.accepted().contains(f.top()) && counter + 64 < f.top() ==> !f.admits(counter),
{
}

/// What opening a message changes: its counter is accepted from then on, and is the
/// highest where it lies above all others, and one message more was opened. Nothing
/// else changes.
pub proof fn one_message_is_opened(s: SessionState, counter: u64, other: u64)
    requires
        s.opened < u64::MAX,
    ensures
        ({
            let after = s.after_opening(counter);
            &&& after.accepted.contains(other) <==> other == counter || s.accepted.contains(other)
            &&& after.highest >= counter && after.highest >= s.highest
            &&& after.highest == counter || after.highest == s.highest
            &&& after.opened == s.opened + 1
            &&& after.cipher == s.cipher && after.key == s.key && after.direction == s.direction
            &&& after.issued == s.issued && after.stopped == s.stopped
            &&& after.rejected == s.rejected && after.sealed == s.sealed
        }),
{
}

/// After a rotation nothing was accepted or rejected yet, and the key is that of the
/// session's own direction.
pub proof fn rotation_forgets_the_counters(
    s: SessionState,
    secret: Seq<u8>,
    salt: Seq<u8>,
    counter: u64,
)
    ensures
        ({
            let after = s.rotated(secret, salt);
            &&& !after.accepted.contains(counter) && after.admits(counter)
            &&& after.highest == 0 && after.rejected == 0
            &&& after.key == hkdf_sha256(salt, secret, s.direction.label_bytes())
        }),
{
}

/// A message is authentic under the session's own key and the nonce of its counter.
pub proof fn messages_are_bound_to_their_counter(
    s: SessionState,
    counter: u64,
    ciphertext: Seq<u8>,
    associated_data: Seq<u8>,
    plaintext: Seq<u8>,
)
    requires
        ciphertext == s.cipher.sealed(
            s.key,
            keys::nonce_bytes(counter),
            plaintext,
            associated_data,
        ),
        s.cipher.opened(s.key, keys::nonce_bytes(counter), ciphertext, associated_data) == Some(
            plaintext,
        ),
    ensures
        s.authentic(counter, ciphertext, associated_data) == Some(plaintext),
{
}

} // verus!
