//! Message protection: keys, nonces, ciphers, sessions and replay rejection.

use nexusnet::encryption::{
    derive_key, Cipher, Direction, Error, Key, Nonce, NonceSequence, ReplayFilter, SealedMessage,
    Sealer, SessionCrypto, KEY_LEN, MAX_MESSAGES_PER_KEY, REPLAY_WINDOW, TAG_LEN,
};

fn sealer(cipher: Cipher) -> Sealer {
    Sealer::new(cipher, Key::from_bytes([9; KEY_LEN]))
}

#[test]
fn every_cipher_round_trips() {
    for cipher in Cipher::all() {
        let sealer = sealer(cipher);
        let mut nonces = NonceSequence::new();
        let nonce = nonces.next_nonce().expect("fresh");

        let sealed = sealer
            .seal(nonce, b"attack at dawn", b"header")
            .expect("seals");
        let opened = sealer.open(nonce, &sealed, b"header").expect("opens");

        assert_eq!(opened, b"attack at dawn", "{cipher:?} failed to round trip");
    }
}

#[test]
fn ciphertext_does_not_reveal_plaintext() {
    let sealer = sealer(Cipher::default());
    let mut nonces = NonceSequence::new();
    let nonce = nonces.next_nonce().expect("fresh");

    let plaintext = b"aaaaaaaaaaaaaaaaaaaaaaaa";
    let sealed = sealer.seal(nonce, plaintext, b"").expect("seals");

    assert_ne!(&sealed[..plaintext.len()], &plaintext[..]);
    assert_eq!(sealed.len(), plaintext.len() + TAG_LEN);
}

#[test]
fn the_same_plaintext_encrypts_differently_each_time() {
    let sealer = sealer(Cipher::default());
    let mut nonces = NonceSequence::new();

    let first = sealer
        .seal(nonces.next_nonce().expect("fresh"), b"identical", b"")
        .expect("seals");
    let second = sealer
        .seal(nonces.next_nonce().expect("fresh"), b"identical", b"")
        .expect("seals");

    assert_ne!(
        first, second,
        "identical ciphertexts would reveal that two messages match"
    );
}

#[test]
fn a_tampered_ciphertext_is_rejected() {
    let sealer = sealer(Cipher::default());
    let mut nonces = NonceSequence::new();
    let nonce = nonces.next_nonce().expect("fresh");

    let mut sealed = sealer.seal(nonce, b"transfer 100", b"").expect("seals");
    sealed[2] ^= 0x01;

    let error = sealer.open(nonce, &sealed, b"").expect_err("tampered");
    assert_eq!(error, Error::DecryptionFailed);
    assert!(error.indicates_tampering());
}

#[test]
fn a_tampered_tag_is_rejected() {
    let sealer = sealer(Cipher::default());
    let mut nonces = NonceSequence::new();
    let nonce = nonces.next_nonce().expect("fresh");

    let mut sealed = sealer.seal(nonce, b"payload", b"").expect("seals");
    let last = sealed.len() - 1;
    sealed[last] ^= 0x80;

    assert!(sealer.open(nonce, &sealed, b"").is_err());
}

#[test]
fn altered_associated_data_is_rejected() {
    let sealer = sealer(Cipher::default());
    let mut nonces = NonceSequence::new();
    let nonce = nonces.next_nonce().expect("fresh");

    let sealed = sealer.seal(nonce, b"payload", b"stream=1").expect("seals");

    assert!(
        sealer.open(nonce, &sealed, b"stream=2").is_err(),
        "binding the header is what stops a payload being moved between streams"
    );
    assert!(sealer.open(nonce, &sealed, b"").is_err());
}

#[test]
fn the_wrong_nonce_fails_to_open() {
    let sealer = sealer(Cipher::default());
    let mut nonces = NonceSequence::new();
    let nonce = nonces.next_nonce().expect("fresh");
    let other = nonces.next_nonce().expect("fresh");

    let sealed = sealer.seal(nonce, b"payload", b"").expect("seals");
    assert!(sealer.open(other, &sealed, b"").is_err());
}

#[test]
fn the_wrong_key_fails_to_open() {
    let mut nonces = NonceSequence::new();
    let nonce = nonces.next_nonce().expect("fresh");

    let sealed = sealer(Cipher::default())
        .seal(nonce, b"payload", b"")
        .expect("seals");

    let other = Sealer::new(Cipher::default(), Key::from_bytes([8; KEY_LEN]));
    assert!(other.open(nonce, &sealed, b"").is_err());
}

#[test]
fn ciphers_do_not_interoperate() {
    let key = Key::from_bytes([5; KEY_LEN]);
    let mut nonces = NonceSequence::new();
    let nonce = nonces.next_nonce().expect("fresh");

    let sealed = Sealer::new(Cipher::ChaCha20Poly1305, key.clone())
        .seal(nonce, b"payload", b"")
        .expect("seals");

    let wrong = Sealer::new(Cipher::Aes256Gcm, key);
    assert!(
        wrong.open(nonce, &sealed, b"").is_err(),
        "a cipher mismatch must fail cleanly, not produce garbage"
    );
}

#[test]
fn a_truncated_ciphertext_is_rejected_early() {
    let sealer = sealer(Cipher::default());
    let mut nonces = NonceSequence::new();
    let nonce = nonces.next_nonce().expect("fresh");

    let error = sealer.open(nonce, &[0; 4], b"").expect_err("too short");
    assert!(matches!(error, Error::CiphertextTooShort { len: 4, .. }));
}

#[test]
fn an_empty_payload_is_still_authenticated() {
    let sealer = sealer(Cipher::default());
    let mut nonces = NonceSequence::new();
    let nonce = nonces.next_nonce().expect("fresh");

    let sealed = sealer.seal(nonce, b"", b"header").expect("seals");
    assert_eq!(sealed.len(), TAG_LEN, "an empty message is all tag");

    assert_eq!(sealer.open(nonce, &sealed, b"header").expect("opens"), b"");
    assert!(sealer.open(nonce, &sealed, b"other").is_err());
}

#[test]
fn wire_discriminants_round_trip() {
    for cipher in Cipher::all() {
        assert_eq!(Cipher::from_id(cipher.id()), Some(cipher));
    }
    assert_eq!(Cipher::from_id(0xFF), None);
}

#[test]
fn ciphertext_length_is_predictable() {
    let cipher = Cipher::default();
    assert_eq!(cipher.ciphertext_len(0), TAG_LEN);
    assert_eq!(cipher.ciphertext_len(100), 100 + TAG_LEN);
}

#[test]
fn a_sealer_does_not_leak_its_key_through_debug() {
    let rendered = sealer(Cipher::default()).debug_string();
    assert!(!rendered.contains('9'));
    assert!(rendered.contains("Sealer"));
}

#[test]
fn keys_round_trip_through_bytes() {
    let key = Key::from_bytes([3; KEY_LEN]);
    assert_eq!(key.as_bytes(), &[3; KEY_LEN]);

    let from_slice = Key::from_slice(&[3; KEY_LEN]).expect("correct length");
    assert!(key == from_slice);
}

#[test]
fn a_wrong_length_key_is_refused() {
    let error = Key::from_slice(&[0; 16]).err().expect("too short");

    assert!(
        matches!(
            error,
            Error::InvalidKeyLength {
                expected: 32,
                actual: 16
            }
        ),
        "padding silently would produce a key with half the entropy it claims"
    );
    assert!(Key::from_slice(&[0; 64]).is_err(), "too long is also wrong");
}

#[test]
fn generated_keys_differ() {
    let first = Key::generate().expect("system randomness works");
    let second = Key::generate().expect("system randomness works");

    assert!(first != second, "two generated keys must not collide");
    assert_ne!(
        first.as_bytes(),
        &[0; KEY_LEN],
        "an all-zero key means the random source failed silently"
    );
}

#[test]
fn keys_do_not_leak_through_debug() {
    let key = Key::from_bytes([0xAB; KEY_LEN]);
    let rendered = key.debug_string();

    assert!(!rendered.contains("ab"), "a logged key is a disclosed key");
    assert!(!rendered.contains("171"));
    assert_eq!(rendered, "Key(<redacted>)");
}

#[test]
fn directions_are_distinct_and_reversible() {
    assert_eq!(Direction::ClientToServer.peer(), Direction::ServerToClient);
    assert_eq!(
        Direction::ServerToClient.peer().peer(),
        Direction::ServerToClient
    );
    assert_ne!(
        Direction::ClientToServer.label(),
        Direction::ServerToClient.label(),
        "identical labels would derive identical keys and allow reflection"
    );
}

#[test]
fn nonces_never_repeat() {
    let mut sequence = NonceSequence::new();
    let mut seen = std::collections::HashSet::new();

    for _ in 0..10_000 {
        let nonce = sequence.next_nonce().expect("not exhausted");
        assert!(
            seen.insert(*nonce.as_bytes()),
            "a repeated nonce leaks the authentication key"
        );
    }
}

#[test]
fn nonces_track_the_counter() {
    let mut sequence = NonceSequence::new();

    let first = sequence.next_nonce().expect("not exhausted");
    assert_eq!(first, Nonce::from_counter(0));
    assert_eq!(sequence.counter(), 1);

    let second = sequence.next_nonce().expect("not exhausted");
    assert_eq!(second, Nonce::from_counter(1));
}

#[test]
fn an_exhausted_sequence_refuses_rather_than_wrapping() {
    let mut sequence = NonceSequence::resume(MAX_MESSAGES_PER_KEY);

    let error = sequence.next_nonce().expect_err("budget spent");
    assert!(matches!(error, Error::NonceExhausted { .. }));
    assert!(sequence.is_exhausted());

    // And it stays refused; no retry can make it safe.
    assert!(sequence.next_nonce().is_err());
}

#[test]
fn rotation_is_advised_before_the_cliff() {
    let mut sequence = NonceSequence::new();
    assert!(!sequence.should_rotate());

    sequence = NonceSequence::resume((MAX_MESSAGES_PER_KEY / 4) * 3);
    assert!(
        sequence.should_rotate(),
        "rotation should be advised with budget to spare"
    );
    assert!(
        !sequence.is_exhausted(),
        "and well before sending becomes impossible"
    );
}

#[test]
fn resetting_restarts_the_sequence() {
    let mut sequence = NonceSequence::new();
    for _ in 0..100 {
        sequence.next_nonce().expect("not exhausted");
    }

    sequence.reset();
    assert_eq!(sequence.counter(), 0);
    assert_eq!(
        sequence.next_nonce().expect("not exhausted"),
        Nonce::from_counter(0)
    );
}

#[test]
fn key_comparison_is_constant_time() {
    // Correctness is what a test can check; the timing property comes from
    // the comparison itself. Verify at least that comparison behaves as expected.
    let key = Key::from_bytes([1; KEY_LEN]);
    let same = Key::from_bytes([1; KEY_LEN]);

    let mut differing = [1_u8; KEY_LEN];
    differing[KEY_LEN - 1] = 2;

    assert!(key == same);
    assert!(key != Key::from_bytes(differing));
}

fn session(direction: Direction) -> SessionCrypto {
    SessionCrypto::new(b"shared secret", b"salt", direction, Cipher::default())
        .expect("derives")
}

#[test]
fn directions_derive_different_keys() {
    let outbound = derive_key(b"secret", b"salt", Direction::ClientToServer).expect("derives");
    let inbound = derive_key(b"secret", b"salt", Direction::ServerToClient).expect("derives");

    assert!(
        outbound != inbound,
        "one key both ways would allow a message to be reflected at its sender"
    );
}

#[test]
fn derivation_is_deterministic() {
    let first = derive_key(b"secret", b"salt", Direction::ClientToServer).expect("derives");
    let second = derive_key(b"secret", b"salt", Direction::ClientToServer).expect("derives");

    assert!(first == second, "both peers must arrive at the same key");
}

#[test]
fn a_different_salt_derives_a_different_key() {
    let first =
        derive_key(b"secret", b"session-1", Direction::ClientToServer).expect("derives");
    let second =
        derive_key(b"secret", b"session-2", Direction::ClientToServer).expect("derives");

    assert!(
        first != second,
        "per-session salts keep one session's key useless against another"
    );
}

#[test]
fn a_session_round_trips() {
    let mut sender = session(Direction::ClientToServer);
    let mut receiver = session(Direction::ClientToServer);

    let sealed = sender.seal(b"hello", b"header").expect("seals");
    let opened = receiver.open(&sealed, b"header").expect("opens");

    assert_eq!(opened, b"hello");
    assert_eq!(sender.messages_sealed(), 1);
    assert_eq!(receiver.messages_opened(), 1);
}

#[test]
fn the_opposite_direction_cannot_decrypt() {
    let mut sender = session(Direction::ClientToServer);
    let mut wrong = session(Direction::ServerToClient);

    let sealed = sender.seal(b"hello", b"").expect("seals");
    assert!(
        wrong.open(&sealed, b"").is_err(),
        "reflection protection depends on this failing"
    );
}

#[test]
fn a_replayed_message_is_rejected() {
    let mut sender = session(Direction::ClientToServer);
    let mut receiver = session(Direction::ClientToServer);

    let sealed = sender.seal(b"transfer 100", b"").expect("seals");

    assert!(receiver.open(&sealed, b"").is_ok());
    let error = receiver.open(&sealed, b"").expect_err("replayed");

    assert!(
        matches!(error, Error::Replay { .. }),
        "authentication alone cannot tell a replay from the original"
    );
    assert!(error.indicates_tampering());
    assert_eq!(receiver.replays_rejected(), 1);
}

#[test]
fn reordered_messages_within_the_window_are_accepted() {
    let mut sender = session(Direction::ClientToServer);
    let mut receiver = session(Direction::ClientToServer);

    let messages: Vec<SealedMessage> = (0..10)
        .map(|i| {
            sender
                .seal(format!("message {i}").as_bytes(), b"")
                .expect("seals")
        })
        .collect();

    // Deliver out of order, as a datagram transport would.
    for index in [5, 2, 9, 0, 7, 1, 8, 3, 6, 4] {
        receiver
            .open(&messages[index], b"")
            .unwrap_or_else(|error| panic!("message {index} rejected: {error:?}"));
    }

    assert_eq!(receiver.messages_opened(), 10);
}

#[test]
fn a_very_old_message_is_rejected() {
    let mut filter = ReplayFilter::new();

    filter.accept(1000).expect("first");
    let error = filter.accept(10).expect_err("far too old");

    assert!(
        matches!(error, Error::Replay { .. }),
        "beyond the window we cannot prove it is not a replay"
    );
}

#[test]
fn a_forged_message_does_not_poison_the_replay_filter() {
    let mut sender = session(Direction::ClientToServer);
    let mut receiver = session(Direction::ClientToServer);

    // An attacker asserts a high counter with a bogus ciphertext.
    let forged = SealedMessage {
        counter: 5_000,
        ciphertext: vec![0; 32],
    };
    assert!(receiver.open(&forged, b"").is_err());

    // Genuine traffic must still be accepted: authentication is checked
    // before the filter is touched.
    let genuine = sender.seal(b"legitimate", b"").expect("seals");
    assert!(
        receiver.open(&genuine, b"").is_ok(),
        "a forgery must not be able to cause legitimate messages to drop"
    );
}

#[test]
fn each_message_uses_a_fresh_counter() {
    let mut sender = session(Direction::ClientToServer);

    let first = sender.seal(b"a", b"").expect("seals");
    let second = sender.seal(b"b", b"").expect("seals");

    assert_eq!(first.counter, 0);
    assert_eq!(second.counter, 1);
}

#[test]
fn rotation_installs_a_new_key_and_restarts_counters() {
    let mut sender = session(Direction::ClientToServer);
    let mut receiver = session(Direction::ClientToServer);

    for _ in 0..5 {
        let sealed = sender.seal(b"before", b"").expect("seals");
        receiver.open(&sealed, b"").expect("opens");
    }

    sender.rotate(b"new secret", b"salt-2").expect("rotates");
    receiver.rotate(b"new secret", b"salt-2").expect("rotates");

    let sealed = sender.seal(b"after", b"").expect("seals");
    assert_eq!(sealed.counter, 0, "the nonce sequence restarts");
    assert_eq!(receiver.open(&sealed, b"").expect("opens"), b"after");
}

#[test]
fn a_message_from_before_rotation_no_longer_opens() {
    let mut sender = session(Direction::ClientToServer);
    let mut receiver = session(Direction::ClientToServer);

    let old = sender.seal(b"old traffic", b"").expect("seals");
    receiver.rotate(b"new secret", b"salt-2").expect("rotates");

    assert!(
        receiver.open(&old, b"").is_err(),
        "rotation should retire the old key, not merely supplement it"
    );
}

#[test]
fn wire_length_accounts_for_the_counter() {
    let mut sender = session(Direction::ClientToServer);
    let sealed = sender.seal(b"payload", b"").expect("seals");

    assert_eq!(sealed.wire_len(), sealed.ciphertext.len() + 8);
    assert_eq!(sealed.ciphertext.len(), b"payload".len() + 16);
}


fn unhex(text: &str) -> Vec<u8> {
    (0..text.len() / 2)
        .map(|i| u8::from_str_radix(&text[2 * i..2 * i + 2], 16).expect("hex"))
        .collect()
}

#[test]
fn derived_keys_are_the_standard_ones() {
    let key = derive_key(b"secret", b"salt", Direction::ClientToServer).expect("derives");
    assert_eq!(
        key.as_bytes().to_vec(),
        unhex("17f35436ca2d63ed6411a620f11560826234365a90a0692b44516f42918bb3bd")
    );
    let key = derive_key(b"secret", b"salt", Direction::ServerToClient).expect("derives");
    assert_eq!(
        key.as_bytes().to_vec(),
        unhex("5fecff43d9afb2e7c5b144017d6c24cbbdf937d895673c64b54f3e7300853c95")
    );
}

#[test]
fn sealed_messages_are_the_standard_ones() {
    let nonce = Nonce::from_counter(1);
    for (cipher, expected) in [
        (
            Cipher::ChaCha20Poly1305,
            "9d47118ea305b614d839f4d7f3905e1b1a85eb55037c4c0a3af1625f34d7",
        ),
        (
            Cipher::Aes256Gcm,
            "a113bc4430770a0009b1a107462cae6e602dbdc0bb349466adb6a0cdc140",
        ),
    ] {
        let sealed = sealer(cipher).seal(nonce, b"attack at dawn", b"header").expect("seals");
        assert_eq!(sealed, unhex(expected), "{cipher:?}");
        assert_eq!(
            sealer(cipher).open(nonce, &sealed, b"header").expect("opens"),
            b"attack at dawn"
        );
    }
}

#[test]
fn nonces_hold_the_counter_in_network_order() {
    assert_eq!(
        Nonce::from_counter(0x0102_0304_0506_0708).as_bytes(),
        &[0, 0, 0, 0, 1, 2, 3, 4, 5, 6, 7, 8]
    );
}

#[test]
fn the_last_nonce_is_issued_once() {
    let mut sequence = NonceSequence::resume(MAX_MESSAGES_PER_KEY - 1);
    assert_eq!(
        sequence.next_nonce().expect("one left"),
        Nonce::from_counter(MAX_MESSAGES_PER_KEY - 1)
    );
    assert!(matches!(
        sequence.next_nonce(),
        Err(Error::NonceExhausted { messages: MAX_MESSAGES_PER_KEY })
    ));
}

#[test]
fn the_replay_window_is_measured_by_age() {
    let mut filter = ReplayFilter::new();
    filter.accept(100).expect("first");
    filter.accept(100 - REPLAY_WINDOW + 1).expect("the oldest that is still in the window");
    assert!(filter.accept(100 - REPLAY_WINDOW).is_err(), "one older is not");
    assert!(filter.accept(100).is_err(), "already seen");
    filter.accept(99).expect("a straggler");
    assert!(filter.accept(99).is_err(), "seen by now");
    assert_eq!(filter.highest(), 100);
    assert_eq!(filter.rejected(), 3);
}

#[test]
fn no_counter_is_accepted_twice_across_a_leap() {
    let mut filter = ReplayFilter::new();
    for counter in [0, 1, 2, 63, 64, 65, 127, 128, 5000] {
        filter.accept(counter).expect("new");
    }
    for counter in [0, 1, 2, 63, 64, 65, 127, 128, 5000] {
        assert!(matches!(filter.accept(counter), Err(Error::Replay { .. })), "{counter}");
    }
}

#[test]
fn a_forgery_leaves_a_session_as_it_was() {
    let mut receiver = session(Direction::ClientToServer);
    let forged = SealedMessage { counter: 7, ciphertext: vec![1; 40] };
    assert_eq!(receiver.open(&forged, b""), Err(Error::DecryptionFailed));
    assert_eq!(receiver.messages_opened(), 0);
    assert_eq!(receiver.replays_rejected(), 0);
}

#[test]
fn sessions_report_what_they_are() {
    let sender = session(Direction::ClientToServer);
    assert_eq!(sender.direction(), Direction::ClientToServer);
    assert_eq!(sender.cipher(), Cipher::default());
    assert!(!sender.should_rotate());
    assert_eq!(sender.direction().to_string(), "client-to-server");
    assert_eq!(Cipher::default().key_len(), KEY_LEN);
    assert_eq!(Cipher::default().tag_len(), TAG_LEN);
}

#[test]
fn encryption_errors_read_well() {
    assert_eq!(
        Error::DecryptionFailed.to_string(),
        "decryption failed: the message is not authentic"
    );
    assert_eq!(
        Error::InvalidKeyLength { expected: 32, actual: 5 }.to_string(),
        "expected a 32-byte key, got 5 bytes"
    );
    assert_eq!(
        Error::CiphertextTooShort { len: 4, tag_len: 16 }.to_string(),
        "ciphertext of 4 bytes is shorter than the 16-byte tag"
    );
    assert_eq!(
        Error::Replay { counter: 9 }.to_string(),
        "message 9 was rejected as a replay"
    );
    let too_large = Error::InputTooLarge { len: 7, associated_len: 3 };
    assert_eq!(
        too_large.to_string(),
        "the cipher does not take a message of 7 bytes with 3 bytes of associated data"
    );
    assert!(!too_large.indicates_tampering());
    assert!(!Error::NonceExhausted { messages: 1 }.indicates_tampering());
}

#[test]
fn a_failing_random_source_is_reported() {
    let error = Key::from_random(Err("no entropy".to_owned())).err().expect("failed");
    assert_eq!(error, Error::RandomSource { reason: "no entropy".to_owned() });
    assert_eq!(Key::from_random(Ok([4; KEY_LEN])).expect("made").as_bytes(), &[4; KEY_LEN]);
}

#[test]
fn a_copied_filter_remembers_on_its_own() {
    let mut filter = ReplayFilter::new();
    filter.accept(5).expect("first");
    let mut copy = filter.clone();
    assert!(copy.accept(5).is_err(), "seen before the copy was made");
    copy.accept(6).expect("new");
    filter.accept(6).expect("new to the other filter");
    assert_eq!(filter.rejected(), 0);
    assert_eq!(copy.rejected(), 1);
}
