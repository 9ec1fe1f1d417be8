//! Errors of the encryption layer.

use crate::text;
use vstd::prelude::*;

verus! {

/// The result of an encryption operation.
pub type Result<T> = std::result::Result<T, Error>;

/// Something went wrong protecting or unprotecting a message.
#[derive(Debug, Clone, PartialEq, Eq)]
#[non_exhaustive]
pub enum Error {
    /// Decryption failed.
    ///
    /// Deliberately carries no detail: telling a wrong tag from a wrong nonce
    /// would give an attacker an oracle. To a caller there is one fact worth
    /// knowing: this message is not authentic.
    DecryptionFailed,
    /// A key was not the expected length.
    InvalidKeyLength {
        /// The required length.
        expected: usize,
        /// The length supplied.
        actual: usize,
    },
    /// A nonce was not the expected length.
    InvalidNonceLength {
        /// The required length.
        expected: usize,
        /// The length supplied.
        actual: usize,
    },
    /// The ciphertext is too short to contain an authentication tag.
    CiphertextTooShort {
        /// The length received.
        len: usize,
        /// The tag length required.
        tag_len: usize,
    },
    /// The cipher does not take a message or associated data of this size.
    InputTooLarge {
        /// The length of the message.
        len: usize,
        /// The length of the associated data.
        associated_len: usize,
    },
    /// The key has protected as many messages as it safely can.
    NonceExhausted {
        /// How many messages this key protected.
        messages: u64,
    },
    /// A replayed or badly out-of-order message was rejected.
    Replay {
        /// The counter carried by the offending message.
        counter: u64,
    },
    /// The system random source failed.
    RandomSource {
        /// What the source reported.
        reason: String,
    },
    /// Key derivation failed.
    KeyDerivation {
        /// What went wrong.
        reason: String,
    },
}

impl Error {
    /// Returns `true` if the error indicates tampering rather than a mistake.
    ///
    /// Lets a caller tell an attack in progress, which usually warrants closing
    /// the connection, from a local misconfiguration.
    pub fn indicates_tampering(&self) -> (r: bool)
        ensures
            r == (*self is DecryptionFailed || *self is Replay),
    {
        match self {
            Error::DecryptionFailed => true,
            Error::Replay { .. } => true,
            _ => false,
        }
    }

    /// What the error says.
    pub open spec fn text(self) -> Seq<char> {
        match self {
            Error::DecryptionFailed => "decryption failed: the message is not authentic"@,
            Error::InvalidKeyLength { expected, actual } => "expected a "@ + text::decimal(
                expected as nat,
            ) + "-byte key, got "@ + text::decimal(actual as nat) + " bytes"@,
            Error::InvalidNonceLength { expected, actual } => "expected a "@ + text::decimal(
                expected as nat,
            ) + "-byte nonce, got "@ + text::decimal(actual as nat) + " bytes"@,
            Error::CiphertextTooShort { len, tag_len } => "ciphertext of "@ + text::decimal(
                len as nat,
            ) + " bytes is shorter than the "@ + text::decimal(tag_len as nat) + "-byte tag"@,
            Error::InputTooLarge { len, associated_len } => "the cipher does not take a message of "@
                + text::decimal(len as nat) + " bytes with "@ + text::decimal(associated_len as nat)
                + " bytes of associated data"@,
            Error::NonceExhausted { messages } => "nonce space exhausted after "@ + text::decimal(
                messages as nat,
            ) + " messages: rotate the key"@,
            Error::Replay { counter } => "message "@ + text::decimal(counter as nat)
                + " was rejected as a replay"@,
            Error::RandomSource { reason } => "the system random source failed: "@ + reason@,
            Error::KeyDerivation { reason } => "key derivation failed: "@ + reason@,
        }
    }

    /// Returns what the error says.
    pub fn to_string(&self) -> (s: String)
        ensures
            s@ == self.text(),
    {
        match self {
            Error::DecryptionFailed => {
                "decryption failed: the message is not authentic".to_owned()
            },
            Error::InvalidKeyLength { expected, actual } => {
                let mut s = "expected a ".to_owned();
                text::push_decimal(&mut s, *expected as u128);
                s.append("-byte key, got ");
                text::push_decimal(&mut s, *actual as u128);
                s.append(" bytes");
                s
            },
            Error::InvalidNonceLength { expected, actual } => {
                let mut s = "expected a ".to_owned();
                text::push_decimal(&mut s, *expected as u128);
                s.append("-byte nonce, got ");
                text::push_decimal(&mut s, *actual as u128);
                s.append(" bytes");
                s
            },
            Error::CiphertextTooShort { len, tag_len } => {
                let mut s = "ciphertext of ".to_owned();
                text::push_decimal(&mut s, *len as u128);
                s.append(" bytes is shorter than the ");
                text::push_decimal(&mut s, *tag_len as u128);
                s.append("-byte tag");
                s
            },
            Error::InputTooLarge { len, associated_len } => {
                let mut s = "the cipher does not take a message of ".to_owned();
                text::push_decimal(&mut s, *len as u128);
                s.append(" bytes with ");
                text::push_decimal(&mut s, *associated_len as u128);
                s.append(" bytes of associated data");
                s
            },
            Error::NonceExhausted { messages } => {
                let mut s = "nonce space exhausted after ".to_owned();
                text::push_decimal(&mut s, *messages as u128);
                s.append(" messages: rotate the key");
                s
            },
            Error::Replay { counter } => {
                let mut s = "message ".to_owned();
                text::push_decimal(&mut s, *counter as u128);
                s.append(" was rejected as a replay");
                s
            },
            Error::RandomSource { reason } => {
                let mut s = "the system random source failed: ".to_owned();
                s.append(reason.as_str());
                s
            },
            Error::KeyDerivation { reason } => {
                let mut s = "key derivation failed: ".to_owned();
                s.append(reason.as_str());
                s
            },
        }
    }
}

} // verus!
