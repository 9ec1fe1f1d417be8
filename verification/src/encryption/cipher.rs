//! Authenticated encryption.
//!
//! Both supported ciphers encrypt and authenticate in one pass, and they
//! authenticate *associated data* that travels in the clear. That is what stops
//! an attacker moving a valid ciphertext to a different stream or connection:
//! the header is bound to the payload even though it is not encrypted.

use crate::encryption::error::{Error, Result};
use crate::encryption::keys::{Key, Nonce, KEY_LEN, NONCE_LEN, TAG_LEN};
use chacha20poly1305::aead::{Aead, KeyInit, Payload};
use vstd::prelude::*;

verus! {

/// What ChaCha20-Poly1305 encryption makes of a message: key, nonce, message
/// and associated data.
pub uninterp spec fn chacha20_poly1305_sealed(
    key: Seq<u8>,
    nonce: Seq<u8>,
    message: Seq<u8>,
    associated_data: Seq<u8>,
) -> Seq<u8>;

/// What ChaCha20-Poly1305 decryption makes of a ciphertext, if it is authentic.
pub uninterp spec fn chacha20_poly1305_opened(
    key: Seq<u8>,
    nonce: Seq<u8>,
    ciphertext: Seq<u8>,
    associated_data: Seq<u8>,
) -> Option<Seq<u8>>;

/// What AES-256-GCM encryption makes of a message: key, nonce, message and
/// associated data.
pub uninterp spec fn aes_256_gcm_sealed(
    key: Seq<u8>,
    nonce: Seq<u8>,
    message: Seq<u8>,
    associated_data: Seq<u8>,
) -> Seq<u8>;

/// What AES-256-GCM decryption makes of a ciphertext, if it is authentic.
pub uninterp spec fn aes_256_gcm_opened(
    key: Seq<u8>,
    nonce: Seq<u8>,
    ciphertext: Seq<u8>,
    associated_data: Seq<u8>,
) -> Option<Seq<u8>>;

/// The longest message that ChaCha20-Poly1305 takes: the keystream has 2^32 - 1
/// blocks of 64 bytes, and the first makes the key of the tag.
pub const MAX_CHACHA_MESSAGE: u64 = 274_877_906_816;

/// `Aead::encrypt` of `chacha20poly1305::ChaCha20Poly1305`. A message that fits
/// the keystream is encrypted; one that runs past its end makes it panic. The
/// ciphertext is 16 bytes longer than the message, and decrypting it gives the
/// message back.
#[verifier::external_body]
fn chacha20_poly1305_encrypt(
    key: &[u8; KEY_LEN],
    nonce: &[u8; NONCE_LEN],
    message: &[u8],
    associated_data: &[u8],
) -> (r: Option<Vec<u8>>)
    requires
        message@.len() + TAG_LEN <= isize::MAX,
        message@.len() <= MAX_CHACHA_MESSAGE,
    ensures
        r is Some,
        r matches Some(c) ==> {
            &&& c@ == chacha20_poly1305_sealed(key@, nonce@, message@, associated_data@)
            &&& c@.len() == message@.len() + TAG_LEN
            &&& chacha20_poly1305_opened(key@, nonce@, c@, associated_data@) == Some(message@)
        },
{
    chacha20poly1305::ChaCha20Poly1305::new(key.into()).encrypt(
        nonce.into(),
        Payload { msg: message, aad: associated_data },
    ).ok()
}

/// `Aead::decrypt` of `chacha20poly1305::ChaCha20Poly1305`. What it delivers is
/// 16 bytes shorter than the ciphertext. A message that runs past the end of the
/// keystream makes it panic.
#[verifier::external_body]
fn chacha20_poly1305_decrypt(
    key: &[u8; KEY_LEN],
    nonce: &[u8; NONCE_LEN],
    ciphertext: &[u8],
    associated_data: &[u8],
) -> (r: Option<Vec<u8>>)
    requires
        ciphertext@.len() <= MAX_CHACHA_MESSAGE + TAG_LEN,
    ensures
        r is None ==> chacha20_poly1305_opened(key@, nonce@, ciphertext@, associated_data@) is None,
        r matches Some(m) ==> {
            &&& chacha20_poly1305_opened(key@, nonce@, ciphertext@, associated_data@) == Some(m@)
            &&& m@.len() + TAG_LEN == ciphertext@.len()
        },
{
    chacha20poly1305::ChaCha20Poly1305::new(key.into()).decrypt(
        nonce.into(),
        Payload { msg: ciphertext, aad: associated_data },
    ).ok()
}

/// `Aead::encrypt` of `aes_gcm::Aes256Gcm`. It refuses a message or associated
/// data of more than 2^36 bytes. The ciphertext is 16 bytes longer than the
/// message, and decrypting it gives the message back.
#[verifier::external_body]
fn aes_256_gcm_encrypt(
    key: &[u8; KEY_LEN],
    nonce: &[u8; NONCE_LEN],
    message: &[u8],
    associated_data: &[u8],
) -> (r: Option<Vec<u8>>)
    requires
        message@.len() + TAG_LEN <= isize::MAX,
    ensures
        (r is Some) == (message@.len() <= 68719476736 && associated_data@.len() <= 68719476736),
        r matches Some(c) ==> {
            &&& c@ == aes_256_gcm_sealed(key@, nonce@, message@, associated_data@)
            &&& c@.len() == message@.len() + TAG_LEN
            &&& aes_256_gcm_opened(key@, nonce@, c@, associated_data@) == Some(message@)
        },
{
    aes_gcm::Aes256Gcm::new(key.into()).encrypt(
        nonce.into(),
        Payload { msg: message, aad: associated_data },
    ).ok()
}

/// `Aead::decrypt` of `aes_gcm::Aes256Gcm`. What it delivers is 16 bytes shorter
/// than the ciphertext.
#[verifier::external_body]
fn aes_256_gcm_decrypt(
    key: &[u8; KEY_LEN],
    nonce: &[u8; NONCE_LEN],
    ciphertext: &[u8],
    associated_data: &[u8],
) -> (r: Option<Vec<u8>>)
    ensures
        r is None ==> aes_256_gcm_opened(key@, nonce@, ciphertext@, associated_data@) is None,
        r matches Some(m) ==> {
            &&& aes_256_gcm_opened(key@, nonce@, ciphertext@, associated_data@) == Some(m@)
            &&& m@.len() + TAG_LEN == ciphertext@.len()
        },
{
    aes_gcm::Aes256Gcm::new(key.into()).decrypt(
        nonce.into(),
        Payload { msg: ciphertext, aad: associated_data },
    ).ok()
}

/// Which authenticated cipher to use.
#[derive(Debug, Clone, Copy, PartialEq, Eq, Hash, Structural)]
#[non_exhaustive]
pub enum Cipher {
    /// `ChaCha20-Poly1305`, the default: fast and constant-time in software on
    /// any CPU.
    ChaCha20Poly1305,
    /// `AES-256-GCM`: faster where the CPU provides AES instructions, and often
    /// required for compliance reasons.
    Aes256Gcm,
}

impl Cipher {
    /// The wire discriminant.
    pub open spec fn code(self) -> u8 {
        match self {
            Cipher::ChaCha20Poly1305 => 0x01,
            Cipher::Aes256Gcm => 0x02,
        }
    }

    /// The cipher with a given wire discriminant, if there is one.
    pub open spec fn of_code(id: u8) -> Option<Cipher> {
        if id == 0x01 {
            Some(Cipher::ChaCha20Poly1305)
        } else if id == 0x02 {
            Some(Cipher::Aes256Gcm)
        } else {
            None
        }
    }

    /// Reading back a discriminant gives the cipher, and every discriminant
    /// that can be read belongs to the cipher it was read as.
    pub proof fn codes_round_trip(self, id: u8)
        ensures
            Cipher::of_code(self.code()) == Some(self),
            Cipher::of_code(id) == Some(self) ==> self.code() == id,
    {
    }

    /// Whether this cipher takes a message and associated data of these sizes.
    pub open spec fn accepts(self, message_len: nat, associated_len: nat) -> bool {
        match self {
            Cipher::ChaCha20Poly1305 => message_len <= MAX_CHACHA_MESSAGE,
            Cipher::Aes256Gcm => message_len <= 68719476736 && associated_len <= 68719476736,
        }
    }

    /// What this cipher's encryption makes of a message.
    pub open spec fn sealed(
        self,
        key: Seq<u8>,
        nonce: Seq<u8>,
        message: Seq<u8>,
        associated_data: Seq<u8>,
    ) -> Seq<u8> {
        match self {
            Cipher::ChaCha20Poly1305 => chacha20_poly1305_sealed(
                key,
                nonce,
                message,
                associated_data,
            ),
            Cipher::Aes256Gcm => aes_256_gcm_sealed(key, nonce, message, associated_data),
        }
    }

    /// What this cipher's decryption makes of a ciphertext, if it is authentic. A
    /// ciphertext that is longer than any the cipher makes is not.
    pub open spec fn opened(
        self,
        key: Seq<u8>,
        nonce: Seq<u8>,
        ciphertext: Seq<u8>,
        associated_data: Seq<u8>,
    ) -> Option<Seq<u8>> {
        match self {
            Cipher::ChaCha20Poly1305 => if ciphertext.len() <= MAX_CHACHA_MESSAGE + TAG_LEN {
                chacha20_poly1305_opened(key, nonce, ciphertext, associated_data)
            } else {
                None
            },
            Cipher::Aes256Gcm => aes_256_gcm_opened(key, nonce, ciphertext, associated_data),
        }
    }

    /// Every supported cipher.
    pub fn all() -> (all: [Cipher; 2])
        ensures
            all@ == seq![Cipher::ChaCha20Poly1305, Cipher::Aes256Gcm],
    {
        let all: [Cipher; 2] = [Cipher::ChaCha20Poly1305, Cipher::Aes256Gcm];
        assert(all@ =~= seq![Cipher::ChaCha20Poly1305, Cipher::Aes256Gcm]);
        all
    }

    /// Returns the wire discriminant.
    pub fn id(self) -> (id: u8)
        ensures
            id == self.code(),
    {
        match self {
            Cipher::ChaCha20Poly1305 => 0x01,
            Cipher::Aes256Gcm => 0x02,
        }
    }

    /// Returns the cipher for a wire discriminant.
    pub fn from_id(id: u8) -> (r: Option<Cipher>)
        ensures
            r == Cipher::of_code(id),
    {
        match id {
            0x01 => Some(Cipher::ChaCha20Poly1305),
            0x02 => Some(Cipher::Aes256Gcm),
            _ => None,
        }
    }

    /// Returns the key length in bytes.
    pub fn key_len(self) -> (n: usize)
        ensures
            n == KEY_LEN,
    {
        KEY_LEN
    }

    /// Returns the authentication tag length in bytes.
    pub fn tag_len(self) -> (n: usize)
        ensures
            n == TAG_LEN,
    {
        TAG_LEN
    }

    /// Returns how many bytes protecting a payload of `len` will produce.
    pub fn ciphertext_len(self, len: usize) -> (n: usize)
        requires
            len + TAG_LEN <= usize::MAX,
        ensures
            n == len + TAG_LEN,
    {
        len + TAG_LEN
    }

    /// The name of the cipher.
    pub open spec fn text(self) -> Seq<char> {
        match self {
            Cipher::ChaCha20Poly1305 => "ChaCha20-Poly1305"@,
            Cipher::Aes256Gcm => "AES-256-GCM"@,
        }
    }

    /// Returns the name of the cipher.
    pub fn to_string(&self) -> (s: String)
        ensures
            s@ == self.text(),
    {
        match self {
            Cipher::ChaCha20Poly1305 => "ChaCha20-Poly1305".to_owned(),
            Cipher::Aes256Gcm => "AES-256-GCM".to_owned(),
        }
    }
}

impl Default for Cipher {
    fn default() -> (c: Cipher)
        ensures
            c == Cipher::ChaCha20Poly1305,
    {
        Cipher::ChaCha20Poly1305
    }
}

/// Encrypts and decrypts with one key.
pub struct Sealer {
    cipher: Cipher,
    key: Key,
}

impl Sealer {
    /// The cipher in use.
    pub closed spec fn algorithm(&self) -> Cipher {
        self.cipher
    }

    /// The bytes of the key in use.
    pub closed spec fn key_bytes(&self) -> Seq<u8> {
        self.key@
    }

    /// Creates a sealer for `cipher` using `key`.
    pub fn new(cipher: Cipher, key: Key) -> (s: Sealer)
        ensures
            s.algorithm() == cipher,
            s.key_bytes() == key@,
    {
        Sealer { cipher, key }
    }

    /// Returns the cipher in use.
    pub fn cipher(&self) -> (c: Cipher)
        ensures
            c == self.algorithm(),
    {
        self.cipher
    }

    /// Encrypts `plaintext`, authenticating `associated_data`.
    ///
    /// The associated data is not encrypted but is covered by the tag, so it
    /// cannot be altered without detection. Pass the frame header here: it
    /// binds the ciphertext to its stream and position. Encryption fails only
    /// for an implausibly large input, which is an [`Error::InputTooLarge`].
    pub fn seal(&self, nonce: Nonce, plaintext: &[u8], associated_data: &[u8]) -> (r: Result<
        Vec<u8>,
    >)
        requires
            plaintext@.len() + TAG_LEN <= isize::MAX,
        ensures
            match r {
                Ok(c) => {
                    &&& self.algorithm().accepts(plaintext@.len(), associated_data@.len())
                    &&& c@ == self.algorithm().sealed(
                        self.key_bytes(),
                        nonce@,
                        plaintext@,
                        associated_data@,
                    )
                    &&& c@.len() == plaintext@.len() + TAG_LEN
                    &&& self.algorithm().opened(self.key_bytes(), nonce@, c@, associated_data@)
                        == Some(plaintext@)
                },
                Err(e) => {
                    &&& !self.algorithm().accepts(plaintext@.len(), associated_data@.len())
                    &&& e == (Error::InputTooLarge {
                        len: plaintext@.len() as usize,
                        associated_len: associated_data@.len() as usize,
                    })
                },
            },
    {
        let key = self.key.as_bytes();
        let sealed = match self.cipher {
            Cipher::ChaCha20Poly1305 => {
                if plaintext.len() as u64 <= MAX_CHACHA_MESSAGE {
                    chacha20_poly1305_encrypt(key, nonce.as_bytes(), plaintext, associated_data)
                } else {
                    None
                }
            },
            Cipher::Aes256Gcm => aes_256_gcm_encrypt(
                key,
                nonce.as_bytes(),
                plaintext,
                associated_data,
            ),
        };
        match sealed {
            Some(c) => Ok(c),
            None => Err(
                Error::InputTooLarge {
                    len: plaintext.len(),
                    associated_len: associated_data.len(),
                },
            ),
        }
    }

    /// Decrypts `ciphertext`, verifying `associated_data`.
    ///
    /// Every reason for which a message fails to authenticate (wrong key, wrong
    /// nonce, altered ciphertext, altered associated data) gives the same
    /// error: telling them apart would give an attacker an oracle.
    pub fn open(&self, nonce: Nonce, ciphertext: &[u8], associated_data: &[u8]) -> (r: Result<
        Vec<u8>,
    >)
        ensures
            r matches Ok(m) ==> m@.len() + TAG_LEN == ciphertext@.len(),
            open_outcome(
                r,
                ciphertext@,
                self.algorithm().opened(
                    self.key_bytes(),
                    nonce@,
                    ciphertext@,
                    associated_data@,
                ),
            ),
    {
        if ciphertext.len() < TAG_LEN {
            return Err(Error::CiphertextTooShort { len: ciphertext.len(), tag_len: TAG_LEN });
        }
        let key = self.key.as_bytes();
        let opened = match self.cipher {
            Cipher::ChaCha20Poly1305 => {
                if ciphertext.len() as u64 <= MAX_CHACHA_MESSAGE + TAG_LEN as u64 {
                    chacha20_poly1305_decrypt(key, nonce.as_bytes(), ciphertext, associated_data)
                } else {
                    None
                }
            },
            Cipher::Aes256Gcm => aes_256_gcm_decrypt(
                key,
                nonce.as_bytes(),
                ciphertext,
                associated_data,
            ),
        };
        opened_or_failed(opened)
    }

    /// A description that is fit for a log: it does not depend on the key.
    pub fn debug_string(&self) -> (s: String)
        ensures
            s@ == match self.algorithm() {
                Cipher::ChaCha20Poly1305 => "Sealer { cipher: ChaCha20Poly1305, .. }"@,
                Cipher::Aes256Gcm => "Sealer { cipher: Aes256Gcm, .. }"@,
            },
    {
        match self.cipher {
            Cipher::ChaCha20Poly1305 => "Sealer { cipher: ChaCha20Poly1305, .. }".to_owned(),
            Cipher::Aes256Gcm => "Sealer { cipher: Aes256Gcm, .. }".to_owned(),
        }
    }
}

/// What a caller gets when the cipher makes `opened` of `ciphertext`.
pub open spec fn open_outcome(
    r: Result<Vec<u8>>,
    ciphertext: Seq<u8>,
    opened: Option<Seq<u8>>,
) -> bool {
    if ciphertext.len() < TAG_LEN {
        r == Err::<Vec<u8>, Error>(
            Error::CiphertextTooShort { len: ciphertext.len() as usize, tag_len: TAG_LEN },
        )
    } else {
        match opened {
            Some(m) => r matches Ok(v) && v@ == m,
            None => r == Err::<Vec<u8>, Error>(Error::DecryptionFailed),
        }
    }
}

/// Reports what decryption delivered: the message, or that it is not authentic.
pub fn opened_or_failed(opened: Option<Vec<u8>>) -> (r: Result<Vec<u8>>)
    ensures
        match opened {
            Some(m) => r == Ok::<Vec<u8>, Error>(m),
            None => r == Err::<Vec<u8>, Error>(Error::DecryptionFailed),
        },
{
    match opened {
        Some(m) => Ok(m),
        None => Err(Error::DecryptionFailed),
    }
}

/// The codes that travel are these two, and no other code names a cipher.
pub proof fn codes_are_stable(id: u8)
    ensures
        Cipher::ChaCha20Poly1305.code() == 1,
        Cipher::Aes256Gcm.code() == 2,
        Cipher::of_code(id) is None <==> id == 0 || id > 2,
{
}

/// Each cipher seals and opens by itself, under the key and the nonce it is given,
/// and whatever it takes it also opens.
pub proof fn ciphers_keep_to_themselves(
    key: Seq<u8>,
    nonce: Seq<u8>,
    text: Seq<u8>,
    associated_data: Seq<u8>,
)
    ensures
        Cipher::ChaCha20Poly1305.sealed(key, nonce, text, associated_data)
            == chacha20_poly1305_sealed(key, nonce, text, associated_data),
        Cipher::Aes256Gcm.sealed(key, nonce, text, associated_data) == aes_256_gcm_sealed(
            key,
            nonce,
            text,
            associated_data,
        ),
        Cipher::Aes256Gcm.opened(key, nonce, text, associated_data) == aes_256_gcm_opened(
            key,
            nonce,
            text,
            associated_data,
        ),
        text.len() >= 16 && Cipher::ChaCha20Poly1305.accepts((text.len() - 16) as nat, 0)
            ==> Cipher::ChaCha20Poly1305.opened(key, nonce, text, associated_data)
            == chacha20_poly1305_opened(key, nonce, text, associated_data),
        text.len() >= 16 && !Cipher::ChaCha20Poly1305.accepts((text.len() - 16) as nat, 0)
            ==> Cipher::ChaCha20Poly1305.opened(key, nonce, text, associated_data) is None,
{
}

/// What comes of a ciphertext: one shorter than the sixteen bytes of a tag is refused
/// as that, whatever the cipher says; any other gives the message if it is authentic,
/// and otherwise always the same error.
pub proof fn failures_do_not_tell_why(r: Result<Vec<u8>>, ciphertext: Seq<u8>, opened: Option<
    Seq<u8>,
>)
    requires
        open_outcome(r, ciphertext, opened),
    ensures
        r is Ok <==> ciphertext.len() >= 16 && opened is Some,
        r matches Ok(m) ==> Some(m@) == opened,
        r == Err::<Vec<u8>, Error>(Error::DecryptionFailed) <==> ciphertext.len() >= 16
            && opened is None,
        ciphertext.len() < 16 ==> r == Err::<Vec<u8>, Error>(
            Error::CiphertextTooShort { len: ciphertext.len() as usize, tag_len: 16 },
        ),
{
}

/// How much a cipher takes: ChaCha20 as many bytes as 2^32 - 1 blocks of 64 hold but
/// for the first, with any associated data, and AES up to 64 GiB of either.
pub proof fn ciphers_take_so_much(message_len: nat, associated_len: nat)
    ensures
        Cipher::ChaCha20Poly1305.accepts(message_len, associated_len) <==> message_len
            <= 274_877_906_816,
        Cipher::Aes256Gcm.accepts(message_len, associated_len) <==> message_len <= 64 * 1024 * 1024
            * 1024 && associated_len <= 64 * 1024 * 1024 * 1024,
{
}

} // verus!
