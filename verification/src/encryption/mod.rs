//! Message protection: authenticated encryption, key derivation, nonce
//! sequencing, replay rejection and key rotation.

pub mod cipher;
pub mod error;
pub mod keys;
pub mod session;

pub use crate::encryption::cipher::{Cipher, Sealer};
pub use crate::encryption::error::{Error, Result};
pub use crate::encryption::keys::{Direction, Key, Nonce, NonceSequence};
pub use crate::encryption::keys::{KEY_LEN, MAX_MESSAGES_PER_KEY, NONCE_LEN, TAG_LEN};
pub use crate::encryption::session::REPLAY_WINDOW;
pub use crate::encryption::session::{derive_key, ReplayFilter, SealedMessage, SessionCrypto};
