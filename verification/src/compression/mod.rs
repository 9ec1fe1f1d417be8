//! Compression codecs and the policy that decides when to use them.
//!
//! * [`Algorithm`] and [`Level`]: which codec, and how hard it should try.
//! * [`compress`] and [`decompress`]: the codecs themselves, with a limit on
//!   what decompression may produce.
//! * [`Compressor`]: compresses a payload only where that is worth it.

pub mod adaptive;
pub mod algorithm;
pub mod codec;

pub use crate::compression::adaptive::{default_max_ratio, Compressor, Outcome, SkipReason};
pub use crate::compression::adaptive::{DEFAULT_MAX_OUTPUT, DEFAULT_MIN_SIZE};
pub use crate::compression::algorithm::{Algorithm, Error, Level, Result};
pub use crate::compression::codec::{compress, decompress};
