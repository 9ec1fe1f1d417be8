//! The wire format: frame layout, framing, and version negotiation.
//!
//! The protocol is transport-agnostic. It turns frames into bytes and bytes
//! back into frames; it does not open sockets, compress, or encrypt.
//!
//! * [`Frame`] and [`FrameHeader`]: the fixed 16-byte header and its payload.
//! * [`Encoder`] and [`Decoder`]: incremental codecs for byte streams, where
//!   frames may be split across reads or batched into one.
//! * [`ProtocolVersion`] and [`negotiate`]: capability agreement at handshake.
//!
//! Decoding is defensive. Unknown frame types and undefined flag bits are
//! rejected rather than ignored, reserved header bits must be zero, and payload
//! lengths are checked against a limit before any payload memory is committed.

pub mod codec;
pub mod error;
pub mod frame;
pub mod version;

pub use crate::protocol::codec::{is_fatal, Decoder, Encoder};
pub use crate::protocol::error::{Error, Result};
pub use crate::protocol::frame::{Frame, FrameFlags, FrameHeader, FrameType};
pub use crate::protocol::frame::{DEFAULT_MAX_PAYLOAD_LEN, HEADER_LEN, MAGIC};
pub use crate::protocol::version::{negotiate, protocol_version, supported_versions, ProtocolVersion};
