//! Errors of wire-format encoding and decoding.

use crate::protocol::frame::MAGIC;
use crate::protocol::version::ProtocolVersion;
use crate::text;
use vstd::prelude::*;

verus! {

/// The result of a protocol operation.
pub type Result<T> = std::result::Result<T, Error>;

/// An error produced while encoding or decoding the wire format.
///
/// Every variant carries the observed value, so that callers can report what
/// went wrong on the wire without parsing the buffer again.
#[derive(Debug, Clone, Copy, PartialEq, Eq)]
#[non_exhaustive]
#[allow(inconsistent_fields)]
pub enum Error {
    /// The frame did not begin with the protocol magic number.
    InvalidMagic {
        /// The magic number the protocol requires.
        expected: u16,
        /// The magic number actually present in the buffer.
        found: u16,
    },
    /// The peer advertised a protocol version this build cannot speak.
    UnsupportedVersion {
        /// The version received from the peer.
        found: ProtocolVersion,
        /// The version this build implements.
        supported: ProtocolVersion,
    },
    /// The frame-type byte did not correspond to a known frame type.
    UnknownFrameType {
        /// The unrecognized discriminant.
        value: u8,
    },
    /// The flags byte contained bits that are not defined.
    UnknownFlags {
        /// The full flags byte as received.
        bits: u8,
    },
    /// A reserved header field was non-zero.
    ReservedNotZero {
        /// The non-zero reserved value.
        value: u16,
    },
    /// The declared payload length exceeded the configured maximum.
    PayloadTooLarge {
        /// The length declared in the frame header.
        len: u32,
        /// The configured maximum payload length.
        max: u32,
    },
    /// A buffer was too small.
    BufferTooSmall {
        /// The number of bytes required.
        needed: usize,
        /// The number of bytes available.
        available: usize,
    },
    /// A payload was too large to be described by the 32-bit length field.
    PayloadLengthOverflow {
        /// The oversized payload length.
        len: usize,
    },
    /// Version negotiation found no version supported by both peers.
    NoCommonVersion,
}

impl Error {
    /// Builds an [`Error::InvalidMagic`] from the observed magic number.
    pub fn invalid_magic(found: u16) -> (e: Error)
        ensures
            e == (Error::InvalidMagic { expected: MAGIC, found }),
    {
        Error::InvalidMagic { expected: MAGIC, found }
    }

    /// What the error says.
    pub open spec fn text(self) -> Seq<char> {
        match self {
            Error::InvalidMagic { expected, found } => "invalid frame magic: expected 0x"@
                + text::padded(expected as nat, 16, 4) + ", found 0x"@ + text::padded(
                found as nat,
                16,
                4,
            ),
            Error::UnsupportedVersion { found, supported } => "unsupported protocol version "@
                + found.text() + ", this build speaks "@ + supported.text(),
            Error::UnknownFrameType { value } => "unknown frame type: 0x"@ + text::padded(
                value as nat,
                16,
                2,
            ),
            Error::UnknownFlags { bits } => "unknown frame flags set: 0b"@ + text::padded(
                bits as nat,
                2,
                8,
            ),
            Error::ReservedNotZero { value } => "reserved header field must be zero, found 0x"@
                + text::padded(value as nat, 16, 4),
            Error::PayloadTooLarge { len, max } => "payload length "@ + text::decimal(len as nat)
                + " exceeds maximum "@ + text::decimal(max as nat),
            Error::BufferTooSmall { needed, available } => "buffer too small: need "@
                + text::decimal(needed as nat) + " bytes, have "@ + text::decimal(available as nat),
            Error::PayloadLengthOverflow { len } => "payload of "@ + text::decimal(len as nat)
                + " bytes cannot be encoded in a 32-bit length field"@,
            Error::NoCommonVersion => "no mutually supported protocol version"@,
        }
    }

    /// Returns what the error says.
    pub fn to_string(&self) -> (s: String)
        ensures
            s@ == self.text(),
    {
        match *self {
            Error::InvalidMagic { expected, found } => {
                let mut s = "invalid frame magic: expected 0x".to_owned();
                text::push_padded(&mut s, expected as u128, 16, 4);
                s.append(", found 0x");
                text::push_padded(&mut s, found as u128, 16, 4);
                s
            },
            Error::UnsupportedVersion { found, supported } => {
                let mut s = "unsupported protocol version ".to_owned();
                s.append(found.to_string().as_str());
                s.append(", this build speaks ");
                s.append(supported.to_string().as_str());
                s
            },
            Error::UnknownFrameType { value } => {
                let mut s = "unknown frame type: 0x".to_owned();
                text::push_padded(&mut s, value as u128, 16, 2);
                s
            },
            Error::UnknownFlags { bits } => {
                let mut s = "unknown frame flags set: 0b".to_owned();
                text::push_padded(&mut s, bits as u128, 2, 8);
                s
            },
            Error::ReservedNotZero { value } => {
                let mut s = "reserved header field must be zero, found 0x".to_owned();
                text::push_padded(&mut s, value as u128, 16, 4);
                s
            },
            Error::PayloadTooLarge { len, max } => {
                let mut s = "payload length ".to_owned();
                text::push_decimal(&mut s, len as u128);
                s.append(" exceeds maximum ");
                text::push_decimal(&mut s, max as u128);
                s
            },
            Error::BufferTooSmall { needed, available } => {
                let mut s = "buffer too small: need ".to_owned();
                text::push_decimal(&mut s, needed as u128);
                s.append(" bytes, have ");
                text::push_decimal(&mut s, available as u128);
                s
            },
            Error::PayloadLengthOverflow { len } => {
                let mut s = "payload of ".to_owned();
                text::push_decimal(&mut s, len as u128);
                s.append(" bytes cannot be encoded in a 32-bit length field");
                s
            },
            Error::NoCommonVersion => "no mutually supported protocol version".to_owned(),
        }
    }
}

} // verus!
