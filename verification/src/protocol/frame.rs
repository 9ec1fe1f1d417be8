//! Frame types, header layout, and frame encoding.
//!
//! # Wire layout
//!
//! Every frame begins with a fixed 16-byte header in network byte order
//! (big-endian), followed by `payload_len` bytes of payload:
//!
//! ```text
//!  0       1       2       3       4       5       6       7
//! +-------+-------+-------+-------+-------+-------+-------+-------+
//! |     magic     | major | minor |  type | flags |   reserved    |
//! +-------+-------+-------+-------+-------+-------+-------+-------+
//! |           stream_id           |          payload_len          |
//! +-------+-------+-------+-------+-------+-------+-------+-------+
//! |                          payload ...                          |
//! +---------------------------------------------------------------+
//! ```
//!
//! The header is fixed-width: a reader always knows exactly how many bytes it
//! needs before it can learn the payload length.

use crate::buffers;
use crate::protocol::error::{Error, Result};
use crate::protocol::version;
use crate::protocol::version::ProtocolVersion;
use bytes::{Bytes, BytesMut};
use vstd::prelude::*;

verus! {

/// The magic number beginning every frame: ASCII `"NX"`.
pub const MAGIC: u16 = 0x4E58;

/// The default maximum payload length: 16 MiB.
pub const DEFAULT_MAX_PAYLOAD_LEN: u32 = 16 * 1024 * 1024;

/// The size in bytes of an encoded [`FrameHeader`].
pub const HEADER_LEN: usize = 16;

/// The kind of a frame, carried in the header's `type` byte.
#[derive(Debug, Clone, Copy, PartialEq, Eq, Hash, Structural)]
#[non_exhaustive]
pub enum FrameType {
    /// Application payload belonging to a stream.
    Data,
    /// Connection or stream control metadata.
    Control,
    /// Liveness probe; the peer replies with [`FrameType::Pong`].
    Ping,
    /// Reply to a [`FrameType::Ping`].
    Pong,
    /// Opens a connection and carries version negotiation.
    Handshake,
    /// Signals orderly shutdown of a stream or connection.
    Close,
}

impl FrameType {
    /// The on-the-wire discriminant.
    pub open spec fn code(self) -> u8 {
        match self {
            FrameType::Data => 0x01,
            FrameType::Control => 0x02,
            FrameType::Ping => 0x03,
            FrameType::Pong => 0x04,
            FrameType::Handshake => 0x05,
            FrameType::Close => 0x06,
        }
    }

    /// The frame type with a given discriminant, if there is one.
    pub open spec fn of_code(value: u8) -> Option<FrameType> {
        if value == 0x01 {
            Some(FrameType::Data)
        } else if value == 0x02 {
            Some(FrameType::Control)
        } else if value == 0x03 {
            Some(FrameType::Ping)
        } else if value == 0x04 {
            Some(FrameType::Pong)
        } else if value == 0x05 {
            Some(FrameType::Handshake)
        } else if value == 0x06 {
            Some(FrameType::Close)
        } else {
            None
        }
    }

    /// Reading back a discriminant gives the frame type, and every discriminant
    /// that can be read belongs to the type it was read as.
    pub proof fn codes_round_trip(self, value: u8)
        ensures
            FrameType::of_code(self.code()) == Some(self),
            FrameType::of_code(value) == Some(self) ==> self.code() == value,
    {
    }

    /// Returns the on-the-wire discriminant.
    pub fn as_u8(self) -> (value: u8)
        ensures
            value == self.code(),
    {
        match self {
            FrameType::Data => 0x01,
            FrameType::Control => 0x02,
            FrameType::Ping => 0x03,
            FrameType::Pong => 0x04,
            FrameType::Handshake => 0x05,
            FrameType::Close => 0x06,
        }
    }

    /// Parses a frame type from its wire discriminant.
    pub fn from_u8(value: u8) -> (r: Result<FrameType>)
        ensures
            r == match FrameType::of_code(value) {
                Some(t) => Ok(t),
                None => Err(Error::UnknownFrameType { value }),
            },
    {
        match value {
            0x01 => Ok(FrameType::Data),
            0x02 => Ok(FrameType::Control),
            0x03 => Ok(FrameType::Ping),
            0x04 => Ok(FrameType::Pong),
            0x05 => Ok(FrameType::Handshake),
            0x06 => Ok(FrameType::Close),
            other => Err(Error::UnknownFrameType { value: other }),
        }
    }
}

/// Bit flags describing how a payload has been transformed.
///
/// Flags describe the payload as it appears on the wire. A receiver applies the
/// inverse transformations in the reverse of the order given here: decrypt,
/// and only after that decompress.
#[derive(Debug, Clone, Copy, PartialEq, Eq, Hash, Structural)]
pub struct FrameFlags {
    bits: u8,
}

/// Every flag bit that is defined; any other bit is rejected on decode.
pub const DEFINED_FLAGS: u8 = 0x07;

impl FrameFlags {
    /// The raw bits.
    pub closed spec fn raw(self) -> u8 {
        self.bits
    }

    /// The flag set with the given raw bits.
    pub closed spec fn of_bits(bits: u8) -> FrameFlags {
        FrameFlags { bits }
    }

    /// Only defined bits are ever set.
    #[verifier::type_invariant]
    pub closed spec fn defined(self) -> bool {
        self.bits <= DEFINED_FLAGS
    }

    /// A flag set is its bits, and it is valid exactly when no undefined bit is
    /// set.
    pub proof fn bits_are_flags(self, bits: u8)
        ensures
            FrameFlags::of_bits(self.raw()) == self,
            FrameFlags::of_bits(bits).raw() == bits,
            FrameFlags::of_bits(bits).defined() == (bits <= DEFINED_FLAGS),
            self.defined() == (self.raw() <= DEFINED_FLAGS),
    {
    }

    /// No flags set.
    pub fn none() -> (f: FrameFlags)
        ensures
            f.raw() == 0,
            f.defined(),
    {
        FrameFlags { bits: 0x00 }
    }

    /// The payload is compressed.
    pub fn compressed() -> (f: FrameFlags)
        ensures
            f.raw() == 1,
            f.defined(),
    {
        FrameFlags { bits: 0x01 }
    }

    /// The payload is encrypted.
    pub fn encrypted() -> (f: FrameFlags)
        ensures
            f.raw() == 2,
            f.defined(),
    {
        FrameFlags { bits: 0x02 }
    }

    /// This is the final frame of its stream.
    pub fn end_of_stream() -> (f: FrameFlags)
        ensures
            f.raw() == 4,
            f.defined(),
    {
        FrameFlags { bits: 0x04 }
    }

    /// Returns the raw bits.
    pub fn bits(self) -> (bits: u8)
        ensures
            bits == self.raw(),
            bits <= DEFINED_FLAGS,
    {
        proof {
            use_type_invariant(&self);
        }
        self.bits
    }

    /// Parses flags from a raw byte. Undefined bits are rejected, so that a
    /// later flag is never silently ignored by a peer that does not know it.
    pub fn from_bits(bits: u8) -> (r: Result<FrameFlags>)
        ensures
            r == if bits <= DEFINED_FLAGS {
                Ok(FrameFlags::of_bits(bits))
            } else {
                Err(Error::UnknownFlags { bits })
            },
    {
        assert((bits & !7u8 == 0) == (bits <= 7)) by (bit_vector);
        if bits & !DEFINED_FLAGS == 0 {
            Ok(FrameFlags { bits })
        } else {
            Err(Error::UnknownFlags { bits })
        }
    }

    /// Returns `true` if every flag in `other` is set in `self`.
    pub fn contains(self, other: FrameFlags) -> (r: bool)
        ensures
            r == (self.raw() & other.raw() == other.raw()),
    {
        self.bits & other.bits == other.bits
    }

    /// Returns the union of two flag sets.
    pub fn union(self, other: FrameFlags) -> (f: FrameFlags)
        ensures
            f.raw() == self.raw() | other.raw(),
            f.defined(),
    {
        proof {
            use_type_invariant(&self);
            use_type_invariant(&other);
        }
        let a: u8 = self.bits;
        let b: u8 = other.bits;
        assert(a <= 7 && b <= 7 ==> a | b <= 7) by (bit_vector);
        FrameFlags { bits: a | b }
    }

    /// Returns `true` when no flags are set.
    pub fn is_empty(self) -> (r: bool)
        ensures
            r == (self.raw() == 0),
    {
        self.bits == 0
    }

    /// A union contains both of its parts and nothing that is in neither,
    /// whichever part comes first.
    pub proof fn union_contains_exactly_its_parts(
        self,
        other: FrameFlags,
        union: FrameFlags,
        single: FrameFlags,
    )
        requires
            union.raw() == self.raw() | other.raw(),
            single.raw() == 1 || single.raw() == 2 || single.raw() == 4,
        ensures
            union.raw() == other.raw() | self.raw(),
            union.raw() & self.raw() == self.raw(),
            union.raw() & other.raw() == other.raw(),
            (union.raw() & single.raw() == single.raw()) == (self.raw() & single.raw()
                == single.raw() || other.raw() & single.raw() == single.raw()),
    {
        let (a, b, s) = (self.raw(), other.raw(), single.raw());
        assert(a | b == b | a) by (bit_vector);
        assert((a | b) & a == a) by (bit_vector);
        assert((a | b) & b == b) by (bit_vector);
        assert((s == 1u8 || s == 2u8 || s == 4u8) ==> ((a | b) & s == s) == (a & s == s || b & s
            == s)) by (bit_vector);
    }
}

impl Default for FrameFlags {
    fn default() -> (f: FrameFlags)
        ensures
            f.raw() == 0,
    {
        FrameFlags::none()
    }
}

impl std::ops::BitOr for FrameFlags {
    type Output = FrameFlags;

    fn bitor(self, rhs: FrameFlags) -> FrameFlags {
        self.union(rhs)
    }
}

impl vstd::std_specs::ops::BitOrSpecImpl for FrameFlags {
    open spec fn obeys_bitor_spec() -> bool {
        true
    }

    open spec fn bitor_req(self, rhs: FrameFlags) -> bool {
        true
    }

    open spec fn bitor_spec(self, rhs: FrameFlags) -> FrameFlags {
        FrameFlags::of_bits(self.raw() | rhs.raw())
    }
}

/// The fixed-size header that prefixes every frame.
#[derive(Debug, Clone, Copy, PartialEq, Eq)]
pub struct FrameHeader {
    /// The protocol version this frame was produced by.
    pub version: ProtocolVersion,
    /// The kind of frame.
    pub frame_type: FrameType,
    /// Payload transformation flags.
    pub flags: FrameFlags,
    /// The stream this frame belongs to; `0` denotes connection scope.
    pub stream_id: u32,
    /// The number of payload bytes following the header.
    pub payload_len: u32,
}

/// The sixteen bytes of a header on the wire.
pub open spec fn header_bytes(h: FrameHeader) -> Seq<u8> {
    buffers::be16(MAGIC) + seq![
        h.version.major,
        h.version.minor,
        h.frame_type.code(),
        h.flags.raw(),
    ] + buffers::be16(0) + buffers::be32(h.stream_id) + buffers::be32(h.payload_len)
}

/// What the front of `src` says when read as a header, under a limit on the
/// declared payload length. The first violation, from the left, is reported.
pub open spec fn decoded_header(src: Seq<u8>, max_payload_len: u32) -> Result<FrameHeader> {
    let magic = buffers::from_be16(src[0], src[1]);
    let reserved = buffers::from_be16(src[6], src[7]);
    let payload_len = buffers::from_be32(src[12], src[13], src[14], src[15]);
    if src.len() < HEADER_LEN {
        Err(Error::BufferTooSmall { needed: HEADER_LEN, available: src.len() as usize })
    } else if magic != MAGIC {
        Err(Error::InvalidMagic { expected: MAGIC, found: magic })
    } else if FrameType::of_code(src[4]) is None {
        Err(Error::UnknownFrameType { value: src[4] })
    } else if src[5] > DEFINED_FLAGS {
        Err(Error::UnknownFlags { bits: src[5] })
    } else if reserved != 0 {
        Err(Error::ReservedNotZero { value: reserved })
    } else if payload_len > max_payload_len {
        Err(Error::PayloadTooLarge { len: payload_len, max: max_payload_len })
    } else {
        Ok(
            FrameHeader {
                version: ProtocolVersion { major: src[2], minor: src[3] },
                frame_type: FrameType::of_code(src[4])->0,
                flags: FrameFlags::of_bits(src[5]),
                stream_id: buffers::from_be32(src[8], src[9], src[10], src[11]),
                payload_len,
            },
        )
    }
}

impl FrameHeader {
    /// Creates a header for the current protocol version with no flags.
    pub fn new(frame_type: FrameType, stream_id: u32, payload_len: u32) -> (h: FrameHeader)
        ensures
            h == (FrameHeader {
                version: version::current_version(),
                frame_type,
                flags: FrameFlags::of_bits(0),
                stream_id,
                payload_len,
            }),
            h.flags.defined(),
    {
        FrameHeader {
            version: version::protocol_version(),
            frame_type,
            flags: FrameFlags::none(),
            stream_id,
            payload_len,
        }
    }

    /// Returns a copy with `flags` applied.
    pub fn with_flags(self, flags: FrameFlags) -> (h: FrameHeader)
        ensures
            h == (FrameHeader { flags, ..self }),
    {
        FrameHeader { flags, ..self }
    }

    /// Writes the header to `dst`, appending exactly [`HEADER_LEN`] bytes.
    pub fn encode_into(&self, dst: &mut BytesMut)
        requires
            buffers::growing(*old(dst)).len() + HEADER_LEN <= isize::MAX,
        ensures
            buffers::growing(*final(dst)) == buffers::growing(*old(dst)) + header_bytes(*self),
            header_bytes(*self).len() == HEADER_LEN,
    {
        let ghost before = buffers::growing(*dst);
        buffers::put_u16(dst, MAGIC);
        buffers::put_u8(dst, self.version.major);
        buffers::put_u8(dst, self.version.minor);
        buffers::put_u8(dst, self.frame_type.as_u8());
        buffers::put_u8(dst, self.flags.bits());
        buffers::put_u16(dst, 0);
        buffers::put_u32(dst, self.stream_id);
        buffers::put_u32(dst, self.payload_len);
        assert(buffers::growing(*dst) =~= before + header_bytes(*self));
    }

    /// Decodes a header from exactly the first [`HEADER_LEN`] bytes of `src`.
    ///
    /// `src` is not consumed. `max_payload_len` bounds the declared payload
    /// length, so that a hostile peer cannot induce a large allocation.
    pub fn decode(src: &[u8], max_payload_len: u32) -> (r: Result<FrameHeader>)
        ensures
            r == decoded_header(src@, max_payload_len),
            r matches Ok(h) ==> h.flags.defined() && h.payload_len <= max_payload_len,
    {
        if src.len() < HEADER_LEN {
            return Err(Error::BufferTooSmall { needed: HEADER_LEN, available: src.len() });
        }
        let mut cursor = vstd::slice::slice_subrange(src, 0, HEADER_LEN);
        let magic: u16 = buffers::get_u16(&mut cursor);
        if magic != MAGIC {
            return Err(Error::invalid_magic(magic));
        }
        let major: u8 = buffers::get_u8(&mut cursor);
        let minor: u8 = buffers::get_u8(&mut cursor);
        let version = ProtocolVersion::new(major, minor);
        let code: u8 = buffers::get_u8(&mut cursor);
        let frame_type = match FrameType::from_u8(code) {
            Ok(t) => t,
            Err(e) => {
                return Err(e);
            },
        };
        let bits: u8 = buffers::get_u8(&mut cursor);
        let flags = match FrameFlags::from_bits(bits) {
            Ok(f) => f,
            Err(e) => {
                return Err(e);
            },
        };
        let reserved: u16 = buffers::get_u16(&mut cursor);
        if reserved != 0 {
            return Err(Error::ReservedNotZero { value: reserved });
        }
        let stream_id: u32 = buffers::get_u32(&mut cursor);
        let payload_len: u32 = buffers::get_u32(&mut cursor);
        if payload_len > max_payload_len {
            return Err(Error::PayloadTooLarge { len: payload_len, max: max_payload_len });
        }
        Ok(FrameHeader { version, frame_type, flags, stream_id, payload_len })
    }
}

/// Only the first sixteen bytes decide what a header says.
pub proof fn header_is_read_from_its_own_bytes(src: Seq<u8>, more: Seq<u8>, max_payload_len: u32)
    requires
        src.len() >= HEADER_LEN,
    ensures
        decoded_header(src + more, max_payload_len) == decoded_header(src, max_payload_len),
{
    assert(forall|i: int| 0 <= i < 16 ==> (src + more)[i] == src[i]);
}

/// A header reads back from its own bytes, whatever follows them, unless it
/// declares a payload beyond the limit.
pub proof fn header_round_trip(h: FrameHeader, more: Seq<u8>, max_payload_len: u32)
    requires
        h.flags.defined(),
    ensures
        header_bytes(h).len() == HEADER_LEN,
        decoded_header(header_bytes(h) + more, max_payload_len) == if h.payload_len
            <= max_payload_len {
            Ok::<FrameHeader, Error>(h)
        } else {
            Err(Error::PayloadTooLarge { len: h.payload_len, max: max_payload_len })
        },
{
    let b = header_bytes(h) + more;
    h.flags.bits_are_flags(h.flags.raw());
    h.frame_type.codes_round_trip(0);
    buffers::be16_round_trip(MAGIC);
    buffers::be16_round_trip(0);
    buffers::be32_round_trip(h.stream_id);
    buffers::be32_round_trip(h.payload_len);
    assert(b[0] == buffers::be16(MAGIC)[0] && b[1] == buffers::be16(MAGIC)[1]);
    assert(b[2] == h.version.major && b[3] == h.version.minor);
    assert(b[4] == h.frame_type.code() && b[5] == h.flags.raw());
    assert(b[6] == buffers::be16(0)[0] && b[7] == buffers::be16(0)[1]);
    assert(forall|i: int| 0 <= i < 4 ==> b[8 + i] == #[trigger] buffers::be32(h.stream_id)[i]);
    assert(forall|i: int| 0 <= i < 4 ==> b[12 + i] == #[trigger] buffers::be32(h.payload_len)[i]);
}

/// A complete frame: a [`FrameHeader`] and its payload.
#[derive(Debug, PartialEq, Eq)]
pub struct Frame {
    header: FrameHeader,
    payload: Bytes,
}

/// What a frame says: its header and the bytes of its payload.
pub struct FrameContent {
    /// The header.
    pub header: FrameHeader,
    /// The bytes of the payload.
    pub payload: Seq<u8>,
}

impl FrameContent {
    /// The header describes this very payload, and no undefined flag is set.
    pub open spec fn wf(self) -> bool {
        self.header.payload_len == self.payload.len() && self.header.flags.defined()
    }

    /// The bytes of the frame on the wire.
    pub open spec fn bytes(self) -> Seq<u8> {
        header_bytes(self.header) + self.payload
    }
}

/// The number of bytes from the start of a frame to its end.
pub open spec fn frame_len(h: FrameHeader) -> nat {
    HEADER_LEN as nat + h.payload_len as nat
}

/// `n` as a size in memory, or the largest such size.
pub open spec fn as_size(n: nat) -> usize {
    if n <= usize::MAX {
        n as usize
    } else {
        usize::MAX
    }
}

/// What the front of `src` says when read as a frame: the frame and the number
/// of bytes it takes.
pub open spec fn decoded_frame(src: Seq<u8>, max_payload_len: u32) -> Result<(FrameContent, nat)> {
    match decoded_header(src, max_payload_len) {
        Err(e) => Err(e),
        Ok(header) => {
            if src.len() < frame_len(header) {
                Err(
                    Error::BufferTooSmall {
                        needed: as_size(frame_len(header)),
                        available: src.len() as usize,
                    },
                )
            } else {
                Ok(
                    (
                        FrameContent {
                            header,
                            payload: src.subrange(HEADER_LEN as int, frame_len(header) as int),
                        },
                        frame_len(header),
                    ),
                )
            }
        },
    }
}

impl View for Frame {
    type V = FrameContent;

    closed spec fn view(&self) -> FrameContent {
        FrameContent { header: self.header, payload: buffers::shared(self.payload) }
    }
}

impl Clone for Frame {
    fn clone(&self) -> (f: Frame)
        ensures
            f@ == self@,
    {
        proof {
            use_type_invariant(self);
        }
        Frame { header: self.header, payload: self.payload.clone() }
    }
}

impl Frame {
    /// A frame's header always describes its payload.
    #[verifier::type_invariant]
    spec fn consistent(self) -> bool {
        self@.wf()
    }

    /// Builds a frame from a type, stream, and payload. It fails only for a
    /// payload whose length does not fit in 32 bits.
    pub fn new(frame_type: FrameType, stream_id: u32, payload: Bytes) -> (r: Result<Frame>)
        ensures
            match r {
                Ok(f) => f@.wf() && f@ == (FrameContent {
                    header: FrameHeader {
                        version: version::current_version(),
                        frame_type,
                        flags: FrameFlags::of_bits(0),
                        stream_id,
                        payload_len: buffers::shared(payload).len() as u32,
                    },
                    payload: buffers::shared(payload),
                }) && buffers::shared(payload).len() <= u32::MAX,
                Err(e) => buffers::shared(payload).len() > u32::MAX && e
                    == (Error::PayloadLengthOverflow {
                    len: buffers::shared(payload).len() as usize,
                }),
            },
    {
        let len: usize = buffers::shared_len(&payload);
        if len as u64 > u32::MAX as u64 {
            return Err(Error::PayloadLengthOverflow { len });
        }
        Ok(Frame { header: FrameHeader::new(frame_type, stream_id, len as u32), payload })
    }

    /// Builds a frame from an already-constructed header and payload.
    ///
    /// The header's `payload_len` is corrected to match `payload`, so the two
    /// can never disagree.
    pub fn from_parts(header: FrameHeader, payload: Bytes) -> (r: Result<Frame>)
        ensures
            match r {
                Ok(f) => f@.wf() && f@ == (FrameContent {
                    header: FrameHeader {
                        payload_len: buffers::shared(payload).len() as u32,
                        ..header
                    },
                    payload: buffers::shared(payload),
                }) && buffers::shared(payload).len() <= u32::MAX,
                Err(e) => buffers::shared(payload).len() > u32::MAX && e
                    == (Error::PayloadLengthOverflow {
                    len: buffers::shared(payload).len() as usize,
                }),
            },
    {
        let len: usize = buffers::shared_len(&payload);
        if len as u64 > u32::MAX as u64 {
            return Err(Error::PayloadLengthOverflow { len });
        }
        let flags = header.flags;
        proof {
            use_type_invariant(&flags);
        }
        Ok(Frame { header: FrameHeader { payload_len: len as u32, ..header }, payload })
    }

    /// Returns the frame header.
    pub fn header(&self) -> (h: &FrameHeader)
        ensures
            *h == self@.header,
    {
        &self.header
    }

    /// Returns the payload bytes.
    pub fn payload(&self) -> (p: &Bytes)
        ensures
            buffers::shared(*p) == self@.payload,
    {
        &self.payload
    }

    /// Consumes the frame, returning its payload.
    pub fn into_payload(self) -> (p: Bytes)
        ensures
            buffers::shared(p) == self@.payload,
    {
        self.payload
    }

    /// Applies `flags` to this frame's header.
    pub fn with_flags(self, flags: FrameFlags) -> (f: Frame)
        ensures
            f@ == (FrameContent {
                header: FrameHeader { flags, ..self@.header },
                payload: self@.payload,
            }),
            f@.wf(),
    {
        proof {
            use_type_invariant(&self);
            use_type_invariant(&flags);
        }
        Frame { header: self.header.with_flags(flags), payload: self.payload }
    }

    /// Returns the total encoded size: header plus payload.
    pub fn encoded_len(&self) -> (n: usize)
        ensures
            n == frame_len(self@.header),
            n == self@.bytes().len(),
    {
        proof {
            use_type_invariant(self);
        }
        HEADER_LEN + buffers::shared_len(&self.payload)
    }

    /// Appends the encoded frame to `dst`.
    pub fn encode_into(&self, dst: &mut BytesMut)
        requires
            buffers::growing(*old(dst)).len() + self@.bytes().len() <= isize::MAX,
        ensures
            buffers::growing(*final(dst)) == buffers::growing(*old(dst)) + self@.bytes(),
    {
        let ghost before = buffers::growing(*dst);
        self.header.encode_into(dst);
        buffers::put_slice(dst, buffers::shared_slice(&self.payload));
        assert(buffers::growing(*dst) =~= before + self@.bytes());
    }

    /// Encodes the frame into a freshly allocated buffer.
    pub fn encode(&self) -> (b: Bytes)
        requires
            self@.bytes().len() <= isize::MAX,
        ensures
            buffers::shared(b) == self@.bytes(),
    {
        let mut buf = buffers::growing_with_capacity(self.encoded_len());
        self.encode_into(&mut buf);
        let b = buffers::freeze(buf);
        assert(buffers::shared(b) =~= self@.bytes());
        b
    }

    /// Decodes a single complete frame from the front of `src` and returns it
    /// with the number of bytes it took.
    ///
    /// Use [`Decoder`](crate::protocol::Decoder) when reading from a stream
    /// where frames may arrive split across reads.
    pub fn decode(src: &[u8]) -> (r: Result<(Frame, usize)>)
        ensures
            match r {
                Ok((f, n)) => f@.wf() && decoded_frame(src@, DEFAULT_MAX_PAYLOAD_LEN) == Ok::<
                    (FrameContent, nat),
                    Error,
                >((f@, n as nat)),
                Err(e) => decoded_frame(src@, DEFAULT_MAX_PAYLOAD_LEN) == Err::<
                    (FrameContent, nat),
                    Error,
                >(e),
            },
    {
        Frame::decode_with_limit(src, DEFAULT_MAX_PAYLOAD_LEN)
    }

    /// Decodes a single frame, bounding the payload by `max_payload_len`.
    pub fn decode_with_limit(src: &[u8], max_payload_len: u32) -> (r: Result<(Frame, usize)>)
        ensures
            match r {
                Ok((f, n)) => f@.wf() && decoded_frame(src@, max_payload_len) == Ok::<
                    (FrameContent, nat),
                    Error,
                >((f@, n as nat)),
                Err(e) => decoded_frame(src@, max_payload_len) == Err::<(FrameContent, nat), Error>(
                    e,
                ),
            },
    {
        let header = match FrameHeader::decode(src, max_payload_len) {
            Ok(h) => h,
            Err(e) => {
                return Err(e);
            },
        };
        let total: usize = HEADER_LEN.saturating_add(header.payload_len as usize);
        if (src.len() as u64) < HEADER_LEN as u64 + header.payload_len as u64 {
            return Err(Error::BufferTooSmall { needed: total, available: src.len() });
        }
        let payload = buffers::shared_copy(vstd::slice::slice_subrange(src, HEADER_LEN, total));
        Ok((Frame { header, payload }, total))
    }
}

/// An encoded frame reads back as itself, whatever follows it, under any limit
/// that its payload respects.
pub proof fn frame_round_trip(f: FrameContent, more: Seq<u8>, max_payload_len: u32)
    requires
        f.wf(),
        f.payload.len() <= max_payload_len,
    ensures
        f.bytes().len() == frame_len(f.header),
        decoded_frame(f.bytes() + more, max_payload_len) == Ok::<(FrameContent, nat), Error>(
            (f, frame_len(f.header)),
        ),
{
    header_round_trip(f.header, f.payload + more, max_payload_len);
    let b = f.bytes() + more;
    assert(b =~= header_bytes(f.header) + (f.payload + more));
    assert(b.subrange(HEADER_LEN as int, frame_len(f.header) as int) =~= f.payload);
}

/// The codes that travel are these six, and no other code names a kind of frame.
pub proof fn codes_are_stable(value: u8)
    ensures
        FrameType::Data.code() == 1,
        FrameType::Control.code() == 2,
        FrameType::Ping.code() == 3,
        FrameType::Pong.code() == 4,
        FrameType::Handshake.code() == 5,
        FrameType::Close.code() == 6,
        FrameType::of_code(value) is None <==> value == 0 || value > 6,
{
}

/// Where everything stands in a header: the letters NX, the version, the kind and the
/// flags in a byte each, two zero bytes, and the stream and the length of the payload
/// in four bytes each, the most significant first.
pub proof fn headers_are_laid_out(h: FrameHeader)
    ensures
        ({
            let b = header_bytes(h);
            &&& b.len() == 16
            &&& b[0] == 0x4E && b[1] == 0x58
            &&& b[2] == h.version.major && b[3] == h.version.minor
            &&& b[4] == h.frame_type.code() && b[5] == h.flags.raw()
            &&& b[6] == 0 && b[7] == 0
            &&& h.stream_id == 0x1000000 * b[8] + 0x10000 * b[9] + 0x100 * b[10] + b[11]
            &&& h.payload_len == 0x1000000 * b[12] + 0x10000 * b[13] + 0x100 * b[14] + b[15]
        }),
{
    let b = header_bytes(h);
    let (s, n) = (buffers::be32(h.stream_id), buffers::be32(h.payload_len));
    buffers::be_bytes_weigh_by_place(MAGIC, h.stream_id);
    buffers::be_bytes_weigh_by_place(0, h.payload_len);
    assert(b[8] == s[0] && b[9] == s[1] && b[10] == s[2] && b[11] == s[3]);
    assert(b[12] == n[0] && b[13] == n[1] && b[14] == n[2] && b[15] == n[3]);
    assert(b[0] == buffers::be16(MAGIC)[0] && b[1] == buffers::be16(MAGIC)[1]);
    assert(b[6] == buffers::be16(0)[0] && b[7] == buffers::be16(0)[1]);
}

/// What is wrong with a header is told from left to right: too few bytes, other
/// letters, a kind or a flag that is not defined, reserved bytes that are not zero, a
/// payload beyond the limit. A header with none of these is read, byte by byte.
pub proof fn headers_are_checked_from_the_left(b: Seq<u8>, limit: u32)
    requires
        b.len() <= usize::MAX,
    ensures
        ({
            let r = decoded_header(b, limit);
            let len = 0x1000000 * b[12] + 0x10000 * b[13] + 0x100 * b[14] + b[15];
            let long = b.len() >= 16;
            let marked = b[0] == 0x4E && b[1] == 0x58;
            let kind = 1 <= b[4] <= 6;
            let flags = b[5] <= 7;
            let zero = b[6] == 0 && b[7] == 0;
            &&& !long ==> r == Err::<FrameHeader, Error>(
                Error::BufferTooSmall { needed: 16, available: b.len() as usize },
            )
            &&& long && !marked ==> (r matches Err(Error::InvalidMagic { expected, found })
                && expected == 0x4E58 && found == 0x100 * b[0] + b[1])
            &&& long && marked && !kind ==> r == Err::<FrameHeader, Error>(
                Error::UnknownFrameType { value: b[4] },
            )
            &&& long && marked && kind && !flags ==> r == Err::<FrameHeader, Error>(
                Error::UnknownFlags { bits: b[5] },
            )
            &&& long && marked && kind && flags && !zero ==> (r matches Err(
                Error::ReservedNotZero { value },
            ) && value == 0x100 * b[6] + b[7])
            &&& long && marked && kind && flags && zero && len > limit ==> (r matches Err(
                Error::PayloadTooLarge { len: declared, max },
            ) && declared == len && max == limit)
            &&& r is Ok <==> long && marked && kind && flags && zero && len <= limit
            &&& r matches Ok(h) ==> {
                &&& h.version.major == b[2] && h.version.minor == b[3]
                &&& h.frame_type.code() == b[4] && h.flags.raw() == b[5]
                &&& h.stream_id == 0x1000000 * b[8] + 0x10000 * b[9] + 0x100 * b[10] + b[11]
                &&& h.payload_len == len
            }
        }),
{
    FrameFlags::of_bits(b[5]).bits_are_flags(b[5]);
    buffers::be_values_weigh_by_place(b[0], b[1], b[8], b[9], b[10], b[11]);
    buffers::be_values_weigh_by_place(b[6], b[7], b[12], b[13], b[14], b[15]);
}

/// A frame is its header and as many bytes behind it as that declares: it is read only
/// once they are all there, and takes no byte more.
pub proof fn frames_end_where_they_say(src: Seq<u8>, limit: u32)
    requires
        src.len() <= usize::MAX,
    ensures
        decoded_header(src, limit) is Err ==> (decoded_frame(src, limit) matches Err(e)
            && decoded_header(src, limit) == Err::<FrameHeader, Error>(e)),
        decoded_header(src, limit) matches Ok(h) ==> {
            &&& src.len() < 16 + h.payload_len ==> (decoded_frame(src, limit) matches Err(
                Error::BufferTooSmall { needed, available },
            ) && available == src.len() && (16 + h.payload_len <= usize::MAX ==> needed == 16
                + h.payload_len))
            &&& src.len() >= 16 + h.payload_len ==> (decoded_frame(src, limit) matches Ok((f, n))
                && f.header == h && n == 16 + h.payload_len && f.payload.len() == h.payload_len
                && forall|i: int|
                0 <= i < h.payload_len ==> #[trigger] f.payload[i] == src[16 + i])
        },
{
}

} // verus!
