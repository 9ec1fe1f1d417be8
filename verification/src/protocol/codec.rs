//! Incremental encoding and decoding for byte streams.
//!
//! A transport delivers arbitrary byte chunks: one read may contain half a
//! frame, or three frames and a fragment. [`Decoder`] absorbs those chunks and
//! yields whole frames as they become available, buffering the remainder.

use crate::buffers;
use crate::protocol::error::{Error, Result};
use crate::protocol::frame;
use crate::protocol::frame::{
    Frame, FrameContent, FrameHeader, DEFAULT_MAX_PAYLOAD_LEN, HEADER_LEN,
};
use bytes::{Bytes, BytesMut};
use vstd::prelude::*;

verus! {

/// An incremental frame decoder.
///
/// Feed bytes with [`push`](Decoder::push), and drain whole frames with
/// [`next_frame`](Decoder::next_frame) until it returns `Ok(None)`.
#[derive(Debug)]
pub struct Decoder {
    buffer: BytesMut,
    max_payload_len: u32,
    /// Header of a frame whose payload has not fully arrived yet. Keeping it
    /// avoids parsing the header again on every subsequent read.
    pending: Option<FrameHeader>,
}

/// What a reader of a byte stream finds at its front.
pub enum Step {
    /// A whole frame, and what follows it.
    Whole(FrameContent, Seq<u8>),
    /// The beginning of a frame; more bytes are needed.
    Partial,
    /// Bytes that cannot be the beginning of a frame.
    Broken(Error),
}

/// What stands at the front of the stream `bytes`.
pub open spec fn step(bytes: Seq<u8>, max_payload_len: u32) -> Step {
    if bytes.len() < HEADER_LEN {
        Step::Partial
    } else {
        match frame::decoded_header(bytes, max_payload_len) {
            Err(e) => Step::Broken(e),
            Ok(header) => {
                let end = frame::frame_len(header) as int;
                if bytes.len() < end {
                    Step::Partial
                } else {
                    Step::Whole(
                        FrameContent { header, payload: bytes.subrange(HEADER_LEN as int, end) },
                        bytes.skip(end),
                    )
                }
            },
        }
    }
}

/// The outcome of reading a stream as far as it goes.
pub struct Drained {
    /// The whole frames, in order.
    pub frames: Seq<FrameContent>,
    /// The bytes after them.
    pub rest: Seq<u8>,
    /// Why reading stopped, if not for want of more bytes.
    pub error: Option<Error>,
}

/// Reads every whole frame from the front of the stream `bytes`.
pub open spec fn drain(bytes: Seq<u8>, max_payload_len: u32) -> Drained
    decreases bytes.len(),
{
    match step(bytes, max_payload_len) {
        Step::Partial => Drained { frames: Seq::empty(), rest: bytes, error: None },
        Step::Broken(e) => Drained { frames: Seq::empty(), rest: bytes, error: Some(e) },
        Step::Whole(f, rest) => {
            let later = drain(rest, max_payload_len);
            Drained { frames: seq![f] + later.frames, ..later }
        },
    }
}

/// Reads a stream that arrives in chunks: each is put behind what is left of those
/// before it, and every whole frame is read before the next one arrives. `held` is
/// what is left so far.
pub open spec fn drain_chunks(
    held: Seq<u8>,
    chunks: Seq<Seq<u8>>,
    max_payload_len: u32,
) -> Drained
    decreases chunks.len(),
{
    if chunks.len() == 0 {
        Drained { frames: Seq::empty(), rest: held, error: None }
    } else {
        let first = drain(held + chunks.first(), max_payload_len);
        if first.error is Some {
            first
        } else {
            let later = drain_chunks(first.rest, chunks.drop_first(), max_payload_len);
            Drained { frames: first.frames + later.frames, ..later }
        }
    }
}

impl Decoder {
    /// The bytes received and not yet formed into a frame.
    pub closed spec fn bytes(&self) -> Seq<u8> {
        buffers::growing(self.buffer)
    }

    /// The configured maximum payload length.
    pub closed spec fn limit(&self) -> u32 {
        self.max_payload_len
    }

    /// A kept header is the one that the buffered bytes begin with.
    pub closed spec fn wf(&self) -> bool {
        self.pending matches Some(h) ==> {
            &&& self.bytes().len() >= HEADER_LEN
            &&& frame::decoded_header(self.bytes(), self.limit()) == Ok::<FrameHeader, Error>(h)
            &&& h.flags.defined()
        }
    }

    /// Creates a decoder with the default payload limit.
    pub fn new() -> (d: Decoder)
        ensures
            d.wf(),
            d.bytes() == Seq::<u8>::empty(),
            d.limit() == DEFAULT_MAX_PAYLOAD_LEN,
    {
        Decoder::with_max_payload_len(DEFAULT_MAX_PAYLOAD_LEN)
    }

    /// Creates a decoder that rejects payloads larger than `max_payload_len`.
    ///
    /// The limit is checked against the declared length before any payload is
    /// buffered, so it bounds the memory a peer can cause you to commit.
    pub fn with_max_payload_len(max_payload_len: u32) -> (d: Decoder)
        ensures
            d.wf(),
            d.bytes() == Seq::<u8>::empty(),
            d.limit() == max_payload_len,
    {
        Decoder { buffer: buffers::growing_new(), max_payload_len, pending: None }
    }

    /// Returns the configured maximum payload length.
    pub fn max_payload_len(&self) -> (n: u32)
        ensures
            n == self.limit(),
    {
        self.max_payload_len
    }

    /// Returns the number of buffered bytes not yet formed into a frame.
    pub fn buffered(&self) -> (n: usize)
        ensures
            n == self.bytes().len(),
    {
        buffers::growing_len(&self.buffer)
    }

    /// Returns `true` when no partial data is buffered.
    ///
    /// A connection closing while this is `false` ended mid-frame.
    pub fn is_empty(&self) -> (r: bool)
        ensures
            r == (self.bytes().len() == 0),
    {
        buffers::growing_len(&self.buffer) == 0
    }

    /// Appends freshly read bytes to the internal buffer.
    pub fn push(&mut self, bytes: &[u8])
        requires
            old(self).wf(),
            old(self).bytes().len() + bytes@.len() <= isize::MAX,
        ensures
            final(self).wf(),
            final(self).bytes() == old(self).bytes() + bytes@,
            final(self).limit() == old(self).limit(),
    {
        proof {
            if self.pending is Some {
                frame::header_is_read_from_its_own_bytes(self.bytes(), bytes@, self.limit());
            }
        }
        buffers::growing_extend(&mut self.buffer, bytes);
    }

    /// Discards all buffered data and any partially decoded frame.
    pub fn reset(&mut self)
        ensures
            final(self).wf(),
            final(self).bytes() == Seq::<u8>::empty(),
            final(self).limit() == old(self).limit(),
    {
        buffers::growing_clear(&mut self.buffer);
        self.pending = None;
    }

    /// Attempts to take the next complete frame from the buffer.
    ///
    /// Returns `Ok(None)` when more bytes are needed; this is the normal
    /// "read again" signal, not an error. An error is not recoverable in place:
    /// the stream is desynchronized, so close the connection or
    /// [`reset`](Decoder::reset) and resynchronize.
    pub fn next_frame(&mut self) -> (r: Result<Option<Frame>>)
        requires
            old(self).wf(),
        ensures
            final(self).wf(),
            final(self).limit() == old(self).limit(),
            match step(old(self).bytes(), old(self).limit()) {
                Step::Partial => r == Ok::<Option<Frame>, Error>(None) && final(self).bytes() == old(
                    self,
                ).bytes(),
                Step::Broken(e) => r == Err::<Option<Frame>, Error>(e) && final(self).bytes()
                    == old(self).bytes(),
                Step::Whole(content, rest) => {
                    &&& r matches Ok(Some(f))
                    &&& f@ == content
                    &&& f@.wf()
                    &&& final(self).bytes() == rest
                    &&& rest == old(self).bytes().skip(f@.bytes().len() as int)
                },
            },
            drain(old(self).bytes(), old(self).limit()) == match r {
                Ok(Some(f)) => {
                    let later = drain(final(self).bytes(), old(self).limit());
                    Drained { frames: seq![f@] + later.frames, ..later }
                },
                Ok(None) => Drained {
                    frames: Seq::empty(),
                    rest: final(self).bytes(),
                    error: None,
                },
                Err(e) => Drained {
                    frames: Seq::empty(),
                    rest: final(self).bytes(),
                    error: Some(e),
                },
            },
    {
        let header = match self.pending {
            Some(header) => header,
            None => {
                if buffers::growing_len(&self.buffer) < HEADER_LEN {
                    return Ok(None);
                }
                let decoded = FrameHeader::decode(
                    buffers::growing_slice(&self.buffer),
                    self.max_payload_len,
                );
                match decoded {
                    Ok(header) => {
                        self.pending = Some(header);
                        header
                    },
                    Err(e) => {
                        return Err(e);
                    },
                }
            },
        };
        let ghost all = self.bytes();
        let ghost end = frame::frame_len(header) as int;
        if (buffers::growing_len(&self.buffer) as u64) < HEADER_LEN as u64
            + header.payload_len as u64 {
            return Ok(None);
        }
        let payload_len: usize = header.payload_len as usize;
        buffers::growing_advance(&mut self.buffer, HEADER_LEN);
        let payload = buffers::freeze(buffers::growing_split_to(&mut self.buffer, payload_len));
        self.pending = None;
        proof {
            assert(all.skip(HEADER_LEN as int).take(payload_len as int) =~= all.subrange(
                HEADER_LEN as int,
                end,
            ));
            assert(all.skip(HEADER_LEN as int).skip(payload_len as int) =~= all.skip(end));
        }
        match Frame::from_parts(header, payload) {
            Ok(f) => Ok(Some(f)),
            Err(e) => Err(e),
        }
    }
}

impl Default for Decoder {
    fn default() -> (d: Decoder)
        ensures
            d.wf(),
            d.bytes() == Seq::<u8>::empty(),
            d.limit() == DEFAULT_MAX_PAYLOAD_LEN,
    {
        Decoder::new()
    }
}

/// Buffers outbound frames as a contiguous byte stream.
///
/// Batching several frames into one buffer lets a transport issue a single
/// write instead of one per frame.
#[derive(Debug)]
pub struct Encoder {
    buffer: BytesMut,
}

impl Encoder {
    /// The bytes awaiting transmission.
    pub closed spec fn bytes(&self) -> Seq<u8> {
        buffers::growing(self.buffer)
    }

    /// Creates an encoder with an empty buffer.
    pub fn new() -> (e: Encoder)
        ensures
            e.bytes() == Seq::<u8>::empty(),
    {
        Encoder { buffer: buffers::growing_new() }
    }

    /// Creates an encoder that preallocates `capacity` bytes.
    pub fn with_capacity(capacity: usize) -> (e: Encoder)
        requires
            capacity <= isize::MAX,
        ensures
            e.bytes() == Seq::<u8>::empty(),
    {
        Encoder { buffer: buffers::growing_with_capacity(capacity) }
    }

    /// Appends an encoded frame to the internal buffer.
    pub fn encode(&mut self, frame: &Frame)
        requires
            old(self).bytes().len() + frame@.bytes().len() <= isize::MAX,
        ensures
            final(self).bytes() == old(self).bytes() + frame@.bytes(),
    {
        frame.encode_into(&mut self.buffer);
    }

    /// Returns the bytes accumulated so far without clearing them.
    pub fn buffer(&self) -> (b: &[u8])
        ensures
            b@ == self.bytes(),
    {
        buffers::growing_slice(&self.buffer)
    }

    /// Takes all accumulated bytes, leaving the encoder empty.
    pub fn take(&mut self) -> (b: Bytes)
        ensures
            buffers::shared(b) == old(self).bytes(),
            final(self).bytes() == Seq::<u8>::empty(),
    {
        buffers::freeze(buffers::growing_split(&mut self.buffer))
    }

    /// Returns `true` when nothing is pending transmission.
    pub fn is_empty(&self) -> (r: bool)
        ensures
            r == (self.bytes().len() == 0),
    {
        buffers::growing_len(&self.buffer) == 0
    }
}

impl Default for Encoder {
    fn default() -> (e: Encoder)
        ensures
            e.bytes() == Seq::<u8>::empty(),
    {
        Encoder::new()
    }
}

/// Reports whether `error` leaves the stream unusable.
///
/// Every decoding error desynchronizes the stream, so the answer is always yes.
pub fn is_fatal(error: &Error) -> (r: bool)
    ensures
        r,
{
    true
}

/// The bytes of a run of frames on the wire.
pub open spec fn stream_bytes(frames: Seq<FrameContent>) -> Seq<u8>
    decreases frames.len(),
{
    if frames.len() == 0 {
        Seq::empty()
    } else {
        frames[0].bytes() + stream_bytes(frames.drop_first())
    }
}

/// A frame that was written stands at the front of the stream, and what was
/// written after it follows.
pub proof fn step_finds_written_frame(f: FrameContent, tail: Seq<u8>, max_payload_len: u32)
    requires
        f.wf(),
        f.payload.len() <= max_payload_len,
    ensures
        step(f.bytes() + tail, max_payload_len) == Step::Whole(f, tail),
{
    frame::frame_round_trip(f, tail, max_payload_len);
    let end = frame::frame_len(f.header) as int;
    assert((f.bytes() + tail).skip(end) =~= tail);
}

proof fn appending_regroups(a: Seq<u8>, b: Seq<u8>, c: Seq<u8>)
    ensures
        (a + b) + c == a + (b + c),
{
    assert((a + b) + c =~= a + (b + c));
}

proof fn drain_takes_written_frame(f: FrameContent, tail: Seq<u8>, max_payload_len: u32)
    requires
        f.wf(),
        f.payload.len() <= max_payload_len,
    ensures
        drain(f.bytes() + tail, max_payload_len) == ({
            let later = drain(tail, max_payload_len);
            Drained { frames: seq![f] + later.frames, ..later }
        }),
{
    step_finds_written_frame(f, tail, max_payload_len);
}

/// Frames that were written one after the other are read back, all of them and
/// in order, and reading goes on with whatever follows them.
pub proof fn stream_round_trip(frames: Seq<FrameContent>, more: Seq<u8>, max_payload_len: u32)
    requires
        forall|i: int|
            0 <= i < frames.len() ==> (#[trigger] frames[i]).wf() && frames[i].payload.len()
                <= max_payload_len,
    ensures
        drain(stream_bytes(frames) + more, max_payload_len) == ({
            let later = drain(more, max_payload_len);
            Drained { frames: frames + later.frames, ..later }
        }),
    decreases frames.len(),
{
    let later = drain(more, max_payload_len);
    if frames.len() == 0 {
        assert(stream_bytes(frames) + more =~= more);
        assert(frames + later.frames =~= later.frames);
    } else {
        let f = frames[0];
        let tail = stream_bytes(frames.drop_first()) + more;
        appending_regroups(f.bytes(), stream_bytes(frames.drop_first()), more);
        drain_takes_written_frame(f, tail, max_payload_len);
        assert forall|i: int| 0 <= i < frames.drop_first().len() implies (
        #[trigger] frames.drop_first()[i]).wf() && frames.drop_first()[i].payload.len()
            <= max_payload_len by {
            assert(frames.drop_first()[i] == frames[i + 1]);
        }
        stream_round_trip(frames.drop_first(), more, max_payload_len);
        assert(seq![f] + (frames.drop_first() + later.frames) =~= frames + later.frames);
    }
}

/// How a stream is cut into chunks does not matter: reading what has arrived,
/// and going on when more arrives, finds the same frames as reading it all at
/// once.
pub proof fn chunking_is_irrelevant(early: Seq<u8>, late: Seq<u8>, max_payload_len: u32)
    requires
        drain(early, max_payload_len).error is None,
    ensures
        drain(early + late, max_payload_len) == ({
            let first = drain(early, max_payload_len);
            let second = drain(first.rest + late, max_payload_len);
            Drained { frames: first.frames + second.frames, ..second }
        }),
    decreases early.len(),
{
    let first = drain(early, max_payload_len);
    let second = drain(first.rest + late, max_payload_len);
    match step(early, max_payload_len) {
        Step::Partial => {
            assert(first.frames + second.frames =~= second.frames);
        },
        Step::Broken(_) => {},
        Step::Whole(f, rest) => {
            frame::header_is_read_from_its_own_bytes(early, late, max_payload_len);
            let end = frame::frame_len(f.header) as int;
            assert((early + late).subrange(HEADER_LEN as int, end) =~= early.subrange(
                HEADER_LEN as int,
                end,
            ));
            assert((early + late).skip(end) =~= rest + late);
            chunking_is_irrelevant(rest, late, max_payload_len);
            let inner = drain(rest, max_payload_len);
            assert(seq![f] + (inner.frames + second.frames) =~= first.frames + second.frames);
        },
    }
}

proof fn errors_stay(early: Seq<u8>, late: Seq<u8>, max_payload_len: u32)
    requires
        drain(early, max_payload_len).error is Some,
    ensures
        drain(early + late, max_payload_len).error == drain(early, max_payload_len).error,
        drain(early + late, max_payload_len).frames == drain(early, max_payload_len).frames,
    decreases early.len(),
{
    match step(early, max_payload_len) {
        Step::Partial => {},
        Step::Broken(_) => {
            frame::header_is_read_from_its_own_bytes(early, late, max_payload_len);
        },
        Step::Whole(f, rest) => {
            frame::header_is_read_from_its_own_bytes(early, late, max_payload_len);
            let end = frame::frame_len(f.header) as int;
            assert((early + late).subrange(HEADER_LEN as int, end) =~= early.subrange(
                HEADER_LEN as int,
                end,
            ));
            assert((early + late).skip(end) =~= rest + late);
            errors_stay(rest, late, max_payload_len);
        },
    }
}

proof fn what_is_left_is_partial(bytes: Seq<u8>, max_payload_len: u32)
    requires
        drain(bytes, max_payload_len).error is None,
    ensures
        step(drain(bytes, max_payload_len).rest, max_payload_len) is Partial,
    decreases bytes.len(),
{
    match step(bytes, max_payload_len) {
        Step::Whole(_, rest) => {
            what_is_left_is_partial(rest, max_payload_len);
        },
        _ => {},
    }
}

proof fn chunks_read_on(held: Seq<u8>, chunks: Seq<Seq<u8>>, max_payload_len: u32)
    requires
        step(held, max_payload_len) is Partial,
    ensures
        ({
            let whole = drain(held + chunks.flatten(), max_payload_len);
            let cut = drain_chunks(held, chunks, max_payload_len);
            &&& cut.frames == whole.frames
            &&& cut.error == whole.error
            &&& whole.error is None ==> cut.rest == whole.rest
        }),
    decreases chunks.len(),
{
    if chunks.len() == 0 {
        assert(held + chunks.flatten() =~= held);
    } else {
        let early = held + chunks.first();
        let late = chunks.drop_first().flatten();
        assert(held + chunks.flatten() =~= early + late);
        if drain(early, max_payload_len).error is Some {
            errors_stay(early, late, max_payload_len);
        } else {
            chunking_is_irrelevant(early, late, max_payload_len);
            what_is_left_is_partial(early, max_payload_len);
            chunks_read_on(
                drain(early, max_payload_len).rest,
                chunks.drop_first(),
                max_payload_len,
            );
        }
    }
}

/// However many chunks a stream is cut into, and wherever: draining the decoder
/// after each of them yields the frames that the stream holds, in order, stops at
/// the same error, and leaves the same bytes where there is none.
pub proof fn any_chunks_read_like_the_whole(chunks: Seq<Seq<u8>>, max_payload_len: u32)
    ensures
        ({
            let whole = drain(chunks.flatten(), max_payload_len);
            let cut = drain_chunks(Seq::empty(), chunks, max_payload_len);
            &&& cut.frames == whole.frames
            &&& cut.error == whole.error
            &&& whole.error is None ==> cut.rest == whole.rest
        }),
{
    chunks_read_on(Seq::empty(), chunks, max_payload_len);
    assert(Seq::<u8>::empty() + chunks.flatten() =~= chunks.flatten());
}

/// Frames that were written come out of a decoder that gets their bytes in any
/// number of chunks: those frames, in order, no others, without an error, and
/// nothing is left in the buffer.
pub proof fn written_frames_survive_any_chunks(
    frames: Seq<FrameContent>,
    chunks: Seq<Seq<u8>>,
    max_payload_len: u32,
)
    requires
        forall|i: int|
            0 <= i < frames.len() ==> (#[trigger] frames[i]).wf() && frames[i].payload.len()
                <= max_payload_len,
        chunks.flatten() == stream_bytes(frames),
    ensures
        drain_chunks(Seq::empty(), chunks, max_payload_len) == (Drained {
            frames,
            rest: Seq::empty(),
            error: None,
        }),
{
    let nothing = Seq::<u8>::empty();
    any_chunks_read_like_the_whole(chunks, max_payload_len);
    stream_round_trip(frames, nothing, max_payload_len);
    assert(stream_bytes(frames) + nothing =~= stream_bytes(frames));
    assert(drain(nothing, max_payload_len).frames =~= Seq::empty());
    assert(frames + drain(nothing, max_payload_len).frames =~= frames);
}

/// When a stream has to wait: as long as there is no whole header, or the header is in
/// order and not all of its payload is there. A header that is not in order is an
/// error at once.
pub proof fn readers_wait_for_whole_frames(bytes: Seq<u8>, limit: u32)
    ensures
        step(bytes, limit) is Partial <==> bytes.len() < 16 || (frame::decoded_header(
            bytes,
            limit,
        ) matches Ok(h) && bytes.len() < 16 + h.payload_len),
        step(bytes, limit) is Broken <==> bytes.len() >= 16 && frame::decoded_header(bytes, limit)
            is Err,
        step(bytes, limit) matches Step::Broken(e) ==> frame::decoded_header(bytes, limit) == Err::<
            FrameHeader,
            Error,
        >(e),
        step(bytes, limit) matches Step::Whole(f, rest) ==> {
            &&& frame::decoded_header(bytes, limit) == Ok::<FrameHeader, Error>(f.header)
            &&& f.payload.len() == f.header.payload_len
            &&& bytes == bytes.take(16) + f.payload + rest
        },
{
    if let Step::Whole(f, rest) = step(bytes, limit) {
        assert(bytes =~= bytes.take(16) + f.payload + rest);
    }
}

} // verus!
