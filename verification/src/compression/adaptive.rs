//! Adaptive compression policy.
//!
//! Compressing unconditionally loses in two cases. Small payloads grow, because
//! every codec adds framing overhead. Already-compressed payloads are random to
//! a second compressor, which burns CPU and returns something slightly larger.
//!
//! [`Compressor`] applies a policy that skips both cases and verifies that the
//! result actually shrank before accepting it.

use crate::buffers;
use crate::compression::algorithm::{Algorithm, Error, Level, Result};
use crate::compression::codec;
use crate::ratio::Ratio;
use bytes::Bytes;
use vstd::prelude::*;

verus! {

/// The default minimum payload size worth compressing.
pub const DEFAULT_MIN_SIZE: usize = 128;

/// The default decompression output limit: 64 MiB.
pub const DEFAULT_MAX_OUTPUT: usize = 64 * 1024 * 1024;

/// The default maximum accepted compression ratio, 0.95: a result must save at
/// least five percent.
pub open spec fn default_ratio() -> Ratio {
    Ratio { numerator: 95, denominator: 100 }
}

/// The default maximum accepted compression ratio, 0.95: a result must save at
/// least five percent to be kept.
pub fn default_max_ratio() -> (r: Ratio)
    ensures
        r == default_ratio(),
{
    Ratio::new(95, 100)
}

/// Why a payload was left uncompressed.
#[derive(Debug, Clone, Copy, PartialEq, Eq, Structural)]
#[non_exhaustive]
pub enum SkipReason {
    /// The payload was shorter than the configured minimum.
    TooSmall,
    /// Compression ran but did not shrink the payload enough to be worth it.
    NotWorthwhile,
    /// The configured algorithm was [`Algorithm::Identity`].
    Disabled,
}

impl SkipReason {
    /// The reason in words.
    pub open spec fn text(self) -> Seq<char> {
        match self {
            SkipReason::TooSmall => "payload below minimum size"@,
            SkipReason::NotWorthwhile => "compression did not shrink the payload enough"@,
            SkipReason::Disabled => "compression disabled"@,
        }
    }

    /// Returns the reason in words.
    pub fn to_string(&self) -> (s: String)
        ensures
            s@ == self.text(),
    {
        match self {
            SkipReason::TooSmall => "payload below minimum size".to_owned(),
            SkipReason::NotWorthwhile => {
                "compression did not shrink the payload enough".to_owned()
            },
            SkipReason::Disabled => "compression disabled".to_owned(),
        }
    }
}

/// The result of an adaptive compression attempt.
///
/// Map this onto the protocol's compressed flag: set the flag for
/// [`Outcome::Compressed`], leave it clear for [`Outcome::Skipped`].
#[derive(Debug, Clone, PartialEq, Eq)]
#[non_exhaustive]
pub enum Outcome {
    /// The payload was compressed and is smaller than the original.
    Compressed {
        /// The algorithm used, which the peer needs in order to decompress.
        algorithm: Algorithm,
        /// The compressed bytes.
        data: Bytes,
        /// The original, uncompressed length.
        original_len: usize,
    },
    /// The payload was left as it was.
    Skipped {
        /// Why compression was skipped.
        reason: SkipReason,
        /// The original bytes, unchanged.
        data: Bytes,
    },
}

impl Outcome {
    /// The bytes to transmit, compressed or not.
    pub open spec fn bytes(self) -> Seq<u8> {
        match self {
            Outcome::Compressed { data, .. } => buffers::shared(data),
            Outcome::Skipped { data, .. } => buffers::shared(data),
        }
    }

    /// Returns the bytes to transmit, compressed or not.
    pub fn data(&self) -> (b: &Bytes)
        ensures
            buffers::shared(*b) == self.bytes(),
    {
        match self {
            Outcome::Compressed { data, .. } => data,
            Outcome::Skipped { data, .. } => data,
        }
    }

    /// Consumes the outcome, returning the bytes to transmit.
    pub fn into_data(self) -> (b: Bytes)
        ensures
            buffers::shared(b) == self.bytes(),
    {
        match self {
            Outcome::Compressed { data, .. } => data,
            Outcome::Skipped { data, .. } => data,
        }
    }

    /// Returns `true` if compression was applied.
    ///
    /// This is exactly the value the protocol's compressed flag should take.
    pub fn is_compressed(&self) -> (r: bool)
        ensures
            r == (*self is Compressed),
    {
        match self {
            Outcome::Compressed { .. } => true,
            Outcome::Skipped { .. } => false,
        }
    }

    /// Returns the algorithm used, or [`Algorithm::Identity`] if skipped.
    pub fn algorithm(&self) -> (a: Algorithm)
        ensures
            a == match *self {
                Outcome::Compressed { algorithm, .. } => algorithm,
                Outcome::Skipped { .. } => Algorithm::Identity,
            },
    {
        match self {
            Outcome::Compressed { algorithm, .. } => *algorithm,
            Outcome::Skipped { .. } => Algorithm::Identity,
        }
    }

    /// Returns the compressed size divided by the original size.
    ///
    /// It is one for a skipped payload, and for an empty input, since nothing
    /// was saved.
    pub fn ratio(&self) -> (r: Ratio)
        ensures
            r == match *self {
                Outcome::Compressed { data, original_len, .. } => if original_len == 0 {
                    Ratio { numerator: 1, denominator: 1 }
                } else {
                    Ratio {
                        numerator: buffers::shared(data).len() as u64,
                        denominator: original_len as u64,
                    }
                },
                Outcome::Skipped { .. } => Ratio { numerator: 1, denominator: 1 },
            },
    {
        match self {
            Outcome::Compressed { data, original_len, .. } => {
                if *original_len == 0 {
                    Ratio::new(1, 1)
                } else {
                    Ratio::new(buffers::shared_len(data) as u64, *original_len as u64)
                }
            },
            Outcome::Skipped { .. } => Ratio::new(1, 1),
        }
    }

    /// Returns the bytes saved relative to the original.
    pub fn bytes_saved(&self) -> (n: usize)
        ensures
            n == match *self {
                Outcome::Compressed { data, original_len, .. } => if original_len
                    >= buffers::shared(data).len() {
                    original_len - buffers::shared(data).len()
                } else {
                    0
                },
                Outcome::Skipped { .. } => 0,
            },
    {
        match self {
            Outcome::Compressed { data, original_len, .. } => original_len.saturating_sub(
                buffers::shared_len(data),
            ),
            Outcome::Skipped { .. } => 0,
        }
    }
}

/// What a compressor makes of a payload.
pub enum Verdict {
    /// It is left as it was.
    Skip(SkipReason),
    /// It is replaced by these bytes.
    Replace(Seq<u8>),
    /// The codec failed, for this reason.
    Fail(Seq<char>),
}

/// An adaptive compressor.
#[derive(Debug, Clone, Copy)]
pub struct Compressor {
    algorithm: Algorithm,
    level: Level,
    min_size: usize,
    max_ratio: Ratio,
    max_output: usize,
}

/// How a compressor is set up.
pub struct CompressorState {
    /// The codec.
    pub algorithm: Algorithm,
    /// How hard it tries.
    pub level: Level,
    /// The smallest payload worth compressing.
    pub min_size: usize,
    /// The largest share of its original size that a result may have.
    pub max_ratio: Ratio,
    /// The largest output of decompression.
    pub max_output: usize,
}

impl CompressorState {
    /// The default policy for an algorithm.
    pub open spec fn initial(algorithm: Algorithm, level: Level) -> CompressorState {
        CompressorState {
            algorithm,
            level,
            min_size: DEFAULT_MIN_SIZE,
            max_ratio: default_ratio(),
            max_output: DEFAULT_MAX_OUTPUT,
        }
    }

    /// A result of this size is worth keeping for an input of that size: it is
    /// smaller, and small enough.
    pub open spec fn worthwhile(self, compressed: nat, original: nat) -> bool {
        &&& compressed < original
        &&& compressed * self.max_ratio.denominator <= self.max_ratio.numerator * original
    }

    /// What is made of a payload.
    pub open spec fn verdict(self, input: Seq<u8>) -> Verdict {
        if self.algorithm is Identity {
            Verdict::Skip(SkipReason::Disabled)
        } else if input.len() < self.min_size {
            Verdict::Skip(SkipReason::TooSmall)
        } else {
            match codec::encoded(self.algorithm, self.level, input) {
                Err(reason) => Verdict::Fail(reason),
                Ok(z) => if self.worthwhile(z.len(), input.len()) {
                    Verdict::Replace(z)
                } else {
                    Verdict::Skip(SkipReason::NotWorthwhile)
                },
            }
        }
    }
}

/// An outcome stands for `input`: it is the input itself, or the algorithm that
/// it names makes the input of it again.
pub open spec fn stands_for(o: Outcome, input: Seq<u8>) -> bool {
    match o {
        Outcome::Skipped { data, .. } => buffers::shared(data) == input,
        Outcome::Compressed { algorithm, data, original_len } => {
            &&& original_len == input.len()
            &&& buffers::shared(data).len() < input.len()
            &&& forall|limit: nat|
                #[trigger] codec::decoded(algorithm, buffers::shared(data), limit) == Ok::<
                    Seq<u8>,
                    Seq<char>,
                >(codec::at_most(input, limit))
        },
    }
}

impl View for Compressor {
    type V = CompressorState;

    closed spec fn view(&self) -> CompressorState {
        CompressorState {
            algorithm: self.algorithm,
            level: self.level,
            min_size: self.min_size,
            max_ratio: self.max_ratio,
            max_output: self.max_output,
        }
    }
}

impl Compressor {
    /// Creates a compressor with default policy for `algorithm`.
    pub fn new(algorithm: Algorithm) -> (c: Compressor)
        ensures
            c@ == CompressorState::initial(algorithm, c@.level),
            c@.level.number() == 50,
    {
        Compressor {
            algorithm,
            level: Level::balanced(),
            min_size: DEFAULT_MIN_SIZE,
            max_ratio: default_max_ratio(),
            max_output: DEFAULT_MAX_OUTPUT,
        }
    }

    /// Sets the compression level.
    pub fn with_level(self, level: Level) -> (c: Compressor)
        ensures
            c@ == (CompressorState { level, ..self@ }),
    {
        Compressor { level, ..self }
    }

    /// Sets the minimum payload size worth compressing.
    pub fn with_min_size(self, min_size: usize) -> (c: Compressor)
        ensures
            c@ == (CompressorState { min_size, ..self@ }),
    {
        Compressor { min_size, ..self }
    }

    /// Sets the maximum accepted ratio of compressed to original size.
    ///
    /// A ratio above one is taken for one: it would accept results that grew,
    /// which is never useful.
    pub fn with_max_ratio(self, max_ratio: Ratio) -> (c: Compressor)
        requires
            max_ratio.wf(),
        ensures
            c@ == (CompressorState {
                max_ratio: if max_ratio.numerator > max_ratio.denominator {
                    Ratio { numerator: 1, denominator: 1 }
                } else {
                    max_ratio
                },
                ..self@
            }),
    {
        let max_ratio = if max_ratio.numerator > max_ratio.denominator {
            Ratio::new(1, 1)
        } else {
            max_ratio
        };
        Compressor { max_ratio, ..self }
    }

    /// Sets the maximum output size accepted when decompressing.
    pub fn with_max_output(self, max_output: usize) -> (c: Compressor)
        ensures
            c@ == (CompressorState { max_output, ..self@ }),
    {
        Compressor { max_output, ..self }
    }

    /// Returns the configured algorithm.
    pub fn algorithm(&self) -> (a: Algorithm)
        ensures
            a == self@.algorithm,
    {
        self.algorithm
    }

    /// Returns the configured level.
    pub fn level(&self) -> (l: Level)
        ensures
            l == self@.level,
    {
        self.level
    }

    /// Keeps a compressed payload if it is worth it, and the original if not.
    pub fn judge(&self, input: &[u8], compressed: Bytes) -> (o: Outcome)
        ensures
            if self@.worthwhile(buffers::shared(compressed).len(), input@.len()) {
                o == (Outcome::Compressed {
                    algorithm: self@.algorithm,
                    data: compressed,
                    original_len: input@.len() as usize,
                })
            } else {
                o matches Outcome::Skipped { reason, data } && reason is NotWorthwhile
                    && buffers::shared(data) == input@
            },
    {
        let len: usize = buffers::shared_len(&compressed);
        if len < input.len() && self.max_ratio.admits(len as u64, input.len() as u64) {
            Outcome::Compressed {
                algorithm: self.algorithm,
                data: compressed,
                original_len: input.len(),
            }
        } else {
            Outcome::Skipped {
                reason: SkipReason::NotWorthwhile,
                data: buffers::shared_copy(input),
            }
        }
    }

    /// Compresses `input` if the policy says it is worthwhile.
    ///
    /// The decision is made by measuring, not guessing: payloads above the size
    /// threshold are actually compressed, and the result is kept only if it
    /// beats the ratio. An error comes only from the codec itself.
    pub fn compress(&self, input: &[u8]) -> (r: Result<Outcome>)
        ensures
            match self@.verdict(input@) {
                Verdict::Skip(why) => r matches Ok(Outcome::Skipped { reason, data }) && reason
                    == why && buffers::shared(data) == input@,
                Verdict::Replace(z) => r matches Ok(
                    Outcome::Compressed { algorithm, data, original_len },
                ) && algorithm == self@.algorithm && buffers::shared(data) == z && original_len
                    == input@.len(),
                Verdict::Fail(why) => r matches Err(Error::Compress { algorithm, reason })
                    && algorithm == self@.algorithm && reason@ == why,
            },
            r matches Ok(o) ==> stands_for(o, input@),
    {
        match self.algorithm {
            Algorithm::Identity => {
                return Ok(
                    Outcome::Skipped {
                        reason: SkipReason::Disabled,
                        data: buffers::shared_copy(input),
                    },
                );
            },
            _ => {},
        }
        if input.len() < self.min_size {
            return Ok(
                Outcome::Skipped {
                    reason: SkipReason::TooSmall,
                    data: buffers::shared_copy(input),
                },
            );
        }
        match codec::compress(self.algorithm, self.level, input) {
            Ok(compressed) => Ok(self.judge(input, compressed)),
            Err(e) => Err(e),
        }
    }

    /// Decompresses `input`, which was compressed with `algorithm`.
    ///
    /// Enforces the configured output limit, so that a decompression bomb is
    /// rejected before its output is materialized.
    pub fn decompress(&self, algorithm: Algorithm, input: &[u8]) -> (r: Result<Bytes>)
        ensures
            codec::decompresses_to(r, algorithm, input@, self@.max_output),
            r matches Ok(b) ==> buffers::shared(b).len() <= self@.max_output,
    {
        codec::decompress(algorithm, input, self.max_output)
    }

    /// Reverses an [`Outcome`], recovering the original bytes.
    pub fn restore(&self, outcome: &Outcome) -> (r: Result<Bytes>)
        ensures
            match *outcome {
                Outcome::Compressed { algorithm, data, .. } => codec::decompresses_to(
                    r,
                    algorithm,
                    buffers::shared(data),
                    self@.max_output,
                ),
                Outcome::Skipped { data, .. } => r matches Ok(b) && buffers::shared(b)
                    == buffers::shared(data),
            },
            forall|input: Seq<u8>|
                #![trigger stands_for(*outcome, input)]
                stands_for(*outcome, input) && input.len() <= self@.max_output ==> (r matches Ok(b)
                    && buffers::shared(b) == input),
    {
        let r = match outcome {
            Outcome::Compressed { algorithm, data, .. } => self.decompress(
                *algorithm,
                buffers::shared_slice(data),
            ),
            Outcome::Skipped { data, .. } => Ok(data.clone()),
        };
        proof {
            assert forall|input: Seq<u8>|
                #![trigger stands_for(*outcome, input)]
                stands_for(*outcome, input) && input.len() <= self@.max_output implies (
            r matches Ok(b) && buffers::shared(b) == input) by {
                match *outcome {
                    Outcome::Compressed { algorithm, data, .. } => {
                        codec::compressed_data_comes_back(
                            algorithm,
                            input,
                            buffers::shared(data),
                            self@.max_output,
                            r,
                        );
                    },
                    Outcome::Skipped { .. } => {},
                }
            }
        }
        r
    }
}

impl Default for Compressor {
    fn default() -> (c: Compressor)
        ensures
            c@ == CompressorState::initial(Algorithm::Gzip, c@.level),
            c@.level.number() == 50,
    {
        Compressor::new(Algorithm::Gzip)
    }
}

/// When a payload is replaced: compression is on, the payload is large enough, and
/// the result is smaller by as much as is asked for. Otherwise the reason is the first
/// of these that fails.
pub proof fn results_are_kept_if_they_save_enough(s: CompressorState, input: Seq<u8>, z: Seq<u8>)
    requires
        codec::encoded(s.algorithm, s.level, input) == Ok::<Seq<u8>, Seq<char>>(z),
    ensures
        ({
            let on = !(s.algorithm is Identity);
            let large = input.len() >= s.min_size;
            let saves = z.len() < input.len() && z.len() * s.max_ratio.denominator
                <= s.max_ratio.numerator * input.len();
            &&& s.verdict(input) == Verdict::Replace(z) <==> on && large && saves
            &&& s.verdict(input) == Verdict::Skip(SkipReason::Disabled) <==> !on
            &&& s.verdict(input) == Verdict::Skip(SkipReason::TooSmall) <==> on && !large
            &&& s.verdict(input) == Verdict::Skip(SkipReason::NotWorthwhile) <==> on && large
                && !saves
        }),
{
}

/// The codec's failure is passed on, but only where it was asked at all.
pub proof fn failures_come_from_the_codec(s: CompressorState, input: Seq<u8>, reason: Seq<char>)
    ensures
        s.verdict(input) == Verdict::Fail(reason) <==> !(s.algorithm is Identity) && input.len()
            >= s.min_size && codec::encoded(s.algorithm, s.level, input) == Err::<
            Seq<u8>,
            Seq<char>,
        >(reason),
{
}

/// What holds unless it is set otherwise: payloads from 128 bytes on are compressed,
/// a result has to save a twentieth, and no more than 64 MiB is decompressed.
pub proof fn defaults_ask_for_a_twentieth(algorithm: Algorithm, level: Level, n: nat, m: nat)
    ensures
        ({
            let s = CompressorState::initial(algorithm, level);
            &&& s.algorithm == algorithm && s.level == level
            &&& s.min_size == 128
            &&& s.max_output == 64 * 1024 * 1024
            &&& s.worthwhile(m, n) <==> m < n && 20 * m <= 19 * n
        }),
{
}

} // verus!
