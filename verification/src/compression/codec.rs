//! Backend codecs.
//!
//! Decompression enforces an output limit while decompressing rather than
//! after, so that a decompression bomb is stopped before its output is
//! materialized.

use crate::buffers;
use crate::compression::algorithm::{Algorithm, Error, Level, Result};
use bytes::Bytes;
use std::io::{Read, Write};
use vstd::prelude::*;

verus! {

/// Brotli's internal buffer size; 4 KiB is the value its own tools default to.
pub const BROTLI_BUFFER: usize = 4096;

/// Brotli window size (2^22 bytes), Brotli's own default.
pub const BROTLI_LGWIN: u32 = 22;

/// What gzip compression at a level from 0 to 9 makes of `input`, or why it
/// failed.
pub uninterp spec fn gzip_encoded(level: u32, input: Seq<u8>) -> std::result::Result<
    Seq<u8>,
    Seq<char>,
>;

/// The first `limit` bytes that gzip decompression makes of `input`, or why it
/// failed before.
pub uninterp spec fn gzip_decoded(input: Seq<u8>, limit: nat) -> std::result::Result<
    Seq<u8>,
    Seq<char>,
>;

/// What raw DEFLATE compression at a level from 0 to 9 makes of `input`, or why
/// it failed.
pub uninterp spec fn deflate_encoded(level: u32, input: Seq<u8>) -> std::result::Result<
    Seq<u8>,
    Seq<char>,
>;

/// The first `limit` bytes that raw DEFLATE decompression makes of `input`, or
/// why it failed before.
pub uninterp spec fn deflate_decoded(input: Seq<u8>, limit: nat) -> std::result::Result<
    Seq<u8>,
    Seq<char>,
>;

/// What Brotli compression through a buffer of so many bytes, at a quality from 0
/// to 11 and with a window of 2^`lgwin` bytes, makes of `input`, or why it failed.
pub uninterp spec fn brotli_encoded(
    buffer: usize,
    quality: u32,
    lgwin: u32,
    input: Seq<u8>,
) -> std::result::Result<Seq<u8>, Seq<char>>;

/// The first `limit` bytes that Brotli decompression through a buffer of so many
/// bytes makes of `input`, or why it failed before.
pub uninterp spec fn brotli_decoded(
    input: Seq<u8>,
    buffer: usize,
    limit: nat,
) -> std::result::Result<Seq<u8>, Seq<char>>;

/// What Zstandard compression at a level from 1 to 22 makes of `input`, or why
/// it failed.
pub uninterp spec fn zstd_encoded(level: i32, input: Seq<u8>) -> std::result::Result<
    Seq<u8>,
    Seq<char>,
>;

/// The first `limit` bytes that Zstandard decompression makes of `input`, or why
/// it failed before.
pub uninterp spec fn zstd_decoded(input: Seq<u8>, limit: nat) -> std::result::Result<
    Seq<u8>,
    Seq<char>,
>;

/// The first `limit` bytes of `s`.
pub open spec fn at_most(s: Seq<u8>, limit: nat) -> Seq<u8> {
    if s.len() <= limit {
        s
    } else {
        s.take(limit as int)
    }
}

/// A result as values: the bytes, or the text of the reason.
pub open spec fn outcome_of(r: std::result::Result<Vec<u8>, String>) -> std::result::Result<
    Seq<u8>,
    Seq<char>,
> {
    match r {
        Ok(v) => Ok(v@),
        Err(e) => Err(e@),
    }
}

/// Where compression succeeded, gzip decompression makes the input again of the
/// result, as far as one reads.
pub open spec fn gzip_reads_back(
    r: std::result::Result<Vec<u8>, String>,
    input: Seq<u8>,
) -> bool {
    r matches Ok(z) ==> forall|limit: nat|
        #[trigger] gzip_decoded(z@, limit) == Ok::<Seq<u8>, Seq<char>>(at_most(input, limit))
}

/// Where compression succeeded, raw DEFLATE decompression makes the input again of the
/// result, as far as one reads.
pub open spec fn deflate_reads_back(
    r: std::result::Result<Vec<u8>, String>,
    input: Seq<u8>,
) -> bool {
    r matches Ok(z) ==> forall|limit: nat|
        #[trigger] deflate_decoded(z@, limit) == Ok::<Seq<u8>, Seq<char>>(at_most(input, limit))
}

/// Where compression succeeded, Brotli decompression makes the input again of the
/// result, as far as one reads.
pub open spec fn brotli_reads_back(
    r: std::result::Result<Vec<u8>, String>,
    input: Seq<u8>,
) -> bool {
    r matches Ok(z) ==> forall|buffer: usize, limit: nat|
        0 < buffer <= isize::MAX ==> #[trigger] brotli_decoded(z@, buffer, limit) == Ok::<
            Seq<u8>,
            Seq<char>,
        >(at_most(input, limit))
}

/// Where compression succeeded, Zstandard decompression makes the input again of the
/// result, as far as one reads.
pub open spec fn zstd_reads_back(
    r: std::result::Result<Vec<u8>, String>,
    input: Seq<u8>,
) -> bool {
    r matches Ok(z) ==> forall|limit: nat|
        #[trigger] zstd_decoded(z@, limit) == Ok::<Seq<u8>, Seq<char>>(at_most(input, limit))
}

/// `GzEncoder` of the `flate2` crate, over all of `input`. Reading its output
/// back with `GzDecoder` gives the input again, as far as one reads.
#[verifier::external_body]
fn gzip_compress(level: u32, input: &[u8]) -> (r: std::result::Result<Vec<u8>, String>)
    requires
        level <= 9,
    ensures
        outcome_of(r) == gzip_encoded(level, input@),
        gzip_reads_back(r, input@),
{
    let level = flate2::Compression::new(level);
    let mut encoder = flate2::write::GzEncoder::new(Vec::new(), level);
    match encoder.write_all(input) {
        Ok(()) => encoder.finish().map_err(|e| e.to_string()),
        Err(e) => Err(e.to_string()),
    }
}

/// `GzDecoder` of the `flate2` crate, read to its end or up to `limit` bytes.
#[verifier::external_body]
fn gzip_decompress(input: &[u8], limit: u64) -> (r: std::result::Result<Vec<u8>, String>)
    ensures
        outcome_of(r) == gzip_decoded(input@, limit as nat),
        r matches Ok(v) ==> v@.len() <= limit,
{
    let mut out = Vec::new();
    match flate2::read::GzDecoder::new(input).take(limit).read_to_end(&mut out) {
        Ok(_) => Ok(out),
        Err(e) => Err(e.to_string()),
    }
}

/// `DeflateEncoder` of the `flate2` crate, over all of `input`. Reading its
/// output back with `DeflateDecoder` gives the input again, as far as one reads.
#[verifier::external_body]
fn deflate_compress(level: u32, input: &[u8]) -> (r: std::result::Result<Vec<u8>, String>)
    requires
        level <= 9,
    ensures
        outcome_of(r) == deflate_encoded(level, input@),
        deflate_reads_back(r, input@),
{
    let level = flate2::Compression::new(level);
    let mut encoder = flate2::write::DeflateEncoder::new(Vec::new(), level);
    match encoder.write_all(input) {
        Ok(()) => encoder.finish().map_err(|e| e.to_string()),
        Err(e) => Err(e.to_string()),
    }
}

/// `DeflateDecoder` of the `flate2` crate, read to its end or up to `limit`
/// bytes.
#[verifier::external_body]
fn deflate_decompress(input: &[u8], limit: u64) -> (r: std::result::Result<Vec<u8>, String>)
    ensures
        outcome_of(r) == deflate_decoded(input@, limit as nat),
        r matches Ok(v) ==> v@.len() <= limit,
{
    let mut out = Vec::new();
    match flate2::read::DeflateDecoder::new(input).take(limit).read_to_end(&mut out) {
        Ok(_) => Ok(out),
        Err(e) => Err(e.to_string()),
    }
}

/// `CompressorWriter` of the `brotli` crate, over all of `input`. With the feature
/// `portable-float`, which this crate enables, the encoder weighs its choices by
/// tables alone, so that its output is the same on every machine. Reading that
/// back with `Decompressor` gives the input again, as far as one reads.
#[verifier::external_body]
fn brotli_compress(
    buffer: usize,
    quality: u32,
    lgwin: u32,
    input: &[u8],
) -> (r: std::result::Result<Vec<u8>, String>)
    requires
        0 < buffer <= isize::MAX,
        quality <= 11,
        10 <= lgwin <= 24,
    ensures
        outcome_of(r) == brotli_encoded(buffer, quality, lgwin, input@),
        brotli_reads_back(r, input@),
{
    let mut out = Vec::new();
    let mut writer = brotli::CompressorWriter::new(&mut out, buffer, quality, lgwin);
    let written = writer.write_all(input).and_then(|()| writer.flush());
    drop(writer);
    match written {
        Ok(()) => Ok(out),
        Err(e) => Err(e.to_string()),
    }
}

/// `Decompressor` of the `brotli` crate, read to its end or up to `limit` bytes.
#[verifier::external_body]
fn brotli_decompress(
    input: &[u8],
    buffer: usize,
    limit: u64,
) -> (r: std::result::Result<Vec<u8>, String>)
    requires
        0 < buffer <= isize::MAX,
    ensures
        outcome_of(r) == brotli_decoded(input@, buffer, limit as nat),
        r matches Ok(v) ==> v@.len() <= limit,
{
    let mut out = Vec::new();
    match brotli::Decompressor::new(input, buffer).take(limit).read_to_end(&mut out) {
        Ok(_) => Ok(out),
        Err(e) => Err(e.to_string()),
    }
}

/// `zstd::stream::encode_all`. Reading its output back with
/// `zstd::stream::read::Decoder` gives the input again, as far as one reads.
#[verifier::external_body]
fn zstd_compress(level: i32, input: &[u8]) -> (r: std::result::Result<Vec<u8>, String>)
    requires
        1 <= level <= 22,
    ensures
        outcome_of(r) == zstd_encoded(level, input@),
        zstd_reads_back(r, input@),
{
    zstd::stream::encode_all(input, level).map_err(|e| e.to_string())
}

/// `zstd::stream::read::Decoder`, read to its end or up to `limit` bytes.
#[verifier::external_body]
fn zstd_decompress(input: &[u8], limit: u64) -> (r: std::result::Result<Vec<u8>, String>)
    ensures
        outcome_of(r) == zstd_decoded(input@, limit as nat),
        r matches Ok(v) ==> v@.len() <= limit,
{
    let mut out = Vec::new();
    let read = zstd::stream::read::Decoder::new(input).and_then(
        |decoder| decoder.take(limit).read_to_end(&mut out),
    );
    match read {
        Ok(_) => Ok(out),
        Err(e) => Err(e.to_string()),
    }
}

/// What an algorithm makes of `input` at a level, or why it failed.
pub open spec fn encoded(algorithm: Algorithm, level: Level, input: Seq<u8>) -> std::result::Result<
    Seq<u8>,
    Seq<char>,
> {
    match algorithm {
        Algorithm::Identity => Ok(input),
        Algorithm::Gzip => gzip_encoded(level.scaled(0, 9) as u32, input),
        Algorithm::Deflate => deflate_encoded(level.scaled(0, 9) as u32, input),
        Algorithm::Brotli => brotli_encoded(
            BROTLI_BUFFER,
            level.scaled(0, 11) as u32,
            BROTLI_LGWIN,
            input,
        ),
        Algorithm::Zstd => zstd_encoded(level.scaled(1, 22) as i32, input),
    }
}

/// The first `limit` bytes that an algorithm makes of `input` again, or why it
/// failed before.
pub open spec fn decoded(algorithm: Algorithm, input: Seq<u8>, limit: nat) -> std::result::Result<
    Seq<u8>,
    Seq<char>,
> {
    match algorithm {
        Algorithm::Identity => Ok(at_most(input, limit)),
        Algorithm::Gzip => gzip_decoded(input, limit),
        Algorithm::Deflate => deflate_decoded(input, limit),
        Algorithm::Brotli => brotli_decoded(input, BROTLI_BUFFER, limit),
        Algorithm::Zstd => zstd_decoded(input, limit),
    }
}

/// One byte more than a limit, which is enough to tell that it was exceeded.
pub open spec fn one_past(max_output: usize) -> nat {
    if max_output < u64::MAX {
        max_output as nat + 1
    } else {
        u64::MAX as nat
    }
}

/// `r` reports what an algorithm makes of `input` under a limit.
pub open spec fn decompresses_to(
    r: Result<Bytes>,
    algorithm: Algorithm,
    input: Seq<u8>,
    max_output: usize,
) -> bool {
    match decoded(algorithm, input, one_past(max_output)) {
        Ok(out) => if out.len() > max_output {
            r == Err::<Bytes, Error>(Error::OutputTooLarge { max: max_output })
        } else {
            r matches Ok(b) && buffers::shared(b) == out
        },
        Err(reason) => r matches Err(Error::Decompress { algorithm: a, reason: why }) && a
            == algorithm && why@ == reason,
    }
}

/// Reports what a codec delivered when asked to compress.
pub fn finish_compressing(
    algorithm: Algorithm,
    outcome: std::result::Result<Vec<u8>, String>,
) -> (r: Result<Bytes>)
    ensures
        match outcome {
            Ok(v) => r matches Ok(b) && buffers::shared(b) == v@,
            Err(reason) => r == Err::<Bytes, Error>(Error::Compress { algorithm, reason }),
        },
{
    match outcome {
        Ok(v) => Ok(buffers::shared_from_vec(v)),
        Err(reason) => Err(Error::Compress { algorithm, reason }),
    }
}

/// Reports what a codec delivered when asked to decompress one byte more than
/// `max_output`: if it yields that many, the real output is too large.
pub fn finish_decompressing(
    algorithm: Algorithm,
    outcome: std::result::Result<Vec<u8>, String>,
    max_output: usize,
) -> (r: Result<Bytes>)
    ensures
        match outcome {
            Ok(v) => if v@.len() > max_output {
                r == Err::<Bytes, Error>(Error::OutputTooLarge { max: max_output })
            } else {
                r matches Ok(b) && buffers::shared(b) == v@
            },
            Err(reason) => r == Err::<Bytes, Error>(Error::Decompress { algorithm, reason }),
        },
{
    match outcome {
        Ok(v) => if v.len() > max_output {
            Err(Error::OutputTooLarge { max: max_output })
        } else {
            Ok(buffers::shared_from_vec(v))
        },
        Err(reason) => Err(Error::Decompress { algorithm, reason }),
    }
}

/// Compresses `input` with `algorithm` at `level`.
///
/// What comes out can be decompressed to the input again, under any limit that
/// the input respects.
pub fn compress(algorithm: Algorithm, level: Level, input: &[u8]) -> (r: Result<Bytes>)
    ensures
        match encoded(algorithm, level, input@) {
            Ok(z) => r matches Ok(b) && buffers::shared(b) == z,
            Err(reason) => r matches Err(Error::Compress { algorithm: a, reason: why }) && a
                == algorithm && why@ == reason,
        },
        r matches Ok(b) ==> forall|limit: nat|
            #[trigger] decoded(algorithm, buffers::shared(b), limit) == Ok::<Seq<u8>, Seq<char>>(
                at_most(input@, limit),
            ),
{
    match algorithm {
        Algorithm::Identity => Ok(buffers::shared_copy(input)),
        Algorithm::Gzip => {
            let n: u32 = level.scale_to(0, 9) as u32;
            finish_compressing(algorithm, gzip_compress(n, input))
        },
        Algorithm::Deflate => {
            let n: u32 = level.scale_to(0, 9) as u32;
            finish_compressing(algorithm, deflate_compress(n, input))
        },
        Algorithm::Brotli => {
            let n: u32 = level.scale_to(0, 11) as u32;
            finish_compressing(
                algorithm,
                brotli_compress(BROTLI_BUFFER, n, BROTLI_LGWIN, input),
            )
        },
        Algorithm::Zstd => finish_compressing(
            algorithm,
            zstd_compress(level.scale_to(1, 22), input),
        ),
    }
}

/// Decompresses `input`, refusing to produce more than `max_output` bytes.
pub fn decompress(algorithm: Algorithm, input: &[u8], max_output: usize) -> (r: Result<Bytes>)
    ensures
        decompresses_to(r, algorithm, input@, max_output),
        r matches Ok(b) ==> buffers::shared(b).len() <= max_output,
{
    let limit: u64 = (max_output as u64).saturating_add(1);
    let outcome = match algorithm {
        Algorithm::Identity => {
            if input.len() > max_output {
                return Err(Error::OutputTooLarge { max: max_output });
            }
            return Ok(buffers::shared_copy(input));
        },
        Algorithm::Gzip => gzip_decompress(input, limit),
        Algorithm::Deflate => deflate_decompress(input, limit),
        Algorithm::Brotli => brotli_decompress(input, BROTLI_BUFFER, limit),
        Algorithm::Zstd => zstd_decompress(input, limit),
    };
    finish_decompressing(algorithm, outcome, max_output)
}

/// What was compressed comes back when it is decompressed under a limit that
/// it respects, and is refused under a smaller limit.
pub proof fn compressed_data_comes_back(
    algorithm: Algorithm,
    input: Seq<u8>,
    packed: Seq<u8>,
    max_output: usize,
    r: Result<Bytes>,
)
    requires
        forall|limit: nat|
            #[trigger] decoded(algorithm, packed, limit) == Ok::<Seq<u8>, Seq<char>>(
                at_most(input, limit),
            ),
        input.len() <= usize::MAX,
        decompresses_to(r, algorithm, packed, max_output),
    ensures
        if input.len() <= max_output {
            r matches Ok(b) && buffers::shared(b) == input
        } else {
            r == Err::<Bytes, Error>(Error::OutputTooLarge { max: max_output })
        },
{
    assert(decoded(algorithm, packed, one_past(max_output)) == Ok::<Seq<u8>, Seq<char>>(
        at_most(input, one_past(max_output)),
    ));
}

/// Each codec gets the level on its own range, from the least to the most that it can
/// do, and nothing but the input. Without compression the input is left as it is.
pub proof fn levels_reach_each_codec(level: Level, input: Seq<u8>, step: int)
    requires
        level.number() <= 100,
    ensures
        encoded(Algorithm::Identity, level, input) == Ok::<Seq<u8>, Seq<char>>(input),
        100 * step <= 9 * level.number() < 100 * step + 100 ==> {
            &&& encoded(Algorithm::Gzip, level, input) == gzip_encoded(step as u32, input)
            &&& encoded(Algorithm::Deflate, level, input) == deflate_encoded(step as u32, input)
        },
        100 * step <= 11 * level.number() < 100 * step + 100 ==> encoded(
            Algorithm::Brotli,
            level,
            input,
        ) == brotli_encoded(4096, step as u32, 22, input),
        100 * step <= 21 * level.number() < 100 * step + 100 ==> encoded(
            Algorithm::Zstd,
            level,
            input,
        ) == zstd_encoded((1 + step) as i32, input),
{
}

/// What a codec was asked to read back is read by the same codec, and a limit cuts the
/// output off, whole if it fits: the first bytes, as many as the limit allows.
pub proof fn limits_cut_off_the_rest(input: Seq<u8>, limit: nat, max_output: usize)
    ensures
        decoded(Algorithm::Gzip, input, limit) == gzip_decoded(input, limit),
        decoded(Algorithm::Deflate, input, limit) == deflate_decoded(input, limit),
        decoded(Algorithm::Brotli, input, limit) == brotli_decoded(input, 4096, limit),
        decoded(Algorithm::Zstd, input, limit) == zstd_decoded(input, limit),
        decoded(Algorithm::Identity, input, limit) == Ok::<Seq<u8>, Seq<char>>(
            at_most(input, limit),
        ),
        at_most(input, limit).is_prefix_of(input),
        input.len() <= limit ==> at_most(input, limit) == input,
        input.len() > limit ==> at_most(input, limit).len() == limit,
        max_output < u64::MAX ==> one_past(max_output) == max_output + 1,
{
}

/// Nothing larger than the limit ever comes out of decompression, and what is too
/// large is refused by naming the limit.
pub proof fn outputs_respect_the_limit(
    r: Result<Bytes>,
    algorithm: Algorithm,
    input: Seq<u8>,
    max_output: usize,
    out: Seq<u8>,
)
    requires
        max_output < u64::MAX,
        decompresses_to(r, algorithm, input, max_output),
        decoded(algorithm, input, (max_output + 1) as nat) == Ok::<Seq<u8>, Seq<char>>(out),
    ensures
        out.len() <= max_output <==> r is Ok,
        r matches Ok(b) ==> buffers::shared(b) == out,
        r matches Err(e) ==> e == (Error::OutputTooLarge { max: max_output }),
{
}

} // verus!
