//! Compression algorithms, levels, and errors.

use crate::text;
use std::str::FromStr;
use vstd::prelude::*;

verus! {

/// The result of a compression operation.
pub type Result<T> = std::result::Result<T, Error>;

/// An error produced while compressing or decompressing a payload.
#[derive(Debug, PartialEq, Eq)]
#[non_exhaustive]
pub enum Error {
    /// Compression failed inside the codec.
    Compress {
        /// The algorithm that was attempted.
        algorithm: Algorithm,
        /// The underlying reason reported by the codec.
        reason: String,
    },
    /// Decompression failed, usually because the input is corrupt or truncated.
    Decompress {
        /// The algorithm that was attempted.
        algorithm: Algorithm,
        /// The underlying reason reported by the codec.
        reason: String,
    },
    /// Decompressed output exceeded the caller's limit.
    ///
    /// This is the defense against a decompression bomb: a small input that
    /// expands to an enormous output. The limit is enforced during
    /// decompression, so the oversized data is never fully materialized.
    OutputTooLarge {
        /// The configured maximum output length.
        max: usize,
    },
    /// An algorithm identifier was not recognized.
    UnknownAlgorithm {
        /// The unrecognized identifier.
        value: String,
    },
    /// The requested algorithm exists but was not compiled into this build.
    AlgorithmUnavailable {
        /// The algorithm that is compiled out.
        algorithm: Algorithm,
    },
}

impl Error {
    /// What the error says.
    pub open spec fn text(self) -> Seq<char> {
        match self {
            Error::Compress { algorithm, reason } => "failed to compress with "@ + algorithm.text()
                + ": "@ + reason@,
            Error::Decompress { algorithm, reason } => "failed to decompress "@ + algorithm.text()
                + ": "@ + reason@,
            Error::OutputTooLarge { max } => "decompressed output exceeds maximum of "@
                + text::decimal(max as nat) + " bytes"@,
            Error::UnknownAlgorithm { value } => "unknown compression algorithm: "@ + value@,
            Error::AlgorithmUnavailable { algorithm } => "algorithm "@ + algorithm.text()
                + " is not enabled; rebuild with its cargo feature"@,
        }
    }

    /// Returns what the error says.
    pub fn to_string(&self) -> (s: String)
        ensures
            s@ == self.text(),
    {
        match self {
            Error::Compress { algorithm, reason } => {
                let mut s = "failed to compress with ".to_owned();
                s.append(algorithm.to_string().as_str());
                s.append(": ");
                s.append(reason.as_str());
                s
            },
            Error::Decompress { algorithm, reason } => {
                let mut s = "failed to decompress ".to_owned();
                s.append(algorithm.to_string().as_str());
                s.append(": ");
                s.append(reason.as_str());
                s
            },
            Error::OutputTooLarge { max } => {
                let mut s = "decompressed output exceeds maximum of ".to_owned();
                text::push_decimal(&mut s, *max as u128);
                s.append(" bytes");
                s
            },
            Error::UnknownAlgorithm { value } => {
                let mut s = "unknown compression algorithm: ".to_owned();
                s.append(value.as_str());
                s
            },
            Error::AlgorithmUnavailable { algorithm } => {
                let mut s = "algorithm ".to_owned();
                s.append(algorithm.to_string().as_str());
                s.append(" is not enabled; rebuild with its cargo feature");
                s
            },
        }
    }
}

/// A compression algorithm.
///
/// The discriminants are stable and travel on the wire, so that a peer knows how
/// to decompress what it received.
#[derive(Debug, Clone, Copy, PartialEq, Eq, Hash, Structural)]
#[non_exhaustive]
pub enum Algorithm {
    /// No compression. Always available.
    Identity,
    /// DEFLATE in a gzip container. Ubiquitous and widely interoperable.
    Gzip,
    /// Raw DEFLATE, without the gzip header and trailer.
    Deflate,
    /// Brotli. Best ratio of the pure-Rust codecs, slower to compress.
    Brotli,
    /// Zstandard. Best speed-to-ratio balance; requires a C toolchain.
    Zstd,
}

impl Algorithm {
    /// The stable wire discriminant.
    pub open spec fn code(self) -> u8 {
        match self {
            Algorithm::Identity => 0x00,
            Algorithm::Gzip => 0x01,
            Algorithm::Deflate => 0x02,
            Algorithm::Brotli => 0x03,
            Algorithm::Zstd => 0x04,
        }
    }

    /// The algorithm with a given discriminant, if there is one.
    pub open spec fn of_code(value: u8) -> Option<Algorithm> {
        if value == 0x00 {
            Some(Algorithm::Identity)
        } else if value == 0x01 {
            Some(Algorithm::Gzip)
        } else if value == 0x02 {
            Some(Algorithm::Deflate)
        } else if value == 0x03 {
            Some(Algorithm::Brotli)
        } else if value == 0x04 {
            Some(Algorithm::Zstd)
        } else {
            None
        }
    }

    /// Reading back a discriminant gives the algorithm, and every discriminant
    /// that can be read belongs to the algorithm it was read as.
    pub proof fn codes_round_trip(self, value: u8)
        ensures
            Algorithm::of_code(self.code()) == Some(self),
            Algorithm::of_code(value) == Some(self) ==> self.code() == value,
    {
    }

    /// Returns the stable wire discriminant.
    pub fn as_u8(self) -> (value: u8)
        ensures
            value == self.code(),
    {
        match self {
            Algorithm::Identity => 0x00,
            Algorithm::Gzip => 0x01,
            Algorithm::Deflate => 0x02,
            Algorithm::Brotli => 0x03,
            Algorithm::Zstd => 0x04,
        }
    }

    /// Parses an algorithm from its wire discriminant.
    pub fn from_u8(value: u8) -> (r: Result<Algorithm>)
        ensures
            match Algorithm::of_code(value) {
                Some(a) => r == Ok::<Algorithm, Error>(a),
                None => r matches Err(Error::UnknownAlgorithm { value: v }) && v@ == "0x"@
                    + text::padded(value as nat, 16, 2),
            },
    {
        match value {
            0x00 => Ok(Algorithm::Identity),
            0x01 => Ok(Algorithm::Gzip),
            0x02 => Ok(Algorithm::Deflate),
            0x03 => Ok(Algorithm::Brotli),
            0x04 => Ok(Algorithm::Zstd),
            other => {
                let mut text = "0x".to_owned();
                text::push_padded(&mut text, other as u128, 16, 2);
                Err(Error::UnknownAlgorithm { value: text })
            },
        }
    }

    /// Returns `true` if this algorithm is compiled into the current build.
    /// Every one is.
    pub fn is_available(self) -> (r: bool)
        ensures
            r,
    {
        true
    }

    /// Returns `true` if this algorithm needs a C toolchain to build.
    ///
    /// Only [`Algorithm::Zstd`] does; the rest are pure Rust.
    pub fn requires_c_toolchain(self) -> (r: bool)
        ensures
            r == (self is Zstd),
    {
        match self {
            Algorithm::Zstd => true,
            _ => false,
        }
    }

    /// Returns every algorithm this build was compiled with.
    pub fn available() -> (all: Vec<Algorithm>)
        ensures
            all@ == seq![
                Algorithm::Identity,
                Algorithm::Gzip,
                Algorithm::Deflate,
                Algorithm::Brotli,
                Algorithm::Zstd,
            ],
    {
        let mut all: Vec<Algorithm> = Vec::new();
        all.push(Algorithm::Identity);
        all.push(Algorithm::Gzip);
        all.push(Algorithm::Deflate);
        all.push(Algorithm::Brotli);
        all.push(Algorithm::Zstd);
        assert(all@ =~= seq![
            Algorithm::Identity,
            Algorithm::Gzip,
            Algorithm::Deflate,
            Algorithm::Brotli,
            Algorithm::Zstd,
        ]);
        all
    }

    /// The name of the algorithm.
    pub open spec fn text(self) -> Seq<char> {
        match self {
            Algorithm::Identity => "none"@,
            Algorithm::Gzip => "gzip"@,
            Algorithm::Deflate => "deflate"@,
            Algorithm::Brotli => "brotli"@,
            Algorithm::Zstd => "zstd"@,
        }
    }

    /// Returns the name of the algorithm.
    pub fn to_string(&self) -> (s: String)
        ensures
            s@ == self.text(),
    {
        match self {
            Algorithm::Identity => "none".to_owned(),
            Algorithm::Gzip => "gzip".to_owned(),
            Algorithm::Deflate => "deflate".to_owned(),
            Algorithm::Brotli => "brotli".to_owned(),
            Algorithm::Zstd => "zstd".to_owned(),
        }
    }

    /// The algorithm that a lower-case name or alias stands for.
    pub open spec fn of_name(name: Seq<char>) -> Option<Algorithm> {
        if name == "none"@ || name == "identity"@ {
            Some(Algorithm::Identity)
        } else if name == "gzip"@ || name == "gz"@ {
            Some(Algorithm::Gzip)
        } else if name == "deflate"@ {
            Some(Algorithm::Deflate)
        } else if name == "brotli"@ || name == "br"@ {
            Some(Algorithm::Brotli)
        } else if name == "zstd"@ || name == "zstandard"@ {
            Some(Algorithm::Zstd)
        } else {
            None
        }
    }

    /// Returns the algorithm that a name or alias stands for, in upper or lower
    /// case.
    pub fn from_name(s: &str) -> (r: Result<Algorithm>)
        ensures
            match Algorithm::of_name(text::lowered(s@)) {
                Some(a) => r == Ok::<Algorithm, Error>(a),
                None => r matches Err(Error::UnknownAlgorithm { value }) && value@ == text::lowered(
                    s@,
                ),
            },
    {
        let lower = text::lowercase(s);
        let name = lower.as_str();
        if text::same(name, "none") || text::same(name, "identity") {
            Ok(Algorithm::Identity)
        } else if text::same(name, "gzip") || text::same(name, "gz") {
            Ok(Algorithm::Gzip)
        } else if text::same(name, "deflate") {
            Ok(Algorithm::Deflate)
        } else if text::same(name, "brotli") || text::same(name, "br") {
            Ok(Algorithm::Brotli)
        } else if text::same(name, "zstd") || text::same(name, "zstandard") {
            Ok(Algorithm::Zstd)
        } else {
            Err(Error::UnknownAlgorithm { value: lower })
        }
    }

    /// Every algorithm is known by its own name.
    pub proof fn names_round_trip(self)
        ensures
            Algorithm::of_name(self.text()) == Some(self),
            text::lowered(self.text()) == self.text(),
    {
        reveal_strlit("none");
        reveal_strlit("identity");
        reveal_strlit("gzip");
        reveal_strlit("gz");
        reveal_strlit("deflate");
        reveal_strlit("brotli");
        reveal_strlit("br");
        reveal_strlit("zstd");
        reveal_strlit("zstandard");
        assert(text::lowered(self.text()) =~= self.text());
        assert("none"@[0] == 'n' && "identity"@[0] == 'i' && "gzip"@[0] == 'g' && "gz"@[0] == 'g'
            && "deflate"@[0] == 'd' && "brotli"@[0] == 'b' && "zstd"@[0] == 'z');
        assert("gz"@.len() == 2 && "br"@.len() == 2);
    }
}

impl Default for Algorithm {
    /// The algorithm used when a peer expresses no preference.
    fn default() -> (a: Algorithm)
        ensures
            a == Algorithm::Gzip,
    {
        Algorithm::Gzip
    }
}

impl FromStr for Algorithm {
    type Err = Error;

    fn from_str(s: &str) -> (r: std::result::Result<Algorithm, Error>)
        ensures
            match Algorithm::of_name(text::lowered(s@)) {
                Some(a) => r == Ok::<Algorithm, Error>(a),
                None => r matches Err(Error::UnknownAlgorithm { value }) && value@ == text::lowered(
                    s@,
                ),
            },
    {
        Algorithm::from_name(s)
    }
}

/// A normalized compression level.
///
/// Codecs disagree about what their level numbers mean: gzip accepts 0 to 9,
/// Brotli 0 to 11, and Zstd 1 to 22. [`Level`] is an abstract scale from 0 to
/// 100 that each backend maps onto its own range.
#[derive(Debug, Clone, Copy, PartialEq, Eq, PartialOrd, Ord, Hash, Structural)]
pub struct Level {
    value: u8,
}

impl Level {
    /// The level on the scale from 0 to 100.
    pub closed spec fn number(self) -> u8 {
        self.value
    }

    /// No level lies beyond the scale.
    #[verifier::type_invariant]
    pub closed spec fn on_scale(self) -> bool {
        self.value <= 100
    }

    /// A level is its number, and it is on the scale if that is at most 100.
    pub proof fn level_is_its_number(a: Level, b: Level)
        ensures
            a.number() == b.number() <==> a == b,
            a.on_scale() == (a.number() <= 100),
    {
    }

    /// Prioritizes speed over ratio.
    pub fn fast() -> (l: Level)
        ensures
            l.number() == 15,
    {
        Level { value: 15 }
    }

    /// A balanced default suitable for most traffic.
    pub fn balanced() -> (l: Level)
        ensures
            l.number() == 50,
    {
        Level { value: 50 }
    }

    /// Prioritizes ratio over speed.
    pub fn best() -> (l: Level)
        ensures
            l.number() == 90,
    {
        Level { value: 90 }
    }

    /// Creates a level from a scale of 0 to 100, clamping out-of-range input: a
    /// level of 150 means "as small as possible", which is unambiguous.
    pub fn new(value: u8) -> (l: Level)
        ensures
            l.number() == if value > 100 {
                100
            } else {
                value
            },
    {
        Level {
            value: if value > 100 {
                100
            } else {
                value
            },
        }
    }

    /// Returns the abstract level on the scale from 0 to 100.
    pub fn get(self) -> (n: u8)
        ensures
            n == self.number(),
            n <= 100,
    {
        proof {
            use_type_invariant(&self);
        }
        self.value
    }

    /// The level mapped onto an inclusive backend range.
    pub open spec fn scaled(self, min: int, max: int) -> int {
        min + (max - min) * self.number() / 100
    }

    /// Maps this level onto an inclusive backend range.
    pub fn scale_to(self, min: i32, max: i32) -> (n: i32)
        requires
            min <= max,
            (max - min) * 100 <= i32::MAX,
        ensures
            n == self.scaled(min as int, max as int),
            min <= n <= max,
    {
        proof {
            use_type_invariant(&self);
        }
        let span: i32 = max - min;
        let value: i32 = self.value as i32;
        assert(0 <= span * value <= span * 100) by (nonlinear_arith)
            requires
                0 <= span,
                0 <= value <= 100,
        ;
        min + (span * value) / 100
    }

    /// Scaling covers a range from end to end, never leaves it, and never turns
    /// a higher level into a lower one.
    pub proof fn scaling_fits(a: Level, b: Level, min: int, max: int)
        requires
            min <= max,
            a.number() <= b.number() <= 100,
        ensures
            min <= a.scaled(min, max) <= b.scaled(min, max) <= max,
            a.number() == 0 ==> a.scaled(min, max) == min,
            a.number() == 100 ==> a.scaled(min, max) == max,
    {
        let span = max - min;
        let x = a.number() as int;
        let y = b.number() as int;
        assert(0 <= span * x <= span * y <= span * 100) by (nonlinear_arith)
            requires
                0 <= span,
                0 <= x <= y <= 100,
        ;
        assert(x == 0 ==> span * x == 0) by (nonlinear_arith);
        assert(x == 100 ==> span * x == 100 * span) by (nonlinear_arith);
    }

    /// Returns the level in writing.
    pub fn to_string(&self) -> (s: String)
        ensures
            s@ == text::decimal(self.number() as nat),
    {
        let mut s = String::new();
        text::push_decimal(&mut s, self.value as u128);
        assert(s@ =~= text::decimal(self.number() as nat));
        s
    }
}

impl Default for Level {
    fn default() -> (l: Level)
        ensures
            l.number() == 50,
    {
        Level::balanced()
    }
}

/// The codes that travel are these five, and no other code names an algorithm.
pub proof fn codes_are_stable(value: u8)
    ensures
        Algorithm::Identity.code() == 0,
        Algorithm::Gzip.code() == 1,
        Algorithm::Deflate.code() == 2,
        Algorithm::Brotli.code() == 3,
        Algorithm::Zstd.code() == 4,
        Algorithm::of_code(value) is None <==> value > 4,
{
    Algorithm::Identity.codes_round_trip(value);
}

/// Every algorithm goes by one name, three of them also by a shorter or longer one,
/// and nothing else is a name.
pub proof fn names_stand_for_algorithms(name: Seq<char>)
    ensures
        Algorithm::of_name(name) == Some(Algorithm::Identity) <==> name == "none"@ || name
            == "identity"@,
        Algorithm::of_name(name) == Some(Algorithm::Gzip) <==> name == "gzip"@ || name == "gz"@,
        Algorithm::of_name(name) == Some(Algorithm::Deflate) <==> name == "deflate"@,
        Algorithm::of_name(name) == Some(Algorithm::Brotli) <==> name == "brotli"@ || name
            == "br"@,
        Algorithm::of_name(name) == Some(Algorithm::Zstd) <==> name == "zstd"@ || name
            == "zstandard"@,
{
    reveal_strlit("none");
    reveal_strlit("identity");
    reveal_strlit("gzip");
    reveal_strlit("gz");
    reveal_strlit("deflate");
    reveal_strlit("brotli");
    reveal_strlit("br");
    reveal_strlit("zstd");
    reveal_strlit("zstandard");
    assert("none"@[0] == 'n' && "identity"@[0] == 'i' && "gzip"@[0] == 'g' && "gz"@[0] == 'g'
        && "deflate"@[0] == 'd' && "brotli"@[0] == 'b' && "br"@[0] == 'b' && "zstd"@[0] == 'z'
        && "zstandard"@[0] == 'z');
}

/// A level lies as far into any range as into its own, to the step below.
pub proof fn levels_keep_their_place(level: Level, min: int, max: int)
    requires
        min <= max,
    ensures
        100 * (level.scaled(min, max) - min) <= (max - min) * level.number() < 100 * (level.scaled(
            min,
            max,
        ) - min) + 100,
{
    let a = (max - min) * level.number();
    assert(a >= 0) by (nonlinear_arith)
        requires
            a == (max - min) * level.number(),
            min <= max,
    ;
}

} // verus!
