//! Codecs, levels and the policy that decides when to compress.

use nexusnet::compression::{
    compress, decompress, default_max_ratio, Algorithm, Compressor, Error, Level, Outcome,
    SkipReason,
};
use nexusnet::ratio::Ratio;

#[test]
fn discriminants_are_stable() {
    assert_eq!(Algorithm::Identity.as_u8(), 0x00);
    assert_eq!(Algorithm::Gzip.as_u8(), 0x01);
    assert_eq!(Algorithm::Deflate.as_u8(), 0x02);
    assert_eq!(Algorithm::Brotli.as_u8(), 0x03);
    assert_eq!(Algorithm::Zstd.as_u8(), 0x04);
}

#[test]
fn algorithms_roundtrip_through_u8() {
    for algorithm in [
        Algorithm::Identity,
        Algorithm::Gzip,
        Algorithm::Deflate,
        Algorithm::Brotli,
        Algorithm::Zstd,
    ] {
        assert_eq!(
            Algorithm::from_u8(algorithm.as_u8()).expect("known algorithm"),
            algorithm
        );
    }
}

#[test]
fn unknown_discriminant_is_rejected() {
    assert!(matches!(
        Algorithm::from_u8(0x7F),
        Err(Error::UnknownAlgorithm { .. })
    ));
}

#[test]
fn algorithms_parse_from_names_and_aliases() {
    assert_eq!("GZIP".parse::<Algorithm>().expect("known"), Algorithm::Gzip);
    assert_eq!("br".parse::<Algorithm>().expect("known"), Algorithm::Brotli);
    assert_eq!(
        "identity".parse::<Algorithm>().expect("known"),
        Algorithm::Identity
    );
    assert!("lzma".parse::<Algorithm>().is_err());
}

#[test]
fn none_is_always_available() {
    assert!(Algorithm::Identity.is_available());
    assert!(Algorithm::available().contains(&Algorithm::Identity));
}

#[test]
fn only_zstd_needs_a_c_toolchain() {
    assert!(Algorithm::Zstd.requires_c_toolchain());
    for algorithm in [
        Algorithm::Identity,
        Algorithm::Gzip,
        Algorithm::Deflate,
        Algorithm::Brotli,
    ] {
        assert!(!algorithm.requires_c_toolchain());
    }
}

#[test]
fn levels_clamp_to_the_scale() {
    assert_eq!(Level::new(200).get(), 100);
    assert_eq!(Level::new(0).get(), 0);
    assert_eq!(Level::default(), Level::balanced());
    assert!(Level::fast() < Level::balanced());
    assert!(Level::balanced() < Level::best());
}

#[test]
fn level_scaling_covers_backend_ranges() {
    assert_eq!(Level::new(0).scale_to(0, 9), 0);
    assert_eq!(Level::new(100).scale_to(0, 9), 9);
    assert_eq!(Level::new(100).scale_to(1, 22), 22);
    assert_eq!(Level::new(0).scale_to(1, 22), 1);

    // Intermediate levels stay inside the range.
    for raw in 0..=100_u8 {
        let scaled = Level::new(raw).scale_to(0, 11);
        assert!((0..=11).contains(&scaled), "level {raw} mapped to {scaled}");
    }
}

/// Text-like data with realistic redundancy, rather than a single repeated byte
/// (which every codec crushes and which would hide real differences).
fn compressible(size: usize) -> Vec<u8> {
    let sentence = b"the quick brown fox jumps over the lazy dog; ";
    sentence.iter().copied().cycle().take(size).collect()
}

/// Pseudo-random bytes standing in for already-compressed or encrypted data.
/// A simple LCG keeps this deterministic without a dependency.
fn incompressible(size: usize) -> Vec<u8> {
    let mut state = 0x2545_F491_4F6C_DD1D_u64;
    (0..size)
        .map(|_| {
            state = state
                .wrapping_mul(6_364_136_223_846_793_005)
                .wrapping_add(1_442_695_040_888_963_407);
            u8::try_from(state >> 56).unwrap_or(0)
        })
        .collect()
}

/// Every codec available in this build, excluding the no-op.
fn real_algorithms() -> Vec<Algorithm> {
    Algorithm::available()
        .into_iter()
        .filter(|a| *a != Algorithm::Identity)
        .collect()
}

/// A real codec that exists in this build.
///
/// `Algorithm::default()` is gzip, which is absent from a brotli-only or
/// zstd-only build, so tests that just need "some working codec" use this.
fn any_algorithm() -> Algorithm {
    real_algorithms()
        .first()
        .copied()
        .expect("the crate requires at least one codec feature")
}

#[test]
fn every_available_codec_round_trips() {
    let original = compressible(16_384);

    for algorithm in Algorithm::available() {
        let packed = compress(algorithm, Level::balanced(), &original)
            .unwrap_or_else(|e| panic!("{algorithm:?} compresses: {e:?}"));
        let restored = decompress(algorithm, &packed, 1 << 20)
            .unwrap_or_else(|e| panic!("{algorithm:?} decompresses: {e:?}"));

        assert_eq!(restored.as_ref(), original.as_slice(), "{algorithm:?}");
    }
}

#[test]
fn every_codec_round_trips_at_every_level() {
    let original = compressible(4096);

    for algorithm in real_algorithms() {
        for level in [Level::fast(), Level::balanced(), Level::best()] {
            let packed = compress(algorithm, level, &original)
                .unwrap_or_else(|e| panic!("{algorithm:?} at level {level:?}: {e:?}"));
            let restored = decompress(algorithm, &packed, 1 << 20)
                .unwrap_or_else(|e| panic!("{algorithm:?} at level {level:?}: {e:?}"));

            assert_eq!(
                restored.as_ref(),
                original.as_slice(),
                "{algorithm:?}/{level:?}"
            );
        }
    }
}

#[test]
fn empty_and_tiny_inputs_round_trip() {
    for algorithm in Algorithm::available() {
        for original in [b"".as_slice(), b"x".as_slice(), b"hello".as_slice()] {
            let packed = compress(algorithm, Level::balanced(), original)
                .unwrap_or_else(|e| panic!("{algorithm:?}: {e:?}"));
            let restored = decompress(algorithm, &packed, 1 << 16)
                .unwrap_or_else(|e| panic!("{algorithm:?}: {e:?}"));

            assert_eq!(restored.as_ref(), original, "{algorithm:?}");
        }
    }
}

#[test]
fn codecs_actually_shrink_compressible_data() {
    let original = compressible(32_768);

    for algorithm in real_algorithms() {
        let packed =
            compress(algorithm, Level::balanced(), &original).expect("compressible data compresses");
        assert!(
            packed.len() < original.len() / 4,
            "{algorithm:?} produced {} bytes from {}",
            packed.len(),
            original.len()
        );
    }
}

#[test]
fn corrupt_input_is_an_error_not_a_panic() {
    for algorithm in real_algorithms() {
        let packed =
            compress(algorithm, Level::balanced(), &compressible(2048)).expect("data compresses");

        let mut corrupted = packed.to_vec();
        let midpoint = corrupted.len() / 2;
        corrupted[midpoint] ^= 0xFF;
        corrupted.truncate(corrupted.len() - 1);

        // Must not panic; a wrong answer is unacceptable but an error is fine.
        let result = decompress(algorithm, &corrupted, 1 << 20);
        if let Ok(output) = result {
            assert_ne!(
                output.as_ref(),
                compressible(2048).as_slice(),
                "{algorithm:?} silently accepted corrupted input"
            );
        }
    }
}

#[test]
fn a_decompression_bomb_is_rejected() {
    // A megabyte of zeros compresses to a tiny payload that would expand back.
    let bomb_source = vec![0_u8; 1024 * 1024];

    for algorithm in real_algorithms() {
        let packed = compress(algorithm, Level::best(), &bomb_source).expect("zeros compress well");

        assert!(
            packed.len() < 8192,
            "{algorithm:?} should compress zeros aggressively"
        );

        // Refuse to expand it into a small buffer.
        let err = decompress(algorithm, &packed, 4096)
            .expect_err("must refuse to exceed the limit");
        assert!(
            matches!(err, Error::OutputTooLarge { max: 4096 }),
            "{algorithm:?} gave {err:?}"
        );

        // The same payload is fine when the limit accommodates it.
        let restored =
            decompress(algorithm, &packed, 2 * 1024 * 1024).expect("fits within a larger limit");
        assert_eq!(restored.len(), bomb_source.len());
    }
}

#[test]
fn adaptive_skips_small_payloads() {
    let compressor = Compressor::new(any_algorithm());
    let outcome = compressor.compress(b"ack").expect("no codec failure");

    assert!(!outcome.is_compressed());
    assert_eq!(outcome.algorithm(), Algorithm::Identity);
    assert_eq!(outcome.bytes_saved(), 0);
    assert!(matches!(
        outcome,
        Outcome::Skipped {
            reason: SkipReason::TooSmall,
            ..
        }
    ));
}

#[test]
fn adaptive_skips_incompressible_payloads() {
    let random = incompressible(8192);

    for algorithm in real_algorithms() {
        let compressor = Compressor::new(algorithm);
        let outcome = compressor.compress(&random).expect("no codec failure");

        assert!(
            !outcome.is_compressed(),
            "{algorithm:?} should decline random data, got ratio {:?}",
            outcome.ratio()
        );
        assert_eq!(outcome.data().as_ref(), random.as_slice());
    }
}

#[test]
fn adaptive_compresses_worthwhile_payloads() {
    let original = compressible(16_384);

    for algorithm in real_algorithms() {
        let compressor = Compressor::new(algorithm);
        let outcome = compressor.compress(&original).expect("no codec failure");

        assert!(outcome.is_compressed(), "{algorithm:?} should compress text");
        assert_eq!(outcome.algorithm(), algorithm);
        assert!(
            outcome.ratio().numerator * 2 < outcome.ratio().denominator,
            "{algorithm:?} ratio {:?}",
            outcome.ratio()
        );
        assert!(outcome.bytes_saved() > 0);

        let restored = compressor.restore(&outcome).expect("round-trips");
        assert_eq!(restored.as_ref(), original.as_slice(), "{algorithm:?}");
    }
}

#[test]
fn skipped_outcomes_still_restore() {
    let compressor = Compressor::new(any_algorithm());
    let tiny = b"short";

    let outcome = compressor.compress(tiny).expect("no codec failure");
    let restored = compressor.restore(&outcome).expect("restores");

    assert_eq!(restored.as_ref(), tiny);
}

#[test]
fn algorithm_none_passes_data_through() {
    let compressor = Compressor::new(Algorithm::Identity);
    let original = compressible(4096);

    let outcome = compressor.compress(&original).expect("no codec failure");
    assert!(matches!(
        outcome,
        Outcome::Skipped {
            reason: SkipReason::Disabled,
            ..
        }
    ));
    assert_eq!(outcome.data().as_ref(), original.as_slice());
}

#[test]
fn policy_thresholds_are_configurable() {
    let original = compressible(256);

    // Default policy compresses a 256-byte payload.
    let permissive = Compressor::new(any_algorithm());
    assert!(permissive.compress(&original).expect("ok").is_compressed());

    // Raising the minimum size makes the same payload skip.
    let strict = Compressor::new(any_algorithm()).with_min_size(1024);
    assert!(!strict.compress(&original).expect("ok").is_compressed());

    // Demanding an impossible ratio also skips.
    let impossible = Compressor::new(any_algorithm()).with_max_ratio(Ratio::new(0, 1));
    assert!(!impossible.compress(&original).expect("ok").is_compressed());
}

#[test]
fn compressor_enforces_its_output_limit() {
    let compressor = Compressor::new(any_algorithm()).with_max_output(1024);
    let original = compressible(64 * 1024);

    let outcome = compressor.compress(&original).expect("compresses");
    assert!(outcome.is_compressed());

    let err = compressor
        .restore(&outcome)
        .expect_err("restoring exceeds the configured limit");
    assert!(matches!(err, Error::OutputTooLarge { max: 1024 }));
}

#[test]
fn unavailable_algorithms_report_clearly() {
    for algorithm in [
        Algorithm::Gzip,
        Algorithm::Deflate,
        Algorithm::Brotli,
        Algorithm::Zstd,
    ] {
        if algorithm.is_available() {
            continue;
        }

        let err = compress(algorithm, Level::balanced(), b"data")
            .expect_err("compiled-out algorithm must fail");
        assert!(matches!(err, Error::AlgorithmUnavailable { .. }));
    }
}


#[test]
fn every_codec_changes_what_it_is_given() {
    let original = compressible(4096);
    for algorithm in real_algorithms() {
        let packed = compress(algorithm, Level::balanced(), &original).expect("compresses");
        assert_ne!(packed.as_ref(), original.as_slice(), "{algorithm:?}");
    }
}

#[test]
fn codecs_write_their_own_formats() {
    let original = compressible(512);
    let gzip = compress(Algorithm::Gzip, Level::balanced(), &original).expect("compresses");
    assert_eq!(&gzip[..3], &[0x1f, 0x8b, 8]);
    let zstd = compress(Algorithm::Zstd, Level::balanced(), &original).expect("compresses");
    assert_eq!(&zstd[..4], &[0x28, 0xb5, 0x2f, 0xfd]);
    assert!(decompress(Algorithm::Gzip, &zstd, 1 << 16).is_err());
}

#[test]
fn names_and_numbers_are_the_documented_ones() {
    for (algorithm, name) in [
        (Algorithm::Identity, "none"),
        (Algorithm::Gzip, "gzip"),
        (Algorithm::Deflate, "deflate"),
        (Algorithm::Brotli, "brotli"),
        (Algorithm::Zstd, "zstd"),
    ] {
        assert_eq!(algorithm.to_string(), name);
        assert_eq!(Algorithm::from_name(name).expect("known"), algorithm);
    }
    assert_eq!(Algorithm::default(), Algorithm::Gzip);
    assert_eq!(Level::new(42).to_string(), "42");
    assert_eq!(Level::new(50).scale_to(0, 9), 4);
}

#[test]
fn a_result_that_saves_nothing_is_not_kept() {
    // Even a policy that accepts any ratio does not send more than it was given.
    let random = incompressible(4096);
    for algorithm in real_algorithms() {
        let compressor = Compressor::new(algorithm).with_max_ratio(Ratio::new(1, 1));
        let outcome = compressor.compress(&random).expect("no codec failure");
        assert!(outcome.data().len() <= random.len(), "{algorithm:?}");
    }
}

#[test]
fn the_limit_on_output_is_exact() {
    let original = compressible(1000);
    for algorithm in Algorithm::available() {
        let packed = compress(algorithm, Level::balanced(), &original).expect("compresses");
        assert_eq!(
            decompress(algorithm, &packed, 1000).expect("fits").as_ref(),
            original.as_slice()
        );
        assert!(matches!(
            decompress(algorithm, &packed, 999),
            Err(Error::OutputTooLarge { max: 999 })
        ));
    }
}

#[test]
fn errors_say_what_went_wrong() {
    assert_eq!(
        Error::OutputTooLarge { max: 7 }.to_string(),
        "decompressed output exceeds maximum of 7 bytes"
    );
    assert_eq!(
        Algorithm::from_name("lzma").expect_err("unknown").to_string(),
        "unknown compression algorithm: lzma"
    );
    let error = Error::Compress { algorithm: Algorithm::Gzip, reason: "full".to_owned() };
    assert_eq!(error.to_string(), "failed to compress with gzip: full");
    let error = Error::Decompress { algorithm: Algorithm::Zstd, reason: "short".to_owned() };
    assert_eq!(error.to_string(), "failed to decompress zstd: short");
    assert_eq!(
        Error::AlgorithmUnavailable { algorithm: Algorithm::Brotli }.to_string(),
        "algorithm brotli is not enabled; rebuild with its cargo feature"
    );
}

#[test]
fn the_default_policy_demands_a_twentieth() {
    assert_eq!(default_max_ratio(), Ratio::new(95, 100));
    let compressor = Compressor::new(Algorithm::Gzip).with_level(Level::fast());
    assert_eq!(compressor.level(), Level::fast());
    assert_eq!(compressor.algorithm(), Algorithm::Gzip);
}

#[test]
fn skipped_outcomes_say_why() {
    let strict = Compressor::new(Algorithm::Gzip).with_max_ratio(Ratio::new(0, 1));
    let outcome = strict.compress(&compressible(4096)).expect("no codec failure");
    assert!(matches!(
        outcome,
        Outcome::Skipped { reason: SkipReason::NotWorthwhile, .. }
    ));
    assert_eq!(outcome.ratio(), Ratio::new(1, 1));
}

#[test]
fn an_outcome_gives_up_its_bytes() {
    let compressor = Compressor::new(Algorithm::Gzip);
    let tiny = b"short";
    let outcome = compressor.compress(tiny).expect("no codec failure");
    assert_eq!(outcome.into_data().as_ref(), tiny);

    let long = vec![7u8; 4096];
    let outcome = compressor.compress(&long).expect("no codec failure");
    let sent = outcome.data().clone();
    assert!(sent.len() < long.len());
    assert_eq!(outcome.into_data(), sent);
}
