//! The wire format: frames, codecs and version negotiation.

use bytes::{Bytes, BytesMut};
use nexusnet::protocol::{
    is_fatal, negotiate, protocol_version, supported_versions, Decoder, Encoder, Error, Frame,
    FrameFlags, FrameHeader, FrameType, ProtocolVersion, DEFAULT_MAX_PAYLOAD_LEN, HEADER_LEN, MAGIC,
};

fn data_frame(stream_id: u32, payload: &'static [u8]) -> Frame {
    Frame::new(FrameType::Data, stream_id, Bytes::from_static(payload))
        .expect("payload fits in u32")
}

#[test]
fn decodes_a_single_whole_frame() {
    let frame = data_frame(1, b"hello");
    let mut decoder = Decoder::new();
    decoder.push(&frame.encode());

    assert_eq!(decoder.next_frame(), Ok(Some(frame)));
    assert_eq!(decoder.next_frame(), Ok(None));
    assert!(decoder.is_empty());
}

#[test]
fn decodes_several_frames_from_one_chunk() {
    let first = data_frame(1, b"one");
    let second = data_frame(2, b"two");

    let mut encoder = Encoder::new();
    encoder.encode(&first);
    encoder.encode(&second);

    let mut decoder = Decoder::new();
    decoder.push(&encoder.take());

    assert_eq!(decoder.next_frame(), Ok(Some(first)));
    assert_eq!(decoder.next_frame(), Ok(Some(second)));
    assert_eq!(decoder.next_frame(), Ok(None));
}

#[test]
fn waits_for_the_rest_of_a_split_header() {
    let frame = data_frame(1, b"payload");
    let encoded = frame.encode();

    let mut decoder = Decoder::new();
    decoder.push(&encoded[..4]);
    assert_eq!(decoder.next_frame(), Ok(None));

    decoder.push(&encoded[4..]);
    assert_eq!(decoder.next_frame(), Ok(Some(frame)));
}

#[test]
fn waits_for_the_rest_of_a_split_payload() {
    let frame = data_frame(1, b"a longer payload body");
    let encoded = frame.encode();
    let split = HEADER_LEN + 4;

    let mut decoder = Decoder::new();
    decoder.push(&encoded[..split]);
    assert_eq!(decoder.next_frame(), Ok(None));
    assert!(!decoder.is_empty());

    decoder.push(&encoded[split..]);
    assert_eq!(decoder.next_frame(), Ok(Some(frame)));
    assert!(decoder.is_empty());
}

#[test]
fn handles_a_frame_arriving_one_byte_at_a_time() {
    let frame = data_frame(3, b"trickle");
    let encoded = frame.encode();

    let mut decoder = Decoder::new();
    let mut decoded = None;
    for byte in encoded.iter() {
        decoder.push(&[*byte]);
        if let Some(f) = decoder.next_frame().expect("stream stays valid") {
            decoded = Some(f);
        }
    }

    assert_eq!(decoded, Some(frame));
}

#[test]
fn keeps_trailing_bytes_of_the_next_frame() {
    let first = data_frame(1, b"first");
    let second = data_frame(2, b"second");

    let mut buf = BytesMut::new();
    first.encode_into(&mut buf);
    second.encode_into(&mut buf);

    // Deliver the first frame plus a fragment of the second.
    let cut = first.encoded_len() + 5;
    let mut decoder = Decoder::new();
    decoder.push(&buf[..cut]);

    assert_eq!(decoder.next_frame(), Ok(Some(first)));
    assert_eq!(decoder.next_frame(), Ok(None));
    assert_eq!(decoder.buffered(), 5);

    decoder.push(&buf[cut..]);
    assert_eq!(decoder.next_frame(), Ok(Some(second)));
}

#[test]
fn rejects_an_oversized_payload_before_buffering_it() {
    let mut header_bytes = BytesMut::new();
    FrameHeader::new(FrameType::Data, 1, 8192).encode_into(&mut header_bytes);

    let mut decoder = Decoder::with_max_payload_len(1024);
    decoder.push(&header_bytes);

    assert_eq!(
        decoder.next_frame(),
        Err(Error::PayloadTooLarge {
            len: 8192,
            max: 1024,
        })
    );
}

#[test]
fn rejects_a_corrupt_header() {
    let mut encoded = BytesMut::from(&data_frame(1, b"x").encode()[..]);
    encoded[0] = 0x00;

    let mut decoder = Decoder::new();
    decoder.push(&encoded);

    let err = decoder.next_frame().expect_err("corrupt magic is an error");
    assert!(matches!(err, Error::InvalidMagic { .. }));
    assert!(is_fatal(&err));
}

#[test]
fn reset_clears_partial_state() {
    let frame = data_frame(1, b"partial");
    let encoded = frame.encode();

    let mut decoder = Decoder::new();
    decoder.push(&encoded[..HEADER_LEN + 2]);
    assert_eq!(decoder.next_frame(), Ok(None));
    assert!(!decoder.is_empty());

    decoder.reset();
    assert!(decoder.is_empty());
    assert_eq!(decoder.buffered(), 0);
}

#[test]
fn encoder_accumulates_and_drains() {
    let mut encoder = Encoder::with_capacity(128);
    assert!(encoder.is_empty());

    encoder.encode(&data_frame(1, b"a"));
    encoder.encode(&data_frame(2, b"bb"));
    assert!(!encoder.is_empty());
    assert_eq!(encoder.buffer().len(), 2 * HEADER_LEN + 3);

    let taken = encoder.take();
    assert_eq!(taken.len(), 2 * HEADER_LEN + 3);
    assert!(encoder.is_empty());
}

#[test]
fn frame_type_roundtrips() {
    for ty in [
        FrameType::Data,
        FrameType::Control,
        FrameType::Ping,
        FrameType::Pong,
        FrameType::Handshake,
        FrameType::Close,
    ] {
        assert_eq!(FrameType::from_u8(ty.as_u8()), Ok(ty));
    }
}

#[test]
fn unknown_frame_type_is_rejected() {
    assert_eq!(
        FrameType::from_u8(0xAB),
        Err(Error::UnknownFrameType { value: 0xAB })
    );
}

#[test]
fn flags_combine_and_test() {
    let flags = FrameFlags::compressed() | FrameFlags::encrypted();
    assert!(flags.contains(FrameFlags::compressed()));
    assert!(flags.contains(FrameFlags::encrypted()));
    assert!(!flags.contains(FrameFlags::end_of_stream()));
    assert!(!flags.is_empty());
    assert!(FrameFlags::none().is_empty());
}

#[test]
fn undefined_flag_bits_are_rejected() {
    assert_eq!(
        FrameFlags::from_bits(0b1000_0000),
        Err(Error::UnknownFlags { bits: 0b1000_0000 })
    );
    assert_eq!(FrameFlags::from_bits(0x07), Ok(FrameFlags::compressed() | FrameFlags::encrypted() | FrameFlags::end_of_stream()));
}

#[test]
fn header_encodes_to_fixed_width() {
    let mut buf = BytesMut::new();
    FrameHeader::new(FrameType::Data, 7, 3).encode_into(&mut buf);
    assert_eq!(buf.len(), HEADER_LEN);
}

#[test]
fn header_roundtrips() {
    let original = FrameHeader::new(FrameType::Control, 42, 128)
        .with_flags(FrameFlags::compressed() | FrameFlags::end_of_stream());

    let mut buf = BytesMut::new();
    original.encode_into(&mut buf);

    assert_eq!(
        FrameHeader::decode(&buf, DEFAULT_MAX_PAYLOAD_LEN),
        Ok(original)
    );
}

#[test]
fn frame_roundtrips() {
    let frame = Frame::new(FrameType::Data, 9, Bytes::from_static(b"hello wire"))
        .expect("payload fits in u32");
    let encoded = frame.encode();

    let (decoded, consumed) = Frame::decode(&encoded).expect("valid frame decodes");
    assert_eq!(consumed, encoded.len());
    assert_eq!(decoded, frame);
    assert_eq!(decoded.payload().as_ref(), b"hello wire");
}

#[test]
fn empty_payload_is_valid() {
    let frame = Frame::new(FrameType::Ping, 0, Bytes::new()).expect("empty payload is fine");
    let encoded = frame.encode();
    assert_eq!(encoded.len(), HEADER_LEN);

    let (decoded, consumed) = Frame::decode(&encoded).expect("ping decodes");
    assert_eq!(consumed, HEADER_LEN);
    assert!(decoded.payload().is_empty());
}

#[test]
fn bad_magic_is_rejected() {
    let mut encoded = BytesMut::from(
        &Frame::new(FrameType::Data, 1, Bytes::from_static(b"x"))
            .expect("payload fits")
            .encode()[..],
    );
    encoded[0] = 0xFF;

    assert!(matches!(
        Frame::decode(&encoded),
        Err(Error::InvalidMagic { .. })
    ));
}

#[test]
fn nonzero_reserved_is_rejected() {
    let mut encoded = BytesMut::from(
        &Frame::new(FrameType::Data, 1, Bytes::from_static(b"x"))
            .expect("payload fits")
            .encode()[..],
    );
    encoded[6] = 0x01;

    assert_eq!(
        Frame::decode(&encoded),
        Err(Error::ReservedNotZero { value: 0x0100 })
    );
}

#[test]
fn truncated_frame_reports_how_much_is_needed() {
    let frame = Frame::new(FrameType::Data, 1, Bytes::from_static(b"0123456789"))
        .expect("payload fits");
    let encoded = frame.encode();

    let err = Frame::decode(&encoded[..encoded.len() - 4]).expect_err("truncation is an error");
    assert_eq!(
        err,
        Error::BufferTooSmall {
            needed: encoded.len(),
            available: encoded.len() - 4,
        }
    );
}

#[test]
fn oversized_payload_is_rejected_before_allocation() {
    let mut buf = BytesMut::new();
    FrameHeader::new(FrameType::Data, 1, 4096).encode_into(&mut buf);

    assert_eq!(
        FrameHeader::decode(&buf, 1024),
        Err(Error::PayloadTooLarge {
            len: 4096,
            max: 1024,
        })
    );
}

#[test]
fn from_parts_corrects_payload_len() {
    let header = FrameHeader::new(FrameType::Data, 1, 999);
    let frame = Frame::from_parts(header, Bytes::from_static(b"abc")).expect("payload fits");
    assert_eq!(frame.header().payload_len, 3);
}

#[test]
fn magic_is_ascii_nx() {
    assert_eq!(MAGIC.to_be_bytes(), *b"NX");
}

#[test]
fn current_version_is_supported() {
    assert!(supported_versions().contains(&protocol_version()));
}

#[test]
fn negotiating_with_ourselves_yields_our_version() {
    assert_eq!(
        negotiate(&supported_versions(), &supported_versions()),
        Ok(protocol_version())
    );
}

#[test]
fn display_is_dotted() {
    assert_eq!(ProtocolVersion::new(1, 4).to_string(), "1.4");
}

#[test]
fn compatibility_depends_only_on_major() {
    let a = ProtocolVersion::new(1, 0);
    assert!(a.is_compatible_with(ProtocolVersion::new(1, 9)));
    assert!(!a.is_compatible_with(ProtocolVersion::new(0, 9)));
}

#[test]
fn ordering_is_major_then_minor() {
    assert!(ProtocolVersion::new(1, 0) < ProtocolVersion::new(1, 1));
    assert!(ProtocolVersion::new(1, 9) < ProtocolVersion::new(2, 0));
}

#[test]
fn common_with_picks_the_lower_version() {
    let ours = ProtocolVersion::new(1, 5);
    let theirs = ProtocolVersion::new(1, 2);
    assert_eq!(ours.common_with(theirs), Ok(theirs));
    assert_eq!(theirs.common_with(ours), Ok(theirs));
}

#[test]
fn common_with_rejects_major_mismatch() {
    let ours = ProtocolVersion::new(1, 0);
    assert_eq!(
        ours.common_with(ProtocolVersion::new(2, 0)),
        Err(Error::NoCommonVersion)
    );
}

#[test]
fn negotiate_selects_highest_common() {
    let local = [ProtocolVersion::new(1, 0), ProtocolVersion::new(1, 3)];
    let remote = [ProtocolVersion::new(1, 1), ProtocolVersion::new(1, 2)];
    assert_eq!(negotiate(&local, &remote), Ok(ProtocolVersion::new(1, 2)));
}

#[test]
fn negotiate_fails_without_shared_major() {
    let local = [ProtocolVersion::new(1, 0)];
    let remote = [ProtocolVersion::new(2, 0)];
    assert_eq!(negotiate(&local, &remote), Err(Error::NoCommonVersion));
}

#[test]
fn negotiate_fails_on_empty_input() {
    let local = [ProtocolVersion::new(1, 0)];
    assert_eq!(negotiate(&local, &[]), Err(Error::NoCommonVersion));
    assert_eq!(negotiate(&[], &local), Err(Error::NoCommonVersion));
}

#[test]
fn a_conversation_round_trips_through_the_codecs() {
    let mut encoder = Encoder::new();

    let handshake =
        Frame::new(FrameType::Handshake, 0, Bytes::from_static(b"v1")).expect("payload fits");
    let body = Frame::new(FrameType::Data, 1, Bytes::from_static(b"request body"))
        .expect("payload fits")
        .with_flags(FrameFlags::compressed());
    let close = Frame::new(FrameType::Close, 1, Bytes::new())
        .expect("payload fits")
        .with_flags(FrameFlags::end_of_stream());

    for frame in [&handshake, &body, &close] {
        encoder.encode(frame);
    }
    let wire = encoder.take();

    let mut decoder = Decoder::new();
    decoder.push(&wire);

    assert_eq!(decoder.next_frame(), Ok(Some(handshake)));

    let decoded_body = decoder
        .next_frame()
        .expect("stream is valid")
        .expect("body frame is complete");
    assert_eq!(decoded_body.payload().as_ref(), b"request body");
    assert!(decoded_body.header().flags.contains(FrameFlags::compressed()));
    assert_eq!(decoded_body.header().version, protocol_version());

    assert_eq!(decoder.next_frame(), Ok(Some(close)));
    assert_eq!(decoder.next_frame(), Ok(None));
    assert!(decoder.is_empty());
}

#[test]
fn frames_survive_arbitrary_chunk_boundaries() {
    let mut encoder = Encoder::new();
    for i in 0..16_u32 {
        let payload = Bytes::from(vec![u8::try_from(i % 256).expect("modulo fits in u8"); 100]);
        encoder.encode(&Frame::new(FrameType::Data, i, payload).expect("payload fits"));
    }
    let wire = encoder.take();

    // Prime chunk size, so boundaries land inside headers and payloads alike.
    let mut decoder = Decoder::new();
    let mut decoded = Vec::new();
    for chunk in wire.chunks(7) {
        decoder.push(chunk);
        while let Some(frame) = decoder.next_frame().expect("stream stays valid") {
            decoded.push(frame);
        }
    }

    assert_eq!(decoded.len(), 16);
    assert!(decoder.is_empty());
    for (i, frame) in decoded.iter().enumerate() {
        assert_eq!(frame.header().stream_id, u32::try_from(i).expect("fits"));
        assert_eq!(frame.payload().len(), 100);
    }
}

#[test]
fn a_hostile_length_is_rejected_before_allocation() {
    // Claim a 4 GiB payload while sending only a header.
    let mut decoder = Decoder::with_max_payload_len(4096);
    let mut header = Vec::new();
    header.extend_from_slice(&MAGIC.to_be_bytes());
    header.extend_from_slice(&[protocol_version().major, protocol_version().minor]);
    header.push(FrameType::Data.as_u8());
    header.push(FrameFlags::none().bits());
    header.extend_from_slice(&0_u16.to_be_bytes());
    header.extend_from_slice(&1_u32.to_be_bytes());
    header.extend_from_slice(&u32::MAX.to_be_bytes());
    assert_eq!(header.len(), HEADER_LEN);

    decoder.push(&header);
    assert_eq!(
        decoder.next_frame(),
        Err(Error::PayloadTooLarge {
            len: u32::MAX,
            max: 4096,
        })
    );
}

#[test]
fn truncated_streams_never_yield_a_partial_frame() {
    let frame = Frame::new(
        FrameType::Data,
        1,
        Bytes::from_static(b"incomplete transmission"),
    )
    .expect("payload fits");
    let encoded = frame.encode();

    let mut decoder = Decoder::new();
    decoder.push(&encoded[..encoded.len() - 1]);

    assert_eq!(decoder.next_frame(), Ok(None));
    assert!(!decoder.is_empty(), "partial data stays buffered");
}

#[test]
fn version_negotiation_agrees_on_a_shared_version() {
    let modern = [ProtocolVersion::new(1, 0), ProtocolVersion::new(1, 4)];
    let legacy = [ProtocolVersion::new(1, 0)];

    assert_eq!(negotiate(&modern, &legacy), Ok(ProtocolVersion::new(1, 0)));
    assert_eq!(
        negotiate(&supported_versions(), &supported_versions()),
        Ok(protocol_version())
    );
    assert_eq!(
        negotiate(&supported_versions(), &[ProtocolVersion::new(9, 0)]),
        Err(Error::NoCommonVersion)
    );
}


#[test]
fn every_single_flag_bit_is_read_back() {
    for bits in 0..8_u8 {
        assert_eq!(FrameFlags::from_bits(bits).expect("defined").bits(), bits);
    }
    for bits in 8..=255_u8 {
        assert_eq!(FrameFlags::from_bits(bits), Err(Error::UnknownFlags { bits }));
    }
}

#[test]
fn headers_are_laid_out_in_network_order() {
    let mut buf = BytesMut::new();
    FrameHeader::new(FrameType::Control, 0x0102_0304, 0x0506_0708)
        .with_flags(FrameFlags::encrypted())
        .encode_into(&mut buf);
    assert_eq!(
        buf.as_ref(),
        &[0x4E, 0x58, 1, 0, FrameType::Control.as_u8(), 2, 0, 0, 1, 2, 3, 4, 5, 6, 7, 8]
    );
}

#[test]
fn a_short_header_reports_how_much_is_needed() {
    assert_eq!(
        FrameHeader::decode(&[0x4E, 0x58, 1], 1024),
        Err(Error::BufferTooSmall { needed: HEADER_LEN, available: 3 })
    );
}

#[test]
fn the_version_of_a_frame_is_carried_along() {
    let frame = Frame::new(FrameType::Data, 1, Bytes::from_static(b"x")).expect("payload fits");
    assert_eq!(frame.header().version, protocol_version());
    let mut encoded = BytesMut::from(&frame.encode()[..]);
    encoded[2] = 9;
    let (decoded, _) = Frame::decode(&encoded).expect("the peer negotiates the version");
    assert_eq!(decoded.header().version, ProtocolVersion::new(9, 0));
}

#[test]
fn protocol_errors_read_well() {
    assert_eq!(
        Error::invalid_magic(0xBEEF).to_string(),
        "invalid frame magic: expected 0x4e58, found 0xbeef"
    );
    assert!(Error::UnsupportedVersion {
        found: ProtocolVersion::new(9, 1),
        supported: protocol_version(),
    }
    .to_string()
    .contains("9.1"));
    assert!(Error::PayloadLengthOverflow { len: 5_000_000_000 }
        .to_string()
        .contains("5000000000"));
}

#[test]
fn unknown_types_and_flags_on_the_wire_are_errors() {
    let frame = Frame::new(FrameType::Data, 1, Bytes::from_static(b"x")).expect("payload fits");
    let mut encoded = BytesMut::from(&frame.encode()[..]);
    encoded[4] = 0xAB;
    assert_eq!(Frame::decode(&encoded), Err(Error::UnknownFrameType { value: 0xAB }));
    let mut encoded = BytesMut::from(&frame.encode()[..]);
    encoded[5] = 0x80;
    assert_eq!(Frame::decode(&encoded), Err(Error::UnknownFlags { bits: 0x80 }));
}

#[test]
fn negotiation_gives_both_peers_the_same_answer() {
    let ours = [ProtocolVersion::new(1, 2), ProtocolVersion::new(2, 1), ProtocolVersion::new(3, 0)];
    let theirs = [ProtocolVersion::new(2, 4), ProtocolVersion::new(1, 9)];
    assert_eq!(negotiate(&ours, &theirs), Ok(ProtocolVersion::new(2, 1)));
    assert_eq!(negotiate(&theirs, &ours), Ok(ProtocolVersion::new(2, 1)));
}

#[test]
fn payloads_are_taken_out_of_frames() {
    let frame = Frame::new(FrameType::Pong, 3, Bytes::from_static(b"body")).expect("payload fits");
    assert_eq!(frame.encoded_len(), HEADER_LEN + 4);
    assert_eq!(frame.into_payload().as_ref(), b"body");
}

#[test]
fn an_explicit_limit_bounds_what_is_decoded() {
    let frame = Frame::new(FrameType::Data, 1, Bytes::from_static(b"0123456789")).expect("fits");
    let encoded = frame.encode();
    assert_eq!(
        Frame::decode_with_limit(&encoded, 9),
        Err(Error::PayloadTooLarge { len: 10, max: 9 })
    );
    let (decoded, consumed) = Frame::decode_with_limit(&encoded, 10).expect("within the limit");
    assert_eq!((decoded, consumed), (frame, encoded.len()));
}

#[test]
fn any_chunks_yield_the_frames_that_were_written() {
    let frames = [data_frame(1, b"first"), data_frame(2, b""), data_frame(3, b"a third one")];
    let mut encoder = Encoder::new();
    for frame in &frames {
        encoder.encode(frame);
    }
    let bytes = encoder.take();
    for size in 1..=bytes.len() {
        let mut decoder = Decoder::new();
        let mut read = Vec::new();
        for chunk in bytes.chunks(size) {
            decoder.push(chunk);
            while let Some(frame) = decoder.next_frame().expect("well-formed") {
                read.push(frame);
            }
        }
        assert_eq!(read, frames, "in chunks of {size}");
        assert!(decoder.is_empty());
    }
}
