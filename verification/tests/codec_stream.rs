use bytes::BytesMut;
use ccsds::codec::SpacePacketCodec;
use ccsds::crc16::CrcKind;
use ccsds::{CompletePacket, GroupingFlag, PacketType, SpacePacket};

fn sample_packet(apid: u16, payload: Vec<u8>) -> SpacePacket {
    SpacePacket::new(
        0,
        PacketType::Command,
        apid,
        GroupingFlag::Unsegm,
        5000,
        false,
        payload,
    )
}

/// Feeds `stream` into `codec` in chunks of `chunk` bytes, collecting
/// every decoded packet.
fn run_in_chunks(
    codec: &mut SpacePacketCodec,
    stream: &[u8],
    chunk: usize,
) -> Vec<CompletePacket> {
    let mut buffer = BytesMut::new();
    let mut decoded = Vec::new();
    for piece in stream.chunks(chunk) {
        buffer.extend_from_slice(piece);
        loop {
            match codec.decode_frame(&mut buffer).expect("decode failed") {
                Some(packet) => decoded.push(packet),
                None => break,
            }
        }
    }
    decoded
}

#[test]
fn codec_roundtrip_no_sync_marker() {
    let expected = sample_packet(17, (0..77_u8).collect());
    let codec = SpacePacketCodec::new(Vec::new(), None);
    let mut buffer = BytesMut::new();
    codec.encode_frame(&expected, &mut buffer);

    let mut decoder = SpacePacketCodec::new(Vec::new(), None);
    let recovered = decoder
        .decode_frame(&mut buffer)
        .expect("decode failed")
        .expect("expected a packet");
    assert_eq!(CompletePacket::Valid(expected), recovered);
    assert!(buffer.is_empty());
}

#[test]
fn codec_roundtrip_with_marker() {
    let expected = sample_packet(17, (0..77_u8).collect());
    let codec = SpacePacketCodec::new(vec![0xAA, 0xBB], None);
    let mut buffer = BytesMut::new();
    codec.encode_frame(&expected, &mut buffer);
    assert_eq!(&buffer[..2], &[0xAA, 0xBB]);

    let mut decoder = SpacePacketCodec::new(vec![0xAA, 0xBB], None);
    let recovered = decoder
        .decode_frame(&mut buffer)
        .expect("decode failed")
        .expect("expected a packet");
    assert_eq!(CompletePacket::Valid(expected), recovered);
}

#[test]
fn codec_skips_leading_noise() {
    let expected = sample_packet(17, (0..77_u8).collect());
    let codec = SpacePacketCodec::new(vec![0xAA, 0xBB], None);
    let mut buffer = BytesMut::new();
    buffer.extend_from_slice(&(0_u8..20).collect::<Vec<u8>>());
    codec.encode_frame(&expected, &mut buffer);

    let mut decoder = SpacePacketCodec::new(vec![0xAA, 0xBB], None);
    let recovered = decoder
        .decode_frame(&mut buffer)
        .expect("decode failed")
        .expect("expected a packet");
    assert_eq!(CompletePacket::Valid(expected), recovered);
}

#[test]
fn codec_resynchronizes_across_noise_and_tiny_chunks() {
    let marker = vec![0xAA_u8, 0xBB];
    let first = sample_packet(17, (0..77_u8).collect());
    let second = sample_packet(99, vec![0xFE, 0xDC, 0xBA]);

    let encoder = SpacePacketCodec::new(marker.clone(), None);
    let mut stream = BytesMut::new();
    encoder.encode_frame(&first, &mut stream);
    // Noise between frames; 0xAA 0xBB never appears in it.
    stream.extend_from_slice(&[0x01_u8; 20]);
    encoder.encode_frame(&second, &mut stream);
    let stream: Vec<u8> = stream.to_vec();

    // Every chunk size, including one that splits the marker itself, must
    // yield exactly the two frames in order.
    for chunk in [1_usize, 2, 3, 5, 7, 11, stream.len()] {
        let mut decoder = SpacePacketCodec::new(marker.clone(), None);
        let decoded = run_in_chunks(&mut decoder, &stream, chunk);
        assert_eq!(
            decoded,
            vec![
                CompletePacket::Valid(first.clone()),
                CompletePacket::Valid(second.clone())
            ],
            "chunk size {chunk}"
        );
    }
}

#[test]
fn codec_crc_roundtrip_and_corruption() {
    let marker = vec![0x1A_u8, 0xCF, 0xFC, 0x1D];
    let good = sample_packet(5, vec![1, 2, 3, 4, 5]);
    let encoder = SpacePacketCodec::new(marker.clone(), Some(CrcKind::Ibm3740));
    let mut stream = BytesMut::new();
    encoder.encode_frame(&good, &mut stream);
    let mut bytes: Vec<u8> = stream.to_vec();

    // Untampered: the packet comes back validated.
    let mut decoder = SpacePacketCodec::new(marker.clone(), Some(CrcKind::Ibm3740));
    let decoded = run_in_chunks(&mut decoder, &bytes, 4);
    assert_eq!(decoded, vec![CompletePacket::Valid(good.clone())]);

    // Flip one bit of the trailer: the frame is rejected as InvalidCRC,
    // not an error, and a following good frame still decodes.
    let n = bytes.len();
    bytes[n - 1] ^= 0x10;
    encoder.encode_frame(&good, &mut stream);
    let mut full = bytes.clone();
    full.extend_from_slice(&stream.to_vec()[n..]);

    let mut decoder = SpacePacketCodec::new(marker, Some(CrcKind::Ibm3740));
    let decoded = run_in_chunks(&mut decoder, &full, 3);
    assert_eq!(decoded.len(), 2);
    match &decoded[0] {
        CompletePacket::InvalidCRC(sent, computed) => {
            assert_eq!(*sent, *computed ^ 0x10);
        }
        other => panic!("expected InvalidCRC, got {other:?}"),
    }
    assert_eq!(decoded[1], CompletePacket::Valid(good));
}

#[test]
fn corrupted_length_field_loses_at_most_one_frame() {
    let marker = vec![0xAB_u8, 0xCD];
    let packet = sample_packet(33, vec![9, 8, 7, 6, 5]);
    let encoder = SpacePacketCodec::new(marker.clone(), Some(CrcKind::Ibm3740));

    let mut first = BytesMut::new();
    encoder.encode_frame(&packet, &mut first);
    let mut first: Vec<u8> = first.to_vec();
    // Corrupt the length field (bytes 4..6 after the 2-byte marker) to
    // claim a 26-byte frame instead of 13: the decoder will swallow the
    // next 13 bytes of filler as part of the bogus frame.
    first[6] = 0x00;
    first[7] = 0x13;
    first.extend_from_slice(&[0x11_u8; 13]);

    let mut stream = BytesMut::new();
    stream.extend_from_slice(&first);
    encoder.encode_frame(&packet, &mut stream);

    let mut decoder = SpacePacketCodec::new(marker, Some(CrcKind::Ibm3740));
    let mut decoded = Vec::new();
    loop {
        match decoder.decode_frame(&mut stream).expect("no structural error expected") {
            Some(p) => decoded.push(p),
            None => break,
        }
    }
    // Exactly one frame is lost (rejected by its checksum); the next one
    // decodes after resynchronization.
    assert_eq!(decoded.len(), 2);
    assert!(matches!(decoded[0], CompletePacket::InvalidCRC(_, _)));
    assert_eq!(decoded[1], CompletePacket::Valid(packet));
}

#[test]
fn structurally_invalid_crc_frame_errors_then_recovers() {
    let marker = vec![0xAB_u8, 0xCD];
    let packet = sample_packet(33, vec![1, 2, 3]);
    let encoder = SpacePacketCodec::new(marker.clone(), Some(CrcKind::Ibm3740));

    let mut stream = BytesMut::new();
    // A frame whose length field says one payload byte: no room for the
    // CRC trailer, which is structurally invalid under CRC decoding.
    stream.extend_from_slice(&[0xAB, 0xCD, 0x08, 0x21, 0xC0, 0x00, 0x00, 0x00, 0x42]);
    encoder.encode_frame(&packet, &mut stream);

    let mut decoder = SpacePacketCodec::new(marker, Some(CrcKind::Ibm3740));
    assert_eq!(
        decoder.decode_frame(&mut stream),
        Err(ccsds::error::SpacePacketError::InvalidData)
    );
    // The bogus span was consumed; the following frame still decodes.
    let recovered = decoder
        .decode_frame(&mut stream)
        .expect("decode failed")
        .expect("expected a packet");
    assert_eq!(recovered, CompletePacket::Valid(packet));
}

#[test]
fn codec_reports_need_more_until_frame_completes() {
    let mut decoder = SpacePacketCodec::new(vec![0xEB, 0x90], None);
    let mut buffer = BytesMut::new();
    // Marker only: not enough for a frame.
    buffer.extend_from_slice(&[0xEB, 0x90]);
    assert_eq!(decoder.decode_frame(&mut buffer), Ok(None));
    // Header claims one payload byte; still short.
    buffer.extend_from_slice(&[0x00, 0x11, 0xC0, 0x00, 0x00, 0x00]);
    assert_eq!(decoder.decode_frame(&mut buffer), Ok(None));
    // The payload byte arrives: one packet.
    buffer.extend_from_slice(&[0x42]);
    let packet = decoder
        .decode_frame(&mut buffer)
        .unwrap()
        .expect("expected a packet");
    match packet {
        CompletePacket::Valid(p) => {
            assert_eq!(p.primary_header.apid, 0x11);
            assert_eq!(p.payload, vec![0x42]);
        }
        other => panic!("expected Valid, got {other:?}"),
    }
}
