use ccsds::crc16::{checksum16, CrcKind};
use ccsds::error::SpacePacketError;
use ccsds::{CompletePacket, GroupingFlag, PacketType, PrimaryHeader, SpacePacket};

fn all_groupings() -> [GroupingFlag; 4] {
    [
        GroupingFlag::Interm,
        GroupingFlag::First,
        GroupingFlag::Last,
        GroupingFlag::Unsegm,
    ]
}

fn all_packet_types() -> [PacketType; 2] {
    [PacketType::Telemetry, PacketType::Command]
}

#[test]
fn header_roundtrip() {
    for grouping in all_groupings() {
        for secondary_header in [true, false] {
            for packet_type in all_packet_types() {
                let expected = PrimaryHeader {
                    version: 0_u8,
                    packet_type,
                    apid: 2042_u16,
                    secondary_header,
                    grouping,
                    sequence_count: 16355_u16,
                };
                let buffer = expected.encode();
                let recovered = PrimaryHeader::decode(&buffer)
                    .expect("Unable to decode Primary Header.");
                assert_eq!(expected, recovered);
            }
        }
    }
}

#[test]
fn header_roundtrip_boundary_values() {
    for (version, apid, sequence_count) in [
        (0_u8, 0_u16, 0_u16),
        (7, 2047, 16383),
        (6, 2046, 16382),
    ] {
        let expected = PrimaryHeader {
            version,
            packet_type: PacketType::Command,
            apid,
            secondary_header: true,
            grouping: GroupingFlag::Unsegm,
            sequence_count,
        };
        let recovered = PrimaryHeader::decode(&expected.encode()).unwrap();
        assert_eq!(expected, recovered);
    }
}

#[test]
fn header_decode_short_input_fails() {
    assert_eq!(
        PrimaryHeader::decode(&[0x12, 0x34, 0x56]),
        Err(SpacePacketError::UnexpectedEnd)
    );
}

#[test]
fn grouping_and_packet_type_bits() {
    assert_eq!(GroupingFlag::from_2bits(0), GroupingFlag::Interm);
    assert_eq!(GroupingFlag::from_2bits(1), GroupingFlag::First);
    assert_eq!(GroupingFlag::from_2bits(2), GroupingFlag::Last);
    assert_eq!(GroupingFlag::from_2bits(3), GroupingFlag::Unsegm);
    // Upper bits are ignored.
    assert_eq!(GroupingFlag::from_2bits(0b111), GroupingFlag::Unsegm);
    assert_eq!(PacketType::from_1bit(0), PacketType::Telemetry);
    assert_eq!(PacketType::from_1bit(1), PacketType::Command);
    assert_eq!(PacketType::from_1bit(2), PacketType::Telemetry);
}

#[test]
fn spacepacket_roundtrip() {
    for grouping in all_groupings() {
        for secondary_header in [true, false] {
            for packet_type in all_packet_types() {
                let expected = SpacePacket::new(
                    0,
                    packet_type,
                    1555_u16,
                    grouping,
                    1423_u16,
                    secondary_header,
                    "a test input".as_bytes().to_vec(),
                );
                let buffer = expected.encode();
                let recovered =
                    SpacePacket::decode(&buffer).expect("Unable to parse SpacePacket.");
                assert_eq!(expected, recovered);
            }
        }
    }
}

#[test]
fn spacepacket_roundtrip_extreme_payloads() {
    for payload in [vec![0xA5_u8], vec![0x5A_u8; 65536]] {
        let expected = SpacePacket::new(
            0,
            PacketType::Telemetry,
            1,
            GroupingFlag::Unsegm,
            0,
            false,
            payload,
        );
        let buffer = expected.encode();
        assert_eq!(buffer.len(), 6 + expected.payload.len());
        let recovered = SpacePacket::decode(&buffer).unwrap();
        assert_eq!(expected, recovered);
    }
}

#[test]
fn spacepacket_decode_truncated_fails() {
    let packet = SpacePacket::new(
        0,
        PacketType::Command,
        7,
        GroupingFlag::Unsegm,
        3,
        false,
        vec![1, 2, 3, 4],
    );
    let buffer = packet.encode();
    assert_eq!(
        SpacePacket::decode(&buffer[..buffer.len() - 1]),
        Err(SpacePacketError::UnexpectedEnd)
    );
}

#[test]
fn spacepacket_roundtrip_crc() {
    for grouping in all_groupings() {
        for secondary_header in [true, false] {
            for packet_type in all_packet_types() {
                let expected = SpacePacket::new(
                    0,
                    packet_type,
                    1555_u16,
                    grouping,
                    1423_u16,
                    secondary_header,
                    "a test input".as_bytes().to_vec(),
                );
                let buffer = expected.encode_crc(CrcKind::Ibm3740);
                let recovered = SpacePacket::decode_crc(&buffer, CrcKind::Ibm3740)
                    .expect("Unable to parse SpacePacket.");
                assert_eq!(CompletePacket::Valid(expected), recovered);
            }
        }
    }
}

#[test]
fn spacepacket_roundtrip_invalid_crc() {
    let expected = SpacePacket::new(
        0,
        PacketType::Command,
        1555_u16,
        GroupingFlag::Unsegm,
        1423_u16,
        false,
        "a test input".as_bytes().to_vec(),
    );

    let (buffer, expected_crc) = {
        let mut tmp = expected.encode_crc(CrcKind::Ibm3740);
        let n_bytes = tmp.len();
        let crc = u16::from_be_bytes([tmp[n_bytes - 2], tmp[n_bytes - 1]]);
        tmp[n_bytes - 2..].copy_from_slice(&(crc.wrapping_add(1)).to_be_bytes());
        (tmp, crc)
    };

    let recovered = SpacePacket::decode_crc(&buffer, CrcKind::Ibm3740)
        .expect("Unable to parse SpacePacket.");

    assert_eq!(
        CompletePacket::InvalidCRC(expected_crc.wrapping_add(1), expected_crc),
        recovered
    );
}

#[test]
fn every_trailer_bit_flip_is_detected() {
    let packet = SpacePacket::new(
        0,
        PacketType::Telemetry,
        99,
        GroupingFlag::First,
        512,
        true,
        vec![0xDE, 0xAD, 0xBE, 0xEF],
    );
    let encoded = packet.encode_crc(CrcKind::Ibm3740);
    let n = encoded.len();
    let computed = u16::from_be_bytes([encoded[n - 2], encoded[n - 1]]);
    for byte in [n - 2, n - 1] {
        for bit in 0..8 {
            let mut tampered = encoded.clone();
            tampered[byte] ^= 1 << bit;
            let sent = u16::from_be_bytes([tampered[n - 2], tampered[n - 1]]);
            assert_eq!(
                SpacePacket::decode_crc(&tampered, CrcKind::Ibm3740),
                Ok(CompletePacket::InvalidCRC(sent, computed))
            );
        }
    }
}

#[test]
fn decode_crc_rejects_frame_too_short_for_trailer() {
    // A length field of zero means one payload byte: no room for the two
    // CRC trailer bytes, which is structurally invalid.
    let bytes = [0x00, 0x07, 0x00, 0x03, 0x00, 0x00, 0xAB];
    assert_eq!(
        SpacePacket::decode_crc(&bytes, CrcKind::Ibm3740),
        Err(SpacePacketError::InvalidData)
    );
}

#[test]
fn checksum_catalog_check_values() {
    // The standard check input of the CRC catalog.
    let input = b"123456789";
    assert_eq!(checksum16(CrcKind::Ibm3740, input), 0x29B1);
    assert_eq!(checksum16(CrcKind::Arc, input), 0xBB3D);
    assert_eq!(checksum16(CrcKind::Kermit, input), 0x2189);
}
