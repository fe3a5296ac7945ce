use ccsds::error::SpacePacketError;
use ccsds::tctm::tm::{
    BooleanFieldFlag, FirstHeaderPointer, SegmentLength, SynchronizationFlag, TMDataFieldStatus,
    TMPrimaryHeader, TMSecondaryHeader, TMTransferFrame,
};
use ccsds::GroupingFlag;

fn tm_header(tfvn: u8, scid: u16, vcid: u8, index: u16) -> TMPrimaryHeader {
    TMPrimaryHeader {
        tfvn,
        scid,
        vcid,
        ocf_flag: BooleanFieldFlag::Present,
        mc_frame_count: 7,
        vc_frame_count: 244,
        data_field_status: TMDataFieldStatus {
            secondary_header_flag: BooleanFieldFlag::NotPresent,
            synchronization_flag: SynchronizationFlag::Nominal,
            packet_order: false,
            segment_length: GroupingFlag::Unsegm,
            first_header_pointer: FirstHeaderPointer::ByteIndex(index),
        },
    }
}

#[test]
fn tm_header_validation() {
    assert!(tm_header(0, 5, 2, 12).validate().is_ok());
    assert!(tm_header(0, 1023, 7, 2045).validate().is_ok());
    // tfvn out of bounds
    assert!(tm_header(4, 5, 2, 2045).validate().is_err());
    // scid out of bounds
    assert!(tm_header(0, 1024, 5, 1023).validate().is_err());
    // vcid out of bounds
    assert!(tm_header(0, 7, 8, 1023).validate().is_err());
    // first header index out of bounds
    assert!(tm_header(0, 100, 3, 2046).validate().is_err());
    assert!(tm_header(0, 100, 3, 2049).validate().is_err());
}

#[test]
fn tm_primary_header() {
    for scid in [0_u16, 5, 1023] {
        for vcid in [0_u8, 3, 7] {
            for ocf_flag in [BooleanFieldFlag::NotPresent, BooleanFieldFlag::Present] {
                for secondary_header_flag in
                    [BooleanFieldFlag::NotPresent, BooleanFieldFlag::Present]
                {
                    for synchronization_flag in
                        [SynchronizationFlag::Nominal, SynchronizationFlag::VcaSdu]
                    {
                        for segment_length in [GroupingFlag::First, GroupingFlag::Unsegm] {
                            for index in [0_u16, 2045, 2046, 2047] {
                                let expected = TMPrimaryHeader {
                                    tfvn: 0b11,
                                    scid,
                                    vcid,
                                    ocf_flag,
                                    mc_frame_count: 77,
                                    vc_frame_count: 128,
                                    data_field_status: TMDataFieldStatus {
                                        secondary_header_flag,
                                        synchronization_flag,
                                        packet_order: false,
                                        segment_length,
                                        first_header_pointer:
                                            FirstHeaderPointer::from_u16(index)
                                                .expect("Bad index number"),
                                    },
                                };
                                let bytes = expected.encode();
                                let recovered = TMPrimaryHeader::decode(&bytes)
                                    .expect("Unable to decode TMPrimaryHeader");
                                assert_eq!(expected, recovered);
                            }
                        }
                    }
                }
            }
        }
    }
}

#[test]
fn first_header_pointer_fails_closed() {
    assert_eq!(
        FirstHeaderPointer::from_u16(0),
        Ok(FirstHeaderPointer::ByteIndex(0))
    );
    assert_eq!(
        FirstHeaderPointer::from_u16(2045),
        Ok(FirstHeaderPointer::ByteIndex(2045))
    );
    assert_eq!(
        FirstHeaderPointer::from_u16(2046),
        Ok(FirstHeaderPointer::OnlyIdleData)
    );
    assert_eq!(
        FirstHeaderPointer::from_u16(2047),
        Ok(FirstHeaderPointer::NoPacket)
    );
    assert_eq!(
        FirstHeaderPointer::from_u16(2048),
        Err(SpacePacketError::InvalidData)
    );
    assert_eq!(
        FirstHeaderPointer::ByteIndex(2046).validate(),
        Err(SpacePacketError::InvalidData)
    );
}

#[test]
fn segment_length_bits() {
    assert_eq!(SegmentLength::from_u8(0), Ok(SegmentLength::Undefined(0)));
    assert_eq!(SegmentLength::from_u8(2), Ok(SegmentLength::Undefined(2)));
    assert_eq!(SegmentLength::from_u8(3), Ok(SegmentLength::Unsegmented));
    assert_eq!(SegmentLength::from_u8(4), Err(SpacePacketError::InvalidData));
    assert_eq!(SegmentLength::Undefined(2).into_u8(), 2);
    assert_eq!(SegmentLength::Unsegmented.into_u8(), 3);
}

#[test]
fn boolean_and_sync_flags_fail_closed() {
    assert_eq!(
        BooleanFieldFlag::from_u8(0),
        Ok(BooleanFieldFlag::NotPresent)
    );
    assert_eq!(BooleanFieldFlag::from_u8(1), Ok(BooleanFieldFlag::Present));
    assert_eq!(
        BooleanFieldFlag::from_u8(2),
        Err(SpacePacketError::InvalidData)
    );
    assert_eq!(
        SynchronizationFlag::from_u8(0),
        Ok(SynchronizationFlag::Nominal)
    );
    assert_eq!(
        SynchronizationFlag::from_u8(1),
        Ok(SynchronizationFlag::VcaSdu)
    );
    assert_eq!(
        SynchronizationFlag::from_u8(7),
        Err(SpacePacketError::InvalidData)
    );
}

#[test]
fn data_field_status_roundtrip() {
    let status = TMDataFieldStatus {
        secondary_header_flag: BooleanFieldFlag::Present,
        synchronization_flag: SynchronizationFlag::Nominal,
        packet_order: true,
        segment_length: GroupingFlag::Unsegm,
        first_header_pointer: FirstHeaderPointer::ByteIndex(511),
    };
    let bytes = status.encode();
    assert_eq!(bytes.len(), 2);
    assert_eq!(TMDataFieldStatus::decode(&bytes), Ok(status));
}

#[test]
fn secondary_header_roundtrip() {
    for data in [vec![], vec![0xAB], vec![0x11_u8; 63]] {
        let expected = TMSecondaryHeader {
            tfvn: 2,
            data_field: data,
        };
        let bytes = expected.clone().encode();
        assert_eq!(bytes.len(), 1 + expected.data_field.len());
        let recovered = TMSecondaryHeader::decode(&bytes).unwrap();
        assert_eq!(expected, recovered);
    }
}

#[test]
fn secondary_header_validation() {
    let ok = TMSecondaryHeader {
        tfvn: 3,
        data_field: vec![0_u8; 63],
    };
    assert!(ok.validate().is_ok());
    let bad_version = TMSecondaryHeader {
        tfvn: 4,
        data_field: vec![],
    };
    assert_eq!(bad_version.validate(), Err(SpacePacketError::InvalidData));
    let too_long = TMSecondaryHeader {
        tfvn: 0,
        data_field: vec![0_u8; 64],
    };
    assert_eq!(too_long.validate(), Err(SpacePacketError::InvalidData));
}

#[test]
fn tm_frame_roundtrip_with_explicit_length() {
    let frame = TMTransferFrame {
        primary_header: tm_header(0, 44, 5, 0),
        data_field: (0..50_u8).collect(),
    };
    let bytes = frame.clone().encode();
    assert_eq!(bytes.len(), 56);
    // The frame length is per-channel configuration, supplied by the caller.
    let recovered = TMTransferFrame::decode(&bytes, 56).unwrap();
    assert_eq!(frame, recovered);
    // A shorter configured length leaves trailing bytes unread.
    let shorter = TMTransferFrame::decode(&bytes, 40).unwrap();
    assert_eq!(shorter.data_field.len(), 34);
}

#[test]
fn tm_frame_decode_truncated_fails() {
    let frame = TMTransferFrame {
        primary_header: tm_header(0, 44, 5, 0),
        data_field: vec![1, 2, 3],
    };
    let bytes = frame.encode();
    assert_eq!(
        TMTransferFrame::decode(&bytes, 20),
        Err(SpacePacketError::UnexpectedEnd)
    );
}
