//! Telemetry (TM) Transfer Frame: a six-byte bit-packed primary header with
//! a data-field status word, an optional secondary header, and a data field
//! whose total length is fixed per physical channel.
use vstd::prelude::*;

use crate::error::SpacePacketError;
use crate::{be16, be16_read, hi8, lemma_be16_of_split, lo8, GroupingFlag};

verus! {

/// Whether the associated field is present in a TM Transfer Frame.
#[derive(Clone, Copy, Debug, PartialEq, Eq, Structural)]
pub enum BooleanFieldFlag {
    /// The field is absent.
    NotPresent,
    /// The field is present.
    Present,
}

impl BooleanFieldFlag {
    /// The 1-bit wire value of this flag.
    pub open spec fn spec_1bit(self) -> u8 {
        match self {
            BooleanFieldFlag::NotPresent => 0,
            BooleanFieldFlag::Present => 1,
        }
    }

    /// The flag denoted by the low bit of `bit`.
    pub open spec fn spec_from_1bit(bit: u8) -> BooleanFieldFlag {
        if bit % 2 == 0 {
            BooleanFieldFlag::NotPresent
        } else {
            BooleanFieldFlag::Present
        }
    }

    /// Packs the flag into its 1-bit wire value.
    pub fn as_1bit(self) -> (r: u8)
        ensures
            r == self.spec_1bit(),
    {
        match self {
            BooleanFieldFlag::NotPresent => 0,
            BooleanFieldFlag::Present => 1,
        }
    }

    /// Reads the flag from a full byte, failing closed: any value other
    /// than 0 or 1 is rejected, never mapped to a default variant.
    pub fn from_u8(val: u8) -> (r: Result<Self, SpacePacketError>)
        ensures
            val == 0 ==> r == Ok::<Self, SpacePacketError>(BooleanFieldFlag::NotPresent),
            val == 1 ==> r == Ok::<Self, SpacePacketError>(BooleanFieldFlag::Present),
            val > 1 ==> r == Err::<Self, SpacePacketError>(SpacePacketError::InvalidData),
    {
        match val {
            0 => Ok(BooleanFieldFlag::NotPresent),
            1 => Ok(BooleanFieldFlag::Present),
            _ => Err(SpacePacketError::InvalidData),
        }
    }
}

/// Identifies the kind of data carried in the TM Transfer Frame data field.
#[derive(Clone, Copy, Debug, PartialEq, Eq, Structural)]
pub enum SynchronizationFlag {
    /// Octet-synchronized, forward-ordered packets or idle data.
    Nominal,
    /// A virtual channel access service data unit.
    VcaSdu,
}

impl SynchronizationFlag {
    /// The 1-bit wire value of this flag.
    pub open spec fn spec_1bit(self) -> u8 {
        match self {
            SynchronizationFlag::Nominal => 0,
            SynchronizationFlag::VcaSdu => 1,
        }
    }

    /// The flag denoted by the low bit of `bit`.
    pub open spec fn spec_from_1bit(bit: u8) -> SynchronizationFlag {
        if bit % 2 == 0 {
            SynchronizationFlag::Nominal
        } else {
            SynchronizationFlag::VcaSdu
        }
    }

    /// Packs the flag into its 1-bit wire value.
    pub fn as_1bit(self) -> (r: u8)
        ensures
            r == self.spec_1bit(),
    {
        match self {
            SynchronizationFlag::Nominal => 0,
            SynchronizationFlag::VcaSdu => 1,
        }
    }

    /// Reads the flag from a full byte, failing closed: any value other
    /// than 0 or 1 is rejected, never mapped to a default variant.
    pub fn from_u8(val: u8) -> (r: Result<Self, SpacePacketError>)
        ensures
            val == 0 ==> r == Ok::<Self, SpacePacketError>(SynchronizationFlag::Nominal),
            val == 1 ==> r == Ok::<Self, SpacePacketError>(SynchronizationFlag::VcaSdu),
            val > 1 ==> r == Err::<Self, SpacePacketError>(SpacePacketError::InvalidData),
    {
        match val {
            0 => Ok(SynchronizationFlag::Nominal),
            1 => Ok(SynchronizationFlag::VcaSdu),
            _ => Err(SpacePacketError::InvalidData),
        }
    }
}

/// The 2-bit segment length field. Fixed to [`SegmentLength::Unsegmented`]
/// under nominal synchronization; undefined when the data field carries a
/// virtual channel access service data unit.
#[derive(Clone, Copy, Debug, PartialEq, Eq, Structural)]
pub enum SegmentLength {
    /// Any value below `0b11`; meaningless under nominal synchronization.
    Undefined(u8),
    /// The fixed value `0b11`, aligning with non-use of source packet
    /// segments in previous standards.
    Unsegmented,
}

impl SegmentLength {
    /// Reads the field from a full byte, failing closed on values that do
    /// not fit in two bits.
    pub fn from_u8(value: u8) -> (r: Result<Self, SpacePacketError>)
        ensures
            value < 3 ==> r == Ok::<Self, SpacePacketError>(SegmentLength::Undefined(value)),
            value == 3 ==> r == Ok::<Self, SpacePacketError>(SegmentLength::Unsegmented),
            value > 3 ==> r == Err::<Self, SpacePacketError>(SpacePacketError::InvalidData),
    {
        if value < 3 {
            Ok(SegmentLength::Undefined(value))
        } else if value == 3 {
            Ok(SegmentLength::Unsegmented)
        } else {
            Err(SpacePacketError::InvalidData)
        }
    }

    /// The 2-bit wire value of this field.
    pub open spec fn spec_2bits(self) -> u8 {
        match self {
            SegmentLength::Undefined(val) => val & 0x3,
            SegmentLength::Unsegmented => 3,
        }
    }

    /// Packs the field into its 2-bit wire value; an undefined value is
    /// masked to its low two bits.
    pub fn into_u8(self) -> (r: u8)
        ensures
            r == self.spec_2bits(),
    {
        match self {
            SegmentLength::Undefined(val) => val & 0x3,
            SegmentLength::Unsegmented => 3,
        }
    }
}

/// The 11-bit first-header-pointer field: the byte offset of the first
/// packet header inside the data field, or one of two sentinel values.
#[derive(Clone, Copy, Debug, PartialEq, Eq, Structural)]
pub enum FirstHeaderPointer {
    /// Byte offset of the first packet header; must be below 2046.
    ByteIndex(u16),
    /// The data field holds only idle data (sentinel 0x7FE).
    OnlyIdleData,
    /// No packet starts in the data field (sentinel 0x7FF).
    NoPacket,
}

impl FirstHeaderPointer {
    /// A byte index fits below the sentinel values.
    pub open spec fn wf(self) -> bool {
        match self {
            FirstHeaderPointer::ByteIndex(index) => index < 2046,
            _ => true,
        }
    }

    /// The 11-bit wire value of this pointer; a byte index is masked to
    /// its low eleven bits.
    pub open spec fn spec_u16(self) -> u16 {
        match self {
            FirstHeaderPointer::ByteIndex(value) => value & 0x7ff,
            FirstHeaderPointer::OnlyIdleData => 0x7fe,
            FirstHeaderPointer::NoPacket => 0x7ff,
        }
    }

    /// The pointer denoted by an 11-bit wire value.
    pub open spec fn spec_from_masked(value: u16) -> FirstHeaderPointer
        recommends
            value <= 0x7ff,
    {
        if value < 2046 {
            FirstHeaderPointer::ByteIndex(value)
        } else if value == 0x7fe {
            FirstHeaderPointer::OnlyIdleData
        } else {
            FirstHeaderPointer::NoPacket
        }
    }

    /// Packs the pointer into its 11-bit wire value.
    pub fn into_u16(self) -> (r: u16)
        ensures
            r == self.spec_u16(),
    {
        match self {
            FirstHeaderPointer::ByteIndex(value) => value & 0x7ff,
            FirstHeaderPointer::OnlyIdleData => 0x7fe,
            FirstHeaderPointer::NoPacket => 0x7ff,
        }
    }

    /// Reads a pointer from a full 16-bit value, failing closed on values
    /// that do not fit in eleven bits.
    pub fn from_u16(value: u16) -> (r: Result<Self, SpacePacketError>)
        ensures
            value <= 0x7ff ==> r == Ok::<Self, SpacePacketError>(Self::spec_from_masked(value)),
            value > 0x7ff ==> r == Err::<Self, SpacePacketError>(SpacePacketError::InvalidData),
    {
        if value < 2046 {
            Ok(FirstHeaderPointer::ByteIndex(value))
        } else if value == 0x7fe {
            Ok(FirstHeaderPointer::OnlyIdleData)
        } else if value == 0x7ff {
            Ok(FirstHeaderPointer::NoPacket)
        } else {
            Err(SpacePacketError::InvalidData)
        }
    }

    /// Validates the pointer: a byte index must be below 2046. Fails if and
    /// only if the pointer is an out-of-range byte index.
    pub fn validate(&self) -> (r: Result<(), SpacePacketError>)
        ensures
            r == if self.wf() {
                Ok::<(), SpacePacketError>(())
            } else {
                Err::<(), SpacePacketError>(SpacePacketError::InvalidData)
            },
    {
        match self {
            FirstHeaderPointer::ByteIndex(index) => {
                if *index < 2046 {
                    Ok(())
                } else {
                    Err(SpacePacketError::InvalidData)
                }
            },
            FirstHeaderPointer::OnlyIdleData => Ok(()),
            FirstHeaderPointer::NoPacket => Ok(()),
        }
    }
}

/// The 16-bit data field status word of a TM Transfer Frame: metadata flags
/// that tell the receiver how to decode the data field.
#[derive(Clone, Copy, Debug, PartialEq, Eq, Structural)]
pub struct TMDataFieldStatus {
    /// Whether a secondary header is attached to the frame, 1 bit.
    pub secondary_header_flag: BooleanFieldFlag,
    /// Kind of data carried in the data field, 1 bit.
    pub synchronization_flag: SynchronizationFlag,
    /// Reserved under nominal synchronization and then set to 0; undefined
    /// otherwise. 1 bit.
    pub packet_order: bool,
    /// Fixed to [`GroupingFlag::Unsegm`] under nominal synchronization;
    /// undefined otherwise. 2 bits.
    pub segment_length: GroupingFlag,
    /// Byte offset of the first packet header in the data field, 11 bits.
    pub first_header_pointer: FirstHeaderPointer,
}

impl TMDataFieldStatus {
    /// A byte-index first-header pointer stays below the sentinel values.
    pub open spec fn wf(self) -> bool {
        self.first_header_pointer.wf()
    }

    /// The 16-bit wire word of the status field.
    pub open spec fn spec_word(self) -> u16 {
        (self.secondary_header_flag.spec_1bit() as u16) << 15 | (
        self.synchronization_flag.spec_1bit() as u16) << 14 | (if self.packet_order {
            1u16
        } else {
            0u16
        }) << 13 | (self.segment_length.spec_2bits() as u16) << 11
            | self.first_header_pointer.spec_u16()
    }

    /// The 2-byte wire form of the status field.
    pub open spec fn spec_encode(self) -> Seq<u8> {
        seq![hi8(self.spec_word()), lo8(self.spec_word())]
    }

    /// The status field denoted by the first two bytes of `b`.
    pub open spec fn spec_decode(b: Seq<u8>) -> TMDataFieldStatus
        recommends
            b.len() >= 2,
    {
        let w = be16(b[0], b[1]);
        TMDataFieldStatus {
            secondary_header_flag: BooleanFieldFlag::spec_from_1bit(((w >> 15) & 0x1) as u8),
            synchronization_flag: SynchronizationFlag::spec_from_1bit(((w >> 14) & 0x1) as u8),
            packet_order: (w >> 13) & 0x1 == 1,
            segment_length: GroupingFlag::spec_from_2bits(((w >> 11) & 0x3) as u8),
            first_header_pointer: FirstHeaderPointer::spec_from_masked(w & 0x7ff),
        }
    }

    /// Validates the status field. Fails if and only if the first-header
    /// pointer is an out-of-range byte index.
    pub fn validate(&self) -> (r: Result<(), SpacePacketError>)
        ensures
            r == if self.wf() {
                Ok::<(), SpacePacketError>(())
            } else {
                Err::<(), SpacePacketError>(SpacePacketError::InvalidData)
            },
    {
        self.first_header_pointer.validate()
    }

    /// Encode the status field to its 2-byte big-endian wire form.
    pub fn encode(self) -> (r: Vec<u8>)
        ensures
            r@ == self.spec_encode(),
    {
        let word: u16 = (self.secondary_header_flag.as_1bit() as u16) << 15 | (
        self.synchronization_flag.as_1bit() as u16) << 14 | (if self.packet_order {
            1u16
        } else {
            0u16
        }) << 13 | (self.segment_length.as_2bits() as u16) << 11 | self.first_header_pointer.into_u16();
        let mut message: Vec<u8> = Vec::new();
        message.push((word / 256) as u8);
        message.push((word % 256) as u8);
        assert(message@ =~= self.spec_encode());
        message
    }

    /// Decode the status field from the first two bytes of `buffer`. Fails
    /// if and only if fewer than two bytes are given; every 16-bit word
    /// denotes a valid status field.
    pub fn decode(buffer: &[u8]) -> (r: Result<Self, SpacePacketError>)
        ensures
            buffer@.len() >= 2 ==> (r matches Ok(s) && s == Self::spec_decode(buffer@) && s.wf()),
            buffer@.len() < 2 ==> r == Err::<Self, SpacePacketError>(
                SpacePacketError::UnexpectedEnd,
            ),
    {
        if buffer.len() < 2 {
            return Err(SpacePacketError::UnexpectedEnd);
        }
        let w: u16 = be16_read(buffer[0], buffer[1]);
        proof {
            lemma_dfs_extract_ranges(w);
        }
        let secondary_header_flag = match BooleanFieldFlag::from_u8(((w >> 15) & 0x1) as u8) {
            Ok(f) => f,
            Err(e) => {
                proof {
                    assert(false);
                }
                return Err(e);
            },
        };
        let synchronization_flag = match SynchronizationFlag::from_u8(((w >> 14) & 0x1) as u8) {
            Ok(f) => f,
            Err(e) => {
                proof {
                    assert(false);
                }
                return Err(e);
            },
        };
        let first_header_pointer = match FirstHeaderPointer::from_u16(w & 0x7ff) {
            Ok(p) => p,
            Err(e) => {
                proof {
                    assert(false);
                }
                return Err(e);
            },
        };
        Ok(
            TMDataFieldStatus {
                secondary_header_flag,
                synchronization_flag,
                packet_order: (w >> 13) & 0x1 == 1,
                segment_length: GroupingFlag::from_2bits(((w >> 11) & 0x3) as u8),
                first_header_pointer,
            },
        )
    }
}

/// Primary header of a TM Transfer Frame, six bytes on the wire.
#[derive(Clone, Copy, Debug, PartialEq, Eq, Structural)]
pub struct TMPrimaryHeader {
    /// Transfer frame version number, 2 bits (currently fixed to 0).
    pub tfvn: u8,
    /// Spacecraft identifier, 10 bits.
    pub scid: u16,
    /// Virtual channel identifier, 3 bits.
    pub vcid: u8,
    /// Whether the operational control field is present, 1 bit.
    pub ocf_flag: BooleanFieldFlag,
    /// Master channel frame count, modulo 256.
    pub mc_frame_count: u8,
    /// Virtual channel frame count, modulo 256.
    pub vc_frame_count: u8,
    /// Metadata describing the frame's data field.
    pub data_field_status: TMDataFieldStatus,
}

impl TMPrimaryHeader {
    /// Every field fits its wire bit width.
    pub open spec fn wf(self) -> bool {
        &&& self.tfvn <= 3
        &&& self.scid <= 1023
        &&& self.vcid <= 7
        &&& self.data_field_status.wf()
    }

    /// First 16-bit word of the encoded header.
    pub open spec fn spec_word0(self) -> u16 {
        ((self.tfvn & 0x3) as u16) << 14 | (self.scid & 0x3ff) << 4 | ((self.vcid & 0x7) as u16)
            << 1 | (self.ocf_flag.spec_1bit() as u16)
    }

    /// The 6-byte wire form of the header.
    pub open spec fn spec_encode(self) -> Seq<u8> {
        seq![
            hi8(self.spec_word0()),
            lo8(self.spec_word0()),
            self.mc_frame_count,
            self.vc_frame_count,
        ] + self.data_field_status.spec_encode()
    }

    /// The header denoted by the first six bytes of `b`.
    pub open spec fn spec_decode(b: Seq<u8>) -> TMPrimaryHeader
        recommends
            b.len() >= 6,
    {
        let w = be16(b[0], b[1]);
        TMPrimaryHeader {
            tfvn: ((w >> 14) & 0x3) as u8,
            scid: (w >> 4) & 0x3ff,
            vcid: ((w >> 1) & 0x7) as u8,
            ocf_flag: BooleanFieldFlag::spec_from_1bit((w & 0x1) as u8),
            mc_frame_count: b[2],
            vc_frame_count: b[3],
            data_field_status: TMDataFieldStatus::spec_decode(b.subrange(4, 6)),
        }
    }

    /// Validates that each field fits its designated bit width. Fails if
    /// and only if `tfvn > 3`, `scid > 1023`, `vcid > 7`, or the data field
    /// status holds an out-of-range first-header pointer.
    pub fn validate(&self) -> (r: Result<(), SpacePacketError>)
        ensures
            r == if self.wf() {
                Ok::<(), SpacePacketError>(())
            } else {
                Err::<(), SpacePacketError>(SpacePacketError::InvalidData)
            },
    {
        if self.tfvn > 3 {
            return Err(SpacePacketError::InvalidData);
        }
        if self.scid > 1023 {
            return Err(SpacePacketError::InvalidData);
        }
        if self.vcid > 7 {
            return Err(SpacePacketError::InvalidData);
        }
        self.data_field_status.validate()
    }

    /// Encode the header to its 6-byte big-endian wire form.
    pub fn encode(self) -> (r: Vec<u8>)
        ensures
            r@ == self.spec_encode(),
    {
        let word0: u16 = ((self.tfvn & 0x3) as u16) << 14 | (self.scid & 0x3ff) << 4 | ((self.vcid
            & 0x7) as u16) << 1 | (self.ocf_flag.as_1bit() as u16);
        let mut message: Vec<u8> = Vec::new();
        message.push((word0 / 256) as u8);
        message.push((word0 % 256) as u8);
        message.push(self.mc_frame_count);
        message.push(self.vc_frame_count);
        let status = self.data_field_status.encode();
        message.push(status[0]);
        message.push(status[1]);
        assert(message@ =~= self.spec_encode());
        message
    }

    /// Decode a header from the first six bytes of `buffer`. Fails if and
    /// only if fewer than six bytes are given; every wire pattern denotes a
    /// valid header.
    pub fn decode(buffer: &[u8]) -> (r: Result<Self, SpacePacketError>)
        ensures
            buffer@.len() >= 6 ==> (r matches Ok(h) && h == Self::spec_decode(buffer@) && h.wf()),
            buffer@.len() < 6 ==> r == Err::<Self, SpacePacketError>(
                SpacePacketError::UnexpectedEnd,
            ),
    {
        if buffer.len() < 6 {
            return Err(SpacePacketError::UnexpectedEnd);
        }
        let w: u16 = be16_read(buffer[0], buffer[1]);
        proof {
            lemma_tm_extract_ranges(w);
        }
        let ocf_flag = match BooleanFieldFlag::from_u8((w & 0x1) as u8) {
            Ok(f) => f,
            Err(e) => {
                proof {
                    assert(false);
                }
                return Err(e);
            },
        };
        let status = match TMDataFieldStatus::decode(vstd::slice::slice_subrange(buffer, 4, 6)) {
            Ok(s) => s,
            Err(e) => {
                proof {
                    assert(false);
                }
                return Err(e);
            },
        };
        Ok(
            TMPrimaryHeader {
                tfvn: ((w >> 14) & 0x3) as u8,
                scid: (w >> 4) & 0x3ff,
                vcid: ((w >> 1) & 0x7) as u8,
                ocf_flag,
                mc_frame_count: buffer[2],
                vc_frame_count: buffer[3],
                data_field_status: status,
            },
        )
    }
}

/// A well-formed TM primary header survives the trip onto the wire and
/// back unchanged.
pub proof fn lemma_tm_header_roundtrip(h: TMPrimaryHeader)
    requires
        h.wf(),
    ensures
        TMPrimaryHeader::spec_decode(h.spec_encode()) == h,
{
    let w0 = h.spec_word0();
    let dw = h.data_field_status.spec_word();
    let e = h.spec_encode();
    lemma_be16_of_split(w0);
    lemma_be16_of_split(dw);
    lemma_tm_word0_fields(h.tfvn, h.scid, h.vcid, h.ocf_flag.spec_1bit());
    assert(e.subrange(4, 6) =~= h.data_field_status.spec_encode());
    lemma_dfs_roundtrip(h.data_field_status);
}

/// A well-formed data field status word survives the trip onto the wire
/// and back unchanged.
pub proof fn lemma_dfs_roundtrip(s: TMDataFieldStatus)
    requires
        s.wf(),
    ensures
        TMDataFieldStatus::spec_decode(s.spec_encode()) == s,
{
    let w = s.spec_word();
    lemma_be16_of_split(w);
    lemma_fhp_mask(s.first_header_pointer);
    lemma_dfs_word_fields(
        s.secondary_header_flag.spec_1bit(),
        s.synchronization_flag.spec_1bit(),
        s.packet_order,
        s.segment_length.spec_2bits(),
        s.first_header_pointer.spec_u16(),
    );
}

/// Secondary header of a TM Transfer Frame: a version-and-length byte
/// followed by up to 63 bytes of mission-specific data.
#[derive(Clone, Debug, PartialEq, Eq)]
pub struct TMSecondaryHeader {
    /// Secondary header version number, 2 bits (currently fixed to 0).
    pub tfvn: u8,
    /// Mission-specific data, at most 63 bytes.
    pub data_field: Vec<u8>,
}

/// Mathematical model of a [`TMSecondaryHeader`].
pub struct TMSecondaryHeaderView {
    /// Secondary header version number.
    pub tfvn: u8,
    /// Mission-specific data bytes.
    pub data_field: Seq<u8>,
}

impl View for TMSecondaryHeader {
    type V = TMSecondaryHeaderView;

    open spec fn view(&self) -> TMSecondaryHeaderView {
        TMSecondaryHeaderView { tfvn: self.tfvn, data_field: self.data_field@ }
    }
}

impl TMSecondaryHeaderView {
    /// The version fits two bits and the data fits the 6-bit length field.
    pub open spec fn wf(self) -> bool {
        &&& self.tfvn <= 3
        &&& self.data_field.len() <= 63
    }

    /// The wire form: one byte holding the version in its top two bits and
    /// the data length in its low six, then the data.
    pub open spec fn spec_encode(self) -> Seq<u8> {
        seq![((self.tfvn & 0x3) << 6 | (self.data_field.len() as u8)) as u8] + self.data_field
    }

    /// The secondary header denoted by a prefix of `b`, or the error that
    /// `b` denotes. Trailing bytes beyond the data field are ignored.
    pub open spec fn spec_decode(b: Seq<u8>) -> Result<TMSecondaryHeaderView, SpacePacketError> {
        if b.len() < 1 {
            Err(SpacePacketError::UnexpectedEnd)
        } else {
            let data_len = b[0] & 0x3f;
            if b.len() < 1 + data_len {
                Err(SpacePacketError::UnexpectedEnd)
            } else {
                Ok(
                    TMSecondaryHeaderView {
                        tfvn: (b[0] >> 6) & 0x3,
                        data_field: b.subrange(1, 1 + data_len),
                    },
                )
            }
        }
    }
}

impl TMSecondaryHeader {
    /// Validates that the version fits two bits and the data fits the 6-bit
    /// length field. Fails if and only if `tfvn > 3` or the data field is
    /// longer than 63 bytes.
    pub fn validate(&self) -> (r: Result<(), SpacePacketError>)
        ensures
            r == if self@.wf() {
                Ok::<(), SpacePacketError>(())
            } else {
                Err::<(), SpacePacketError>(SpacePacketError::InvalidData)
            },
    {
        if self.tfvn > 3 {
            return Err(SpacePacketError::InvalidData);
        }
        if self.data_field.len() > 63 {
            return Err(SpacePacketError::InvalidData);
        }
        Ok(())
    }

    /// Encode the secondary header to its wire form: the version-and-length
    /// byte, then the data.
    pub fn encode(self) -> (r: Vec<u8>)
        requires
            self@.wf(),
        ensures
            r@ == self@.spec_encode(),
    {
        let packet_len: u8 = self.data_field.len() as u8;
        let mut message: Vec<u8> = Vec::new();
        message.push((self.tfvn & 0x3) << 6 | packet_len);
        let mut i: usize = 0;
        while i < self.data_field.len()
            invariant
                i <= self.data_field.len(),
                message@ == seq![((self@.tfvn & 0x3) << 6 | packet_len) as u8]
                    + self.data_field@.take(i as int),
            decreases self.data_field.len() - i,
        {
            message.push(self.data_field[i]);
            assert(self.data_field@.take(i + 1) =~= self.data_field@.take(i as int) + seq![
                self.data_field@[i as int],
            ]);
            i += 1;
        }
        assert(message@ =~= self@.spec_encode());
        message
    }

    /// Decode a secondary header from the start of `buffer`, taking the
    /// data length from the low six bits of the first byte. Fails with
    /// [`SpacePacketError::UnexpectedEnd`] if and only if `buffer` is too
    /// short; the decoded version always fits two bits.
    pub fn decode(buffer: &[u8]) -> (r: Result<Self, SpacePacketError>)
        ensures
            match r {
                Ok(h) => TMSecondaryHeaderView::spec_decode(buffer@) == Ok::<
                    TMSecondaryHeaderView,
                    SpacePacketError,
                >(h@) && h@.wf(),
                Err(e) => TMSecondaryHeaderView::spec_decode(buffer@) == Err::<
                    TMSecondaryHeaderView,
                    SpacePacketError,
                >(e),
            },
    {
        if buffer.len() < 1 {
            return Err(SpacePacketError::UnexpectedEnd);
        }
        let first_byte: u8 = buffer[0];
        proof {
            lemma_sec_extract_ranges(first_byte);
        }
        let data_len: usize = (first_byte & 0x3f) as usize;
        if buffer.len() < 1 + data_len {
            return Err(SpacePacketError::UnexpectedEnd);
        }
        let data_field = vstd::slice::slice_to_vec(vstd::slice::slice_subrange(
            buffer,
            1,
            1 + data_len,
        ));
        Ok(TMSecondaryHeader { tfvn: (first_byte >> 6) & 0x3, data_field })
    }
}

/// A well-formed TM secondary header survives the trip onto the wire and
/// back unchanged.
pub proof fn lemma_tm_secondary_roundtrip(v: TMSecondaryHeaderView)
    requires
        v.wf(),
    ensures
        TMSecondaryHeaderView::spec_decode(v.spec_encode()) == Ok::<
            TMSecondaryHeaderView,
            SpacePacketError,
        >(v),
{
    let e = v.spec_encode();
    lemma_sec_byte_fields(v.tfvn, v.data_field.len() as u8);
    assert(e.subrange(1, 1 + v.data_field.len() as int) =~= v.data_field);
}

/// A Telemetry Transfer Frame: primary header plus the raw data field. The
/// data field's total length is fixed per physical channel, so decoding
/// requires the caller to supply the frame length.
#[derive(Clone, Debug, PartialEq, Eq)]
pub struct TMTransferFrame {
    /// Primary header metadata.
    pub primary_header: TMPrimaryHeader,
    /// The data field, possibly starting with an encoded secondary header
    /// and ending with optional trailer fields; left opaque here.
    pub data_field: Vec<u8>,
}

/// Mathematical model of a [`TMTransferFrame`].
pub struct TMFrameView {
    /// Primary header metadata.
    pub primary_header: TMPrimaryHeader,
    /// Data field bytes.
    pub data_field: Seq<u8>,
}

impl View for TMTransferFrame {
    type V = TMFrameView;

    open spec fn view(&self) -> TMFrameView {
        TMFrameView { primary_header: self.primary_header, data_field: self.data_field@ }
    }
}

impl TMFrameView {
    /// The header fields fit their bit widths.
    pub open spec fn wf(self) -> bool {
        self.primary_header.wf()
    }

    /// The wire form of the frame: the 6-byte primary header followed by
    /// the data field.
    pub open spec fn spec_encode(self) -> Seq<u8> {
        self.primary_header.spec_encode() + self.data_field
    }

    /// The frame of total length `length` denoted by a prefix of `b`, or
    /// the error that `b` denotes. Trailing bytes beyond `length` are
    /// ignored.
    pub open spec fn spec_decode(b: Seq<u8>, length: int) -> Result<TMFrameView, SpacePacketError>
        recommends
            length >= 6,
    {
        if b.len() < length {
            Err(SpacePacketError::UnexpectedEnd)
        } else {
            Ok(
                TMFrameView {
                    primary_header: TMPrimaryHeader::spec_decode(b),
                    data_field: b.subrange(6, length),
                },
            )
        }
    }
}

impl TMTransferFrame {
    /// Encode the frame to its wire form: the encoded primary header
    /// followed by the data field.
    pub fn encode(self) -> (r: Vec<u8>)
        ensures
            r@ == self@.spec_encode(),
    {
        let mut message = self.primary_header.encode();
        let mut i: usize = 0;
        while i < self.data_field.len()
            invariant
                i <= self.data_field.len(),
                message@ == self.primary_header.spec_encode() + self.data_field@.take(i as int),
            decreases self.data_field.len() - i,
        {
            message.push(self.data_field[i]);
            assert(self.data_field@.take(i + 1) =~= self.data_field@.take(i as int) + seq![
                self.data_field@[i as int],
            ]);
            i += 1;
        }
        assert(message@ =~= self@.spec_encode());
        message
    }

    /// Decode a frame from the start of `buffer`. The total frame length
    /// cannot be recovered from the bytes: it is fixed per physical channel
    /// and must be supplied by the caller; the data field is the
    /// `length - 6` bytes after the 6-byte primary header. Fails with
    /// [`SpacePacketError::UnexpectedEnd`] if and only if `buffer` holds
    /// fewer than `length` bytes.
    pub fn decode(buffer: &[u8], length: usize) -> (r: Result<Self, SpacePacketError>)
        requires
            length >= 6,
        ensures
            match r {
                Ok(f) => TMFrameView::spec_decode(buffer@, length as int) == Ok::<
                    TMFrameView,
                    SpacePacketError,
                >(f@) && f@.wf(),
                Err(e) => TMFrameView::spec_decode(buffer@, length as int) == Err::<
                    TMFrameView,
                    SpacePacketError,
                >(e),
            },
    {
        if buffer.len() < length {
            return Err(SpacePacketError::UnexpectedEnd);
        }
        let primary_header = match TMPrimaryHeader::decode(buffer) {
            Ok(h) => h,
            Err(e) => {
                proof {
                    assert(false);
                }
                return Err(e);
            },
        };
        let data_field = vstd::slice::slice_to_vec(vstd::slice::slice_subrange(buffer, 6, length));
        Ok(TMTransferFrame { primary_header, data_field })
    }
}

/// A well-formed TM Transfer Frame survives the trip onto the wire and
/// back unchanged when decoded at its own length.
pub proof fn lemma_tm_frame_roundtrip(v: TMFrameView)
    requires
        v.wf(),
    ensures
        TMFrameView::spec_decode(v.spec_encode(), v.spec_encode().len() as int) == Ok::<
            TMFrameView,
            SpacePacketError,
        >(v),
{
    let e = v.spec_encode();
    assert(e.len() == 6 + v.data_field.len());
    lemma_tm_header_roundtrip(v.primary_header);
    assert(e.take(6) =~= v.primary_header.spec_encode());
    assert(TMPrimaryHeader::spec_decode(e) == TMPrimaryHeader::spec_decode(e.take(6))) by {
        assert(e.subrange(4, 6) =~= e.take(6).subrange(4, 6));
    }
    assert(e.subrange(6, e.len() as int) =~= v.data_field);
}

/// Extracting the version and length from the secondary header byte
/// recovers the packed values.
proof fn lemma_sec_byte_fields(v: u8, l: u8)
    by (bit_vector)
    requires
        v <= 3,
        l <= 63,
    ensures
        ({
            let b = (v & 0x3) << 6 | l;
            &&& (b >> 6) & 0x3 == v
            &&& b & 0x3f == l
        }),
{
}

/// The fields extracted from an arbitrary secondary header byte fit their
/// bit widths.
proof fn lemma_sec_extract_ranges(b: u8)
    by (bit_vector)
    ensures
        (b >> 6) & 0x3 <= 3,
        b & 0x3f <= 63,
{
}

/// For a well-formed pointer, masking to eleven bits is the identity and
/// reading the wire value back recovers the pointer.
proof fn lemma_fhp_mask(p: FirstHeaderPointer)
    requires
        p.wf(),
    ensures
        p.spec_u16() <= 0x7ff,
        FirstHeaderPointer::spec_from_masked(p.spec_u16()) == p,
{
    match p {
        FirstHeaderPointer::ByteIndex(v) => {
            assert(v < 2046 ==> v & 0x7ff == v && v & 0x7ff <= 0x7ff) by (bit_vector);
        },
        _ => {},
    }
}

/// Extracting each field of the TM primary header word recovers the packed
/// value.
proof fn lemma_tm_word0_fields(v: u8, s: u16, c: u8, o: u8)
    by (bit_vector)
    requires
        v <= 3,
        s <= 1023,
        c <= 7,
        o <= 1,
    ensures
        ({
            let w = ((v & 0x3) as u16) << 14 | (s & 0x3ff) << 4 | ((c & 0x7) as u16) << 1 | (
            o as u16);
            &&& ((w >> 14) & 0x3) as u8 == v
            &&& (w >> 4) & 0x3ff == s
            &&& ((w >> 1) & 0x7) as u8 == c
            &&& (w & 0x1) as u8 == o
        }),
{
}

/// Extracting each field of the data field status word recovers the packed
/// value.
proof fn lemma_dfs_word_fields(sh: u8, sy: u8, po: bool, sl: u8, fp: u16)
    by (bit_vector)
    requires
        sh <= 1,
        sy <= 1,
        sl <= 3,
        fp <= 0x7ff,
    ensures
        ({
            let w = (sh as u16) << 15 | (sy as u16) << 14 | (if po {
                1u16
            } else {
                0u16
            }) << 13 | (sl as u16) << 11 | fp;
            &&& ((w >> 15) & 0x1) as u8 == sh
            &&& ((w >> 14) & 0x1) as u8 == sy
            &&& ((w >> 13) & 0x1 == 1) == po
            &&& ((w >> 11) & 0x3) as u8 == sl
            &&& w & 0x7ff == fp
        }),
{
}

/// The fields extracted from an arbitrary TM primary header word fit their
/// bit widths.
proof fn lemma_tm_extract_ranges(w: u16)
    by (bit_vector)
    ensures
        (w >> 14) & 0x3 <= 3,
        (w >> 4) & 0x3ff <= 1023,
        (w >> 1) & 0x7 <= 7,
        w & 0x1 <= 1,
{
}

/// The fields extracted from an arbitrary data field status word fit their
/// bit widths.
proof fn lemma_dfs_extract_ranges(w: u16)
    by (bit_vector)
    ensures
        (w >> 15) & 0x1 <= 1,
        (w >> 14) & 0x1 <= 1,
        (w >> 11) & 0x3 <= 3,
        w & 0x7ff <= 0x7ff,
{
}

} // verus!
