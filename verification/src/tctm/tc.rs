//! TeleCommand (TC) Transfer Frame: a five-byte bit-packed primary header
//! followed by at most 1019 payload bytes.
use vstd::prelude::*;

use crate::error::SpacePacketError;
use crate::{be16, be16_read, hi8, lemma_be16_of_split, lo8};

verus! {

/// Controls the kind of frame acceptance checks performed by the receiving
/// entity.
#[derive(Clone, Copy, Debug, PartialEq, Eq, Structural)]
pub enum BypassFlag {
    /// Normal acceptance checks shall be performed.
    TypeA,
    /// Acceptance checks are bypassed.
    TypeB,
}

impl BypassFlag {
    /// The 1-bit wire value of this flag.
    pub open spec fn spec_1bit(self) -> u8 {
        match self {
            BypassFlag::TypeA => 0,
            BypassFlag::TypeB => 1,
        }
    }

    /// The flag denoted by the low bit of `bit`.
    pub open spec fn spec_from_1bit(bit: u8) -> BypassFlag {
        if bit % 2 == 0 {
            BypassFlag::TypeA
        } else {
            BypassFlag::TypeB
        }
    }

    /// Packs the flag into its 1-bit wire value.
    pub fn as_1bit(self) -> (r: u8)
        ensures
            r == self.spec_1bit(),
    {
        match self {
            BypassFlag::TypeA => 0,
            BypassFlag::TypeB => 1,
        }
    }

    /// Reads the flag from a full byte, failing closed: any value other
    /// than 0 or 1 is rejected, never mapped to a default variant.
    pub fn from_u8(val: u8) -> (r: Result<Self, SpacePacketError>)
        ensures
            val == 0 ==> r == Ok::<Self, SpacePacketError>(BypassFlag::TypeA),
            val == 1 ==> r == Ok::<Self, SpacePacketError>(BypassFlag::TypeB),
            val > 1 ==> r == Err::<Self, SpacePacketError>(SpacePacketError::InvalidData),
    {
        match val {
            0 => Ok(BypassFlag::TypeA),
            1 => Ok(BypassFlag::TypeB),
            _ => Err(SpacePacketError::InvalidData),
        }
    }
}

/// Indicates whether the frame carries data (Type-D) or control information
/// configuring the Frame Acceptance and Reporting Mechanism (Type-C).
#[derive(Clone, Copy, Debug, PartialEq, Eq, Structural)]
pub enum ControlFlag {
    /// The frame contains data.
    TypeD,
    /// A control frame with parameters to configure frame acceptance.
    TypeC,
}

impl ControlFlag {
    /// The 1-bit wire value of this flag.
    pub open spec fn spec_1bit(self) -> u8 {
        match self {
            ControlFlag::TypeD => 0,
            ControlFlag::TypeC => 1,
        }
    }

    /// The flag denoted by the low bit of `bit`.
    pub open spec fn spec_from_1bit(bit: u8) -> ControlFlag {
        if bit % 2 == 0 {
            ControlFlag::TypeD
        } else {
            ControlFlag::TypeC
        }
    }

    /// Packs the flag into its 1-bit wire value.
    pub fn as_1bit(self) -> (r: u8)
        ensures
            r == self.spec_1bit(),
    {
        match self {
            ControlFlag::TypeD => 0,
            ControlFlag::TypeC => 1,
        }
    }

    /// Reads the flag from a full byte, failing closed: any value other
    /// than 0 or 1 is rejected, never mapped to a default variant.
    pub fn from_u8(val: u8) -> (r: Result<Self, SpacePacketError>)
        ensures
            val == 0 ==> r == Ok::<Self, SpacePacketError>(ControlFlag::TypeD),
            val == 1 ==> r == Ok::<Self, SpacePacketError>(ControlFlag::TypeC),
            val > 1 ==> r == Err::<Self, SpacePacketError>(SpacePacketError::InvalidData),
    {
        match val {
            0 => Ok(ControlFlag::TypeD),
            1 => Ok(ControlFlag::TypeC),
            _ => Err(SpacePacketError::InvalidData),
        }
    }
}

/// Primary header of a TC Transfer Frame. The 10-bit frame length field is
/// omitted: it is computed from the payload at encoding time.
#[derive(Clone, Copy, Debug, PartialEq, Eq, Structural)]
pub struct TCPrimaryHeader {
    /// Transfer frame version number, 2 bits (currently fixed to 0).
    pub tfvn: u8,
    /// Kind of frame acceptance checks applied by the receiving entity, 1 bit.
    pub bypass_flag: BypassFlag,
    /// Whether the frame carries data or control information, 1 bit.
    pub control_flag: ControlFlag,
    /// Spacecraft identifier, 10 bits.
    pub scid: u16,
    /// Virtual channel identifier, 6 bits.
    pub vcid: u8,
    /// Frame sequence number, 8 bits.
    pub sequence_number: u8,
}

impl TCPrimaryHeader {
    /// Every field fits its wire bit width.
    pub open spec fn wf(self) -> bool {
        &&& self.tfvn <= 3
        &&& self.scid <= 1023
        &&& self.vcid <= 63
    }

    /// First 16-bit word of the encoded header. Two spare bits between the
    /// control flag and the spacecraft identifier stay zero.
    pub open spec fn spec_word0(self) -> u16 {
        ((self.tfvn & 0x3) as u16) << 14 | (self.bypass_flag.spec_1bit() as u16) << 13 | (
        self.control_flag.spec_1bit() as u16) << 12 | (self.scid & 0x3ff)
    }

    /// Second 16-bit word of the encoded header, given the encoded
    /// length-minus-one field.
    pub open spec fn spec_word1(self, len_field: u16) -> u16 {
        ((self.vcid & 0x3f) as u16) << 10 | (len_field & 0x3ff)
    }

    /// Validates that each field fits its designated bit width. Fails if
    /// and only if `tfvn > 3`, `scid > 1023`, or `vcid > 63`.
    pub fn validate(&self) -> (r: Result<(), SpacePacketError>)
        ensures
            r == if self.wf() {
                Ok::<(), SpacePacketError>(())
            } else {
                Err::<(), SpacePacketError>(SpacePacketError::InvalidData)
            },
    {
        if self.tfvn > 3 {
            return Err(SpacePacketError::InvalidData);
        }
        if self.scid > 1023 {
            return Err(SpacePacketError::InvalidData);
        }
        if self.vcid > 63 {
            return Err(SpacePacketError::InvalidData);
        }
        Ok(())
    }
}

/// A TeleCommand Transfer Frame: primary header plus an exclusively owned
/// payload of at most 1019 bytes.
#[derive(Clone, Debug, PartialEq, Eq)]
pub struct TCTransferFrame {
    header: TCPrimaryHeader,
    payload: Vec<u8>,
}

/// Mathematical model of a [`TCTransferFrame`].
pub struct TCFrameView {
    /// Primary header information.
    pub header: TCPrimaryHeader,
    /// Payload bytes.
    pub payload: Seq<u8>,
}

impl View for TCTransferFrame {
    type V = TCFrameView;

    closed spec fn view(&self) -> TCFrameView {
        TCFrameView { header: self.header, payload: self.payload@ }
    }
}

impl TCFrameView {
    /// The header fields fit their bit widths and the payload fits within
    /// the 10-bit total-frame-length field (1024 bytes minus the 5-byte
    /// header).
    pub open spec fn wf(self) -> bool {
        &&& self.header.wf()
        &&& self.payload.len() <= 1019
    }

    /// The wire form of the frame: two bit-packed words carrying the
    /// payload length minus one, the sequence number byte, then the payload.
    pub open spec fn spec_encode(self) -> Seq<u8> {
        let w0 = self.header.spec_word0();
        let w1 = self.header.spec_word1((self.payload.len() - 1) as u16);
        seq![hi8(w0), lo8(w0), hi8(w1), lo8(w1), self.header.sequence_number] + self.payload
    }

    /// The frame denoted by a prefix of `b`, or the error that `b`
    /// denotes. The payload length is `(second word & 0x3FF) + 1`; a value
    /// exceeding 1019 is rejected as invalid data. Trailing bytes beyond
    /// the payload are ignored.
    pub open spec fn spec_decode(b: Seq<u8>) -> Result<TCFrameView, SpacePacketError> {
        if b.len() < 5 {
            Err(SpacePacketError::UnexpectedEnd)
        } else {
            let w0 = be16(b[0], b[1]);
            let w1 = be16(b[2], b[3]);
            let payload_len = (w1 & 0x3ff) + 1;
            if b.len() < 5 + payload_len {
                Err(SpacePacketError::UnexpectedEnd)
            } else if payload_len > 1019 {
                Err(SpacePacketError::InvalidData)
            } else {
                Ok(
                    TCFrameView {
                        header: TCPrimaryHeader {
                            tfvn: ((w0 >> 14) & 0x3) as u8,
                            bypass_flag: BypassFlag::spec_from_1bit(((w0 >> 13) & 0x1) as u8),
                            control_flag: ControlFlag::spec_from_1bit(((w0 >> 12) & 0x1) as u8),
                            scid: w0 & 0x3ff,
                            vcid: ((w1 >> 10) & 0x3f) as u8,
                            sequence_number: b[4],
                        },
                        payload: b.subrange(5, 5 + payload_len),
                    },
                )
            }
        }
    }
}

impl TCTransferFrame {
    /// Builds a frame after validating the header fields and the payload
    /// length. Fails if and only if `tfvn > 3`, `scid > 1023`, `vcid > 63`,
    /// or the payload is longer than 1019 bytes.
    pub fn new(header: TCPrimaryHeader, payload: Vec<u8>) -> (r: Result<Self, SpacePacketError>)
        ensures
            header.wf() && payload@.len() <= 1019 ==> (r matches Ok(f) && f@ == (TCFrameView {
                header,
                payload: payload@,
            })),
            !(header.wf() && payload@.len() <= 1019) ==> r == Err::<Self, SpacePacketError>(
                SpacePacketError::InvalidData,
            ),
    {
        let valid = header.validate();
        if let Err(e) = valid {
            return Err(e);
        }
        if payload.len() > 1019 {
            return Err(SpacePacketError::InvalidData);
        }
        Ok(TCTransferFrame { header, payload })
    }

    /// The frame's header information, without the payload length.
    pub fn header(&self) -> (r: TCPrimaryHeader)
        ensures
            r == self@.header,
    {
        self.header
    }

    /// Borrows the frame's payload.
    pub fn payload(&self) -> (r: &[u8])
        ensures
            r@ == self@.payload,
    {
        self.payload.as_slice()
    }

    /// Encode the frame to its wire form, writing the payload length minus
    /// one into the 10-bit length field.
    pub fn encode(self) -> (r: Vec<u8>)
        requires
            self@.wf(),
            self@.payload.len() >= 1,
        ensures
            r@ == self@.spec_encode(),
    {
        let word0: u16 = ((self.header.tfvn & 0x3) as u16) << 14 | (self.header.bypass_flag.as_1bit() as u16) << 13 | (
        self.header.control_flag.as_1bit() as u16) << 12 | (self.header.scid & 0x3ff);
        let encoded_len: u16 = (self.payload.len() - 1) as u16;
        let word1: u16 = ((self.header.vcid & 0x3f) as u16) << 10 | (encoded_len & 0x3ff);

        let mut message: Vec<u8> = Vec::new();
        message.push((word0 / 256) as u8);
        message.push((word0 % 256) as u8);
        message.push((word1 / 256) as u8);
        message.push((word1 % 256) as u8);
        message.push(self.header.sequence_number);
        let mut i: usize = 0;
        while i < self.payload.len()
            invariant
                i <= self.payload.len(),
                message@ == seq![
                    hi8(self@.header.spec_word0()),
                    lo8(self@.header.spec_word0()),
                    hi8(self@.header.spec_word1(encoded_len)),
                    lo8(self@.header.spec_word1(encoded_len)),
                    self@.header.sequence_number,
                ] + self.payload@.take(i as int),
            decreases self.payload.len() - i,
        {
            message.push(self.payload[i]);
            assert(self.payload@.take(i + 1) =~= self.payload@.take(i as int) + seq![
                self.payload@[i as int],
            ]);
            i += 1;
        }
        assert(message@ =~= self@.spec_encode());
        message
    }

    /// Decode a frame from the start of `buffer`, deriving the payload
    /// length from the second header word. The decoded header always fits
    /// its bit widths; only a length field exceeding 1019 payload bytes is
    /// rejected as invalid data.
    pub fn decode(buffer: &[u8]) -> (r: Result<Self, SpacePacketError>)
        ensures
            match r {
                Ok(f) => TCFrameView::spec_decode(buffer@) == Ok::<TCFrameView, SpacePacketError>(
                    f@,
                ) && f@.wf(),
                Err(e) => TCFrameView::spec_decode(buffer@) == Err::<TCFrameView, SpacePacketError>(
                    e,
                ),
            },
    {
        if buffer.len() < 5 {
            return Err(SpacePacketError::UnexpectedEnd);
        }
        let w0: u16 = be16_read(buffer[0], buffer[1]);
        let w1: u16 = be16_read(buffer[2], buffer[3]);
        proof {
            lemma_tc_extract_ranges(w0, w1);
        }
        let payload_len: usize = (w1 & 0x3ff) as usize + 1;
        if buffer.len() < 5 + payload_len {
            return Err(SpacePacketError::UnexpectedEnd);
        }
        if payload_len > 1019 {
            return Err(SpacePacketError::InvalidData);
        }
        let bypass_flag = match BypassFlag::from_u8(((w0 >> 13) & 0x1) as u8) {
            Ok(f) => f,
            Err(e) => {
                proof {
                    assert(false);
                }
                return Err(e);
            },
        };
        let control_flag = match ControlFlag::from_u8(((w0 >> 12) & 0x1) as u8) {
            Ok(f) => f,
            Err(e) => {
                proof {
                    assert(false);
                }
                return Err(e);
            },
        };
        let header = TCPrimaryHeader {
            tfvn: ((w0 >> 14) & 0x3) as u8,
            bypass_flag,
            control_flag,
            scid: w0 & 0x3ff,
            vcid: ((w1 >> 10) & 0x3f) as u8,
            sequence_number: buffer[4],
        };
        let payload = vstd::slice::slice_to_vec(vstd::slice::slice_subrange(
            buffer,
            5,
            5 + payload_len,
        ));
        Ok(TCTransferFrame { header, payload })
    }
}

/// A well-formed, non-empty TC Transfer Frame survives the trip onto the
/// wire and back unchanged.
pub proof fn lemma_tc_frame_roundtrip(v: TCFrameView)
    requires
        v.wf(),
        v.payload.len() >= 1,
    ensures
        TCFrameView::spec_decode(v.spec_encode()) == Ok::<TCFrameView, SpacePacketError>(v),
{
    let w0 = v.header.spec_word0();
    let len_field = (v.payload.len() - 1) as u16;
    let w1 = v.header.spec_word1(len_field);
    let e = v.spec_encode();
    lemma_be16_of_split(w0);
    lemma_be16_of_split(w1);
    assert(e.len() == 5 + v.payload.len());
    lemma_tc_word0_fields(v.header.tfvn, v.header.bypass_flag.spec_1bit(),
        v.header.control_flag.spec_1bit(), v.header.scid);
    lemma_tc_word1_fields(v.header.vcid, len_field);
    assert((w1 & 0x3ff) + 1 == v.payload.len());
    assert(e.subrange(5, 5 + v.payload.len() as int) =~= v.payload);
}

/// Extracting each field of the first TC header word recovers the packed
/// value.
proof fn lemma_tc_word0_fields(v: u8, b: u8, c: u8, s: u16)
    by (bit_vector)
    requires
        v <= 3,
        b <= 1,
        c <= 1,
        s <= 1023,
    ensures
        ({
            let w = ((v & 0x3) as u16) << 14 | (b as u16) << 13 | (c as u16) << 12 | (s & 0x3ff);
            &&& ((w >> 14) & 0x3) as u8 == v
            &&& ((w >> 13) & 0x1) as u8 == b
            &&& ((w >> 12) & 0x1) as u8 == c
            &&& w & 0x3ff == s
        }),
{
}

/// Extracting each field of the second TC header word recovers the packed
/// value.
proof fn lemma_tc_word1_fields(v: u8, l: u16)
    by (bit_vector)
    requires
        v <= 63,
        l <= 1023,
    ensures
        ({
            let w = ((v & 0x3f) as u16) << 10 | (l & 0x3ff);
            &&& ((w >> 10) & 0x3f) as u8 == v
            &&& w & 0x3ff == l
        }),
{
}

/// The fields extracted from arbitrary TC header words fit their bit
/// widths.
proof fn lemma_tc_extract_ranges(w0: u16, w1: u16)
    by (bit_vector)
    ensures
        (w0 >> 14) & 0x3 <= 3,
        (w0 >> 13) & 0x1 <= 1,
        (w0 >> 12) & 0x1 <= 1,
        w0 & 0x3ff <= 1023,
        (w1 >> 10) & 0x3f <= 63,
        w1 & 0x3ff <= 1023,
{
}

} // verus!
