//! CCSDS space communications protocol codecs: Space Packet framing, TC and
//! TM transfer frames, BCH-protected CLTUs, link randomization, and a
//! resynchronizing streaming frame decoder.
use vstd::prelude::*;

pub mod codec;
pub mod crc16;
pub mod error;
pub mod tctm;

use crate::crc16::CrcKind;
use crate::error::SpacePacketError;

verus! {

/// The big-endian 16-bit word formed by two bytes.
pub open spec fn be16(hi: u8, lo: u8) -> u16 {
    (hi * 256 + lo) as u16
}

/// High byte of a 16-bit word (big-endian order).
pub open spec fn hi8(w: u16) -> u8 {
    (w / 256) as u8
}

/// Low byte of a 16-bit word (big-endian order).
pub open spec fn lo8(w: u16) -> u8 {
    (w % 256) as u8
}

/// Combines two bytes into a big-endian 16-bit word.
pub fn be16_read(hi: u8, lo: u8) -> (w: u16)
    ensures
        w == be16(hi, lo),
{
    hi as u16 * 256 + lo as u16
}

/// CCSDS grouping flag: the packet's position in a segmented stream.
#[derive(Clone, Copy, Debug, PartialEq, Eq, Structural)]
pub enum GroupingFlag {
    /// Intermediate stream packet.
    Interm,
    /// First stream packet.
    First,
    /// Last stream packet.
    Last,
    /// Packet contains unsegmented data.
    Unsegm,
}

impl GroupingFlag {
    /// The 2-bit wire value of this flag.
    pub open spec fn spec_2bits(self) -> u8 {
        match self {
            GroupingFlag::Interm => 0,
            GroupingFlag::First => 1,
            GroupingFlag::Last => 2,
            GroupingFlag::Unsegm => 3,
        }
    }

    /// The flag denoted by the low two bits of `input`.
    pub open spec fn spec_from_2bits(input: u8) -> GroupingFlag {
        let b = input % 4;
        if b == 0 {
            GroupingFlag::Interm
        } else if b == 1 {
            GroupingFlag::First
        } else if b == 2 {
            GroupingFlag::Last
        } else {
            GroupingFlag::Unsegm
        }
    }

    /// Packs the flag into its 2-bit wire value.
    pub fn as_2bits(self) -> (r: u8)
        ensures
            r == self.spec_2bits(),
    {
        match self {
            GroupingFlag::Interm => 0,
            GroupingFlag::First => 1,
            GroupingFlag::Last => 2,
            GroupingFlag::Unsegm => 3,
        }
    }

    /// Reads the flag from the low two bits of `input`; upper bits are ignored.
    pub fn from_2bits(input: u8) -> (r: Self)
        ensures
            r == Self::spec_from_2bits(input),
            input <= 3 ==> r.spec_2bits() == input,
    {
        let b: u8 = input % 4;
        if b == 0 {
            GroupingFlag::Interm
        } else if b == 1 {
            GroupingFlag::First
        } else if b == 2 {
            GroupingFlag::Last
        } else {
            GroupingFlag::Unsegm
        }
    }
}

/// Whether a Space Packet carries telemetry or a command.
#[derive(Clone, Copy, Debug, PartialEq, Eq, Structural)]
pub enum PacketType {
    /// A telemetry packet.
    Telemetry,
    /// A command packet.
    Command,
}

impl PacketType {
    /// The 1-bit wire value of this type.
    pub open spec fn spec_1bit(self) -> u8 {
        match self {
            PacketType::Telemetry => 0,
            PacketType::Command => 1,
        }
    }

    /// The type denoted by the low bit of `bit`.
    pub open spec fn spec_from_1bit(bit: u8) -> PacketType {
        if bit % 2 == 0 {
            PacketType::Telemetry
        } else {
            PacketType::Command
        }
    }

    /// Packs the type into its 1-bit wire value.
    pub fn as_1bit(self) -> (r: u8)
        ensures
            r == self.spec_1bit(),
    {
        match self {
            PacketType::Telemetry => 0,
            PacketType::Command => 1,
        }
    }

    /// Reads the type from the low bit of `bit`; upper bits are ignored.
    pub fn from_1bit(bit: u8) -> (r: Self)
        ensures
            r == Self::spec_from_1bit(bit),
            bit <= 1 ==> r.spec_1bit() == bit,
    {
        if bit % 2 == 0 {
            PacketType::Telemetry
        } else {
            PacketType::Command
        }
    }
}

/// Space Packet primary header. The 16-bit length field is omitted: it is
/// computed from the payload at encoding time.
#[derive(Clone, Copy, Debug, PartialEq, Eq, Structural)]
pub struct PrimaryHeader {
    /// Packet version number, 3 bits (currently always 0).
    pub version: u8,
    /// Whether the packet is a telemetry or command packet, 1 bit.
    pub packet_type: PacketType,
    /// Application process identifier of the receiving entity, 11 bits.
    pub apid: u16,
    /// Whether a secondary header follows the primary header, 1 bit.
    pub secondary_header: bool,
    /// The grouping status of this packet, 2 bits.
    pub grouping: GroupingFlag,
    /// Sequence count of this packet, 14 bits.
    pub sequence_count: u16,
}

impl PrimaryHeader {
    /// Every field fits its wire bit width.
    pub open spec fn wf(self) -> bool {
        &&& self.version <= 0x7
        &&& self.apid <= 0x7FF
        &&& self.sequence_count <= 0x3FFF
    }

    /// First 16-bit word of the encoded header.
    pub open spec fn spec_word0(self) -> u16 {
        ((self.version & 0x7) as u16) << 13 | (self.packet_type.spec_1bit() as u16) << 12 | (
        if self.secondary_header {
            1u16
        } else {
            0u16
        }) << 11 | (self.apid & 0x7FF)
    }

    /// Second 16-bit word of the encoded header.
    pub open spec fn spec_word1(self) -> u16 {
        (self.grouping.spec_2bits() as u16) << 14 | (self.sequence_count & 0x3FFF)
    }

    /// The 4-byte wire form of the header.
    pub open spec fn spec_encode(self) -> Seq<u8> {
        seq![hi8(self.spec_word0()), lo8(self.spec_word0()), hi8(self.spec_word1()), lo8(
            self.spec_word1(),
        )]
    }

    /// The header denoted by the first four bytes of `b`.
    pub open spec fn spec_decode(b: Seq<u8>) -> PrimaryHeader
        recommends
            b.len() >= 4,
    {
        let w0 = be16(b[0], b[1]);
        let w1 = be16(b[2], b[3]);
        PrimaryHeader {
            version: ((w0 & 0xe000) >> 13) as u8,
            packet_type: PacketType::spec_from_1bit(((w0 & 0x1000) >> 12) as u8),
            secondary_header: (w0 & 0x800) >> 11 != 0,
            apid: w0 & 0x7ff,
            grouping: GroupingFlag::spec_from_2bits(((w1 & 0xc000) >> 14) as u8),
            sequence_count: w1 & 0x3fff,
        }
    }

    /// Encode to the 4-byte big-endian wire form.
    pub fn encode(&self) -> (r: Vec<u8>)
        ensures
            r@ == self.spec_encode(),
    {
        let word0: u16 = ((self.version & 0x7) as u16) << 13 | (self.packet_type.as_1bit()
            as u16) << 12 | (if self.secondary_header {
            1u16
        } else {
            0u16
        }) << 11 | (self.apid & 0x7FF);
        let word1: u16 = (self.grouping.as_2bits() as u16) << 14 | (self.sequence_count & 0x3FFF);

        let mut message: Vec<u8> = Vec::new();
        message.push((word0 / 256) as u8);
        message.push((word0 % 256) as u8);
        message.push((word1 / 256) as u8);
        message.push((word1 % 256) as u8);
        assert(message@ =~= self.spec_encode());
        message
    }

    /// Decode from the 4-byte big-endian wire form. Fails only when fewer
    /// than four bytes are given.
    pub fn decode(buffer: &[u8]) -> (r: Result<Self, SpacePacketError>)
        ensures
            buffer@.len() >= 4 ==> r == Ok::<Self, SpacePacketError>(Self::spec_decode(buffer@)),
            buffer@.len() < 4 ==> r == Err::<Self, SpacePacketError>(
                SpacePacketError::UnexpectedEnd,
            ),
    {
        if buffer.len() < 4 {
            return Err(SpacePacketError::UnexpectedEnd);
        }
        let w0: u16 = be16_read(buffer[0], buffer[1]);
        let w1: u16 = be16_read(buffer[2], buffer[3]);
        Ok(PrimaryHeader {
            version: ((w0 & 0xe000) >> 13) as u8,
            packet_type: PacketType::from_1bit(((w0 & 0x1000) >> 12) as u8),
            secondary_header: (w0 & 0x800) >> 11 != 0,
            apid: w0 & 0x7ff,
            grouping: GroupingFlag::from_2bits(((w1 & 0xc000) >> 14) as u8),
            sequence_count: w1 & 0x3fff,
        })
    }
}

/// A well-formed primary header survives the trip onto the wire and back
/// unchanged.
pub proof fn lemma_primary_header_roundtrip(h: PrimaryHeader)
    requires
        h.wf(),
    ensures
        PrimaryHeader::spec_decode(h.spec_encode()) == h,
{
    let w0 = h.spec_word0();
    let w1 = h.spec_word1();
    lemma_be16_of_split(w0);
    lemma_be16_of_split(w1);
    lemma_word0_fields(h.version, h.packet_type.spec_1bit(), h.secondary_header, h.apid);
    lemma_word1_fields(h.grouping.spec_2bits(), h.sequence_count);
}

/// Splitting a word into bytes and reading them back is the identity.
pub proof fn lemma_be16_of_split(w: u16)
    ensures
        be16(hi8(w), lo8(w)) == w,
{
}

/// Extracting each field of the first header word recovers the packed value.
proof fn lemma_word0_fields(v: u8, t: u8, s: bool, a: u16)
    by (bit_vector)
    requires
        v <= 0x7,
        t <= 1,
        a <= 0x7FF,
    ensures
        ({
            let w = ((v & 0x7) as u16) << 13 | (t as u16) << 12 | (if s {
                1u16
            } else {
                0u16
            }) << 11 | (a & 0x7FF);
            &&& ((w & 0xe000) >> 13) as u8 == v
            &&& ((w & 0x1000) >> 12) as u8 == t
            &&& ((w & 0x800) >> 11 != 0) == s
            &&& w & 0x7ff == a
        }),
{
}

/// Extracting each field of the second header word recovers the packed value.
proof fn lemma_word1_fields(g: u8, c: u16)
    by (bit_vector)
    requires
        g <= 3,
        c <= 0x3FFF,
    ensures
        ({
            let w = (g as u16) << 14 | (c & 0x3FFF);
            &&& ((w & 0xc000) >> 14) as u8 == g
            &&& w & 0x3fff == c
        }),
{
}

/// A Space Packet: primary header plus an exclusively owned payload.
#[derive(Clone, Debug, PartialEq, Eq)]
pub struct SpacePacket {
    /// Primary header information.
    pub primary_header: PrimaryHeader,
    /// Payload bytes, decoded by the end user.
    pub payload: Vec<u8>,
}

/// Mathematical model of a [`SpacePacket`]: the header and the payload bytes.
pub struct SpacePacketView {
    /// Primary header information.
    pub primary_header: PrimaryHeader,
    /// Payload bytes.
    pub payload: Seq<u8>,
}

impl View for SpacePacket {
    type V = SpacePacketView;

    open spec fn view(&self) -> SpacePacketView {
        SpacePacketView { primary_header: self.primary_header, payload: self.payload@ }
    }
}

impl SpacePacketView {
    /// The header fields fit their bit widths and the payload fits the
    /// 16-bit length-minus-one field.
    pub open spec fn wf(self) -> bool {
        &&& self.primary_header.wf()
        &&& 1 <= self.payload.len() <= 0x10000
    }

    /// As [`Self::wf`], with room left in the length field for the two
    /// CRC trailer bytes.
    pub open spec fn wf_crc(self) -> bool {
        &&& self.primary_header.wf()
        &&& 1 <= self.payload.len() <= 0xFFFE
    }

    /// The wire form of the packet: header, 16-bit payload length minus
    /// one, then the payload.
    pub open spec fn spec_encode(self) -> Seq<u8> {
        let field = (self.payload.len() - 1) as u16;
        self.primary_header.spec_encode() + seq![hi8(field), lo8(field)] + self.payload
    }

    /// The packet denoted by a prefix of `b`, or the error that `b` denotes:
    /// four header bytes, two length bytes, then exactly `length + 1`
    /// payload bytes. Trailing bytes beyond the payload are ignored.
    pub open spec fn spec_decode(b: Seq<u8>) -> Result<SpacePacketView, SpacePacketError> {
        if b.len() < 6 {
            Err(SpacePacketError::UnexpectedEnd)
        } else {
            let n = be16(b[4], b[5]) + 1;
            if b.len() < 6 + n {
                Err(SpacePacketError::UnexpectedEnd)
            } else {
                Ok(
                    SpacePacketView {
                        primary_header: PrimaryHeader::spec_decode(b),
                        payload: b.subrange(6, 6 + n),
                    },
                )
            }
        }
    }
}

impl SpacePacket {
    /// Builds a packet from its header fields and payload.
    pub fn new(
        version: u8,
        packet_type: PacketType,
        apid: u16,
        grouping: GroupingFlag,
        sequence_count: u16,
        secondary_header: bool,
        payload: Vec<u8>,
    ) -> (r: Self)
        ensures
            r@ == (SpacePacketView {
                primary_header: PrimaryHeader {
                    version,
                    packet_type,
                    apid,
                    secondary_header,
                    grouping,
                    sequence_count,
                },
                payload: payload@,
            }),
    {
        SpacePacket {
            primary_header: PrimaryHeader {
                version,
                packet_type,
                apid,
                grouping,
                sequence_count,
                secondary_header,
            },
            payload,
        }
    }

    /// Encode the packet to its wire form, writing the payload length minus
    /// one into the 16-bit length field.
    pub fn encode(&self) -> (r: Vec<u8>)
        requires
            self@.wf(),
        ensures
            r@ == self@.spec_encode(),
    {
        let mut message = self.primary_header.encode();
        let field: u16 = (self.payload.len() - 1) as u16;
        message.push((field / 256) as u8);
        message.push((field % 256) as u8);
        let mut i: usize = 0;
        while i < self.payload.len()
            invariant
                i <= self.payload.len(),
                message@ == self.primary_header.spec_encode() + seq![hi8(field), lo8(field)]
                    + self.payload@.take(i as int),
            decreases self.payload.len() - i,
        {
            message.push(self.payload[i]);
            assert(self.payload@.take(i + 1) =~= self.payload@.take(i as int) + seq![
                self.payload@[i as int],
            ]);
            i += 1;
        }
        assert(message@ =~= self@.spec_encode());
        message
    }

    /// Decode a packet from the start of `buffer`: four header bytes, two
    /// length bytes, then exactly `length + 1` payload bytes. Fails with
    /// [`SpacePacketError::UnexpectedEnd`] if and only if `buffer` is too
    /// short; bytes beyond the payload are ignored.
    pub fn decode(buffer: &[u8]) -> (r: Result<Self, SpacePacketError>)
        ensures
            match r {
                Ok(p) => SpacePacketView::spec_decode(buffer@) == Ok::<
                    SpacePacketView,
                    SpacePacketError,
                >(p@),
                Err(e) => SpacePacketView::spec_decode(buffer@) == Err::<
                    SpacePacketView,
                    SpacePacketError,
                >(e),
            },
    {
        if buffer.len() < 6 {
            return Err(SpacePacketError::UnexpectedEnd);
        }
        let primary_header = match PrimaryHeader::decode(buffer) {
            Ok(h) => h,
            Err(e) => { return Err(e) },
        };
        let message_len: usize = be16_read(buffer[4], buffer[5]) as usize + 1;
        if buffer.len() < 6 + message_len {
            return Err(SpacePacketError::UnexpectedEnd);
        }
        let payload = vstd::slice::slice_to_vec(vstd::slice::slice_subrange(
            buffer,
            6,
            6 + message_len,
        ));
        Ok(SpacePacket { primary_header, payload })
    }
}

/// Result of a CRC-checked decode: either a validated packet, or the pair
/// of checksums of a structurally valid but corrupted frame. The latter is
/// recoverable: the caller discards one frame and continues.
#[derive(Clone, Debug, PartialEq, Eq)]
pub enum CompletePacket {
    /// The CRC-validated packet.
    Valid(SpacePacket),
    /// The sent and computed CRC values of a rejected frame.
    InvalidCRC(u16, u16),
}

/// Mathematical model of a [`CompletePacket`].
pub enum CompletePacketView {
    /// The CRC-validated packet.
    Valid(SpacePacketView),
    /// The sent and computed CRC values of a rejected frame.
    InvalidCRC(u16, u16),
}

impl View for CompletePacket {
    type V = CompletePacketView;

    open spec fn view(&self) -> CompletePacketView {
        match self {
            CompletePacket::Valid(p) => CompletePacketView::Valid(p@),
            CompletePacket::InvalidCRC(sent, computed) => CompletePacketView::InvalidCRC(
                *sent,
                *computed,
            ),
        }
    }
}

impl SpacePacketView {
    /// The CRC-protected wire form without its trailer: header, 16-bit
    /// length field covering payload plus the two trailer bytes, payload.
    pub open spec fn spec_encode_crc_body(self) -> Seq<u8> {
        let field = (self.payload.len() - 1 + 2) as u16;
        self.primary_header.spec_encode() + seq![hi8(field), lo8(field)] + self.payload
    }

    /// The full CRC-protected wire form: the body followed by the CRC-16 of
    /// the body under `kind`, big-endian.
    pub open spec fn spec_encode_crc(self, kind: CrcKind) -> Seq<u8> {
        let body = self.spec_encode_crc_body();
        let c = kind.spec_checksum(body);
        body + seq![hi8(c), lo8(c)]
    }

    /// The outcome of a CRC-checked decode of a prefix of `b`: the length
    /// field counts the two trailer bytes, the checksum is computed over
    /// everything before the trailer, and a mismatch is a value, not an
    /// error. Trailing bytes beyond the frame are ignored.
    pub open spec fn spec_decode_crc(kind: CrcKind, b: Seq<u8>) -> Result<
        CompletePacketView,
        SpacePacketError,
    > {
        if b.len() < 6 {
            Err(SpacePacketError::UnexpectedEnd)
        } else {
            let n = be16(b[4], b[5]) + 1;
            if b.len() < 6 + n {
                Err(SpacePacketError::UnexpectedEnd)
            } else if n < 3 {
                Err(SpacePacketError::InvalidData)
            } else {
                let sent = be16(b[6 + n - 2], b[6 + n - 1]);
                let computed = kind.spec_checksum(b.take(6 + n - 2));
                if sent != computed {
                    Ok(CompletePacketView::InvalidCRC(sent, computed))
                } else {
                    Ok(
                        CompletePacketView::Valid(
                            SpacePacketView {
                                primary_header: PrimaryHeader::spec_decode(b),
                                payload: b.subrange(6, 6 + n - 2),
                            },
                        ),
                    )
                }
            }
        }
    }
}

impl SpacePacket {
    /// Encode the packet and append the CRC-16 of the encoded bytes under
    /// `kind`. The length field counts the two trailer bytes.
    pub fn encode_crc(&self, kind: CrcKind) -> (r: Vec<u8>)
        requires
            self@.wf_crc(),
        ensures
            r@ == self@.spec_encode_crc(kind),
    {
        let mut message = self.primary_header.encode();
        let field: u16 = (self.payload.len() - 1 + 2) as u16;
        message.push((field / 256) as u8);
        message.push((field % 256) as u8);
        let mut i: usize = 0;
        while i < self.payload.len()
            invariant
                i <= self.payload.len(),
                message@ == self.primary_header.spec_encode() + seq![hi8(field), lo8(field)]
                    + self.payload@.take(i as int),
            decreases self.payload.len() - i,
        {
            message.push(self.payload[i]);
            assert(self.payload@.take(i + 1) =~= self.payload@.take(i as int) + seq![
                self.payload@[i as int],
            ]);
            i += 1;
        }
        assert(message@ =~= self@.spec_encode_crc_body());
        let c: u16 = crate::crc16::checksum16(kind, message.as_slice());
        message.push((c / 256) as u8);
        message.push((c % 256) as u8);
        assert(message@ =~= self@.spec_encode_crc(kind));
        message
    }

    /// Decode a CRC-protected packet from the start of `buffer`. The CRC is
    /// recomputed over everything before the two trailer bytes; a mismatch
    /// is reported as [`CompletePacket::InvalidCRC`], never as an error, so
    /// that the caller can discard the frame and continue.
    pub fn decode_crc(buffer: &[u8], kind: CrcKind) -> (r: Result<
        CompletePacket,
        SpacePacketError,
    >)
        ensures
            match r {
                Ok(cp) => SpacePacketView::spec_decode_crc(kind, buffer@) == Ok::<
                    CompletePacketView,
                    SpacePacketError,
                >(cp@),
                Err(e) => SpacePacketView::spec_decode_crc(kind, buffer@) == Err::<
                    CompletePacketView,
                    SpacePacketError,
                >(e),
            },
    {
        if buffer.len() < 6 {
            return Err(SpacePacketError::UnexpectedEnd);
        }
        let message_len: usize = be16_read(buffer[4], buffer[5]) as usize + 1;
        if buffer.len() < 6 + message_len {
            return Err(SpacePacketError::UnexpectedEnd);
        }
        if message_len < 3 {
            return Err(SpacePacketError::InvalidData);
        }
        let total: usize = 6 + message_len;
        let crc_sent: u16 = be16_read(buffer[total - 2], buffer[total - 1]);
        let computed: u16 = crate::crc16::checksum16(
            kind,
            vstd::slice::slice_subrange(buffer, 0, total - 2),
        );
        if crc_sent != computed {
            return Ok(CompletePacket::InvalidCRC(crc_sent, computed));
        }
        let primary_header = match PrimaryHeader::decode(buffer) {
            Ok(h) => h,
            Err(_) => {
                proof {
                    assert(false);
                }
                return Err(SpacePacketError::UnexpectedEnd);
            },
        };
        let payload = vstd::slice::slice_to_vec(vstd::slice::slice_subrange(buffer, 6, total - 2));
        Ok(CompletePacket::Valid(SpacePacket { primary_header, payload }))
    }
}

/// A CRC-protected packet survives the trip onto the wire and back: the
/// decoder validates the appended checksum and strips it.
pub proof fn lemma_space_packet_crc_roundtrip(kind: CrcKind, v: SpacePacketView)
    requires
        v.wf_crc(),
    ensures
        SpacePacketView::spec_decode_crc(kind, v.spec_encode_crc(kind)) == Ok::<
            CompletePacketView,
            SpacePacketError,
        >(CompletePacketView::Valid(v)),
{
    let body = v.spec_encode_crc_body();
    let c = kind.spec_checksum(body);
    let e = v.spec_encode_crc(kind);
    let field = (v.payload.len() - 1 + 2) as u16;
    lemma_be16_of_split(field);
    lemma_be16_of_split(c);
    assert(e.len() == 8 + v.payload.len());
    assert(be16(e[4], e[5]) == field);
    let n = be16(e[4], e[5]) + 1;
    assert(n == v.payload.len() + 2);
    assert(e.take(6 + n - 2) =~= body);
    assert(be16(e[6 + n - 2], e[6 + n - 1]) == c);
    lemma_primary_header_roundtrip(v.primary_header);
    assert(e.take(4) =~= v.primary_header.spec_encode());
    assert(PrimaryHeader::spec_decode(e) == PrimaryHeader::spec_decode(e.take(4)));
    assert(e.subrange(6, 6 + n - 2) =~= v.payload);
}

/// Corrupting the two trailer bytes of a CRC-protected frame is always
/// detected: the decoder reports the tampered sent value and the original
/// computed value, never an error.
pub proof fn lemma_crc_tamper_detected(kind: CrcKind, v: SpacePacketView, t: Seq<u8>)
    requires
        v.wf_crc(),
        t.len() == v.spec_encode_crc(kind).len(),
        t.take(t.len() - 2) == v.spec_encode_crc(kind).take(t.len() - 2),
        t != v.spec_encode_crc(kind),
    ensures
        SpacePacketView::spec_decode_crc(kind, t) == Ok::<CompletePacketView, SpacePacketError>(
            CompletePacketView::InvalidCRC(
                be16(t[t.len() - 2], t[t.len() - 1]),
                kind.spec_checksum(v.spec_encode_crc_body()),
            ),
        ),
{
    let body = v.spec_encode_crc_body();
    let c = kind.spec_checksum(body);
    let e = v.spec_encode_crc(kind);
    let field = (v.payload.len() - 1 + 2) as u16;
    lemma_be16_of_split(field);
    lemma_be16_of_split(c);
    assert(e.len() == 8 + v.payload.len());
    assert(t[4] == e.take(t.len() - 2)[4] && t[5] == e.take(t.len() - 2)[5]);
    assert(be16(t[4], t[5]) == field);
    let n = be16(t[4], t[5]) + 1;
    assert(n == v.payload.len() + 2);
    assert(t.take(6 + n - 2) =~= e.take(e.len() - 2));
    assert(e.take(e.len() - 2) =~= body);
    let sent = be16(t[6 + n - 2], t[6 + n - 1]);
    assert(sent != c) by {
        if sent == c {
            assert(t[t.len() - 2] * 256 + t[t.len() - 1] == c);
            assert(e[e.len() - 2] == hi8(c) && e[e.len() - 1] == lo8(c));
            assert(t[t.len() - 2] == hi8(c) && t[t.len() - 1] == lo8(c));
            assert(t =~= e);
        }
    }
}

/// A well-formed Space Packet survives the trip onto the wire and back
/// unchanged.
pub proof fn lemma_space_packet_roundtrip(v: SpacePacketView)
    requires
        v.wf(),
    ensures
        SpacePacketView::spec_decode(v.spec_encode()) == Ok::<SpacePacketView, SpacePacketError>(v),
{
    let e = v.spec_encode();
    let field = (v.payload.len() - 1) as u16;
    lemma_be16_of_split(field);
    assert(e.len() == 6 + v.payload.len());
    assert(e[4] == hi8(field) && e[5] == lo8(field));
    lemma_primary_header_roundtrip(v.primary_header);
    assert(e.take(4) =~= v.primary_header.spec_encode());
    assert(PrimaryHeader::spec_decode(e) == PrimaryHeader::spec_decode(e.take(4)));
    assert(e.subrange(6, 6 + field + 1) =~= v.payload);
}

} // verus!
