//! CRC-16 trailer support.
//!
//! The checksum itself is computed by the `crc` crate; this module pins
//! each supported parameterization to a named mathematical function so that
//! the frame codecs can state exactly when a trailer matches.
use vstd::prelude::*;

verus! {

/// The CRC-16 value that the `crc` crate computes over `data` for a
/// width-16 algorithm with the given polynomial, initial value, input and
/// output reflection, and final XOR value.
pub uninterp spec fn crc16_checksum(
    poly: u16,
    init: u16,
    refin: bool,
    refout: bool,
    xorout: u16,
    data: Seq<u8>,
) -> u16;

/// A standard CRC-16 parameterization selectable by the caller.
#[derive(Clone, Copy, Debug, PartialEq, Eq, Structural)]
pub enum CrcKind {
    /// CRC-16/IBM-3740, also known as CRC-16/CCITT-FALSE.
    Ibm3740,
    /// CRC-16/ARC.
    Arc,
    /// CRC-16/KERMIT.
    Kermit,
}

impl CrcKind {
    /// The generator polynomial of this parameterization.
    pub open spec fn spec_poly(self) -> u16 {
        match self {
            CrcKind::Ibm3740 => 0x1021,
            CrcKind::Arc => 0x8005,
            CrcKind::Kermit => 0x1021,
        }
    }

    /// The initial register value of this parameterization.
    pub open spec fn spec_init(self) -> u16 {
        match self {
            CrcKind::Ibm3740 => 0xFFFF,
            CrcKind::Arc => 0,
            CrcKind::Kermit => 0,
        }
    }

    /// Whether input bytes are reflected.
    pub open spec fn spec_refin(self) -> bool {
        match self {
            CrcKind::Ibm3740 => false,
            CrcKind::Arc => true,
            CrcKind::Kermit => true,
        }
    }

    /// Whether the output value is reflected.
    pub open spec fn spec_refout(self) -> bool {
        match self {
            CrcKind::Ibm3740 => false,
            CrcKind::Arc => true,
            CrcKind::Kermit => true,
        }
    }

    /// The final XOR value of this parameterization.
    pub open spec fn spec_xorout(self) -> u16 {
        match self {
            CrcKind::Ibm3740 => 0,
            CrcKind::Arc => 0,
            CrcKind::Kermit => 0,
        }
    }

    /// The checksum this parameterization assigns to `data`.
    pub open spec fn spec_checksum(self, data: Seq<u8>) -> u16 {
        crc16_checksum(
            self.spec_poly(),
            self.spec_init(),
            self.spec_refin(),
            self.spec_refout(),
            self.spec_xorout(),
            data,
        )
    }
}

/// Relies on crc::Crc::<u16>::checksum with crc::CRC_16_IBM_3740 (width 16,
/// poly 0x1021, init 0xFFFF, refin false, refout false, xorout 0): the
/// result is a function of those parameters and the data alone.
#[verifier::external_body]
fn checksum_ibm_3740(data: &[u8]) -> (r: u16)
    ensures
        r == crc16_checksum(0x1021, 0xFFFF, false, false, 0, data@),
{
    crc::Crc::<u16>::new(&crc::CRC_16_IBM_3740).checksum(data)
}

/// Relies on crc::Crc::<u16>::checksum with crc::CRC_16_ARC (width 16,
/// poly 0x8005, init 0, refin true, refout true, xorout 0): the result is
/// a function of those parameters and the data alone.
#[verifier::external_body]
fn checksum_arc(data: &[u8]) -> (r: u16)
    ensures
        r == crc16_checksum(0x8005, 0, true, true, 0, data@),
{
    crc::Crc::<u16>::new(&crc::CRC_16_ARC).checksum(data)
}

/// Relies on crc::Crc::<u16>::checksum with crc::CRC_16_KERMIT (width 16,
/// poly 0x1021, init 0, refin true, refout true, xorout 0): the result is
/// a function of those parameters and the data alone.
#[verifier::external_body]
fn checksum_kermit(data: &[u8]) -> (r: u16)
    ensures
        r == crc16_checksum(0x1021, 0, true, true, 0, data@),
{
    crc::Crc::<u16>::new(&crc::CRC_16_KERMIT).checksum(data)
}

/// Computes the CRC-16 of `data` under the chosen parameterization.
pub fn checksum16(kind: CrcKind, data: &[u8]) -> (r: u16)
    ensures
        r == kind.spec_checksum(data@),
{
    match kind {
        CrcKind::Ibm3740 => checksum_ibm_3740(data),
        CrcKind::Arc => checksum_arc(data),
        CrcKind::Kermit => checksum_kermit(data),
    }
}

} // verus!
