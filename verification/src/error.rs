//! Error type shared by the packet and frame decoders.
use vstd::prelude::*;

verus! {

/// Errors that can occur while building or parsing packets and frames.
///
/// A checksum mismatch is deliberately not an error: it is reported through
/// [`crate::CompletePacket::InvalidCRC`] so that a corrupted frame can be
/// discarded without aborting the stream.
#[derive(Clone, Copy, Debug, PartialEq, Eq, Structural)]
pub enum SpacePacketError {
    /// The input ended before a structurally required number of bytes.
    UnexpectedEnd,
    /// A field violates its declared bit width or enumerated domain.
    InvalidData,
}

} // verus!
