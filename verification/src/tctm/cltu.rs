//! Communications Link Transmission Unit (CLTU) generation: BCH-protected
//! codeblocks between a fixed start marker and a fixed tail marker, with
//! optional TC randomization applied first.
use vstd::prelude::*;

use crate::tctm::randomizer::{apply_randomization, spec_randomize, Randomization};

pub mod bch;

use crate::tctm::cltu::bch::{encode_bch_ctlu, spec_cltu};

verus! {

/// The CLTU encoding schemes.
#[derive(Clone, Copy, Debug, PartialEq, Eq, Structural)]
pub enum EncodingScheme {
    /// A modified (63,56) Bose-Chaudhuri-Hocquenghem code: seven parity
    /// bits for every 56 data bits.
    BCH,
    /// As [`EncodingScheme::BCH`], with the TC randomization sequence
    /// applied to the frame before BCH encoding.
    BCHRandomized,
}

/// The CLTU bytes produced for `data` under the chosen encoding scheme.
pub open spec fn spec_generate_cltu(data: Seq<u8>, encoding: EncodingScheme) -> Seq<u8> {
    match encoding {
        EncodingScheme::BCH => spec_cltu(data),
        EncodingScheme::BCHRandomized => spec_cltu(spec_randomize(data, Randomization::TC)),
    }
}

/// Generates a Communications Link Transmission Unit from the input bytes
/// using the chosen encoding scheme.
pub fn generate_ctlu(bytes: &[u8], encoding: EncodingScheme) -> (r: Vec<u8>)
    ensures
        r@ == spec_generate_cltu(bytes@, encoding),
{
    match encoding {
        EncodingScheme::BCH => encode_bch_ctlu(bytes),
        EncodingScheme::BCHRandomized => {
            let randomized = apply_randomization(bytes, Randomization::TC);
            encode_bch_ctlu(randomized.as_slice())
        },
    }
}

} // verus!
