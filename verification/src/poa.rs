//! Primitives of the proof-of-access consensus.

use vstd::prelude::*;

verus! {

/// The consensus engine id of proof of access: the bytes of `poa_`.
pub const POA_ENGINE_ID: [u8; 4] = [112u8, 111u8, 97u8, 95u8];

/// A seal, as raw bytes.
pub type Seal = Vec<u8>;

} // verus!
