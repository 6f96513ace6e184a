//! The interpreter's machine words, addresses and hashes, and the memory
//! offset that a word stands for.

use ethereum_types::{H160, H256, U256};
use vstd::prelude::*;

verus! {

/// The interpreter's 256-bit machine word. Nothing inside it is read here
/// but its low 64 bits.
#[verifier::external_type_specification]
#[verifier::external_body]
pub struct ExU256(ethereum_types::U256);

/// A 160-bit account address.
#[verifier::external_type_specification]
#[verifier::external_body]
pub struct ExH160(ethereum_types::H160);

/// A 256-bit hash.
#[verifier::external_type_specification]
#[verifier::external_body]
pub struct ExH256(ethereum_types::H256);

/// The low 64 bits of a machine word: what `U256::low_u64` returns for it.
pub uninterp spec fn low_u64_of(word: U256) -> u64;

/// The memory offset that a machine word stands for: its low 64 bits, cut
/// to the width of a native address.
pub open spec fn offset_of(word: U256) -> usize {
    low_u64_of(word) as usize
}

/// Calls `U256::low_u64`, which returns the least significant of the word's
/// four 64-bit limbs and cannot fail. The contract only gives that result
/// its name.
#[verifier::external_body]
fn low_u64(word: &U256) -> (low: u64)
    ensures
        low == low_u64_of(*word),
{
    word.low_u64()
}

/// The memory offset of a machine word.
pub fn word_offset(word: &U256) -> (off: usize)
    ensures
        off == offset_of(*word),
{
    #[verifier::truncate]
    (low_u64(word) as usize)
}

} // verus!
