//! The lattice that tracks nothing: every tag is the same unit value.

use crate::shadow::Shadow;
use ethereum_types::{Address, H256, U256};
use vstd::prelude::*;

verus! {

/// A tag without information, for runs in which tracking is switched off.
#[derive(Copy, Clone, Debug, PartialEq, Eq, Structural)]
pub struct ShadowFake;

impl Default for ShadowFake {
    fn default() -> (tag: ShadowFake)
        ensures
            tag == ShadowFake,
    {
        ShadowFake
    }
}

impl Shadow for ShadowFake {
    open spec fn constant() -> ShadowFake {
        ShadowFake
    }

    open spec fn influenced() -> ShadowFake {
        ShadowFake
    }

    open spec fn unknown() -> ShadowFake {
        ShadowFake
    }

    open spec fn join(left: ShadowFake, right: ShadowFake) -> ShadowFake {
        ShadowFake
    }

    proof fn join_commutative(a: ShadowFake, b: ShadowFake) {
    }

    proof fn join_associative(a: ShadowFake, b: ShadowFake, c: ShadowFake) {
    }

    proof fn join_idempotent(a: ShadowFake) {
    }

    proof fn join_identity(a: ShadowFake) {
    }

    proof fn join_absorbing(a: ShadowFake) {
    }

    proof fn default_is_unknown() {
    }

    proof fn clone_is_exact() {
    }

    fn for_calldata(_data: &[u8]) -> ShadowFake {
        ShadowFake
    }

    fn for_const(_v: U256) -> ShadowFake {
        ShadowFake
    }

    fn for_non_const_address(_v: Address) -> ShadowFake {
        ShadowFake
    }

    fn for_const_address(_v: Address) -> ShadowFake {
        ShadowFake
    }

    fn for_non_const_word(_v: U256) -> ShadowFake {
        ShadowFake
    }

    fn for_memory_size(_v: U256) -> ShadowFake {
        ShadowFake
    }

    fn for_env_variable(_v: U256) -> ShadowFake {
        ShadowFake
    }

    fn for_const_hash(_h: H256) -> ShadowFake {
        ShadowFake
    }

    fn for_non_const_hash(_h: H256) -> ShadowFake {
        ShadowFake
    }

    fn for_code(_data: &[u8]) -> ShadowFake {
        ShadowFake
    }

    fn for_external_code(_data: &[u8]) -> ShadowFake {
        ShadowFake
    }

    fn merge(_left: &ShadowFake, _right: &ShadowFake) -> ShadowFake {
        ShadowFake
    }

    fn aggregate(_values: &[ShadowFake]) -> ShadowFake {
        ShadowFake
    }
}

} // verus!
