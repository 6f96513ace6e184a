//! The lattice that tells values fixed by the code from all others.

use crate::shadow::{aggregate_of, Shadow};
use ethereum_types::{Address, H256, U256};
use vstd::prelude::*;

verus! {

/// How far a value is fixed by the code alone. The three tags are ordered
/// `Const < NonConst < Undefined`, and two tags combine to the greater.
#[derive(Clone, Copy, Debug, PartialEq, Eq, Structural)]
pub enum ShadowConst {
    /// Nothing is recorded for this place.
    Undefined,
    /// The value derives from literals in the code alone.
    Const,
    /// The value depends on input, on the environment or on other accounts.
    NonConst,
}

impl ShadowConst {
    /// The place of a tag in the order: 0 for `Const`, 1 for `NonConst` and
    /// 2 for `Undefined`.
    pub open spec fn rank(self) -> nat {
        match self {
            ShadowConst::Const => 0,
            ShadowConst::NonConst => 1,
            ShadowConst::Undefined => 2,
        }
    }

    /// The greatest tag of a sequence: `Undefined` if it holds one, else
    /// `NonConst` if it holds one, else `Const`.
    pub open spec fn greatest(tags: Seq<ShadowConst>) -> ShadowConst {
        if tags.contains(ShadowConst::Undefined) {
            ShadowConst::Undefined
        } else if tags.contains(ShadowConst::NonConst) {
            ShadowConst::NonConst
        } else {
            ShadowConst::Const
        }
    }

    /// Folding `join` over a sequence from `Const` gives its greatest tag.
    pub proof fn lemma_fold_is_greatest(tags: Seq<ShadowConst>)
        ensures
            tags.fold_left(
                ShadowConst::Const,
                |acc: ShadowConst, next: ShadowConst| <ShadowConst as Shadow>::join(acc, next),
            ) == ShadowConst::greatest(tags),
        decreases tags.len(),
    {
        if tags.len() > 0 {
            let front = tags.drop_last();
            ShadowConst::lemma_fold_is_greatest(front);
            assert forall|tag: ShadowConst| tags.contains(tag) <==> front.contains(tag) || tag == tags.last() by {
                if front.contains(tag) {
                    let k = choose|k: int| 0 <= k < front.len() && front[k] == tag;
                    assert(tags[k] == tag);
                }
                if tag == tags.last() {
                    assert(tags[tags.len() - 1] == tag);
                }
                if tags.contains(tag) {
                    let k = choose|k: int| 0 <= k < tags.len() && tags[k] == tag;
                    if k < front.len() {
                        assert(front[k] == tag);
                    }
                }
            }
        }
    }
}

impl Default for ShadowConst {
    fn default() -> (tag: ShadowConst)
        ensures
            tag == ShadowConst::Undefined,
    {
        ShadowConst::Undefined
    }
}

impl Shadow for ShadowConst {
    open spec fn constant() -> ShadowConst {
        ShadowConst::Const
    }

    open spec fn influenced() -> ShadowConst {
        ShadowConst::NonConst
    }

    open spec fn unknown() -> ShadowConst {
        ShadowConst::Undefined
    }

    open spec fn join(left: ShadowConst, right: ShadowConst) -> ShadowConst {
        if left.rank() >= right.rank() {
            left
        } else {
            right
        }
    }

    proof fn join_commutative(a: ShadowConst, b: ShadowConst) {
    }

    proof fn join_associative(a: ShadowConst, b: ShadowConst, c: ShadowConst) {
    }

    proof fn join_idempotent(a: ShadowConst) {
    }

    proof fn join_identity(a: ShadowConst)
        ensures
            Self::join(ShadowConst::Const, a) == a,
    {
    }

    proof fn join_absorbing(a: ShadowConst)
        ensures
            Self::join(ShadowConst::Undefined, a) == ShadowConst::Undefined,
    {
    }

    proof fn default_is_unknown() {
    }

    proof fn clone_is_exact() {
    }

    fn for_calldata(_data: &[u8]) -> ShadowConst {
        ShadowConst::NonConst
    }

    fn for_const(_v: U256) -> ShadowConst {
        ShadowConst::Const
    }

    fn for_non_const_address(_v: Address) -> ShadowConst {
        ShadowConst::NonConst
    }

    fn for_const_address(_v: Address) -> ShadowConst {
        ShadowConst::Const
    }

    fn for_non_const_word(_v: U256) -> ShadowConst {
        ShadowConst::NonConst
    }

    fn for_memory_size(_v: U256) -> ShadowConst {
        ShadowConst::NonConst
    }

    fn for_env_variable(_v: U256) -> ShadowConst {
        ShadowConst::NonConst
    }

    fn for_const_hash(_h: H256) -> ShadowConst {
        ShadowConst::Const
    }

    fn for_non_const_hash(_h: H256) -> ShadowConst {
        ShadowConst::NonConst
    }

    fn for_code(_data: &[u8]) -> ShadowConst {
        ShadowConst::Const
    }

    fn for_external_code(_data: &[u8]) -> ShadowConst {
        ShadowConst::NonConst
    }

    fn merge(left: &ShadowConst, right: &ShadowConst) -> ShadowConst {
        match *left {
            ShadowConst::Const => *right,
            ShadowConst::Undefined => ShadowConst::Undefined,
            ShadowConst::NonConst => match *right {
                ShadowConst::Const => ShadowConst::NonConst,
                _ => *right,
            },
        }
    }

    fn aggregate(values: &[ShadowConst]) -> (tag: ShadowConst)
        ensures
            tag == ShadowConst::greatest(values@),
    {
        let mut result = ShadowConst::Const;
        for i in 0..values.len()
            invariant
                result == ShadowConst::greatest(values@.subrange(0, i as int)),
        {
            let val = values[i];
            proof {
                let seen = values@.subrange(0, i as int);
                let grown = values@.subrange(0, i + 1);
                assert(grown =~= seen.push(val));
                assert forall|tag: ShadowConst| grown.contains(tag) <==> seen.contains(tag) || tag == val by {
                    if seen.contains(tag) {
                        let k = choose|k: int| 0 <= k < seen.len() && seen[k] == tag;
                        assert(grown[k] == tag);
                    }
                    if tag == val {
                        assert(grown[i as int] == tag);
                    }
                }
            }
            if result == ShadowConst::Const && val == ShadowConst::NonConst {
                result = ShadowConst::NonConst;
            }
            if val == ShadowConst::Undefined {
                result = ShadowConst::Undefined;
            }
        }
        proof {
            assert(values@.subrange(0, values@.len() as int) =~= values@);
            ShadowConst::lemma_fold_is_greatest(values@);
        }
        result
    }
}

/// The aggregate of a sequence of `ShadowConst` tags is its greatest tag:
/// what a word of shadow memory aggregates to can be read off its tags.
pub proof fn lemma_aggregate_is_greatest(tags: Seq<ShadowConst>)
    ensures
        aggregate_of(tags) == ShadowConst::greatest(tags),
{
    ShadowConst::lemma_fold_is_greatest(tags);
}

} // verus!
