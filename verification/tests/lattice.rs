use ethereum_types::{Address, H256, U256};
use shadowmem::const_detector::ShadowConst;
use shadowmem::fake::ShadowFake;
use shadowmem::shadow::LENGTH_MISMATCH;
use shadowmem::Shadow;

use ShadowConst::{Const, NonConst, Undefined};

const ALL: [ShadowConst; 3] = [Const, NonConst, Undefined];

fn fold(tags: &[ShadowConst]) -> ShadowConst {
    let mut acc = Const;
    for tag in tags {
        acc = ShadowConst::merge(&acc, tag);
    }
    acc
}

#[test]
fn merge_table_is_the_greater_tag() {
    assert_eq!(ShadowConst::merge(&Const, &Const), Const);
    assert_eq!(ShadowConst::merge(&Const, &NonConst), NonConst);
    assert_eq!(ShadowConst::merge(&Const, &Undefined), Undefined);
    assert_eq!(ShadowConst::merge(&NonConst, &Const), NonConst);
    assert_eq!(ShadowConst::merge(&NonConst, &NonConst), NonConst);
    assert_eq!(ShadowConst::merge(&NonConst, &Undefined), Undefined);
    assert_eq!(ShadowConst::merge(&Undefined, &Const), Undefined);
    assert_eq!(ShadowConst::merge(&Undefined, &NonConst), Undefined);
    assert_eq!(ShadowConst::merge(&Undefined, &Undefined), Undefined);
}

#[test]
fn merge_is_commutative() {
    for a in ALL {
        for b in ALL {
            assert_eq!(ShadowConst::merge(&a, &b), ShadowConst::merge(&b, &a));
        }
    }
}

#[test]
fn merge_is_associative() {
    for a in ALL {
        for b in ALL {
            for c in ALL {
                let left = ShadowConst::merge(&ShadowConst::merge(&a, &b), &c);
                let right = ShadowConst::merge(&a, &ShadowConst::merge(&b, &c));
                assert_eq!(left, right);
            }
        }
    }
}

#[test]
fn merge_is_idempotent() {
    for a in ALL {
        assert_eq!(ShadowConst::merge(&a, &a), a);
    }
}

#[test]
fn const_is_the_identity_of_merge() {
    for x in ALL {
        assert_eq!(ShadowConst::merge(&ShadowConst::Const, &x), x);
        assert_eq!(ShadowConst::merge(&x, &ShadowConst::Const), x);
    }
}

#[test]
fn undefined_absorbs_every_tag() {
    for x in ALL {
        assert_eq!(ShadowConst::merge(&ShadowConst::Undefined, &x), ShadowConst::Undefined);
        assert_eq!(ShadowConst::merge(&x, &ShadowConst::Undefined), ShadowConst::Undefined);
    }
}

#[test]
fn default_tag_is_undefined() {
    assert_eq!(ShadowConst::default(), ShadowConst::Undefined);
}

#[test]
fn constructors_classify_by_provenance() {
    assert_eq!(ShadowConst::for_calldata(&[1, 2, 3]), NonConst);
    assert_eq!(ShadowConst::for_calldata(&[]), NonConst);
    assert_eq!(ShadowConst::for_const(U256::from(7u64)), Const);
    assert_eq!(ShadowConst::for_non_const_address(Address::zero()), NonConst);
    assert_eq!(ShadowConst::for_const_address(Address::zero()), Const);
    assert_eq!(ShadowConst::for_non_const_word(U256::from(7u64)), NonConst);
    assert_eq!(ShadowConst::for_memory_size(U256::from(64u64)), NonConst);
    assert_eq!(ShadowConst::for_env_variable(U256::from(1u64)), NonConst);
    assert_eq!(ShadowConst::for_const_hash(H256::zero()), Const);
    assert_eq!(ShadowConst::for_non_const_hash(H256::zero()), NonConst);
    assert_eq!(ShadowConst::for_code(&[0x60, 0x00]), Const);
    assert_eq!(ShadowConst::for_external_code(&[0x60, 0x00]), NonConst);
}

#[test]
fn aggregate_edge_cases() {
    assert_eq!(ShadowConst::aggregate(&[]), Const);
    assert_eq!(ShadowConst::aggregate(&[Const]), Const);
    assert_eq!(ShadowConst::aggregate(&[Const, NonConst]), NonConst);
    assert_eq!(ShadowConst::aggregate(&[Const, NonConst, Undefined]), Undefined);
    assert_eq!(ShadowConst::aggregate(&[Undefined, Const]), Undefined);
}

#[test]
fn aggregate_of_one_tag_is_that_tag() {
    for x in ALL {
        assert_eq!(ShadowConst::aggregate(&[x]), x);
    }
}

#[test]
fn aggregate_is_the_left_fold_of_merge() {
    for a in ALL {
        for b in ALL {
            for c in ALL {
                for d in ALL {
                    let tags = [a, b, c, d];
                    assert_eq!(ShadowConst::aggregate(&tags), fold(&tags));
                }
            }
        }
    }
}

#[test]
fn aggregate_does_not_depend_on_order() {
    let orders = [
        [Const, NonConst, Undefined],
        [Const, Undefined, NonConst],
        [NonConst, Const, Undefined],
        [NonConst, Undefined, Const],
        [Undefined, Const, NonConst],
        [Undefined, NonConst, Const],
    ];
    for order in orders {
        assert_eq!(ShadowConst::aggregate(&order), Undefined);
    }
    assert_eq!(ShadowConst::aggregate(&[Const, Const, NonConst]), NonConst);
    assert_eq!(ShadowConst::aggregate(&[Const, NonConst, Const]), NonConst);
    assert_eq!(ShadowConst::aggregate(&[NonConst, Const, Const]), NonConst);
}

#[test]
fn aggregate_reports_a_late_non_const_after_undefined() {
    assert_eq!(ShadowConst::aggregate(&[Undefined, NonConst]), Undefined);
    assert_eq!(ShadowConst::aggregate(&[NonConst, Undefined, NonConst]), Undefined);
}

#[test]
fn merge_slices_joins_position_by_position() {
    let left = [Const, Const, NonConst, Undefined];
    let right = [Const, NonConst, Undefined, Const];
    let merged = ShadowConst::merge_slices(&left, &right);
    assert_eq!(merged, Ok(vec![Const, NonConst, Undefined, Undefined]));
}

#[test]
fn merge_slices_of_empty_slices_is_empty() {
    let merged = ShadowConst::merge_slices(&[], &[]);
    assert_eq!(merged, Ok(vec![]));
}

#[test]
fn merge_slices_refuses_different_lengths() {
    let merged = ShadowConst::merge_slices(&[Const, NonConst], &[Const]);
    assert_eq!(merged, Err("Merging slices have different length"));
    let merged = ShadowConst::merge_slices(&[], &[Const]);
    assert_eq!(merged, Err(LENGTH_MISMATCH));
}

#[test]
fn fake_tags_carry_nothing() {
    assert_eq!(ShadowFake::default(), ShadowFake);
    assert_eq!(ShadowFake::for_calldata(&[1]), ShadowFake);
    assert_eq!(ShadowFake::for_const(U256::from(1u64)), ShadowFake);
    assert_eq!(ShadowFake::for_non_const_address(Address::zero()), ShadowFake);
    assert_eq!(ShadowFake::for_const_address(Address::zero()), ShadowFake);
    assert_eq!(ShadowFake::for_non_const_word(U256::from(1u64)), ShadowFake);
    assert_eq!(ShadowFake::for_memory_size(U256::from(1u64)), ShadowFake);
    assert_eq!(ShadowFake::for_env_variable(U256::from(1u64)), ShadowFake);
    assert_eq!(ShadowFake::for_const_hash(H256::zero()), ShadowFake);
    assert_eq!(ShadowFake::for_non_const_hash(H256::zero()), ShadowFake);
    assert_eq!(ShadowFake::for_code(&[1]), ShadowFake);
    assert_eq!(ShadowFake::for_external_code(&[1]), ShadowFake);
    assert_eq!(ShadowFake::merge(&ShadowFake, &ShadowFake), ShadowFake);
    assert_eq!(ShadowFake::aggregate(&[]), ShadowFake);
    assert_eq!(ShadowFake::aggregate(&[ShadowFake, ShadowFake]), ShadowFake);
}

#[test]
fn fake_merge_slices_checks_lengths() {
    let merged = ShadowFake::merge_slices(&[ShadowFake, ShadowFake], &[ShadowFake, ShadowFake]);
    assert_eq!(merged, Ok(vec![ShadowFake, ShadowFake]));
    let merged = ShadowFake::merge_slices(&[ShadowFake], &[]);
    assert_eq!(merged, Err(LENGTH_MISMATCH));
}
