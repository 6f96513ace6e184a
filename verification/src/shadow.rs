//! The capability contract of a tag lattice: every way in which a tag is
//! made from the provenance of a value, and every way in which tags combine.

use ethereum_types::{Address, H256, U256};
use vstd::prelude::*;

verus! {

/// What is reported when two slices of different length are merged.
pub const LENGTH_MISMATCH: &'static str = "Merging slices have different length";

/// A lattice of tags.
///
/// The lattice has three named points. `constant()` tags a value that
/// derives from literals in the code alone; it is the identity of `join`.
/// `influenced()` tags a value in which anything else had a part.
/// `unknown()` tags a place of which nothing has been recorded; it is the
/// default and it absorbs every other tag. An implementation may let the
/// three points coincide.
pub trait Shadow: Default + Clone + Send {
    /// The tag of a value fixed by the code alone.
    spec fn constant() -> Self;

    /// The tag of a value that depends on something outside the code.
    spec fn influenced() -> Self;

    /// The tag of a place that carries no information.
    spec fn unknown() -> Self;

    /// The least tag that is at least `left` and at least `right`.
    spec fn join(left: Self, right: Self) -> Self;

    /// The order of the operands does not matter.
    proof fn join_commutative(a: Self, b: Self)
        ensures
            Self::join(a, b) == Self::join(b, a),
    ;

    /// The grouping of the operands does not matter.
    proof fn join_associative(a: Self, b: Self, c: Self)
        ensures
            Self::join(Self::join(a, b), c) == Self::join(a, Self::join(b, c)),
    ;

    /// A tag joined with itself is that tag.
    proof fn join_idempotent(a: Self)
        ensures
            Self::join(a, a) == a,
    ;

    /// `constant()` is the identity of `join`.
    proof fn join_identity(a: Self)
        ensures
            Self::join(Self::constant(), a) == a,
    ;

    /// `unknown()` absorbs every tag.
    proof fn join_absorbing(a: Self)
        ensures
            Self::join(Self::unknown(), a) == Self::unknown(),
    ;

    /// The default value is `unknown()`.
    proof fn default_is_unknown()
        ensures
            forall|tag: Self| call_ensures(<Self as Default>::default, (), tag) ==> tag == Self::unknown(),
    ;

    /// A clone is equal to what it was cloned from.
    proof fn clone_is_exact()
        ensures
            forall|tag: Self, copy: Self| cloned(tag, copy) ==> copy == tag,
    ;

    /// The tag of bytes taken from the input of a call.
    fn for_calldata(data: &[u8]) -> (tag: Self)
        ensures
            tag == Self::influenced(),
    ;

    /// The tag of a literal word.
    fn for_const(v: U256) -> (tag: Self)
        ensures
            tag == Self::constant(),
    ;

    /// The tag of an address that was computed while running.
    fn for_non_const_address(v: Address) -> (tag: Self)
        ensures
            tag == Self::influenced(),
    ;

    /// The tag of an address that is known to be fixed.
    fn for_const_address(v: Address) -> (tag: Self)
        ensures
            tag == Self::constant(),
    ;

    /// The tag of a word that was computed while running.
    fn for_non_const_word(v: U256) -> (tag: Self)
        ensures
            tag == Self::influenced(),
    ;

    /// The tag of a memory size: sizes depend on how the run went.
    fn for_memory_size(v: U256) -> (tag: Self)
        ensures
            tag == Self::influenced(),
    ;

    /// The tag of a variable of the block or the environment.
    fn for_env_variable(v: U256) -> (tag: Self)
        ensures
            tag == Self::influenced(),
    ;

    /// The tag of the hash of constant input.
    fn for_const_hash(h: H256) -> (tag: Self)
        ensures
            tag == Self::constant(),
    ;

    /// The tag of the hash of input that is not known to be constant.
    fn for_non_const_hash(h: H256) -> (tag: Self)
        ensures
            tag == Self::influenced(),
    ;

    /// The tag of the running contract's own code, which is fixed when it
    /// is loaded.
    fn for_code(data: &[u8]) -> (tag: Self)
        ensures
            tag == Self::constant(),
    ;

    /// The tag of code loaded from another account.
    fn for_external_code(data: &[u8]) -> (tag: Self)
        ensures
            tag == Self::influenced(),
    ;

    /// Joins two tags.
    fn merge(left: &Self, right: &Self) -> (tag: Self)
        ensures
            tag == Self::join(*left, *right),
    ;

    /// Joins two slices position by position. Slices of different length
    /// are refused, and nothing is computed for them.
    fn merge_slices(left: &[Self], right: &[Self]) -> (merged: Result<Vec<Self>, &'static str>)
        ensures
            match merged {
                Ok(tags) => {
                    &&& left@.len() == right@.len()
                    &&& tags@ == Seq::new(left@.len(), |i: int| Self::join(left@[i], right@[i]))
                },
                Err(reason) => left@.len() != right@.len() && reason == LENGTH_MISMATCH,
            },
    {
        if left.len() != right.len() {
            return Err(LENGTH_MISMATCH);
        }
        let mut result: Vec<Self> = Vec::with_capacity(left.len());
        for i in 0..left.len()
            invariant
                left@.len() == right@.len(),
                result@ == Seq::new(i as nat, |k: int| Self::join(left@[k], right@[k])),
        {
            result.push(Self::merge(&left[i], &right[i]));
            assert(result@ =~= Seq::new((i + 1) as nat, |k: int| Self::join(left@[k], right@[k])));
        }
        Ok(result)
    }

    /// Joins all the tags of a slice, starting from `constant()`.
    fn aggregate(values: &[Self]) -> (tag: Self)
        ensures
            tag == values@.fold_left(Self::constant(), |acc: Self, next: Self| Self::join(acc, next)),
    ;
}

/// The join of all the tags of a sequence, folded from the left and
/// starting from `constant()`.
pub open spec fn aggregate_of<T: Shadow>(tags: Seq<T>) -> T {
    tags.fold_left(T::constant(), |acc: T, next: T| T::join(acc, next))
}

/// The aggregate of no tags is `constant()`.
pub proof fn lemma_aggregate_empty<T: Shadow>()
    ensures
        aggregate_of(Seq::<T>::empty()) == T::constant(),
{
}

/// One more tag at the end joins the aggregate of the others.
pub proof fn lemma_aggregate_push<T: Shadow>(tags: Seq<T>, tag: T)
    ensures
        aggregate_of(tags.push(tag)) == T::join(aggregate_of(tags), tag),
{
    assert(tags.push(tag).drop_last() =~= tags);
}

/// A tag may be taken out of any place of a sequence and joined last.
pub proof fn lemma_aggregate_remove<T: Shadow>(tags: Seq<T>, at: int)
    requires
        0 <= at < tags.len(),
    ensures
        aggregate_of(tags) == T::join(aggregate_of(tags.remove(at)), tags[at]),
    decreases tags.len(),
{
    let front = tags.drop_last();
    let last = tags.last();
    if at == tags.len() - 1 {
        assert(tags.remove(at) =~= front);
    } else {
        lemma_aggregate_remove(front, at);
        let rest = aggregate_of(front.remove(at));
        assert(front[at] == tags[at]);
        T::join_associative(rest, tags[at], last);
        T::join_commutative(tags[at], last);
        T::join_associative(rest, last, tags[at]);
        assert(tags.remove(at) =~= front.remove(at).push(last));
        lemma_aggregate_push(front.remove(at), last);
    }
}

/// The aggregate does not depend on the order of the tags: two sequences
/// that hold the same tags the same number of times have the same aggregate.
pub proof fn lemma_aggregate_permutation<T: Shadow>(a: Seq<T>, b: Seq<T>)
    requires
        a.to_multiset() == b.to_multiset(),
    ensures
        aggregate_of(a) == aggregate_of(b),
    decreases a.len(),
{
    a.to_multiset_ensures();
    b.to_multiset_ensures();
    if a.len() > 0 {
        let last = a.last();
        assert(a[a.len() - 1] == last);
        assert(a.to_multiset().count(last) > 0);
        assert(b.to_multiset().count(last) > 0);
        assert(b.contains(last));
        let at = choose|at: int| 0 <= at < b.len() && b[at] == last;
        assert(a.remove(a.len() - 1) =~= a.drop_last());
        assert(a.drop_last().to_multiset() == b.remove(at).to_multiset());
        lemma_aggregate_permutation(a.drop_last(), b.remove(at));
        lemma_aggregate_remove(b, at);
    }
}

} // verus!
