//! The diff-strategy abstraction: which shape a diff result has for a value
//! type under a strategy, and how two values are compared.

use crate::arbitrary::change::HasChanges;
use std::fmt::Debug;
use vstd::prelude::*;
use vstd::std_specs::cmp::PartialEqSpec;

pub mod change;
pub mod changeset;
pub mod collections;
pub mod iterators;
pub mod scopes;

verus! {

/// The result of a leaf comparison that found the two values equal.
#[derive(Eq, PartialEq, Clone, Debug)]
pub struct Equal<Value> {
    pub value: Value,
}

/// The result of a leaf comparison that found the two values different.
#[derive(Eq, PartialEq, Clone, Debug)]
pub struct Different<Value> {
    pub source: Value,
    pub target: Value,
}

/// The result of a leaf comparison.
#[derive(Eq, PartialEq, Clone, Debug)]
pub enum Modification<Value> {
    Equal(Equal<Value>),
    Different(Different<Value>),
}

impl<V> HasChanges for Modification<V> {
    open spec fn changed(&self) -> bool {
        self is Different
    }

    fn has_changes(&self) -> (res: bool) {
        match self {
            Modification::Equal(_) => false,
            Modification::Different(_) => true,
        }
    }
}

/// Associates a value type with the shape of its diff result under a
/// strategy.
pub trait Diff<'datastructure, DiffAlgorithmScope = scopes::Base, ValueDiffScope = scopes::Base> {
    type ChangeType: HasChanges + Clone + Debug;
}

impl<'a, T: PartialEq + Debug + Clone + 'a> Diff<'a, scopes::Simple> for T {
    type ChangeType = Modification<&'a T>;
}

/// Whether the equality of `T` is one that contracts can speak of, and under
/// which every value equals itself.
pub open spec fn obeys_leaf_eq<T: PartialEq>() -> bool {
    &&& T::obeys_eq_spec()
    &&& forall|value: T| #[trigger] value.eq_spec(&value)
}

/// What a leaf comparison of `source` with `target` yields.
pub open spec fn leaf_diff<'a, T: PartialEq>(source: &'a T, target: &'a T) -> Modification<&'a T> {
    if source.eq_spec(target) {
        Modification::Equal(Equal { value: source })
    } else {
        Modification::Different(Different { source, target })
    }
}

/// Leaf comparison by equality.
pub trait SimpleDiff<'datastructure>: Diff<'datastructure, scopes::Simple> {
    /// Whether the type's equality is one that contracts can speak of.
    spec fn obeys_simple_diff_spec() -> bool;

    /// Whether the two values are equal.
    spec fn simply_equal(&self, target: &Self) -> bool;

    /// What the comparison of `self` with `target` yields.
    spec fn simple_diff_spec(&'datastructure self, target: &'datastructure Self) -> Self::ChangeType;

    /// Returns `Equal` with the source where `self == target`, and `Different`
    /// with both values otherwise.
    fn simple_diff(&'datastructure self, target: &'datastructure Self) -> (res: Self::ChangeType)
        ensures
            Self::obeys_simple_diff_spec() ==> res == self.simple_diff_spec(target),
    ;

    /// The result holds a change exactly where the values are unequal.
    proof fn lemma_simple_diff_changed(&'datastructure self, target: &'datastructure Self)
        ensures
            self.simple_diff_spec(target).changed() <==> !self.simply_equal(target),
    ;
}

impl<'a, T> SimpleDiff<'a> for T where T: PartialEq + Clone + Debug + 'a {
    open spec fn obeys_simple_diff_spec() -> bool {
        T::obeys_eq_spec()
    }

    open spec fn simply_equal(&self, target: &Self) -> bool {
        self.eq_spec(target)
    }

    open spec fn simple_diff_spec(&'a self, target: &'a Self) -> Self::ChangeType {
        leaf_diff(self, target)
    }

    fn simple_diff(&'a self, target: &'a Self) -> (res: Self::ChangeType) {
        if self.eq(target) {
            Modification::Equal(Equal { value: self })
        } else {
            Modification::Different(Different { source: self, target })
        }
    }

    proof fn lemma_simple_diff_changed(&'a self, target: &'a Self) {
    }
}

/// Comparison by the strategy that `Scope` selects.
///
/// A diff result may depend on the order in which a collection hands out its
/// items, so the contract is a relation between the two values and the
/// result rather than a function of the two values.
pub trait ArbitraryDiff<
    'datastructure,
    Scope = scopes::Base,
    ValueScope = scopes::Base,
>: Diff<'datastructure, Scope, ValueScope> {
    /// Whether the type's equality and hashing are ones that contracts can
    /// speak of.
    spec fn obeys_diff_spec() -> bool;

    /// Whether the strategy sees no difference between the two values.
    spec fn same(&self, other: &Self) -> bool;

    /// Whether `change` is a diff that turns `self` into `other`.
    spec fn diffs_to(&self, other: &Self, change: Self::ChangeType) -> bool;

    /// Computes the changes that turn `self` into `other`.
    fn diff_with(&'datastructure self, other: &'datastructure Self) -> (res: Self::ChangeType)
        ensures
            Self::obeys_diff_spec() ==> self.diffs_to(other, res),
    ;

    /// A value shows no difference from itself.
    proof fn lemma_same_reflexive(&self)
        requires
            Self::obeys_diff_spec(),
        ensures
            self.same(self),
    ;

    /// A diff holds a change exactly where the strategy sees a difference.
    proof fn lemma_changed_iff_differs(&self, other: &Self, change: Self::ChangeType)
        requires
            Self::obeys_diff_spec(),
            self.diffs_to(other, change),
        ensures
            change.changed() <==> !self.same(other),
    ;
}

/// Diffing a value against itself yields a result without changes.
pub proof fn lemma_diff_with_self_is_empty<'d, T: ArbitraryDiff<'d, Scope, ValueScope>, Scope, ValueScope>(
    value: &T,
    change: T::ChangeType,
)
    requires
        T::obeys_diff_spec(),
        value.diffs_to(value, change),
    ensures
        !change.changed(),
{
    value.lemma_same_reflexive();
    value.lemma_changed_iff_differs(value, change);
}

/// Comparing a value with itself yields `Equal`, which holds no change.
pub proof fn lemma_leaf_diff_with_self_is_equal<T: PartialEq>(value: &T)
    requires
        obeys_leaf_eq::<T>(),
    ensures
        leaf_diff(value, value) == Modification::Equal(Equal { value }),
        !leaf_diff(value, value).changed(),
{
}

} // verus!
