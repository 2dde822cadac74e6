//! The vocabulary of a diff: additions, removals and modifications.

use crate::arbitrary::scopes;
use crate::arbitrary::{ArbitraryDiff, Diff, SimpleDiff};
use std::fmt::Debug;
use std::marker::PhantomData;
use vstd::prelude::*;
use vstd::std_specs::convert::FromSpecImpl;

verus! {

/// A diff result that can tell whether it holds any difference.
pub trait HasChanges {
    /// Whether the result represents an actual difference.
    spec fn changed(&self) -> bool;

    /// Returns whether the result holds any change, without allocating.
    fn has_changes(&self) -> (res: bool)
        ensures
            res == self.changed(),
    ;
}

/// A value that is present in the target and absent in the source.
#[derive(Eq, PartialEq, Copy, Clone, Debug)]
pub struct Add<Key, Value> {
    /// The key to add the value at.
    pub key: Key,
    /// The value to add.
    pub value: Value,
}

impl<Key, Value> FromSpecImpl<(Key, Value)> for Add<Key, Value> {
    open spec fn obeys_from_spec() -> bool {
        true
    }

    open spec fn from_spec(value: (Key, Value)) -> Self {
        Add { key: value.0, value: value.1 }
    }
}

impl<Key, Value> From<(Key, Value)> for Add<Key, Value> {
    fn from(value: (Key, Value)) -> (res: Self) {
        Add { key: value.0, value: value.1 }
    }
}

/// A value that is present in the source and absent in the target.
#[derive(Eq, PartialEq, Copy, Clone, Debug)]
pub struct Remove<Key, Value> {
    /// The key to remove the value from.
    pub key: Key,
    /// The value to remove.
    pub value: Value,
}

impl<Key, Value> FromSpecImpl<(Key, Value)> for Remove<Key, Value> {
    open spec fn obeys_from_spec() -> bool {
        true
    }

    open spec fn from_spec(value: (Key, Value)) -> Self {
        Remove { key: value.0, value: value.1 }
    }
}

impl<Key, Value> From<(Key, Value)> for Remove<Key, Value> {
    fn from(value: (Key, Value)) -> (res: Self) {
        Remove { key: value.0, value: value.1 }
    }
}

/// A value that is present on both sides and differs between them.
#[derive(Eq, PartialEq, Debug)]
pub struct Modify<Key, Value, ChangeValue: HasChanges, ValueDiffScope = ()> {
    /// The key of the element to modify.
    pub key: Key,
    /// The diff of the source value against the target value.
    pub modification: ChangeValue,
    /// Marks the type of the values that were compared.
    pub _value: PhantomData<Value>,
    /// Marks the strategy by which the values were compared.
    pub _scope: PhantomData<ValueDiffScope>,
}

impl<Key: Clone, Value, ChangeValue: HasChanges + Clone, ValueDiffScope> Clone for Modify<
    Key,
    Value,
    ChangeValue,
    ValueDiffScope,
> {
    fn clone(&self) -> (res: Self)
        ensures
            cloned(self.key, res.key),
            cloned(self.modification, res.modification),
    {
        Modify {
            key: self.key.clone(),
            modification: self.modification.clone(),
            _value: PhantomData,
            _scope: PhantomData,
        }
    }
}

impl<'data, Key: 'data, Scope, Value: Diff<'data, Scope> + 'data> Modify<
    &'data Key,
    Value,
    Value::ChangeType,
    Scope,
> {
    /// Diffs `source` against `target` by the value type's own strategy.
    pub fn from_arbitrary(key: &'data Key, source: &'data Value, target: &'data Value) -> (res:
        Self) where Value: ArbitraryDiff<'data, Scope>
        ensures
            res.key == key,
            Value::obeys_diff_spec() ==> source.diffs_to(target, res.modification),
    {
        let diff = source.diff_with(target);

        Modify { key, modification: diff, _value: PhantomData, _scope: PhantomData }
    }

    /// Compares `source` with `target` by equality.
    pub fn from_simple(key: &'data Key, source: &'data Value, target: &'data Value) -> (res: Modify<
        &'data Key,
        Value,
        <Value as Diff<'data, scopes::Simple>>::ChangeType,
        scopes::Simple,
    >) where Value: SimpleDiff<'data>
        ensures
            res.key == key,
            Value::obeys_simple_diff_spec() ==> res.modification == source.simple_diff_spec(target),
    {
        let diff = source.simple_diff(target);

        Modify { key, modification: diff, _value: PhantomData, _scope: PhantomData }
    }
}

/// An addition or a removal.
#[derive(Eq, PartialEq, Copy, Clone, Debug)]
pub enum PureChange<Key, Value> {
    /// Add an element to the data structure.
    Add(Add<Key, Value>),
    /// Remove an element from the data structure.
    Remove(Remove<Key, Value>),
}

/// One unit of difference between a source and a target.
#[derive(Eq, PartialEq, Debug)]
pub enum Change<'iter, 'data, Key, Value: Diff<'data, Scope> + 'data, Scope = ()> {
    /// Add an element to the data structure.
    Add(Add<Key, &'data Value>),
    /// Remove an element from the data structure.
    Remove(Remove<Key, &'data Value>),
    /// Modify an element in the data structure.
    Modify(&'iter Modify<Key, Value, Value::ChangeType, Scope>),
}

impl<'iter, 'data, Key, Value: Diff<'data, Scope>, Scope> FromSpecImpl<
    PureChange<Key, &'data Value>,
> for Change<'iter, 'data, Key, Value, Scope> {
    open spec fn obeys_from_spec() -> bool {
        true
    }

    open spec fn from_spec(value: PureChange<Key, &'data Value>) -> Self {
        match value {
            PureChange::Add(add) => Change::Add(add),
            PureChange::Remove(remove) => Change::Remove(remove),
        }
    }
}

impl<'iter, 'data, Key, Value: Diff<'data, Scope>, Scope> From<
    PureChange<Key, &'data Value>,
> for Change<'iter, 'data, Key, Value, Scope> {
    fn from(value: PureChange<Key, &'data Value>) -> (res: Self) {
        match value {
            PureChange::Add(add) => Change::Add(add),
            PureChange::Remove(remove) => Change::Remove(remove),
        }
    }
}

} // verus!
