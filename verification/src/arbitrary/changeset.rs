//! What every changeset offers: its buckets, and the lazy accessors over
//! them.

use crate::arbitrary::change::{Add, Change, Modify, PureChange, Remove};
use crate::arbitrary::iterators::{Additions, Changes, Modifications, PureChanges, Removals};
use crate::arbitrary::Diff;
use vstd::prelude::*;

verus! {

/// A changeset that holds additions and removals.
///
/// Every accessor borrows the changeset and leaves it unchanged, so calling
/// one twice gives two independent walks over the same bucket.
pub trait PureChangeset<'datastructure, K, V> {
    /// The bucket of additions.
    spec fn added(&self) -> Seq<Add<K, V>>;

    /// The bucket of removals.
    spec fn removed(&self) -> Seq<Remove<K, V>>;

    /// The additions that bring the source closer to the target.
    fn additions<'iter>(&'iter self) -> (res: Additions<'iter, K, V>)
        ensures
            res.pending() == self.added(),
    ;

    /// The removals that bring the source closer to the target.
    fn removals<'iter>(&'iter self) -> (res: Removals<'iter, K, V>)
        ensures
            res.pending() == self.removed(),
    ;

    /// All additions, then all removals.
    fn pure_changes<'iter>(&'iter self) -> (res: PureChanges<'iter, K, V>)
        ensures
            res.pending() == self.added().map_values(|add: Add<K, V>| PureChange::Add(add))
                + self.removed().map_values(|remove: Remove<K, V>| PureChange::Remove(remove)),
    {
        PureChanges::new(self.additions(), self.removals())
    }
}

/// A changeset that holds modifications.
pub trait ImpureChangeset<'datastructure, K, V, ValueScope = ()> where
    V: Diff<'datastructure, ValueScope> + 'datastructure,
 {
    /// The bucket of modifications.
    spec fn modified(&self) -> Seq<Modify<K, V, V::ChangeType, ValueScope>>;

    /// The modifications that bring the source closer to the target.
    fn modifications<'iter>(&'iter self) -> (res: Modifications<
        'iter,
        K,
        V,
        V::ChangeType,
        ValueScope,
    >)
        ensures
            res.pending() == self.modified(),
    ;
}

/// A changeset that holds additions, removals and modifications.
pub trait FullChangeset<'datastructure, K, V, ValueScope = ()>: ImpureChangeset<
    'datastructure,
    K,
    V,
    ValueScope,
> + PureChangeset<'datastructure, K, &'datastructure V> where
    V: Diff<'datastructure, ValueScope> + 'datastructure,
 {
    /// All changes that turn the source into the target: all additions, then
    /// all removals, then all modifications.
    fn changes<'iter>(&'iter self) -> (res: Changes<'iter, 'datastructure, K, V, ValueScope>)
        ensures
            res.pending() == self.added().map_values(
                |add: Add<K, &'datastructure V>|
                    Change::<'iter, 'datastructure, K, V, ValueScope>::Add(add),
            ) + self.removed().map_values(
                |remove: Remove<K, &'datastructure V>|
                    Change::<'iter, 'datastructure, K, V, ValueScope>::Remove(remove),
            ) + self.modified().map_values(
                |modify: Modify<K, V, V::ChangeType, ValueScope>| Change::Modify(&modify),
            ),
    {
        Changes::new(self.additions(), self.removals(), self.modifications())
    }
}

} // verus!
