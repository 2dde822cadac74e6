//! Lazy, restartable adapters over the buckets of a changeset.
//!
//! Every adapter borrows a bucket and walks it front to back. It never
//! changes the changeset it came from, and once it has returned `None` it
//! returns `None` for good.

use crate::arbitrary::change::{Add, Change, HasChanges, Modify, PureChange, Remove};
use crate::arbitrary::Diff;
use std::marker::PhantomData;
use vstd::prelude::*;
use vstd::std_specs::convert::FromSpec;
use vstd::std_specs::iter::IteratorSpec;

verus! {

/// Walks a borrowed bucket front to back.
pub struct BucketIter<'iter, T> {
    bucket: &'iter [T],
    pos: usize,
}

impl<'iter, T> BucketIter<'iter, T> {
    #[verifier::type_invariant]
    closed spec fn well_formed(self) -> bool {
        self.pos <= self.bucket@.len()
    }

    /// The items that are still to come, in the order in which they come.
    pub closed spec fn pending(&self) -> Seq<T> {
        if self.pos <= self.bucket@.len() {
            self.bucket@.subrange(self.pos as int, self.bucket@.len() as int)
        } else {
            Seq::empty()
        }
    }

    /// Starts a walk at the front of `bucket`.
    pub fn new(bucket: &'iter [T]) -> (res: Self)
        ensures
            res.pending() == bucket@,
    {
        let res = BucketIter { bucket, pos: 0 };
        assert(res.pending() =~= bucket@);
        res
    }
}

impl<'iter, T> vstd::std_specs::iter::IteratorSpecImpl for BucketIter<'iter, T> {
    open spec fn obeys_prophetic_iter_laws(&self) -> bool {
        true
    }

    open spec fn remaining(&self) -> Seq<&'iter T> {
        self.pending().as_ref()
    }

    open spec fn will_return_none(&self) -> bool {
        true
    }

    open spec fn decrease(&self) -> Option<nat> {
        Some(self.pending().len())
    }

    open spec fn initial_value_relation(&self, init: &Self) -> bool {
        init.pending() == self.pending()
    }

    open spec fn peek(&self, index: int) -> Option<&'iter T> {
        if 0 <= index < self.pending().len() {
            Some(&self.pending()[index])
        } else {
            None
        }
    }
}

impl<'iter, T> Iterator for BucketIter<'iter, T> {
    type Item = &'iter T;

    fn next(&mut self) -> (res: Option<&'iter T>) {
        proof {
            use_type_invariant(&*self);
        }
        let bucket: &'iter [T] = self.bucket;
        if self.pos < bucket.len() {
            let i = self.pos;
            self.pos = i + 1;
            proof {
                assert(self.pending() =~= old(self).pending().drop_first());
                assert(self.pending().as_ref() =~= old(self).pending().as_ref().drop_first());
            }
            Some(&bucket[i])
        } else {
            None
        }
    }
}

/// Wraps an iterator so that it is never advanced again once it has
/// returned `None`.
pub struct InfallibleIter<Iter> {
    changes: Option<Iter>,
}

impl<Iter: Iterator> InfallibleIter<Iter> {
    /// The wrapped iterator, or `None` once it has run out.
    pub closed spec fn inner(&self) -> Option<Iter> {
        self.changes
    }

    /// Wraps `iter`.
    pub fn new(iter: Iter) -> (res: Self)
        ensures
            res.inner() == Some(iter),
    {
        InfallibleIter { changes: Some(iter) }
    }

    /// An iterator that has run out.
    pub fn exhausted() -> (res: Self)
        ensures
            res.inner() is None,
    {
        InfallibleIter { changes: None }
    }

    /// Gets the next element until the wrapped iterator runs out, and `None`
    /// from then on.
    pub fn next(&mut self) -> (res: Option<Iter::Item>)
        ensures
            old(self).inner() is None ==> res is None,
            res is None ==> final(self).inner() is None,
            res is Some ==> final(self).inner() is Some,
            old(self).inner() is Some && old(self).inner()->0.obeys_prophetic_iter_laws() ==> ({
                let before = old(self).inner()->0;
                if before.remaining().len() > 0 {
                    &&& res == Some(before.remaining()[0])
                    &&& final(self).inner()->0.obeys_prophetic_iter_laws()
                    &&& final(self).inner()->0.remaining() == before.remaining().drop_first()
                } else {
                    res is None
                }
            }),
    {
        if let Some(changes) = &mut self.changes {
            let res = changes.next();
            if res.is_none() {
                self.changes = None;
            }
            res
        } else {
            None
        }
    }
}

/// Collects the items that `iter` yields, in order, and stops after `limit`
/// of them.
///
/// The limit bounds the walk whatever the iterator does; with a limit of at
/// least the number of items that are to come, all of them are collected.
pub fn collect_bounded<Iter: Iterator>(iter: Iter, limit: usize) -> (res: Vec<Iter::Item>)
    ensures
        res@.len() <= limit,
        iter.obeys_prophetic_iter_laws() ==> res@.len() <= iter.remaining().len() && res@
            == iter.remaining().subrange(0, res@.len() as int),
        iter.obeys_prophetic_iter_laws() && iter.remaining().len() <= limit ==> res@
            == iter.remaining(),
{
    let ghost all = iter.remaining();
    let ghost lawful = iter.obeys_prophetic_iter_laws();
    let mut walk = InfallibleIter::new(iter);
    let mut res: Vec<Iter::Item> = Vec::new();
    let mut steps: usize = 0;
    while steps < limit
        invariant
            all == iter.remaining(),
            lawful == iter.obeys_prophetic_iter_laws(),
            steps <= limit,
            res@.len() == steps,
            lawful ==> steps <= all.len() && res@ == all.subrange(0, steps as int),
            lawful && walk.inner() is None ==> steps == all.len(),
            lawful && walk.inner() is Some ==> walk.inner()->0.obeys_prophetic_iter_laws()
                && walk.inner()->0.remaining() == all.subrange(steps as int, all.len() as int),
        decreases limit - steps,
    {
        match walk.next() {
            Some(item) => {
                res.push(item);
                steps = steps + 1;
                assert(lawful ==> res@ =~= all.subrange(0, steps as int));
                assert(lawful ==> walk.inner()->0.remaining() =~= all.subrange(
                    steps as int,
                    all.len() as int,
                ));
            },
            None => {
                assert(lawful ==> res@ =~= all);
                return res;
            },
        }
    }
    assert(lawful && all.len() <= limit ==> res@ =~= all);
    res
}

/// An iterator over the additions that turn the source into the target.
pub struct Additions<'iter, K, V> {
    iter: InfallibleIter<BucketIter<'iter, Add<K, V>>>,
}

impl<'iter, K, V> Additions<'iter, K, V> {
    /// The additions that are still to come, in the order in which they come.
    pub closed spec fn pending(&self) -> Seq<Add<K, V>> {
        match self.iter.inner() {
            Some(walk) => walk.pending(),
            None => Seq::empty(),
        }
    }

    /// Wraps a walk over a bucket of additions.
    pub fn new(iter: BucketIter<'iter, Add<K, V>>) -> (res: Self)
        ensures
            res.pending() == iter.pending(),
    {
        Additions { iter: InfallibleIter::new(iter) }
    }
}

impl<'iter, K: Copy, V: Copy> vstd::std_specs::iter::IteratorSpecImpl for Additions<'iter, K, V> {
    open spec fn obeys_prophetic_iter_laws(&self) -> bool {
        true
    }

    open spec fn remaining(&self) -> Seq<Add<K, V>> {
        self.pending()
    }

    open spec fn will_return_none(&self) -> bool {
        true
    }

    open spec fn decrease(&self) -> Option<nat> {
        Some(self.pending().len())
    }

    open spec fn initial_value_relation(&self, init: &Self) -> bool {
        init.pending() == self.pending()
    }

    open spec fn peek(&self, index: int) -> Option<Add<K, V>> {
        if 0 <= index < self.pending().len() {
            Some(self.pending()[index])
        } else {
            None
        }
    }
}

impl<'iter, K: Copy, V: Copy> Iterator for Additions<'iter, K, V> {
    type Item = Add<K, V>;

    fn next(&mut self) -> (res: Option<Add<K, V>>) {
        let item = self.iter.next();
        proof {
            if old(self).iter.inner() is Some {
                let before = old(self).iter.inner()->0;
                assert(before.remaining().len() == before.pending().len());
                if before.pending().len() > 0 {
                    assert(*before.remaining()[0] == before.pending()[0]);
                    assert(self.iter.inner()->0.pending() =~= self.iter.inner()->0.remaining().unref());
                    assert(before.remaining().drop_first().unref() =~= before.pending().drop_first());
                }
            }
        }
        match item {
            Some(found) => Some(*found),
            None => None,
        }
    }
}

/// An iterator over the removals that turn the source into the target.
pub struct Removals<'iter, K, V> {
    iter: InfallibleIter<BucketIter<'iter, Remove<K, V>>>,
}

impl<'iter, K, V> Removals<'iter, K, V> {
    /// The removals that are still to come, in the order in which they come.
    pub closed spec fn pending(&self) -> Seq<Remove<K, V>> {
        match self.iter.inner() {
            Some(walk) => walk.pending(),
            None => Seq::empty(),
        }
    }

    /// Wraps a walk over a bucket of removals.
    pub fn new(iter: BucketIter<'iter, Remove<K, V>>) -> (res: Self)
        ensures
            res.pending() == iter.pending(),
    {
        Removals { iter: InfallibleIter::new(iter) }
    }
}

impl<'iter, K: Copy, V: Copy> vstd::std_specs::iter::IteratorSpecImpl for Removals<'iter, K, V> {
    open spec fn obeys_prophetic_iter_laws(&self) -> bool {
        true
    }

    open spec fn remaining(&self) -> Seq<Remove<K, V>> {
        self.pending()
    }

    open spec fn will_return_none(&self) -> bool {
        true
    }

    open spec fn decrease(&self) -> Option<nat> {
        Some(self.pending().len())
    }

    open spec fn initial_value_relation(&self, init: &Self) -> bool {
        init.pending() == self.pending()
    }

    open spec fn peek(&self, index: int) -> Option<Remove<K, V>> {
        if 0 <= index < self.pending().len() {
            Some(self.pending()[index])
        } else {
            None
        }
    }
}

impl<'iter, K: Copy, V: Copy> Iterator for Removals<'iter, K, V> {
    type Item = Remove<K, V>;

    fn next(&mut self) -> (res: Option<Remove<K, V>>) {
        let item = self.iter.next();
        proof {
            if old(self).iter.inner() is Some {
                let before = old(self).iter.inner()->0;
                assert(before.remaining().len() == before.pending().len());
                if before.pending().len() > 0 {
                    assert(*before.remaining()[0] == before.pending()[0]);
                    assert(self.iter.inner()->0.pending() =~= self.iter.inner()->0.remaining().unref());
                    assert(before.remaining().drop_first().unref() =~= before.pending().drop_first());
                }
            }
        }
        match item {
            Some(found) => Some(*found),
            None => None,
        }
    }
}

/// An iterator over the modifications that turn the source into the target.
pub struct Modifications<'iter, K, V, C: HasChanges, S> {
    iter: InfallibleIter<BucketIter<'iter, Modify<K, V, C, S>>>,
}

impl<'iter, K, V, C: HasChanges, S> Modifications<'iter, K, V, C, S> {
    /// The modifications that are still to come, in the order in which they
    /// come.
    pub closed spec fn pending(&self) -> Seq<Modify<K, V, C, S>> {
        match self.iter.inner() {
            Some(walk) => walk.pending(),
            None => Seq::empty(),
        }
    }

    /// Wraps a walk over a bucket of modifications.
    pub fn new(iter: BucketIter<'iter, Modify<K, V, C, S>>) -> (res: Self)
        ensures
            res.pending() == iter.pending(),
    {
        Modifications { iter: InfallibleIter::new(iter) }
    }

    /// The iterator of a changeset that cannot hold a modification.
    pub fn none() -> (res: Self)
        ensures
            res.pending() == Seq::<Modify<K, V, C, S>>::empty(),
    {
        Modifications { iter: InfallibleIter::exhausted() }
    }
}

impl<'iter, K, V, C: HasChanges, S> vstd::std_specs::iter::IteratorSpecImpl for Modifications<'iter, K, V, C, S> {
    open spec fn obeys_prophetic_iter_laws(&self) -> bool {
        true
    }

    open spec fn remaining(&self) -> Seq<&'iter Modify<K, V, C, S>> {
        self.pending().as_ref()
    }

    open spec fn will_return_none(&self) -> bool {
        true
    }

    open spec fn decrease(&self) -> Option<nat> {
        Some(self.pending().len())
    }

    open spec fn initial_value_relation(&self, init: &Self) -> bool {
        init.pending() == self.pending()
    }

    open spec fn peek(&self, index: int) -> Option<&'iter Modify<K, V, C, S>> {
        if 0 <= index < self.pending().len() {
            Some(&self.pending()[index])
        } else {
            None
        }
    }
}

impl<'iter, K, V, C: HasChanges, S> Iterator for Modifications<'iter, K, V, C, S> {
    type Item = &'iter Modify<K, V, C, S>;

    fn next(&mut self) -> (res: Option<&'iter Modify<K, V, C, S>>) {
        let item = self.iter.next();
        proof {
            if old(self).iter.inner() is Some {
                let before = old(self).iter.inner()->0;
                assert(before.remaining().len() == before.pending().len());
                if before.pending().len() > 0 {
                    assert(self.iter.inner()->0.pending() =~= self.iter.inner()->0.remaining().unref());
                    assert(before.remaining().drop_first().unref() =~= before.pending().drop_first());
                    assert(self.pending().as_ref() =~= old(self).pending().as_ref().drop_first());
                }
            }
        }
        item
    }
}

/// The additions of a changeset followed by its removals.
pub struct PureChanges<'iter, K, V> {
    additions: Additions<'iter, K, V>,
    removals: Removals<'iter, K, V>,
}

impl<'iter, K, V> PureChanges<'iter, K, V> {
    /// The changes that are still to come: the pending additions, then the
    /// pending removals.
    pub closed spec fn pending(&self) -> Seq<PureChange<K, V>> {
        self.additions.pending().map_values(|add: Add<K, V>| PureChange::Add(add))
            + self.removals.pending().map_values(|remove: Remove<K, V>| PureChange::Remove(remove))
    }

    /// Chains `additions` and `removals`, in that order.
    pub fn new(additions: Additions<'iter, K, V>, removals: Removals<'iter, K, V>) -> (res: Self)
        ensures
            res.pending() == additions.pending().map_values(|add: Add<K, V>| PureChange::Add(add))
                + removals.pending().map_values(|remove: Remove<K, V>| PureChange::Remove(remove)),
    {
        PureChanges { additions, removals }
    }
}

impl<'iter, K: Copy, V: Copy> vstd::std_specs::iter::IteratorSpecImpl for PureChanges<'iter, K, V> {
    open spec fn obeys_prophetic_iter_laws(&self) -> bool {
        true
    }

    open spec fn remaining(&self) -> Seq<PureChange<K, V>> {
        self.pending()
    }

    open spec fn will_return_none(&self) -> bool {
        true
    }

    open spec fn decrease(&self) -> Option<nat> {
        Some(self.pending().len())
    }

    open spec fn initial_value_relation(&self, init: &Self) -> bool {
        init.pending() == self.pending()
    }

    open spec fn peek(&self, index: int) -> Option<PureChange<K, V>> {
        if 0 <= index < self.pending().len() {
            Some(self.pending()[index])
        } else {
            None
        }
    }
}

impl<'iter, K: Copy, V: Copy> Iterator for PureChanges<'iter, K, V> {
    type Item = PureChange<K, V>;

    /// Gets additions until they run out, then removals.
    fn next(&mut self) -> (res: Option<PureChange<K, V>>) {
        match self.additions.next() {
            Some(add) => {
                proof {
                    assert(self.pending() =~= old(self).pending().drop_first());
                }
                Some(PureChange::Add(add))
            },
            None => {
                let removed = self.removals.next();
                proof {
                    assert(self.additions.pending().len() == 0);
                    if removed is Some {
                        assert(self.pending() =~= old(self).pending().drop_first());
                    } else {
                        assert(self.pending() =~= old(self).pending());
                    }
                }
                match removed {
                    Some(remove) => Some(PureChange::Remove(remove)),
                    None => None,
                }
            },
        }
    }
}

/// The additions of a changeset, then its removals, then its modifications.
pub struct Changes<'iter, 'data, K, V: Diff<'data, S> + 'data, S = ()> {
    pure_changes: PureChanges<'iter, K, &'data V>,
    modifications: Modifications<'iter, K, V, V::ChangeType, S>,
    _scope: PhantomData<S>,
}

impl<'iter, 'data, K, V: Diff<'data, S> + 'data, S> Changes<'iter, 'data, K, V, S> {
    /// The changes that are still to come: the pending additions, then the
    /// pending removals, then the pending modifications.
    pub closed spec fn pending(&self) -> Seq<Change<'iter, 'data, K, V, S>> {
        self.pure_changes.pending().map_values(
            |change: PureChange<K, &'data V>| Change::from_spec(change),
        ) + self.modifications.pending().map_values(
            |modify: Modify<K, V, V::ChangeType, S>| Change::Modify(&modify),
        )
    }

    /// Chains `additions`, `removals` and `modifications`, in that order.
    pub fn new(
        additions: Additions<'iter, K, &'data V>,
        removals: Removals<'iter, K, &'data V>,
        modifications: Modifications<'iter, K, V, V::ChangeType, S>,
    ) -> (res: Self)
        ensures
            res.pending() == additions.pending().map_values(
                |add: Add<K, &'data V>| Change::<'iter, 'data, K, V, S>::Add(add),
            ) + removals.pending().map_values(
                |remove: Remove<K, &'data V>| Change::<'iter, 'data, K, V, S>::Remove(remove),
            ) + modifications.pending().map_values(
                |modify: Modify<K, V, V::ChangeType, S>| Change::Modify(&modify),
            ),
    {
        let pure_changes = PureChanges::new(additions, removals);
        let res = Changes { pure_changes, modifications, _scope: PhantomData };
        proof {
            assert(res.pending() =~= additions.pending().map_values(
                |add: Add<K, &'data V>| Change::<'iter, 'data, K, V, S>::Add(add),
            ) + removals.pending().map_values(
                |remove: Remove<K, &'data V>| Change::<'iter, 'data, K, V, S>::Remove(remove),
            ) + modifications.pending().map_values(
                |modify: Modify<K, V, V::ChangeType, S>| Change::Modify(&modify),
            ));
        }
        res
    }
}

impl<'iter, 'data, K: Copy, V: Diff<'data, S> + 'data, S> vstd::std_specs::iter::IteratorSpecImpl for Changes<
    'iter,
    'data,
    K,
    V,
    S,
> {
    open spec fn obeys_prophetic_iter_laws(&self) -> bool {
        true
    }

    open spec fn remaining(&self) -> Seq<Change<'iter, 'data, K, V, S>> {
        self.pending()
    }

    open spec fn will_return_none(&self) -> bool {
        true
    }

    open spec fn decrease(&self) -> Option<nat> {
        Some(self.pending().len())
    }

    open spec fn initial_value_relation(&self, init: &Self) -> bool {
        init.pending() == self.pending()
    }

    open spec fn peek(&self, index: int) -> Option<Change<'iter, 'data, K, V, S>> {
        if 0 <= index < self.pending().len() {
            Some(self.pending()[index])
        } else {
            None
        }
    }
}

impl<'iter, 'data, K: Copy, V: Diff<'data, S> + 'data, S> Iterator for Changes<
    'iter,
    'data,
    K,
    V,
    S,
> {
    type Item = Change<'iter, 'data, K, V, S>;

    /// Gets additions until they run out, then removals, then modifications.
    fn next(&mut self) -> (res: Option<Change<'iter, 'data, K, V, S>>) {
        match self.pure_changes.next() {
            Some(change) => {
                proof {
                    assert(self.pending() =~= old(self).pending().drop_first());
                }
                Some(Change::from(change))
            },
            None => {
                let modified = self.modifications.next();
                proof {
                    assert(self.pure_changes.pending().len() == 0);
                    if modified is Some {
                        let before = old(self).modifications.pending();
                        let after = self.modifications.pending();
                        assert(after.as_ref() == before.as_ref().drop_first());
                        assert(after.len() == before.len() - 1);
                        assert forall|i: int| 0 <= i < after.len() implies after[i] == before[i + 1] by {
                            assert(after.as_ref()[i] == before.as_ref().drop_first()[i]);
                        }
                        assert(after =~= before.drop_first());
                        assert(self.pending() =~= old(self).pending().drop_first());
                    } else {
                        assert(self.pending() =~= old(self).pending());
                    }
                }
                match modified {
                    Some(modify) => Some(Change::Modify(modify)),
                    None => None,
                }
            },
        }
    }
}

} // verus!
