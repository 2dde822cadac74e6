//! The diff of two sets: what to add and what to remove. A set has no
//! modifications, since an element is either present or absent.

use crate::arbitrary::change::{Add, HasChanges, Modify, Remove};
use crate::arbitrary::changeset::{FullChangeset, ImpureChangeset, PureChangeset};
use crate::arbitrary::collections::{
    added_keys, ascending, lemma_kept_ascends, lemma_kept_lists_difference, lists_exactly,
    obeys_order_model, removed_keys,
};
use crate::arbitrary::iterators::{collect_bounded, Additions, BucketIter, Modifications, Removals};
use crate::arbitrary::{scopes, ArbitraryDiff, Diff, Modification};
use std::collections::{BTreeSet, HashSet};
use std::fmt::Debug;
use std::hash::Hash;
use vstd::prelude::*;
use vstd::std_specs::hash::obeys_key_model;

verus! {

/// The changes that turn one set into another.
#[derive(Eq, PartialEq, Clone, Debug)]
pub struct SetChangeset<'a, T: Debug> {
    added: Vec<Add<&'a T, &'a T>>,
    removed: Vec<Remove<&'a T, &'a T>>,
}

impl<'set, T: Debug> SetChangeset<'set, T> {
    /// Returns whether the changeset holds no change at all.
    pub fn is_empty(&self) -> (res: bool)
        ensures
            res == !self.changed(),
            res == (self.added().len() == 0 && self.removed().len() == 0),
    {
        self.added.is_empty() && self.removed.is_empty()
    }
}

impl<'set, T: Debug> HasChanges for SetChangeset<'set, T> {
    open spec fn changed(&self) -> bool {
        self.added().len() > 0 || self.removed().len() > 0
    }

    fn has_changes(&self) -> (res: bool) {
        !self.added.is_empty() || !self.removed.is_empty()
    }
}

impl<'set, T: Debug> PureChangeset<'set, &'set T, &'set T> for SetChangeset<'set, T> {
    closed spec fn added(&self) -> Seq<Add<&'set T, &'set T>> {
        self.added@
    }

    closed spec fn removed(&self) -> Seq<Remove<&'set T, &'set T>> {
        self.removed@
    }

    fn additions<'iter>(&'iter self) -> (res: Additions<'iter, &'set T, &'set T>) {
        Additions::new(BucketIter::new(self.added.as_slice()))
    }

    fn removals<'iter>(&'iter self) -> (res: Removals<'iter, &'set T, &'set T>) {
        Removals::new(BucketIter::new(self.removed.as_slice()))
    }
}

impl<'set, T: Debug + Clone + PartialEq + 'set> ImpureChangeset<
    'set,
    &'set T,
    T,
    scopes::Simple,
> for SetChangeset<'set, T> {
    /// A set changeset holds no modification, whatever the two sets were.
    open spec fn modified(&self) -> Seq<Modify<&'set T, T, Modification<&'set T>, scopes::Simple>> {
        Seq::empty()
    }

    fn modifications<'iter>(&'iter self) -> (res: Modifications<
        'iter,
        &'set T,
        T,
        Modification<&'set T>,
        scopes::Simple,
    >)
        ensures
            res.pending().len() == 0,
    {
        Modifications::none()
    }
}

impl<'set, T: Debug + Clone + PartialEq + 'set> FullChangeset<
    'set,
    &'set T,
    T,
    scopes::Simple,
> for SetChangeset<'set, T> {

}

/// Whether `change` adds what `target` holds and `source` lacks, and removes
/// what `source` holds and `target` lacks, each element once and with itself
/// for its key.
pub open spec fn set_diffs_to<'a, T: Debug>(
    source: Set<T>,
    target: Set<T>,
    change: SetChangeset<'a, T>,
) -> bool {
    &&& lists_exactly(added_keys(change.added()), target.difference(source))
    &&& lists_exactly(removed_keys(change.removed()), source.difference(target))
    &&& forall|i: int|
        0 <= i < change.added().len() ==> (#[trigger] change.added()[i]).value
            == change.added()[i].key
    &&& forall|i: int|
        0 <= i < change.removed().len() ==> (#[trigger] change.removed()[i]).value
            == change.removed()[i].key
}

/// A set diff holds a change exactly where the two sets differ.
pub proof fn lemma_set_changed_iff_differs<'a, T: Debug>(
    source: Set<T>,
    target: Set<T>,
    change: SetChangeset<'a, T>,
)
    requires
        set_diffs_to(source, target, change),
    ensures
        change.changed() <==> source != target,
{
    let added = added_keys(change.added());
    let removed = removed_keys(change.removed());
    if !change.changed() {
        assert forall|item: T| source.contains(item) <==> target.contains(item) by {
            if source.contains(item) && !target.contains(item) {
                assert(source.difference(target).contains(item));
                assert(removed.contains(item));
            }
            if target.contains(item) && !source.contains(item) {
                assert(target.difference(source).contains(item));
                assert(added.contains(item));
            }
        }
        assert(source =~= target);
    }
    if source == target {
        if added.len() > 0 {
            assert(added.contains(added[0]));
            assert(target.difference(source).contains(added[0]));
        }
        if removed.len() > 0 {
            assert(removed.contains(removed[0]));
            assert(source.difference(target).contains(removed[0]));
        }
    }
}

/// Every element of either set lies in exactly one of three places: among
/// the additions, among the removals, or in both sets.
pub proof fn lemma_set_partition_total<'a, T: Debug>(
    source: Set<T>,
    target: Set<T>,
    change: SetChangeset<'a, T>,
    item: T,
)
    requires
        set_diffs_to(source, target, change),
        source.contains(item) || target.contains(item),
    ensures
        added_keys(change.added()).contains(item) <==> !source.contains(item),
        removed_keys(change.removed()).contains(item) <==> !target.contains(item),
        !(added_keys(change.added()).contains(item) && removed_keys(change.removed()).contains(
            item,
        )),
{
    assert(target.difference(source).contains(item) <==> !source.contains(item));
    assert(source.difference(target).contains(item) <==> !target.contains(item));
}

/// What a diff from `source` to `target` adds is what a diff from `target`
/// to `source` removes, and the other way round.
pub proof fn lemma_set_add_remove_duality<'a, T: Debug>(
    source: Set<T>,
    target: Set<T>,
    change: SetChangeset<'a, T>,
    back: SetChangeset<'a, T>,
)
    requires
        set_diffs_to(source, target, change),
        set_diffs_to(target, source, back),
    ensures
        added_keys(change.added()).to_set() == removed_keys(back.removed()).to_set(),
        removed_keys(change.removed()).to_set() == added_keys(back.added()).to_set(),
{
    assert(added_keys(change.added()).to_set() =~= removed_keys(back.removed()).to_set());
    assert(removed_keys(change.removed()).to_set() =~= added_keys(back.added()).to_set());
}

/// Pairs every item with itself as an addition.
fn as_additions<'a, T>(items: Vec<&'a T>) -> (res: Vec<Add<&'a T, &'a T>>)
    ensures
        res@ == items@.map_values(|item: &'a T| Add { key: item, value: item }),
{
    let mut res: Vec<Add<&'a T, &'a T>> = Vec::with_capacity(items.len());
    let mut done: usize = 0;
    while done < items.len()
        invariant
            done <= items@.len(),
            res@ == items@.subrange(0, done as int).map_values(
                |item: &'a T| Add { key: item, value: item },
            ),
        decreases items@.len() - done,
    {
        let item: &'a T = items[done];
        res.push(Add { key: item, value: item });
        done = done + 1;
        assert(res@ =~= items@.subrange(0, done as int).map_values(
            |item: &'a T| Add { key: item, value: item },
        ));
    }
    assert(items@.subrange(0, done as int) =~= items@);
    res
}

/// Pairs every item with itself as a removal.
fn as_removals<'a, T>(items: Vec<&'a T>) -> (res: Vec<Remove<&'a T, &'a T>>)
    ensures
        res@ == items@.map_values(|item: &'a T| Remove { key: item, value: item }),
{
    let mut res: Vec<Remove<&'a T, &'a T>> = Vec::with_capacity(items.len());
    let mut done: usize = 0;
    while done < items.len()
        invariant
            done <= items@.len(),
            res@ == items@.subrange(0, done as int).map_values(
                |item: &'a T| Remove { key: item, value: item },
            ),
        decreases items@.len() - done,
    {
        let item: &'a T = items[done];
        res.push(Remove { key: item, value: item });
        done = done + 1;
        assert(res@ =~= items@.subrange(0, done as int).map_values(
            |item: &'a T| Remove { key: item, value: item },
        ));
    }
    assert(items@.subrange(0, done as int) =~= items@);
    res
}

/// Packs what to add and what to remove into a changeset.
fn pack<'a, T: Debug>(added: Vec<&'a T>, removed: Vec<&'a T>) -> (res: SetChangeset<'a, T>)
    ensures
        added_keys(res.added()) == added@.unref(),
        removed_keys(res.removed()) == removed@.unref(),
        forall|i: int|
            0 <= i < res.added().len() ==> (#[trigger] res.added()[i]).value == res.added()[i].key,
        forall|i: int|
            0 <= i < res.removed().len() ==> (#[trigger] res.removed()[i]).value
                == res.removed()[i].key,
{
    let res = SetChangeset { added: as_additions(added), removed: as_removals(removed) };
    assert(added_keys(res.added()) =~= added@.unref());
    assert(removed_keys(res.removed()) =~= removed@.unref());
    res
}

/// The elements of `left` that `right` does not hold, each once, in the
/// order in which `left` hands them out.
pub fn hash_set_difference<'a, T: Hash + Eq>(left: &'a HashSet<T>, right: &'a HashSet<T>) -> (res:
    Vec<&'a T>)
    ensures
        obeys_key_model::<T>() ==> lists_exactly(res@.unref(), left@.difference(right@)),
{
    let items = collect_bounded(left.iter(), left.len());
    let mut res: Vec<&'a T> = Vec::new();
    let ghost mut origin: Seq<int> = Seq::empty();
    let mut done: usize = 0;
    while done < items.len()
        invariant
            0 <= done <= items@.len(),
            origin.len() == res@.len(),
            forall|j: int| 0 <= j < origin.len() ==> 0 <= #[trigger] origin[j] < done,
            forall|j: int, k: int| 0 <= j < k < origin.len() ==> origin[j] < origin[k],
            forall|j: int| 0 <= j < origin.len() ==> res@[j] == items@[#[trigger] origin[j]],
            obeys_key_model::<T>() ==> forall|j: int|
                0 <= j < res@.len() ==> !right@.contains(*#[trigger] res@[j]),
            obeys_key_model::<T>() ==> forall|i: int|
                0 <= i < done && !right@.contains(*#[trigger] items@[i]) ==> exists|j: int|
                    0 <= j < res@.len() && res@[j] == items@[i],
        decreases items@.len() - done,
    {
        let item: &'a T = items[done];
        let ghost before = res@;
        if !right.contains(item) {
            res.push(item);
            proof {
                origin = origin.push(done as int);
                assert(res@[before.len() as int] == items@[done as int]);
            }
        }
        proof {
            assert forall|i: int|
                obeys_key_model::<T>() && 0 <= i < done + 1 && !right@.contains(
                    *#[trigger] items@[i],
                ) implies exists|j: int| 0 <= j < res@.len() && res@[j] == items@[i] by {
                if i < done {
                    let j = choose|j: int| 0 <= j < before.len() && before[j] == items@[i];
                    assert(res@[j] == items@[i]);
                } else {
                    assert(res@[before.len() as int] == items@[i]);
                }
            }
        }
        done = done + 1;
    }
    proof {
        if obeys_key_model::<T>() {
            lemma_kept_lists_difference(items@, res@, origin, left@, right@);
        }
    }
    res
}

/// The elements of `left` that `right` holds too, each once, in the order
/// in which `left` hands them out: the elements that a diff of the two sets
/// leaves alone.
pub fn hash_set_common<'a, T: Hash + Eq>(left: &'a HashSet<T>, right: &'a HashSet<T>) -> (res: Vec<
    &'a T,
>)
    ensures
        obeys_key_model::<T>() ==> lists_exactly(res@.unref(), left@.intersect(right@)),
{
    let items = collect_bounded(left.iter(), left.len());
    let mut res: Vec<&'a T> = Vec::new();
    let ghost mut origin: Seq<int> = Seq::empty();
    let mut done: usize = 0;
    while done < items.len()
        invariant
            0 <= done <= items@.len(),
            origin.len() == res@.len(),
            forall|j: int| 0 <= j < origin.len() ==> 0 <= #[trigger] origin[j] < done,
            forall|j: int, k: int| 0 <= j < k < origin.len() ==> origin[j] < origin[k],
            forall|j: int| 0 <= j < origin.len() ==> res@[j] == items@[#[trigger] origin[j]],
            obeys_key_model::<T>() ==> forall|j: int|
                0 <= j < res@.len() ==> right@.contains(*#[trigger] res@[j]),
            obeys_key_model::<T>() ==> forall|i: int|
                0 <= i < done && right@.contains(*#[trigger] items@[i]) ==> exists|j: int|
                    0 <= j < res@.len() && res@[j] == items@[i],
        decreases items@.len() - done,
    {
        let item: &'a T = items[done];
        let ghost before = res@;
        if right.contains(item) {
            res.push(item);
            proof {
                origin = origin.push(done as int);
                assert(res@[before.len() as int] == items@[done as int]);
            }
        }
        proof {
            assert forall|i: int|
                obeys_key_model::<T>() && 0 <= i < done + 1 && right@.contains(
                    *#[trigger] items@[i],
                ) implies exists|j: int| 0 <= j < res@.len() && res@[j] == items@[i] by {
                if i < done {
                    let j = choose|j: int| 0 <= j < before.len() && before[j] == items@[i];
                    assert(res@[j] == items@[i]);
                } else {
                    assert(res@[before.len() as int] == items@[i]);
                }
            }
        }
        done = done + 1;
    }
    proof {
        if obeys_key_model::<T>() {
            let outside = Set::new(|item: T| !right@.contains(item));
            lemma_kept_lists_difference(items@, res@, origin, left@, outside);
            assert(left@.difference(outside) =~= left@.intersect(right@));
        }
    }
    res
}

impl<'set, T: Debug + Clone + 'set> Diff<'set> for HashSet<T> where T: Hash + Eq {
    type ChangeType = SetChangeset<'set, T>;
}

impl<'set, T: Debug + Clone + 'set> ArbitraryDiff<'set> for HashSet<T> where T: Hash + Eq {
    open spec fn obeys_diff_spec() -> bool {
        obeys_key_model::<T>()
    }

    open spec fn same(&self, other: &Self) -> bool {
        self@ == other@
    }

    open spec fn diffs_to(&self, other: &Self, change: SetChangeset<'set, T>) -> bool {
        set_diffs_to(self@, other@, change)
    }

    fn diff_with(&'set self, other: &'set Self) -> (res: SetChangeset<'set, T>) {
        // Added is anything in other that isn't in self
        let added = hash_set_difference(other, self);

        // Removed is anything in self that isn't in other
        let removed = hash_set_difference(self, other);
        pack(added, removed)
    }

    proof fn lemma_same_reflexive(&self) {
    }

    proof fn lemma_changed_iff_differs(&self, other: &Self, change: SetChangeset<'set, T>) {
        lemma_set_changed_iff_differs(self@, other@, change);
    }
}

/// The elements of `left` that `right` does not hold, each once, in the
/// ascending order in which `left` hands them out.
pub fn btree_set_difference<'a, T: Ord>(left: &'a BTreeSet<T>, right: &'a BTreeSet<T>) -> (res:
    Vec<&'a T>)
    ensures
        obeys_order_model::<T>() ==> lists_exactly(res@.unref(), left@.difference(right@)),
        obeys_order_model::<T>() ==> ascending(res@.unref()),
{
    let items = collect_bounded(left.iter(), left.len());
    let mut res: Vec<&'a T> = Vec::new();
    let ghost mut origin: Seq<int> = Seq::empty();
    let mut done: usize = 0;
    while done < items.len()
        invariant
            0 <= done <= items@.len(),
            origin.len() == res@.len(),
            forall|j: int| 0 <= j < origin.len() ==> 0 <= #[trigger] origin[j] < done,
            forall|j: int, k: int| 0 <= j < k < origin.len() ==> origin[j] < origin[k],
            forall|j: int| 0 <= j < origin.len() ==> res@[j] == items@[#[trigger] origin[j]],
            obeys_order_model::<T>() ==> forall|j: int|
                0 <= j < res@.len() ==> !right@.contains(*#[trigger] res@[j]),
            obeys_order_model::<T>() ==> forall|i: int|
                0 <= i < done && !right@.contains(*#[trigger] items@[i]) ==> exists|j: int|
                    0 <= j < res@.len() && res@[j] == items@[i],
        decreases items@.len() - done,
    {
        let item: &'a T = items[done];
        let ghost before = res@;
        if !right.contains(item) {
            res.push(item);
            proof {
                origin = origin.push(done as int);
                assert(res@[before.len() as int] == items@[done as int]);
            }
        }
        proof {
            assert forall|i: int|
                obeys_order_model::<T>() && 0 <= i < done + 1 && !right@.contains(
                    *#[trigger] items@[i],
                ) implies exists|j: int| 0 <= j < res@.len() && res@[j] == items@[i] by {
                if i < done {
                    let j = choose|j: int| 0 <= j < before.len() && before[j] == items@[i];
                    assert(res@[j] == items@[i]);
                } else {
                    assert(res@[before.len() as int] == items@[i]);
                }
            }
        }
        done = done + 1;
    }
    proof {
        if obeys_order_model::<T>() {
            lemma_kept_lists_difference(items@, res@, origin, left@, right@);
            lemma_kept_ascends(items@, res@, origin);
        }
    }
    res
}

impl<'set, T: Debug + Clone + 'set> Diff<'set> for BTreeSet<T> where T: Ord {
    type ChangeType = SetChangeset<'set, T>;
}

impl<'set, T: Debug + Clone + 'set> ArbitraryDiff<'set> for BTreeSet<T> where T: Ord {
    open spec fn obeys_diff_spec() -> bool {
        obeys_order_model::<T>()
    }

    open spec fn same(&self, other: &Self) -> bool {
        self@ == other@
    }

    open spec fn diffs_to(&self, other: &Self, change: SetChangeset<'set, T>) -> bool {
        &&& set_diffs_to(self@, other@, change)
        &&& ascending(added_keys(change.added()))
        &&& ascending(removed_keys(change.removed()))
    }

    fn diff_with(&'set self, other: &'set Self) -> (res: SetChangeset<'set, T>) {
        // Added is anything in other that isn't in self
        let added = btree_set_difference(other, self);

        // Removed is anything in self that isn't in other
        let removed = btree_set_difference(self, other);
        pack(added, removed)
    }

    proof fn lemma_same_reflexive(&self) {
    }

    proof fn lemma_changed_iff_differs(&self, other: &Self, change: SetChangeset<'set, T>) {
        lemma_set_changed_iff_differs(self@, other@, change);
    }
}

} // verus!
