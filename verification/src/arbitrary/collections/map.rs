//! The diff of two maps: what to add, what to remove, and which values of
//! common keys to modify.

use crate::arbitrary::change::{Add, HasChanges, Modify, Remove};
use crate::arbitrary::changeset::{FullChangeset, ImpureChangeset, PureChangeset};
use crate::arbitrary::collections::{
    added_keys, added_pairs, lemma_kept_lists_difference, lemma_lists_all, lemma_lists_push, lemma_lists_skip,
    lists_exactly, modified_keys, removed_keys, removed_pairs,
};
use crate::arbitrary::iterators::{collect_bounded, Additions, BucketIter, Modifications, Removals};
use crate::arbitrary::{
    leaf_diff, obeys_leaf_eq, scopes, ArbitraryDiff, Diff, Modification,
};
use std::collections::HashMap;
use std::fmt::Debug;
use std::hash::Hash;
use vstd::prelude::*;
use vstd::std_specs::cmp::PartialEqSpec;
use vstd::std_specs::hash::obeys_key_model;

verus! {

/// The changes that turn one map into another.
#[derive(Debug, Clone)]
pub struct MapChangeset<Key, PureValue, ImpureValue, ChangeValue: HasChanges, ValueDiffScope> {
    added: Vec<Add<Key, PureValue>>,
    removed: Vec<Remove<Key, PureValue>>,
    modified: Vec<Modify<Key, ImpureValue, ChangeValue, ValueDiffScope>>,
}

impl<'map, Key, Value, ValueChangeType: HasChanges, ValueDiffScope> MapChangeset<
    &'map Key,
    &'map Value,
    Value,
    ValueChangeType,
    ValueDiffScope,
> {
    /// The bucket of additions.
    pub closed spec fn added_bucket(&self) -> Seq<Add<&'map Key, &'map Value>> {
        self.added@
    }

    /// The bucket of removals.
    pub closed spec fn removed_bucket(&self) -> Seq<Remove<&'map Key, &'map Value>> {
        self.removed@
    }

    /// The bucket of modifications.
    pub closed spec fn modified_bucket(&self) -> Seq<
        Modify<&'map Key, Value, ValueChangeType, ValueDiffScope>,
    > {
        self.modified@
    }

    /// Returns whether the changeset holds no change at all.
    pub fn is_empty(&self) -> (res: bool)
        ensures
            res == !self.changed(),
            res == (self.added_bucket().len() == 0 && self.removed_bucket().len() == 0
                && self.modified_bucket().len() == 0),
    {
        self.added.is_empty() && self.removed.is_empty() && self.modified.is_empty()
    }
}

impl<'map, Key, Value, ValueChangeType: HasChanges, ValueDiffScope> HasChanges for MapChangeset<
    &'map Key,
    &'map Value,
    Value,
    ValueChangeType,
    ValueDiffScope,
> {
    open spec fn changed(&self) -> bool {
        self.added_bucket().len() > 0 || self.removed_bucket().len() > 0
            || self.modified_bucket().len() > 0
    }

    fn has_changes(&self) -> (res: bool) {
        !self.added.is_empty() || !self.removed.is_empty() || !self.modified.is_empty()
    }
}

impl<'map, Key, Value, ValueDiffScope> PureChangeset<
    'map,
    &'map Key,
    &'map Value,
> for MapChangeset<&'map Key, &'map Value, Value, Value::ChangeType, ValueDiffScope> where
    Value: Diff<'map, ValueDiffScope>,
 {
    open spec fn added(&self) -> Seq<Add<&'map Key, &'map Value>> {
        self.added_bucket()
    }

    open spec fn removed(&self) -> Seq<Remove<&'map Key, &'map Value>> {
        self.removed_bucket()
    }

    fn additions<'iter>(&'iter self) -> (res: Additions<'iter, &'map Key, &'map Value>) {
        Additions::new(BucketIter::new(self.added.as_slice()))
    }

    fn removals<'iter>(&'iter self) -> (res: Removals<'iter, &'map Key, &'map Value>) {
        Removals::new(BucketIter::new(self.removed.as_slice()))
    }
}

impl<'map, Key, Value, ValueDiffScope> ImpureChangeset<
    'map,
    &'map Key,
    Value,
    ValueDiffScope,
> for MapChangeset<&'map Key, &'map Value, Value, Value::ChangeType, ValueDiffScope> where
    Value: Diff<'map, ValueDiffScope>,
 {
    open spec fn modified(&self) -> Seq<Modify<&'map Key, Value, Value::ChangeType, ValueDiffScope>> {
        self.modified_bucket()
    }

    fn modifications<'iter>(&'iter self) -> (res: Modifications<
        'iter,
        &'map Key,
        Value,
        Value::ChangeType,
        ValueDiffScope,
    >) {
        Modifications::new(BucketIter::new(self.modified.as_slice()))
    }
}

impl<'map, Key, Value, ValueDiffScope> FullChangeset<
    'map,
    &'map Key,
    Value,
    ValueDiffScope,
> for MapChangeset<&'map Key, &'map Value, Value, Value::ChangeType, ValueDiffScope> where
    Value: Diff<'map, ValueDiffScope>,
 {

}

/// Trims the capacity of `bucket` to what it holds.
///
/// Calls `Vec::shrink_to_fit` of the standard library, which gives memory
/// back and keeps the elements and their order.
#[verifier::external_body]
fn shrink<T>(bucket: &mut Vec<T>)
    ensures
        final(bucket)@ == old(bucket)@,
{
    bucket.shrink_to_fit()
}

/// The keys of `left` that `right` does not hold, each once, in the order in
/// which `left` hands them out.
pub fn missing_keys<'map, Key: Hash + Eq, Value>(
    left: &'map HashMap<Key, Value>,
    right: &'map HashMap<Key, Value>,
) -> (res: Vec<&'map Key>)
    ensures
        obeys_key_model::<Key>() ==> lists_exactly(
            res@.unref(),
            left@.dom().difference(right@.dom()),
        ),
{
    let keys = collect_bounded(left.keys(), left.len());
    let mut res: Vec<&'map Key> = Vec::new();
    let ghost mut origin: Seq<int> = Seq::empty();
    let mut done: usize = 0;
    while done < keys.len()
        invariant
            0 <= done <= keys@.len(),
            origin.len() == res@.len(),
            forall|j: int| 0 <= j < origin.len() ==> 0 <= #[trigger] origin[j] < done,
            forall|j: int, k: int| 0 <= j < k < origin.len() ==> origin[j] < origin[k],
            forall|j: int| 0 <= j < origin.len() ==> res@[j] == keys@[#[trigger] origin[j]],
            obeys_key_model::<Key>() ==> forall|j: int|
                0 <= j < res@.len() ==> !right@.dom().contains(*#[trigger] res@[j]),
            obeys_key_model::<Key>() ==> forall|i: int|
                0 <= i < done && !right@.dom().contains(*#[trigger] keys@[i]) ==> exists|j: int|
                    0 <= j < res@.len() && res@[j] == keys@[i],
        decreases keys@.len() - done,
    {
        let key: &'map Key = keys[done];
        let ghost before = res@;
        if !right.contains_key(key) {
            res.push(key);
            proof {
                origin = origin.push(done as int);
                assert(res@[before.len() as int] == keys@[done as int]);
            }
        }
        proof {
            assert forall|i: int|
                obeys_key_model::<Key>() && 0 <= i < done + 1 && !right@.dom().contains(
                    *#[trigger] keys@[i],
                ) implies exists|j: int| 0 <= j < res@.len() && res@[j] == keys@[i] by {
                if i < done {
                    let j = choose|j: int| 0 <= j < before.len() && before[j] == keys@[i];
                    assert(res@[j] == keys@[i]);
                } else {
                    assert(res@[before.len() as int] == keys@[i]);
                }
            }
        }
        done = done + 1;
    }
    proof {
        if obeys_key_model::<Key>() {
            lemma_kept_lists_difference(keys@, res@, origin, left@.dom(), right@.dom());
        }
    }
    res
}

/// The keys of `source` followed by the keys that only `target` holds: every
/// key of either map, once.
pub fn key_union<'map, Key: Hash + Eq, Value>(
    source: &'map HashMap<Key, Value>,
    target: &'map HashMap<Key, Value>,
) -> (res: Vec<&'map Key>)
    ensures
        obeys_key_model::<Key>() ==> lists_exactly(
            res@.unref(),
            source@.dom().union(target@.dom()),
        ),
{
    let mut keys = collect_bounded(source.keys(), source.len());
    let mut others = missing_keys(target, source);
    let ghost first = keys@;
    let ghost second = others@;
    keys.append(&mut others);
    proof {
        if obeys_key_model::<Key>() {
            let all = keys@.unref();
            assert(first.unref().to_set() == source@.dom());
            assert(first.no_duplicates());
            assert(keys@ == first + second);
            assert forall|i: int, j: int| 0 <= i < j < all.len() implies all[i] != all[j] by {
                if j < first.len() {
                    assert(first[i] != first[j]);
                } else if i >= first.len() {
                    assert(second.unref()[i - first.len()] != second.unref()[j - first.len()]);
                } else {
                    assert(first.unref()[i] == all[i]);
                    assert(first.unref().to_set().contains(all[i]));
                    assert(second.unref()[j - first.len()] == all[j]);
                    assert(second.unref().contains(all[j]));
                }
            }
            assert forall|key: Key| all.contains(key) <==> source@.dom().union(
                target@.dom(),
            ).contains(key) by {
                if all.contains(key) {
                    let i = choose|i: int| 0 <= i < all.len() && all[i] == key;
                    if i < first.len() {
                        assert(first.unref()[i] == key);
                        assert(first.unref().to_set().contains(key));
                    } else {
                        assert(second.unref()[i - first.len()] == key);
                        assert(second.unref().contains(key));
                    }
                }
                if source@.dom().contains(key) {
                    assert(first.unref().to_set().contains(key));
                    let i = choose|i: int| 0 <= i < first.unref().len() && first.unref()[i] == key;
                    assert(all[i] == key);
                } else if target@.dom().contains(key) {
                    assert(target@.dom().difference(source@.dom()).contains(key));
                    assert(second.unref().contains(key));
                    let i = choose|i: int|
                        0 <= i < second.unref().len() && second.unref()[i] == key;
                    assert(all[first.len() + i] == key);
                }
            }
        }
    }
    keys
}

/// Whether the two buckets add what only `target` holds and remove what only
/// `source` holds: each such key once, with the value that the map which
/// holds the key has for it.
pub open spec fn map_pure_diffs_to<K, V>(
    source: Map<K, V>,
    target: Map<K, V>,
    added: Seq<Add<&K, &V>>,
    removed: Seq<Remove<&K, &V>>,
) -> bool {
    &&& lists_exactly(added_keys(added), target.dom().difference(source.dom()))
    &&& forall|i: int|
        0 <= i < added.len() ==> *(#[trigger] added[i]).value == target[*added[i].key]
    &&& lists_exactly(removed_keys(removed), source.dom().difference(target.dom()))
    &&& forall|i: int|
        0 <= i < removed.len() ==> *(#[trigger] removed[i]).value == source[*removed[i].key]
}

/// The keys that both maps hold and whose values differ under the values'
/// own strategy.
pub open spec fn arbitrarily_differing<'map, K, V: ArbitraryDiff<'map, S>, S>(
    source: Map<K, V>,
    target: Map<K, V>,
) -> Set<K> {
    Set::new(
        |key: K|
            source.contains_key(key) && target.contains_key(key) && !source[key].same(
                &target[key],
            ),
    )
}

/// Whether the bucket modifies the keys whose values differ under the
/// values' own strategy: each such key once, with a diff of the source value
/// against the target value that holds a change.
pub open spec fn arbitrary_modified_to<'map, K, V: ArbitraryDiff<'map, S>, S>(
    source: Map<K, V>,
    target: Map<K, V>,
    modified: Seq<Modify<&'map K, V, V::ChangeType, S>>,
) -> bool {
    &&& lists_exactly(modified_keys(modified), arbitrarily_differing::<K, V, S>(source, target))
    &&& forall|i: int|
        0 <= i < modified.len() ==> {
            &&& source[*(#[trigger] modified[i]).key].diffs_to(
                &target[*modified[i].key],
                modified[i].modification,
            )
            &&& modified[i].modification.changed()
        }
}

/// The keys that both maps hold and whose values are unequal.
pub open spec fn simply_differing<K, V: PartialEq>(source: Map<K, V>, target: Map<K, V>) -> Set<K> {
    Set::new(
        |key: K|
            source.contains_key(key) && target.contains_key(key) && !source[key].eq_spec(
                &target[key],
            ),
    )
}

/// Whether the bucket modifies the keys whose values are unequal: each such
/// key once, with the leaf comparison of the source value with the target
/// value, which is `Different`.
pub open spec fn simple_modified_to<'map, K, V: PartialEq>(
    source: Map<K, V>,
    target: Map<K, V>,
    modified: Seq<Modify<&'map K, V, Modification<&'map V>, scopes::Simple>>,
) -> bool {
    &&& lists_exactly(modified_keys(modified), simply_differing(source, target))
    &&& forall|i: int|
        0 <= i < modified.len() ==> {
            &&& (#[trigger] modified[i]).modification == leaf_diff(
                &source[*modified[i].key],
                &target[*modified[i].key],
            )
            &&& modified[i].modification.changed()
        }
}

/// Every key of either map lies in exactly one of three places: among the
/// additions, among the removals, or among the keys that both maps hold and
/// whose values are compared.
pub proof fn lemma_partition_total<K, V>(
    source: Map<K, V>,
    target: Map<K, V>,
    added: Seq<Add<&K, &V>>,
    removed: Seq<Remove<&K, &V>>,
    key: K,
)
    requires
        map_pure_diffs_to(source, target, added, removed),
        source.contains_key(key) || target.contains_key(key),
    ensures
        added_keys(added).contains(key) <==> !source.contains_key(key),
        removed_keys(removed).contains(key) <==> !target.contains_key(key),
        (added_keys(added).contains(key) && !removed_keys(removed).contains(key) && !(
        source.contains_key(key) && target.contains_key(key))) || (!added_keys(added).contains(key)
            && removed_keys(removed).contains(key) && !(source.contains_key(key)
            && target.contains_key(key))) || (!added_keys(added).contains(key) && !removed_keys(
            removed,
        ).contains(key) && source.contains_key(key) && target.contains_key(key)),
{
    assert(target.dom().difference(source.dom()).contains(key) <==> !source.contains_key(key));
    assert(source.dom().difference(target.dom()).contains(key) <==> !target.contains_key(key));
}

/// What a diff from `source` to `target` adds is what a diff from `target`
/// to `source` removes, and the other way round, as sets of key and value
/// pairs.
pub proof fn lemma_add_remove_duality<K, V>(
    source: Map<K, V>,
    target: Map<K, V>,
    added: Seq<Add<&K, &V>>,
    removed: Seq<Remove<&K, &V>>,
    added_back: Seq<Add<&K, &V>>,
    removed_back: Seq<Remove<&K, &V>>,
)
    requires
        map_pure_diffs_to(source, target, added, removed),
        map_pure_diffs_to(target, source, added_back, removed_back),
    ensures
        added_pairs(added) == removed_pairs(removed_back),
        removed_pairs(removed) == added_pairs(added_back),
{
    assert forall|pair: (K, V)| added_pairs(added).contains(pair) <==> removed_pairs(
        removed_back,
    ).contains(pair) by {
        if added_pairs(added).contains(pair) {
            let i = choose|i: int|
                0 <= i < added.len() && *(#[trigger] added[i]).key == pair.0 && *added[i].value
                    == pair.1;
            assert(added_keys(added)[i] == pair.0);
            assert(added_keys(added).contains(pair.0));
            assert(removed_keys(removed_back).contains(pair.0));
            let j = choose|j: int|
                0 <= j < removed_keys(removed_back).len() && removed_keys(removed_back)[j]
                    == pair.0;
            assert(*removed_back[j].key == pair.0 && *removed_back[j].value == pair.1);
        }
        if removed_pairs(removed_back).contains(pair) {
            let j = choose|j: int|
                0 <= j < removed_back.len() && *(#[trigger] removed_back[j]).key == pair.0
                    && *removed_back[j].value == pair.1;
            assert(removed_keys(removed_back)[j] == pair.0);
            assert(removed_keys(removed_back).contains(pair.0));
            assert(added_keys(added).contains(pair.0));
            let i = choose|i: int| 0 <= i < added_keys(added).len() && added_keys(added)[i] == pair.0;
            assert(*added[i].key == pair.0 && *added[i].value == pair.1);
        }
    }
    assert(added_pairs(added) =~= removed_pairs(removed_back));
    assert forall|pair: (K, V)| removed_pairs(removed).contains(pair) <==> added_pairs(
        added_back,
    ).contains(pair) by {
        if removed_pairs(removed).contains(pair) {
            let i = choose|i: int|
                0 <= i < removed.len() && *(#[trigger] removed[i]).key == pair.0
                    && *removed[i].value == pair.1;
            assert(removed_keys(removed)[i] == pair.0);
            assert(removed_keys(removed).contains(pair.0));
            assert(added_keys(added_back).contains(pair.0));
            let j = choose|j: int|
                0 <= j < added_keys(added_back).len() && added_keys(added_back)[j] == pair.0;
            assert(*added_back[j].key == pair.0 && *added_back[j].value == pair.1);
        }
        if added_pairs(added_back).contains(pair) {
            let j = choose|j: int|
                0 <= j < added_back.len() && *(#[trigger] added_back[j]).key == pair.0
                    && *added_back[j].value == pair.1;
            assert(added_keys(added_back)[j] == pair.0);
            assert(added_keys(added_back).contains(pair.0));
            assert(removed_keys(removed).contains(pair.0));
            let i = choose|i: int|
                0 <= i < removed_keys(removed).len() && removed_keys(removed)[i] == pair.0;
            assert(*removed[i].key == pair.0 && *removed[i].value == pair.1);
        }
    }
    assert(removed_pairs(removed) =~= added_pairs(added_back));
}

/// A key whose values show no difference under the values' own strategy
/// lies in no bucket.
pub proof fn lemma_same_value_in_no_bucket<'map, K, V: ArbitraryDiff<'map, S>, S>(
    source: Map<K, V>,
    target: Map<K, V>,
    added: Seq<Add<&K, &V>>,
    removed: Seq<Remove<&K, &V>>,
    modified: Seq<Modify<&'map K, V, V::ChangeType, S>>,
    key: K,
)
    requires
        map_pure_diffs_to(source, target, added, removed),
        arbitrary_modified_to::<K, V, S>(source, target, modified),
        source.contains_key(key),
        target.contains_key(key),
        source[key].same(&target[key]),
    ensures
        !added_keys(added).contains(key),
        !removed_keys(removed).contains(key),
        !modified_keys(modified).contains(key),
{
    assert(!target.dom().difference(source.dom()).contains(key));
    assert(!source.dom().difference(target.dom()).contains(key));
    assert(!arbitrarily_differing::<K, V, S>(source, target).contains(key));
}

/// A key whose values are equal lies in no bucket.
pub proof fn lemma_equal_value_in_no_bucket<'map, K, V: PartialEq>(
    source: Map<K, V>,
    target: Map<K, V>,
    added: Seq<Add<&K, &V>>,
    removed: Seq<Remove<&K, &V>>,
    modified: Seq<Modify<&'map K, V, Modification<&'map V>, scopes::Simple>>,
    key: K,
)
    requires
        map_pure_diffs_to(source, target, added, removed),
        simple_modified_to(source, target, modified),
        source.contains_key(key),
        target.contains_key(key),
        source[key].eq_spec(&target[key]),
    ensures
        !added_keys(added).contains(key),
        !removed_keys(removed).contains(key),
        !modified_keys(modified).contains(key),
{
    assert(!target.dom().difference(source.dom()).contains(key));
    assert(!source.dom().difference(target.dom()).contains(key));
    assert(!simply_differing(source, target).contains(key));
}

impl<'map, Key, Value, ValueDiffScope: Clone + Debug + 'map> Diff<
    'map,
    scopes::map_value_diff::Arbitrarily,
    ValueDiffScope,
> for HashMap<Key, Value> where
    Key: Clone + Debug + Eq + Hash + 'map,
    Value: Clone + Debug + Diff<'map, ValueDiffScope> + 'map,
 {
    type ChangeType = MapChangeset<&'map Key, &'map Value, Value, Value::ChangeType, ValueDiffScope>;
}

impl<'map, Key, Value, ValueDiffScope: Clone + Debug + 'map> Diff<
    'map,
    scopes::map_value_diff::Simply,
    ValueDiffScope,
> for HashMap<Key, Value> where
    Key: Clone + Debug + Eq + Hash + 'map,
    Value: Clone + Debug + Diff<'map, ValueDiffScope> + 'map,
 {
    type ChangeType = MapChangeset<&'map Key, &'map Value, Value, Value::ChangeType, ValueDiffScope>;
}

impl<'map, Key, Value, ValueDiffScope: Clone + Debug + 'map> ArbitraryDiff<
    'map,
    scopes::map_value_diff::Arbitrarily,
    ValueDiffScope,
> for HashMap<Key, Value> where
    Value: ArbitraryDiff<'map, ValueDiffScope> + Clone + Debug + 'map,
    Key: Hash + Eq + Clone + Debug + 'map,
 {
    open spec fn obeys_diff_spec() -> bool {
        obeys_key_model::<Key>() && Value::obeys_diff_spec()
    }

    open spec fn same(&self, other: &Self) -> bool {
        &&& self@.dom() == other@.dom()
        &&& forall|key: Key| #[trigger] self@.contains_key(key) ==> self@[key].same(&other@[key])
    }

    open spec fn diffs_to(&self, other: &Self, change: Self::ChangeType) -> bool {
        &&& map_pure_diffs_to(self@, other@, change.added_bucket(), change.removed_bucket())
        &&& arbitrary_modified_to::<Key, Value, ValueDiffScope>(
            self@,
            other@,
            change.modified_bucket(),
        )
    }

    fn diff_with(&'map self, other: &'map Self) -> (res: Self::ChangeType) {
        let all_keys = key_union(self, other);
        let mut added: Vec<Add<&'map Key, &'map Value>> = Vec::with_capacity(all_keys.len());
        let mut removed: Vec<Remove<&'map Key, &'map Value>> = Vec::with_capacity(all_keys.len());
        let mut modified: Vec<
            Modify<&'map Key, Value, <Value as Diff<'map, ValueDiffScope>>::ChangeType, ValueDiffScope>,
        > = Vec::with_capacity(all_keys.len());

        let ghost obeys = obeys_key_model::<Key>() && Value::obeys_diff_spec();
        let ghost only_target = other@.dom().difference(self@.dom());
        let ghost only_source = self@.dom().difference(other@.dom());
        let ghost differing = arbitrarily_differing::<Key, Value, ValueDiffScope>(self@, other@);
        let ghost mut seen: Set<Key> = Set::empty();
        let mut done: usize = 0;
        while done < all_keys.len()
            invariant
                done <= all_keys@.len(),
                obeys == (obeys_key_model::<Key>() && Value::obeys_diff_spec()),
                only_target == other@.dom().difference(self@.dom()),
                only_source == self@.dom().difference(other@.dom()),
                differing == arbitrarily_differing::<Key, Value, ValueDiffScope>(self@, other@),
                obeys ==> lists_exactly(all_keys@.unref(), self@.dom().union(other@.dom())),
                obeys ==> forall|j: int|
                    done <= j < all_keys@.len() ==> !seen.contains(*#[trigger] all_keys@[j]),
                obeys ==> forall|j: int|
                    0 <= j < done ==> seen.contains(*#[trigger] all_keys@[j]),
                obeys ==> lists_exactly(added_keys(added@), only_target.intersect(seen)),
                obeys ==> lists_exactly(removed_keys(removed@), only_source.intersect(seen)),
                obeys ==> lists_exactly(modified_keys(modified@), differing.intersect(seen)),
                obeys ==> forall|i: int|
                    0 <= i < added@.len() ==> *(#[trigger] added@[i]).value
                        == other@[*added@[i].key],
                obeys ==> forall|i: int|
                    0 <= i < removed@.len() ==> *(#[trigger] removed@[i]).value
                        == self@[*removed@[i].key],
                obeys ==> forall|i: int|
                    0 <= i < modified@.len() ==> {
                        &&& self@[*(#[trigger] modified@[i]).key].diffs_to(
                            &other@[*modified@[i].key],
                            modified@[i].modification,
                        )
                        &&& modified@[i].modification.changed()
                    },
            decreases all_keys@.len() - done,
        {
            let key: &'map Key = all_keys[done];
            let ghost added_before = added@;
            let ghost removed_before = removed@;
            let ghost modified_before = modified@;
            proof {
                if obeys {
                    assert(all_keys@.unref()[done as int] == *key);
                    assert(all_keys@.unref().contains(*key));
                    assert(!seen.contains(*all_keys@[done as int]));
                }
            }
            match (self.get(key), other.get(key)) {
                // Modified is anything that exists in both self and other and whose
                // diff holds a change
                (Some(source), Some(target)) => {
                    let modify: Modify<
                        &'map Key,
                        Value,
                        <Value as Diff<'map, ValueDiffScope>>::ChangeType,
                        ValueDiffScope,
                    > = Modify::from_arbitrary(key, source, target);
                    let changes = modify.modification.has_changes();
                    proof {
                        if obeys {
                            source.lemma_changed_iff_differs(target, modify.modification);
                            lemma_lists_skip(added_keys(added@), only_target, seen, *key);
                            lemma_lists_skip(removed_keys(removed@), only_source, seen, *key);
                            if changes {
                                lemma_lists_push(modified_keys(modified@), differing, seen, *key);
                            } else {
                                lemma_lists_skip(modified_keys(modified@), differing, seen, *key);
                            }
                        }
                    }
                    if changes {
                        modified.push(modify);
                        proof {
                            assert(modified_keys(modified@) =~= modified_keys(modified_before).push(
                                *key,
                            ));
                        }
                    }
                },
                // Removed is anything that exists in self but not in other
                (Some(source), None) => {
                    removed.push(Remove::from((key, source)));
                    proof {
                        if obeys {
                            lemma_lists_skip(added_keys(added@), only_target, seen, *key);
                            lemma_lists_push(removed_keys(removed_before), only_source, seen, *key);
                            lemma_lists_skip(modified_keys(modified@), differing, seen, *key);
                            assert(removed_keys(removed@) =~= removed_keys(removed_before).push(
                                *key,
                            ));
                        }
                    }
                },
                // Added is anything that exists in other that was not in self
                (None, Some(target)) => {
                    added.push(Add::from((key, target)));
                    proof {
                        if obeys {
                            lemma_lists_push(added_keys(added_before), only_target, seen, *key);
                            lemma_lists_skip(removed_keys(removed@), only_source, seen, *key);
                            lemma_lists_skip(modified_keys(modified@), differing, seen, *key);
                            assert(added_keys(added@) =~= added_keys(added_before).push(*key));
                        }
                    }
                },
                // A key of the union lies in one of the maps
                (None, None) => {
                    assert(!obeys);
                },
            }
            proof {
                if obeys {
                    assert forall|j: int| done + 1 <= j < all_keys@.len() implies !seen.insert(
                        *key,
                    ).contains(*#[trigger] all_keys@[j]) by {
                        assert(all_keys@.unref()[j] != all_keys@.unref()[done as int]);
                    }
                }
                seen = seen.insert(*key);
            }
            done = done + 1;
        }

        shrink(&mut added);
        shrink(&mut removed);
        shrink(&mut modified);

        let res = MapChangeset { added, removed, modified };
        proof {
            if obeys {
                assert forall|key: Key|
                    self@.dom().union(other@.dom()).contains(key) implies seen.contains(key) by {
                    assert(all_keys@.unref().contains(key));
                    let j = choose|j: int|
                        0 <= j < all_keys@.unref().len() && all_keys@.unref()[j] == key;
                    assert(*all_keys@[j] == key);
                }
                lemma_lists_all(added_keys(res.added_bucket()), only_target, seen);
                lemma_lists_all(removed_keys(res.removed_bucket()), only_source, seen);
                lemma_lists_all(modified_keys(res.modified_bucket()), differing, seen);
            }
        }
        res
    }

    proof fn lemma_same_reflexive(&self) {
        assert forall|key: Key| #[trigger] self@.contains_key(key) implies self@[key].same(
            &self@[key],
        ) by {
            self@[key].lemma_same_reflexive();
        }
    }

    proof fn lemma_changed_iff_differs(&self, other: &Self, change: Self::ChangeType) {
        let added = added_keys(change.added_bucket());
        let removed = removed_keys(change.removed_bucket());
        let modified = modified_keys(change.modified_bucket());
        let differing = arbitrarily_differing::<Key, Value, ValueDiffScope>(self@, other@);
        if change.changed() {
            if added.len() > 0 {
                assert(added.contains(added[0]));
                assert(other@.dom().difference(self@.dom()).contains(added[0]));
            } else if removed.len() > 0 {
                assert(removed.contains(removed[0]));
                assert(self@.dom().difference(other@.dom()).contains(removed[0]));
            } else {
                assert(modified.contains(modified[0]));
                assert(differing.contains(modified[0]));
            }
        } else {
            assert forall|key: Key| self@.dom().contains(key) <==> other@.dom().contains(key) by {
                if self@.dom().contains(key) && !other@.dom().contains(key) {
                    assert(self@.dom().difference(other@.dom()).contains(key));
                    assert(removed.contains(key));
                }
                if other@.dom().contains(key) && !self@.dom().contains(key) {
                    assert(other@.dom().difference(self@.dom()).contains(key));
                    assert(added.contains(key));
                }
            }
            assert(self@.dom() =~= other@.dom());
            assert forall|key: Key| #[trigger] self@.contains_key(key) implies self@[key].same(
                &other@[key],
            ) by {
                if !self@[key].same(&other@[key]) {
                    assert(differing.contains(key));
                    assert(modified.contains(key));
                }
            }
        }
    }
}

impl<'map, Key, Value> ArbitraryDiff<
    'map,
    scopes::map_value_diff::Simply,
    scopes::Simple,
> for HashMap<Key, Value> where
    Value: PartialEq + Clone + Debug + 'map,
    Key: Hash + Eq + Clone + Debug + 'map,
 {
    open spec fn obeys_diff_spec() -> bool {
        obeys_key_model::<Key>() && obeys_leaf_eq::<Value>()
    }

    open spec fn same(&self, other: &Self) -> bool {
        &&& self@.dom() == other@.dom()
        &&& forall|key: Key|
            #[trigger] self@.contains_key(key) ==> self@[key].eq_spec(&other@[key])
    }

    open spec fn diffs_to(&self, other: &Self, change: Self::ChangeType) -> bool {
        &&& map_pure_diffs_to(self@, other@, change.added_bucket(), change.removed_bucket())
        &&& simple_modified_to(self@, other@, change.modified_bucket())
    }

    fn diff_with(&'map self, other: &'map Self) -> (res: Self::ChangeType) {
        let all_keys = key_union(self, other);
        let mut added: Vec<Add<&'map Key, &'map Value>> = Vec::with_capacity(all_keys.len());
        let mut removed: Vec<Remove<&'map Key, &'map Value>> = Vec::with_capacity(all_keys.len());
        let mut modified: Vec<
            Modify<&'map Key, Value, Modification<&'map Value>, scopes::Simple>,
        > = Vec::with_capacity(all_keys.len());

        let ghost obeys = obeys_key_model::<Key>() && obeys_leaf_eq::<Value>();
        let ghost only_target = other@.dom().difference(self@.dom());
        let ghost only_source = self@.dom().difference(other@.dom());
        let ghost differing = simply_differing(self@, other@);
        let ghost mut seen: Set<Key> = Set::empty();
        let mut done: usize = 0;
        while done < all_keys.len()
            invariant
                done <= all_keys@.len(),
                obeys == (obeys_key_model::<Key>() && obeys_leaf_eq::<Value>()),
                only_target == other@.dom().difference(self@.dom()),
                only_source == self@.dom().difference(other@.dom()),
                differing == simply_differing(self@, other@),
                obeys ==> lists_exactly(all_keys@.unref(), self@.dom().union(other@.dom())),
                obeys ==> forall|j: int|
                    done <= j < all_keys@.len() ==> !seen.contains(*#[trigger] all_keys@[j]),
                obeys ==> forall|j: int|
                    0 <= j < done ==> seen.contains(*#[trigger] all_keys@[j]),
                obeys ==> lists_exactly(added_keys(added@), only_target.intersect(seen)),
                obeys ==> lists_exactly(removed_keys(removed@), only_source.intersect(seen)),
                obeys ==> lists_exactly(modified_keys(modified@), differing.intersect(seen)),
                obeys ==> forall|i: int|
                    0 <= i < added@.len() ==> *(#[trigger] added@[i]).value
                        == other@[*added@[i].key],
                obeys ==> forall|i: int|
                    0 <= i < removed@.len() ==> *(#[trigger] removed@[i]).value
                        == self@[*removed@[i].key],
                obeys ==> forall|i: int|
                    0 <= i < modified@.len() ==> {
                        &&& (#[trigger] modified@[i]).modification == leaf_diff(
                            &self@[*modified@[i].key],
                            &other@[*modified@[i].key],
                        )
                        &&& modified@[i].modification.changed()
                    },
            decreases all_keys@.len() - done,
        {
            let key: &'map Key = all_keys[done];
            let ghost added_before = added@;
            let ghost removed_before = removed@;
            let ghost modified_before = modified@;
            proof {
                if obeys {
                    assert(all_keys@.unref()[done as int] == *key);
                    assert(all_keys@.unref().contains(*key));
                    assert(!seen.contains(*all_keys@[done as int]));
                }
            }
            match (self.get(key), other.get(key)) {
                // Modified is anything that exists in both self and other and whose
                // values are unequal
                (Some(source), Some(target)) => {
                    let changes = !source.eq(target);
                    proof {
                        if obeys {
                            lemma_lists_skip(added_keys(added@), only_target, seen, *key);
                            lemma_lists_skip(removed_keys(removed@), only_source, seen, *key);
                            if changes {
                                lemma_lists_push(modified_keys(modified@), differing, seen, *key);
                            } else {
                                lemma_lists_skip(modified_keys(modified@), differing, seen, *key);
                            }
                        }
                    }
                    if changes {
                        modified.push(Modify::from_simple(key, source, target));
                        proof {
                            assert(modified_keys(modified@) =~= modified_keys(modified_before).push(
                                *key,
                            ));
                        }
                    }
                },
                // Removed is anything that exists in self but not in other
                (Some(source), None) => {
                    removed.push(Remove::from((key, source)));
                    proof {
                        if obeys {
                            lemma_lists_skip(added_keys(added@), only_target, seen, *key);
                            lemma_lists_push(removed_keys(removed_before), only_source, seen, *key);
                            lemma_lists_skip(modified_keys(modified@), differing, seen, *key);
                            assert(removed_keys(removed@) =~= removed_keys(removed_before).push(
                                *key,
                            ));
                        }
                    }
                },
                // Added is anything that exists in other that was not in self
                (None, Some(target)) => {
                    added.push(Add::from((key, target)));
                    proof {
                        if obeys {
                            lemma_lists_push(added_keys(added_before), only_target, seen, *key);
                            lemma_lists_skip(removed_keys(removed@), only_source, seen, *key);
                            lemma_lists_skip(modified_keys(modified@), differing, seen, *key);
                            assert(added_keys(added@) =~= added_keys(added_before).push(*key));
                        }
                    }
                },
                // A key of the union lies in one of the maps
                (None, None) => {
                    assert(!obeys);
                },
            }
            proof {
                if obeys {
                    assert forall|j: int| done + 1 <= j < all_keys@.len() implies !seen.insert(
                        *key,
                    ).contains(*#[trigger] all_keys@[j]) by {
                        assert(all_keys@.unref()[j] != all_keys@.unref()[done as int]);
                    }
                }
                seen = seen.insert(*key);
            }
            done = done + 1;
        }

        shrink(&mut added);
        shrink(&mut removed);
        shrink(&mut modified);

        let res = MapChangeset { added, removed, modified };
        proof {
            if obeys {
                assert forall|key: Key|
                    self@.dom().union(other@.dom()).contains(key) implies seen.contains(key) by {
                    assert(all_keys@.unref().contains(key));
                    let j = choose|j: int|
                        0 <= j < all_keys@.unref().len() && all_keys@.unref()[j] == key;
                    assert(*all_keys@[j] == key);
                }
                lemma_lists_all(added_keys(res.added_bucket()), only_target, seen);
                lemma_lists_all(removed_keys(res.removed_bucket()), only_source, seen);
                lemma_lists_all(modified_keys(res.modified_bucket()), differing, seen);
            }
        }
        res
    }

    proof fn lemma_same_reflexive(&self) {
        assert forall|key: Key| #[trigger] self@.contains_key(key) implies self@[key].eq_spec(
            &self@[key],
        ) by {
        }
    }

    proof fn lemma_changed_iff_differs(&self, other: &Self, change: Self::ChangeType) {
        let added = added_keys(change.added_bucket());
        let removed = removed_keys(change.removed_bucket());
        let modified = modified_keys(change.modified_bucket());
        let differing = simply_differing(self@, other@);
        if change.changed() {
            if added.len() > 0 {
                assert(added.contains(added[0]));
                assert(other@.dom().difference(self@.dom()).contains(added[0]));
            } else if removed.len() > 0 {
                assert(removed.contains(removed[0]));
                assert(self@.dom().difference(other@.dom()).contains(removed[0]));
            } else {
                assert(modified.contains(modified[0]));
                assert(differing.contains(modified[0]));
            }
        } else {
            assert forall|key: Key| self@.dom().contains(key) <==> other@.dom().contains(key) by {
                if self@.dom().contains(key) && !other@.dom().contains(key) {
                    assert(self@.dom().difference(other@.dom()).contains(key));
                    assert(removed.contains(key));
                }
                if other@.dom().contains(key) && !self@.dom().contains(key) {
                    assert(other@.dom().difference(self@.dom()).contains(key));
                    assert(added.contains(key));
                }
            }
            assert(self@.dom() =~= other@.dom());
            assert forall|key: Key| #[trigger] self@.contains_key(key) implies self@[key].eq_spec(
                &other@[key],
            ) by {
                if !self@[key].eq_spec(&other@[key]) {
                    assert(differing.contains(key));
                    assert(modified.contains(key));
                }
            }
        }
    }
}

} // verus!
