//! Diffs of the collections of the standard library.

use crate::arbitrary::change::{Add, HasChanges, Modify, Remove};
use std::cmp::Ordering;
use vstd::prelude::*;
use vstd::std_specs::btree::increasing_seq;
use vstd::std_specs::cmp::OrdSpec;

pub mod map;
pub mod set;

verus! {

/// Whether `items` holds every element of `set` once, and nothing else.
pub open spec fn lists_exactly<T>(items: Seq<T>, set: Set<T>) -> bool {
    &&& items.no_duplicates()
    &&& forall|item: T| items.contains(item) <==> set.contains(item)
}

/// Whether the order of `T` is one that contracts can speak of: a total
/// order that agrees with equality.
pub open spec fn obeys_order_model<T: Ord>() -> bool {
    vstd::laws_cmp::obeys_cmp::<T>()
}

/// The keys of a bucket of additions, in the bucket's order.
pub open spec fn added_keys<K, V>(added: Seq<Add<&K, V>>) -> Seq<K> {
    added.map_values(|add: Add<&K, V>| *add.key)
}

/// The keys of a bucket of removals, in the bucket's order.
pub open spec fn removed_keys<K, V>(removed: Seq<Remove<&K, V>>) -> Seq<K> {
    removed.map_values(|remove: Remove<&K, V>| *remove.key)
}

/// The keys of a bucket of modifications, in the bucket's order.
pub open spec fn modified_keys<K, V, C: HasChanges, S>(modified: Seq<Modify<&K, V, C, S>>) -> Seq<
    K,
> {
    modified.map_values(|modify: Modify<&K, V, C, S>| *modify.key)
}

/// A walk over `left` that keeps what `right` lacks lists the difference of
/// the two sets.
///
/// `origin` gives, for each kept item, its place in the walk.
pub proof fn lemma_kept_lists_difference<T>(
    all: Seq<&T>,
    kept: Seq<&T>,
    origin: Seq<int>,
    left: Set<T>,
    right: Set<T>,
)
    requires
        all.no_duplicates(),
        all.unref().to_set() == left,
        origin.len() == kept.len(),
        forall|j: int| 0 <= j < origin.len() ==> 0 <= #[trigger] origin[j] < all.len(),
        forall|j: int, k: int| 0 <= j < k < origin.len() ==> origin[j] < origin[k],
        forall|j: int| 0 <= j < origin.len() ==> kept[j] == all[#[trigger] origin[j]],
        forall|j: int| 0 <= j < kept.len() ==> !right.contains(*#[trigger] kept[j]),
        forall|i: int|
            0 <= i < all.len() && !right.contains(*#[trigger] all[i]) ==> exists|j: int|
                0 <= j < kept.len() && kept[j] == all[i],
    ensures
        lists_exactly(kept.unref(), left.difference(right)),
{
    let out = kept.unref();
    assert forall|j: int, k: int| 0 <= j < k < out.len() implies out[j] != out[k] by {
        assert(all[origin[j]] != all[origin[k]]);
    }
    assert forall|item: T| out.contains(item) <==> left.difference(right).contains(item) by {
        if out.contains(item) {
            let j = choose|j: int| 0 <= j < out.len() && out[j] == item;
            assert(all.unref()[origin[j]] == item);
            assert(all.unref().to_set().contains(item));
        }
        if left.difference(right).contains(item) {
            assert(all.unref().to_set().contains(item));
            let i = choose|i: int| 0 <= i < all.unref().len() && all.unref()[i] == item;
            assert(*all[i] == item);
            let j = choose|j: int| 0 <= j < kept.len() && kept[j] == all[i];
            assert(out[j] == item);
        }
    }
}

/// A walk that has listed what of `base` it has seen still does so once it
/// has seen, and listed, one more element of `base`.
pub proof fn lemma_lists_push<K>(keys: Seq<K>, base: Set<K>, seen: Set<K>, key: K)
    requires
        lists_exactly(keys, base.intersect(seen)),
        !seen.contains(key),
        base.contains(key),
    ensures
        lists_exactly(keys.push(key), base.intersect(seen.insert(key))),
{
    let longer = keys.push(key);
    assert forall|i: int, j: int| 0 <= i < j < longer.len() implies longer[i] != longer[j] by {
        if j == keys.len() {
            assert(keys.contains(longer[i]));
        }
    }
    assert forall|item: K| longer.contains(item) <==> base.intersect(seen.insert(key)).contains(
        item,
    ) by {
        if longer.contains(item) {
            let i = choose|i: int| 0 <= i < longer.len() && longer[i] == item;
            if i < keys.len() {
                assert(keys.contains(item));
            }
        }
        if base.intersect(seen.insert(key)).contains(item) {
            if item == key {
                assert(longer[keys.len() as int] == item);
            } else {
                assert(keys.contains(item));
                let i = choose|i: int| 0 <= i < keys.len() && keys[i] == item;
                assert(longer[i] == item);
            }
        }
    }
}

/// A walk that has listed what of `base` it has seen still does so once it
/// has seen an element outside `base`.
pub proof fn lemma_lists_skip<K>(keys: Seq<K>, base: Set<K>, seen: Set<K>, key: K)
    requires
        lists_exactly(keys, base.intersect(seen)),
        !base.contains(key),
    ensures
        lists_exactly(keys, base.intersect(seen.insert(key))),
{
    assert(base.intersect(seen.insert(key)) =~= base.intersect(seen));
}

/// A walk that has seen all of `base` has listed all of it.
pub proof fn lemma_lists_all<K>(keys: Seq<K>, base: Set<K>, seen: Set<K>)
    requires
        lists_exactly(keys, base.intersect(seen)),
        forall|key: K| base.contains(key) ==> seen.contains(key),
    ensures
        lists_exactly(keys, base),
{
    assert(base.intersect(seen) =~= base);
}

/// The key and value pairs that a bucket of additions holds.
pub open spec fn added_pairs<K, V>(added: Seq<Add<&K, &V>>) -> Set<(K, V)> {
    Set::new(
        |pair: (K, V)|
            exists|i: int|
                0 <= i < added.len() && *(#[trigger] added[i]).key == pair.0 && *added[i].value
                    == pair.1,
    )
}

/// The key and value pairs that a bucket of removals holds.
pub open spec fn removed_pairs<K, V>(removed: Seq<Remove<&K, &V>>) -> Set<(K, V)> {
    Set::new(
        |pair: (K, V)|
            exists|i: int|
                0 <= i < removed.len() && *(#[trigger] removed[i]).key == pair.0
                    && *removed[i].value == pair.1,
    )
}

/// Whether the items stand in ascending order: every item is less than all
/// that follow it.
pub open spec fn ascending<T: Ord>(items: Seq<T>) -> bool {
    forall|i: int, j: int|
        0 <= i < j < items.len() ==> #[trigger] items[i].cmp_spec(&items[j]) == Ordering::Less
}

/// What is kept of an ascending walk, in the order of the walk, ascends.
///
/// `origin` gives, for each kept item, its place in the walk.
pub proof fn lemma_kept_ascends<T: Ord>(all: Seq<&T>, kept: Seq<&T>, origin: Seq<int>)
    requires
        obeys_order_model::<T>(),
        increasing_seq(all),
        origin.len() == kept.len(),
        forall|j: int| 0 <= j < origin.len() ==> 0 <= #[trigger] origin[j] < all.len(),
        forall|j: int, k: int| 0 <= j < k < origin.len() ==> origin[j] < origin[k],
        forall|j: int| 0 <= j < origin.len() ==> kept[j] == all[#[trigger] origin[j]],
    ensures
        ascending(kept.unref()),
{
    broadcast use vstd::laws_cmp::lemma_ref_obeys_cmp_spec;
    assert(vstd::laws_cmp::obeys_cmp::<&T>());
    vstd::std_specs::btree::axiom_increasing_seq_meaning::<&T>(all);
    let out = kept.unref();
    assert forall|i: int, j: int| 0 <= i < j < out.len() implies #[trigger] out[i].cmp_spec(
        &out[j],
    ) == Ordering::Less by {
        let first: &T = all[origin[i]];
        let second: &T = all[origin[j]];
        assert((&first).cmp_spec(&second) == Ordering::Less);
    }
}

} // verus!
