use changeset::arbitrary::collections::set::hash_set_common;
use changeset::arbitrary::change::{Add, Change, HasChanges, PureChange, Remove};
use changeset::arbitrary::changeset::{FullChangeset, ImpureChangeset, PureChangeset};
use changeset::arbitrary::collections::set::{btree_set_difference, hash_set_difference};
use changeset::arbitrary::iterators::{
    collect_bounded, Additions, BucketIter, Changes, InfallibleIter, Modifications, PureChanges,
    Removals,
};
use changeset::arbitrary::scopes;
use changeset::arbitrary::{ArbitraryDiff, Modification};
use changeset::arbitrary::change::Modify;
use std::collections::{BTreeSet, HashSet};

#[test]
fn test_hashset_changeset() {
    let set1 = HashSet::from([1, 2, 3]);
    let set2 = HashSet::from([2, 3, 4]);

    let changeset = set1.diff_with(&set2);
    for change in changeset.pure_changes() {
        println!("{:#?}", change);
    }
}

#[test]
fn hash_set_diff_adds_and_removes() {
    let set1 = HashSet::from([1, 2, 3]);
    let set2 = HashSet::from([2, 3, 4]);

    let changeset = set1.diff_with(&set2);
    assert!(changeset.has_changes());
    assert!(!changeset.is_empty());
    assert_eq!(
        changeset.additions().collect::<Vec<_>>(),
        vec![Add { key: &4, value: &4 }]
    );
    assert_eq!(
        changeset.removals().collect::<Vec<_>>(),
        vec![Remove { key: &1, value: &1 }]
    );
    assert_eq!(
        changeset.pure_changes().collect::<Vec<_>>(),
        vec![
            PureChange::Add(Add { key: &4, value: &4 }),
            PureChange::Remove(Remove { key: &1, value: &1 })
        ]
    );
    assert_eq!(
        changeset.changes().collect::<Vec<_>>(),
        vec![
            Change::Add(Add { key: &4, value: &4 }),
            Change::Remove(Remove { key: &1, value: &1 })
        ]
    );
}

#[test]
fn set_changeset_has_no_modifications() {
    let set1 = HashSet::from([1, 2, 3]);
    let set2 = HashSet::from([2, 3, 4]);
    assert_eq!(set1.diff_with(&set2).modifications().count(), 0);
    assert_eq!(set1.diff_with(&set1).modifications().count(), 0);
    let empty: HashSet<i32> = HashSet::new();
    assert_eq!(empty.diff_with(&set2).modifications().count(), 0);
    let shrink = set2.diff_with(&empty);
    let mut none = shrink.modifications();
    assert!(none.next().is_none());
    assert!(none.next().is_none());
}

#[test]
fn diff_of_a_set_with_itself_is_empty() {
    let set = HashSet::from(["a", "b"]);
    let changeset = set.diff_with(&set);
    assert!(changeset.is_empty());
    assert!(!changeset.has_changes());
    assert_eq!(changeset.changes().count(), 0);
}

#[test]
fn set_additions_of_one_direction_are_removals_of_the_other() {
    let a = HashSet::from([1, 2, 3, 4]);
    let b = HashSet::from([3, 4, 5]);
    let forth = a.diff_with(&b);
    let back = b.diff_with(&a);
    let added: HashSet<i32> = forth.additions().map(|x| *x.key).collect();
    let removed_back: HashSet<i32> = back.removals().map(|x| *x.key).collect();
    assert_eq!(added, HashSet::from([5]));
    assert_eq!(added, removed_back);
    let removed: HashSet<i32> = forth.removals().map(|x| *x.key).collect();
    let added_back: HashSet<i32> = back.additions().map(|x| *x.key).collect();
    assert_eq!(removed, HashSet::from([1, 2]));
    assert_eq!(removed, added_back);
}

#[test]
fn btree_set_diff_is_in_ascending_order() {
    let set1 = BTreeSet::from([1, 3, 5, 7, 9]);
    let set2 = BTreeSet::from([2, 3, 4, 7, 8]);
    let changeset = set1.diff_with(&set2);
    assert_eq!(
        changeset.additions().map(|x| *x.key).collect::<Vec<_>>(),
        vec![2, 4, 8]
    );
    assert_eq!(
        changeset.removals().map(|x| *x.value).collect::<Vec<_>>(),
        vec![1, 5, 9]
    );
    assert_eq!(changeset.modifications().count(), 0);
    assert!(set1.diff_with(&set1).is_empty());
}

#[test]
fn differences_list_what_the_other_set_lacks() {
    let a = HashSet::from([1, 2, 3]);
    let b = HashSet::from([3]);
    let mut difference: Vec<i32> = hash_set_difference(&a, &b).into_iter().copied().collect();
    difference.sort();
    assert_eq!(difference, vec![1, 2]);
    assert!(hash_set_difference(&b, &a).is_empty());

    let c = BTreeSet::from([1, 2, 3]);
    let d = BTreeSet::from([2]);
    let difference: Vec<i32> = btree_set_difference(&c, &d).into_iter().copied().collect();
    assert_eq!(difference, vec![1, 3]);
}

#[test]
fn bucket_iter_walks_front_to_back() {
    let bucket = [10, 20, 30];
    let mut walk = BucketIter::new(&bucket);
    assert_eq!(walk.next(), Some(&10));
    assert_eq!(walk.next(), Some(&20));
    assert_eq!(walk.next(), Some(&30));
    assert_eq!(walk.next(), None);
    assert_eq!(walk.next(), None);
    let empty: [u8; 0] = [];
    assert_eq!(BucketIter::new(&empty).next(), None);
}

#[test]
fn infallible_iter_never_resumes() {
    // an iterator that would yield again after it has returned `None`
    let mut calls = 0;
    let flaky = std::iter::from_fn(move || {
        calls += 1;
        if calls == 2 {
            None
        } else {
            Some(calls)
        }
    });
    let mut fused = InfallibleIter::new(flaky);
    assert_eq!(fused.next(), Some(1));
    assert_eq!(fused.next(), None);
    assert_eq!(fused.next(), None);
    assert_eq!(fused.next(), None);

    let mut done: InfallibleIter<std::vec::IntoIter<u8>> = InfallibleIter::exhausted();
    assert_eq!(done.next(), None);
}

#[test]
fn collect_bounded_stops_at_the_limit() {
    assert_eq!(collect_bounded(vec![1, 2, 3].into_iter(), 5), vec![1, 2, 3]);
    assert_eq!(collect_bounded(vec![1, 2, 3].into_iter(), 3), vec![1, 2, 3]);
    assert_eq!(collect_bounded(vec![1, 2, 3].into_iter(), 2), vec![1, 2]);
    assert_eq!(collect_bounded(vec![1, 2, 3].into_iter(), 0), Vec::<i32>::new());
    assert_eq!(collect_bounded(Vec::<i32>::new().into_iter(), 4), Vec::<i32>::new());
}

#[test]
fn adapters_chain_in_fixed_order() {
    let one = 1u8;
    let two = 2u8;
    let added = [Add { key: &one, value: &one }];
    let removed = [Remove { key: &two, value: &two }, Remove { key: &one, value: &one }];
    let modified: [Modify<&u8, u8, Modification<&u8>, scopes::Simple>; 1] =
        [Modify::<_, _, _, scopes::Simple>::from_simple(&one, &one, &two)];

    let pure: Vec<_> = PureChanges::new(
        Additions::new(BucketIter::new(&added)),
        Removals::new(BucketIter::new(&removed)),
    )
    .collect();
    assert_eq!(
        pure,
        vec![
            PureChange::Add(added[0]),
            PureChange::Remove(removed[0]),
            PureChange::Remove(removed[1])
        ]
    );

    let all: Vec<Change<&u8, u8, scopes::Simple>> = Changes::new(
        Additions::new(BucketIter::new(&added)),
        Removals::new(BucketIter::new(&removed)),
        Modifications::new(BucketIter::new(&modified)),
    )
    .collect();
    assert_eq!(
        all,
        vec![
            Change::Add(added[0]),
            Change::Remove(removed[0]),
            Change::Remove(removed[1]),
            Change::Modify(&modified[0])
        ]
    );

    let mut none: Modifications<&u8, u8, Modification<&u8>, scopes::Simple> = Modifications::none();
    assert!(none.next().is_none());
}

#[test]
fn common_elements_are_what_a_diff_leaves_alone() {
    let a = HashSet::from([1, 2, 3, 4]);
    let b = HashSet::from([3, 4, 5]);
    let mut common: Vec<i32> = hash_set_common(&a, &b).into_iter().copied().collect();
    common.sort();
    assert_eq!(common, vec![3, 4]);
    assert!(hash_set_common(&a, &HashSet::new()).is_empty());
    let change = a.diff_with(&b);
    assert_eq!(
        common.len() + change.additions().count() + change.removals().count(),
        5
    );
}
