use changeset::arbitrary::change::{Add, Change, HasChanges, Modify, PureChange, Remove};
use changeset::arbitrary::changeset::{FullChangeset, ImpureChangeset, PureChangeset};
use changeset::arbitrary::collections::map::{key_union, missing_keys};
use changeset::arbitrary::scopes;
use changeset::arbitrary::{ArbitraryDiff, Different, Equal, Modification, SimpleDiff};
use std::collections::{HashMap, HashSet};

#[test]
fn test_hash_map() {
    let map1 = HashMap::from([
        (1, HashSet::from([1, 2, 3])),
        (2, HashSet::from([1, 2, 3])),
        (3, HashSet::from([1, 2, 3])),
    ]);
    let map2 = HashMap::from([
        (1, HashSet::from([1, 2, 3])),
        (2, HashSet::from([1, 3])),
        (4, HashSet::from([1, 2, 3])),
    ]);

    let changeset = ArbitraryDiff::<scopes::map_value_diff::Arbitrarily>::diff_with(&map1, &map2);
    let mut pure_changes = changeset.pure_changes().collect::<Vec<_>>();
    assert_eq!(
        pure_changes.remove(0),
        PureChange::Add((&4, &HashSet::from([2, 3, 1])).into())
    );
    assert_eq!(
        pure_changes.remove(0),
        PureChange::Remove((&3, &HashSet::from([2, 3, 1])).into())
    );
    assert!(pure_changes.is_empty());

    let actual_set = HashSet::from([2, 3, 1]);
    let removed_set = HashSet::from([1, 3]);
    let mut all_changes = changeset.changes().collect::<Vec<_>>();
    assert_eq!(all_changes.remove(0), Change::Add((&4, &actual_set).into()));
    assert_eq!(
        all_changes.remove(0),
        Change::Remove((&3, &actual_set).into())
    );
    assert_eq!(
        all_changes.remove(0),
        Change::Modify(&Modify::<_, _, _, scopes::Base>::from_arbitrary(
            &2,
            &actual_set,
            &removed_set
        ))
    );
    assert!(all_changes.is_empty());

    let changeset = ArbitraryDiff::<scopes::map_value_diff::Simply, scopes::Simple>::diff_with(
        &map1, &map2,
    );
    let mut pure_changes = changeset.pure_changes().collect::<Vec<_>>();
    assert_eq!(
        pure_changes.remove(0),
        PureChange::Add((&4, &HashSet::from([2, 3, 1])).into())
    );
    assert_eq!(
        pure_changes.remove(0),
        PureChange::Remove((&3, &HashSet::from([2, 3, 1])).into())
    );
    assert!(pure_changes.is_empty());

    let actual_set = HashSet::from([2, 3, 1]);
    let removed_set = HashSet::from([1, 3]);
    let mut all_changes = changeset.changes().collect::<Vec<_>>();
    assert_eq!(all_changes.remove(0), Change::Add((&4, &actual_set).into()));
    assert_eq!(
        all_changes.remove(0),
        Change::Remove((&3, &actual_set).into())
    );
    assert_eq!(
        all_changes.remove(0),
        Change::Modify(&Modify::<_, _, _, scopes::Simple>::from_simple(
            &2,
            &actual_set,
            &removed_set
        ))
    );
    assert!(all_changes.is_empty());
}

#[test]
fn test_nested_hash_map() {
    let map1 = HashMap::from([
        (1, HashMap::from([(1, HashSet::from([1, 2, 3]))])),
        (2, HashMap::from([(1, HashSet::from([1, 2, 3]))])),
        (3, HashMap::from([(1, HashSet::from([1, 2, 3]))])),
    ]);
    let map2 = HashMap::from([
        (1, HashMap::from([(1, HashSet::from([1, 2, 3]))])),
        (2, HashMap::from([(2, HashSet::from([1, 2, 3]))])),
        (3, HashMap::from([(1, HashSet::from([1, 2]))])),
    ]);

    let changeset = ArbitraryDiff::<
        scopes::map_value_diff::Arbitrarily,
        scopes::map_value_diff::Arbitrarily,
    >::diff_with(&map1, &map2);
    for change in changeset.pure_changes() {
        println!("{change:#?}")
    }

    for change in changeset.changes() {
        println!("{change:#?}")
    }
}

#[test]
fn nested_maps_are_diffed_recursively() {
    let map1 = HashMap::from([
        (1, HashMap::from([(1, HashSet::from([1, 2, 3]))])),
        (2, HashMap::from([(1, HashSet::from([1, 2, 3]))])),
        (3, HashMap::from([(1, HashSet::from([1, 2, 3]))])),
    ]);
    let map2 = HashMap::from([
        (1, HashMap::from([(1, HashSet::from([1, 2, 3]))])),
        (2, HashMap::from([(2, HashSet::from([1, 2, 3]))])),
        (3, HashMap::from([(1, HashSet::from([1, 2]))])),
    ]);

    let changeset = ArbitraryDiff::<
        scopes::map_value_diff::Arbitrarily,
        scopes::map_value_diff::Arbitrarily,
    >::diff_with(&map1, &map2);
    assert!(changeset.has_changes());
    assert!(!changeset.is_empty());
    assert_eq!(changeset.additions().count(), 0);
    assert_eq!(changeset.removals().count(), 0);

    let mut keys = Vec::new();
    for modify in changeset.modifications() {
        assert!(modify.modification.has_changes());
        keys.push(*modify.key);
        if *modify.key == 2 {
            // the inner key moved from 1 to 2: one addition, one removal
            let inner_added: Vec<_> = modify.modification.additions().collect();
            let inner_removed: Vec<_> = modify.modification.removals().collect();
            assert_eq!(inner_added, vec![Add { key: &2, value: &HashSet::from([1, 2, 3]) }]);
            assert_eq!(inner_removed, vec![Remove { key: &1, value: &HashSet::from([1, 2, 3]) }]);
            assert_eq!(modify.modification.modifications().count(), 0);
        } else {
            // the inner set lost the element 3: one nested modification
            assert_eq!(modify.modification.additions().count(), 0);
            assert_eq!(modify.modification.removals().count(), 0);
            let inner: Vec<_> = modify.modification.modifications().collect();
            assert_eq!(inner.len(), 1);
            assert_eq!(*inner[0].key, 1);
            let lost: Vec<_> = inner[0].modification.removals().collect();
            assert_eq!(lost, vec![Remove { key: &3, value: &3 }]);
            assert_eq!(inner[0].modification.additions().count(), 0);
        }
    }
    keys.sort();
    assert_eq!(keys, vec![2, 3]);
}

#[test]
fn diff_of_a_map_with_itself_is_empty() {
    let map = HashMap::from([(1, HashSet::from([1, 2])), (2, HashSet::from([3]))]);
    let arbitrary = ArbitraryDiff::<scopes::map_value_diff::Arbitrarily>::diff_with(&map, &map);
    assert!(arbitrary.is_empty());
    assert!(!arbitrary.has_changes());
    assert_eq!(arbitrary.changes().count(), 0);

    let simple =
        ArbitraryDiff::<scopes::map_value_diff::Simply, scopes::Simple>::diff_with(&map, &map);
    assert!(simple.is_empty());
    assert_eq!(simple.changes().count(), 0);
}

#[test]
fn empty_maps_give_pure_additions_or_removals() {
    let empty: HashMap<u32, u32> = HashMap::new();
    let full = HashMap::from([(1u32, 10u32), (2, 20)]);

    let grow = ArbitraryDiff::<scopes::map_value_diff::Simply, scopes::Simple>::diff_with(
        &empty, &full,
    );
    let mut added: Vec<(u32, u32)> = grow.additions().map(|a| (*a.key, *a.value)).collect();
    added.sort();
    assert_eq!(added, vec![(1, 10), (2, 20)]);
    assert_eq!(grow.removals().count(), 0);
    assert_eq!(grow.modifications().count(), 0);

    let shrink = ArbitraryDiff::<scopes::map_value_diff::Simply, scopes::Simple>::diff_with(
        &full, &empty,
    );
    let mut removed: Vec<(u32, u32)> = shrink.removals().map(|r| (*r.key, *r.value)).collect();
    removed.sort();
    assert_eq!(removed, vec![(1, 10), (2, 20)]);
    assert_eq!(shrink.additions().count(), 0);
    assert_eq!(shrink.modifications().count(), 0);

    let nothing = ArbitraryDiff::<scopes::map_value_diff::Simply, scopes::Simple>::diff_with(
        &empty, &empty,
    );
    assert!(nothing.is_empty());
}

#[test]
fn additions_of_one_direction_are_removals_of_the_other() {
    let a = HashMap::from([(1u8, 'a'), (2, 'b'), (3, 'c')]);
    let b = HashMap::from([(2u8, 'b'), (3, 'x'), (4, 'd'), (5, 'e')]);
    let forth = ArbitraryDiff::<scopes::map_value_diff::Simply, scopes::Simple>::diff_with(&a, &b);
    let back = ArbitraryDiff::<scopes::map_value_diff::Simply, scopes::Simple>::diff_with(&b, &a);

    let added: HashSet<(u8, char)> = forth.additions().map(|x| (*x.key, *x.value)).collect();
    let removed_back: HashSet<(u8, char)> = back.removals().map(|x| (*x.key, *x.value)).collect();
    assert_eq!(added, HashSet::from([(4, 'd'), (5, 'e')]));
    assert_eq!(added, removed_back);

    let removed: HashSet<(u8, char)> = forth.removals().map(|x| (*x.key, *x.value)).collect();
    let added_back: HashSet<(u8, char)> = back.additions().map(|x| (*x.key, *x.value)).collect();
    assert_eq!(removed, HashSet::from([(1, 'a')]));
    assert_eq!(removed, added_back);
}

#[test]
fn every_key_lies_in_one_place() {
    let a = HashMap::from([(1u8, 'a'), (2, 'b'), (3, 'c')]);
    let b = HashMap::from([(2u8, 'b'), (3, 'x'), (4, 'd')]);
    let diff = ArbitraryDiff::<scopes::map_value_diff::Simply, scopes::Simple>::diff_with(&a, &b);
    for key in key_union(&a, &b) {
        let added = diff.additions().filter(|x| x.key == key).count();
        let removed = diff.removals().filter(|x| x.key == key).count();
        let compared = usize::from(a.contains_key(key) && b.contains_key(key));
        assert_eq!(added + removed + compared, 1);
    }
}

#[test]
fn modifications_hold_changes_only() {
    let a = HashMap::from([(1u8, 'a'), (2, 'b'), (3, 'c')]);
    let b = HashMap::from([(1u8, 'a'), (2, 'y'), (3, 'z')]);
    let diff = ArbitraryDiff::<scopes::map_value_diff::Simply, scopes::Simple>::diff_with(&a, &b);
    let mut keys = Vec::new();
    for modify in diff.modifications() {
        assert!(modify.modification.has_changes());
        keys.push(*modify.key);
        let expected = Modification::Different(Different {
            source: &a[modify.key],
            target: &b[modify.key],
        });
        assert_eq!(modify.modification, expected);
    }
    keys.sort();
    assert_eq!(keys, vec![2, 3]);
    assert_eq!(diff.additions().count(), 0);
    assert_eq!(diff.removals().count(), 0);
}

#[test]
fn changes_come_in_the_order_add_remove_modify() {
    let a = HashMap::from([(1u8, 1u8), (2, 2), (3, 3), (4, 4), (5, 5)]);
    let b = HashMap::from([(4u8, 40u8), (5, 50), (6, 6), (7, 7), (8, 8)]);
    let diff = ArbitraryDiff::<scopes::map_value_diff::Simply, scopes::Simple>::diff_with(&a, &b);
    let kinds: Vec<u8> = diff
        .changes()
        .map(|change| match change {
            Change::Add(_) => 0,
            Change::Remove(_) => 1,
            Change::Modify(_) => 2,
        })
        .collect();
    assert_eq!(kinds, vec![0, 0, 0, 1, 1, 1, 2, 2]);

    let additions: Vec<_> = diff.additions().collect();
    let removals: Vec<_> = diff.removals().collect();
    let modifications: Vec<_> = diff.modifications().collect();
    let mut expected = Vec::new();
    expected.extend(additions.iter().map(|add| Change::Add(*add)));
    expected.extend(removals.iter().map(|remove| Change::Remove(*remove)));
    expected.extend(modifications.iter().map(|modify| Change::Modify(*modify)));
    assert_eq!(diff.changes().collect::<Vec<_>>(), expected);

    let pure: Vec<_> = diff.pure_changes().collect();
    assert_eq!(pure.len(), 6);
    assert!(pure[..3].iter().all(|change| matches!(change, PureChange::Add(_))));
    assert!(pure[3..].iter().all(|change| matches!(change, PureChange::Remove(_))));
}

#[test]
fn accessors_can_be_called_again_and_stay_exhausted() {
    let a = HashMap::from([(1u8, 1u8)]);
    let b = HashMap::from([(2u8, 2u8)]);
    let diff = ArbitraryDiff::<scopes::map_value_diff::Simply, scopes::Simple>::diff_with(&a, &b);

    let mut first = diff.additions();
    assert_eq!(first.next(), Some(Add { key: &2, value: &2 }));
    assert_eq!(first.next(), None);
    assert_eq!(first.next(), None);
    assert_eq!(first.next(), None);

    let mut second = diff.additions();
    assert_eq!(second.next(), Some(Add { key: &2, value: &2 }));
    assert_eq!(second.next(), None);

    let mut all = diff.changes();
    assert!(all.next().is_some());
    assert!(all.next().is_some());
    assert!(all.next().is_none());
    assert!(all.next().is_none());
}

#[test]
fn key_union_lists_every_key_once() {
    let a = HashMap::from([(1u8, ()), (2, ()), (3, ())]);
    let b = HashMap::from([(3u8, ()), (4, ())]);
    let mut union: Vec<u8> = key_union(&a, &b).into_iter().copied().collect();
    union.sort();
    assert_eq!(union, vec![1, 2, 3, 4]);

    let mut missing: Vec<u8> = missing_keys(&a, &b).into_iter().copied().collect();
    missing.sort();
    assert_eq!(missing, vec![1, 2]);
    assert!(missing_keys(&a, &a).is_empty());
}

#[test]
fn simple_diff_compares_by_equality() {
    let one = String::from("one");
    let same = String::from("one");
    let other = String::from("two");
    assert_eq!(
        one.simple_diff(&same),
        Modification::Equal(Equal { value: &one })
    );
    assert!(!one.simple_diff(&same).has_changes());
    assert_eq!(
        one.simple_diff(&other),
        Modification::Different(Different {
            source: &one,
            target: &other
        })
    );
    assert!(one.simple_diff(&other).has_changes());
}

#[test]
fn from_simple_and_from_arbitrary_keep_the_key() {
    let left = HashSet::from([1, 2]);
    let right = HashSet::from([2, 3]);
    let simple = Modify::<_, _, _, scopes::Simple>::from_simple(&7, &left, &right);
    assert_eq!(*simple.key, 7);
    assert_eq!(
        simple.modification,
        Modification::Different(Different {
            source: &left,
            target: &right
        })
    );
    let arbitrary = Modify::<_, _, _, scopes::Base>::from_arbitrary(&7, &left, &right);
    assert_eq!(*arbitrary.key, 7);
    assert_eq!(
        arbitrary.modification.additions().collect::<Vec<_>>(),
        vec![Add { key: &3, value: &3 }]
    );
    assert_eq!(
        arbitrary.modification.removals().collect::<Vec<_>>(),
        vec![Remove { key: &1, value: &1 }]
    );
    let copy = arbitrary.clone();
    assert_eq!(copy, arbitrary);
}

#[test]
fn pure_change_converts_into_change() {
    let value = 5u8;
    let add: PureChange<&u8, &u8> = PureChange::Add((&1u8, &value).into());
    let remove: PureChange<&u8, &u8> = PureChange::Remove((&2u8, &value).into());
    let as_add: Change<&u8, u8, scopes::Simple> = add.into();
    let as_remove: Change<&u8, u8, scopes::Simple> = remove.into();
    assert_eq!(as_add, Change::Add(Add { key: &1, value: &value }));
    assert_eq!(as_remove, Change::Remove(Remove { key: &2, value: &value }));
}
