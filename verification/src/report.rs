//! How two datasets are lined up before they are compared: the names of
//! both are merged, and the cards of a set are grouped by their names.

use crate::pattern::texts_view;
use crate::text::{comes_before, same_text, text_before};
use vstd::string::StringExecFns;
use vstd::prelude::*;

verus! {

/// The names of both lists in one list: the walk takes the name that comes
/// first, and takes a name that heads both lists once. For two ascending
/// lists this is their ascending union.
pub open spec fn merged_names(left: Seq<Seq<char>>, right: Seq<Seq<char>>) -> Seq<Seq<char>>
    decreases left.len() + right.len(),
{
    if left.len() == 0 {
        right
    } else if right.len() == 0 {
        left
    } else if text_before(left[0], right[0]) {
        seq![left[0]] + merged_names(left.skip(1), right)
    } else if left[0] == right[0] {
        seq![left[0]] + merged_names(left.skip(1), right.skip(1))
    } else {
        seq![right[0]] + merged_names(left, right.skip(1))
    }
}

/// What a list of borrowed names holds.
pub open spec fn names_view(names: Seq<&String>) -> Seq<Seq<char>> {
    names.map_values(|name: &String| name@)
}

/// Merges two lists of names into one.
pub fn merge_names<'a>(left: &Vec<&'a String>, right: &Vec<&'a String>) -> (res: Vec<&'a String>)
    ensures
        names_view(res@) == merged_names(names_view(left@), names_view(right@)),
{
    let mut res: Vec<&'a String> = Vec::new();
    let mut at: usize = 0;
    let mut other_at: usize = 0;
    let ghost all = merged_names(names_view(left@), names_view(right@));
    assert(names_view(left@).skip(0) =~= names_view(left@));
    assert(names_view(right@).skip(0) =~= names_view(right@));
    assert(names_view(res@) + all =~= all);
    while at < left.len() || other_at < right.len()
        invariant
            at <= left@.len(),
            other_at <= right@.len(),
            all == names_view(res@) + merged_names(
                names_view(left@).skip(at as int),
                names_view(right@).skip(other_at as int),
            ),
        decreases left@.len() - at + right@.len() - other_at,
    {
        let ghost before = names_view(res@);
        let ghost rest = names_view(left@).skip(at as int);
        let ghost other_rest = names_view(right@).skip(other_at as int);
        proof {
            if at < left@.len() {
                assert(rest[0] == left@[at as int]@);
                assert(rest.skip(1) =~= names_view(left@).skip(at + 1));
            }
            if other_at < right@.len() {
                assert(other_rest[0] == right@[other_at as int]@);
                assert(other_rest.skip(1) =~= names_view(right@).skip(other_at + 1));
            }
        }
        let taken: &'a String;
        if other_at >= right.len() {
            taken = left[at];
            at = at + 1;
            proof {
                lemma_merged_with_empty(rest);
                lemma_merged_with_empty(rest.skip(1));
                assert(rest =~= seq![rest[0]] + rest.skip(1));
            }
        } else if at >= left.len() {
            taken = right[other_at];
            other_at = other_at + 1;
            assert(other_rest =~= seq![other_rest[0]] + other_rest.skip(1));
        } else if comes_before(left[at].as_str(), right[other_at].as_str()) {
            taken = left[at];
            at = at + 1;
        } else if same_text(left[at].as_str(), right[other_at].as_str()) {
            taken = left[at];
            at = at + 1;
            other_at = other_at + 1;
        } else {
            taken = right[other_at];
            other_at = other_at + 1;
        }
        res.push(taken);
        proof {
            let tail = merged_names(
                names_view(left@).skip(at as int),
                names_view(right@).skip(other_at as int),
            );
            assert(names_view(res@) =~= before.push(taken@));
            assert(merged_names(rest, other_rest) == seq![taken@] + tail);
            assert(before + (seq![taken@] + tail) =~= before.push(taken@) + tail);
        }
    }
    proof {
        assert(names_view(left@).skip(at as int) =~= Seq::empty());
        assert(names_view(res@) + Seq::<Seq<char>>::empty() =~= names_view(res@));
    }
    res
}

/// Merging a list with an empty one gives the list.
pub proof fn lemma_merged_with_empty(names: Seq<Seq<char>>)
    ensures
        merged_names(names, Seq::empty()) == names,
        merged_names(Seq::empty(), names) == names,
{
}

/// The items of `items` that go by `name`, in order.
pub open spec fn with_name<T>(items: Seq<(String, T)>, name: Seq<char>) -> Seq<T>
    decreases items.len(),
{
    if items.len() == 0 {
        Seq::empty()
    } else if items.last().0@ == name {
        with_name(items.drop_last(), name).push(items.last().1)
    } else {
        with_name(items.drop_last(), name)
    }
}

/// Whether `groups` holds the items of `items` by their names: every name
/// has one group, which holds the items of this name in order.
pub open spec fn grouped<T>(items: Seq<(String, T)>, groups: Seq<(String, Vec<T>)>) -> bool {
    &&& forall|i: int, j: int|
        0 <= i < j < groups.len() ==> (#[trigger] groups[i]).0@ != (#[trigger] groups[j]).0@
    &&& forall|i: int|
        0 <= i < groups.len() ==> (#[trigger] groups[i]).1@ == with_name(items, groups[i].0@)
            && groups[i].1@.len() > 0
    &&& forall|name: Seq<char>|
        (#[trigger] with_name(items, name)).len() > 0 ==> exists|i: int|
            0 <= i < groups.len() && (#[trigger] groups[i]).0@ == name
}

/// The place of the group of `name`, if there is one.
fn group_place<T>(groups: &Vec<(String, Vec<T>)>, name: &str) -> (res: Option<usize>)
    ensures
        match res {
            Some(place) => place < groups@.len() && groups@[place as int].0@ == name@,
            None => forall|i: int| 0 <= i < groups@.len() ==> (#[trigger] groups@[i]).0@ != name@,
        },
{
    let mut at: usize = 0;
    while at < groups.len()
        invariant
            at <= groups@.len(),
            forall|i: int| 0 <= i < at ==> (#[trigger] groups@[i]).0@ != name@,
        decreases groups@.len() - at,
    {
        if same_text(groups[at].0.as_str(), name) {
            return Some(at);
        }
        at = at + 1;
    }
    None
}

/// Groups items by their names. The groups stand in the order in which
/// their names first occur.
pub fn group_by_name<T>(items: Vec<(String, T)>) -> (res: Vec<(String, Vec<T>)>)
    ensures
        grouped(items@, res@),
{
    let mut groups: Vec<(String, Vec<T>)> = Vec::new();
    let ghost all = items@;
    let ghost mut seen: Seq<(String, T)> = Seq::empty();
    assert forall|name: Seq<char>| (#[trigger] with_name(seen, name)).len() == 0 by {}
    for item in it: items
        invariant
            it.seq() == all,
            seen == all.subrange(0, it.index()),
            grouped(seen, groups@),
    {
        let ghost before = groups@;
        let ghost next = seen.push(item);
        proof {
            assert(next.drop_last() =~= seen);
            assert(next.last() == item);
            assert(next =~= all.subrange(0, it.index() + 1));
        }
        let (name, value) = item;
        match group_place(&groups, name.as_str()) {
            Some(place) => {
                let (key, mut group) = groups.remove(place);
                group.push(value);
                groups.insert(place, (key, group));
                proof {
                    assert forall|i: int, j: int| 0 <= i < j < groups@.len() implies (
                    #[trigger] groups@[i]).0@ != (#[trigger] groups@[j]).0@ by {
                        assert(groups@[i].0@ == before[i].0@);
                        assert(groups@[j].0@ == before[j].0@);
                    }
                    assert forall|i: int| 0 <= i < groups@.len() implies (
                    #[trigger] groups@[i]).1@ == with_name(next, groups@[i].0@)
                        && groups@[i].1@.len() > 0 by {
                        assert(groups@[i].0@ == before[i].0@);
                        if i != place {
                            assert(groups@[i] == before[i]);
                        }
                    }
                    assert forall|other: Seq<char>|
                        (#[trigger] with_name(next, other)).len() > 0 implies exists|i: int|
                        0 <= i < groups@.len() && (#[trigger] groups@[i]).0@ == other by {
                        if other == name@ {
                            assert(groups@[place as int].0@ == other);
                        } else {
                            assert(with_name(seen, other).len() > 0);
                            let i = choose|i: int|
                                0 <= i < before.len() && (#[trigger] before[i]).0@ == other;
                            assert(groups@[i].0@ == other);
                        }
                    }
                }
            },
            None => {
                proof {
                    if with_name(seen, name@).len() > 0 {
                        let i = choose|i: int|
                            0 <= i < before.len() && (#[trigger] before[i]).0@ == name@;
                    }
                    assert(with_name(seen, name@).len() == 0);
                }
                let mut group: Vec<T> = Vec::new();
                group.push(value);
                groups.push((name, group));
                proof {
                    assert(groups@[before.len() as int].1@ =~= with_name(next, name@));
                    assert forall|i: int| 0 <= i < groups@.len() implies (
                    #[trigger] groups@[i]).1@ == with_name(next, groups@[i].0@)
                        && groups@[i].1@.len() > 0 by {
                        if i < before.len() {
                            assert(groups@[i] == before[i]);
                        }
                    }
                    assert forall|other: Seq<char>|
                        (#[trigger] with_name(next, other)).len() > 0 implies exists|i: int|
                        0 <= i < groups@.len() && (#[trigger] groups@[i]).0@ == other by {
                        if other == name@ {
                            assert(groups@[before.len() as int].0@ == other);
                        } else {
                            assert(with_name(seen, other).len() > 0);
                            let i = choose|i: int|
                                0 <= i < before.len() && (#[trigger] before[i]).0@ == other;
                            assert(groups@[i].0@ == other);
                        }
                    }
                }
            },
        }
        proof {
            seen = next;
        }
    }
    assert(seen =~= all);
    groups
}

/// The names of the cards in the order of their numbers, and of their names
/// where the numbers are equal. Every entry holds a number and a name.
pub uninterp spec fn names_by_number(cards: Seq<(Seq<char>, Seq<char>)>) -> Seq<Seq<char>>;

/// What a list of numbers and names holds.
pub open spec fn pairs_view(pairs: Seq<(String, String)>) -> Seq<(Seq<char>, Seq<char>)> {
    pairs.map_values(|pair: (String, String)| (pair.0@, pair.1@))
}

/// Returns the names of the cards in the order of their numbers, and of
/// their names where the numbers are equal.
///
/// Calls `sorted` of the crate `itertools`, which sorts the pairs in
/// ascending order with the stable sort of the standard library. Pairs of
/// strings are ordered by their first parts, then by their second parts, so
/// the result depends on the texts alone.
#[verifier::external_body]
fn sorted_names(cards: &Vec<(String, String)>) -> (res: Vec<String>)
    ensures
        texts_view(res@) == names_by_number(pairs_view(cards@)),
{
    itertools::Itertools::sorted(cards.iter()).map(|pair| pair.1.clone()).collect()
}

/// The texts with `", "` between them.
pub open spec fn listed(texts: Seq<Seq<char>>) -> Seq<char>
    decreases texts.len(),
{
    if texts.len() == 0 {
        Seq::empty()
    } else if texts.len() == 1 {
        texts[0]
    } else {
        listed(texts.drop_last()) + ", "@ + texts.last()
    }
}

/// What tells two versions of a set apart: the names of the cards in the
/// order of their numbers, with `", "` between them.
pub open spec fn version_key_of(cards: Seq<(String, String)>) -> Seq<char> {
    listed(names_by_number(pairs_view(cards)))
}

/// Writes out what tells a version of a set from another.
pub fn version_key(cards: &Vec<(String, String)>) -> (res: String)
    ensures
        res@ == version_key_of(cards@),
{
    let names = sorted_names(cards);
    let mut key = String::new();
    let mut at: usize = 0;
    assert(texts_view(names@).subrange(0, 0) =~= Seq::empty());
    while at < names.len()
        invariant
            at <= names@.len(),
            key@ == listed(texts_view(names@).subrange(0, at as int)),
        decreases names@.len() - at,
    {
        proof {
            let next = texts_view(names@).subrange(0, at + 1);
            assert(next.drop_last() =~= texts_view(names@).subrange(0, at as int));
            assert(next.last() == names@[at as int]@);
        }
        let ghost before = key@;
        if at > 0 {
            key.append(", ");
        }
        key.append(names[at].as_str());
        assert(key@ =~= listed(texts_view(names@).subrange(0, at + 1)));
        at = at + 1;
    }
    assert(texts_view(names@).subrange(0, at as int) =~= texts_view(names@));
    key
}

/// Whether all keys are equal, and there is one at least.
pub open spec fn one_version(keys: Seq<Seq<char>>) -> bool {
    keys.len() > 0 && forall|i: int| 0 <= i < keys.len() ==> #[trigger] keys[i] == keys[0]
}

/// Returns the place of the version to keep: the first one where all
/// versions have the same key, and none where they differ or where there is
/// no version at all.
pub fn version_to_keep(keys: &Vec<String>) -> (res: Option<usize>)
    ensures
        res == (if one_version(texts_view(keys@)) {
            Some(0usize)
        } else {
            None
        }),
{
    if keys.len() == 0 {
        return None;
    }
    let mut at: usize = 1;
    while at < keys.len()
        invariant
            1 <= at <= keys@.len(),
            forall|i: int| 0 <= i < at ==> (#[trigger] texts_view(keys@)[i]) == texts_view(keys@)[0],
        decreases keys@.len() - at,
    {
        if !same_text(keys[at].as_str(), keys[0].as_str()) {
            assert(texts_view(keys@)[at as int] != texts_view(keys@)[0]);
            return None;
        }
        at = at + 1;
    }
    Some(0)
}

} // verus!
