//! Operations that bring the set names of a dataset in line with those of
//! another: sets are extracted from cards of other sets, renamed, merged
//! into other sets, and ignored.

use crate::arbitrary::collections::obeys_order_model;
use crate::arbitrary::iterators::collect_bounded;
use std::collections::{BTreeMap, HashMap, HashSet};
use vstd::prelude::*;
use vstd::std_specs::hash::obeys_key_model;

verus! {

/// The operations on the two datasets.
pub struct DatasetMappings {
    pub ptcgio: MappingOperations,
    pub pkmn: MappingOperations,
}

/// The operations on one dataset.
pub struct MappingOperations {
    /// The sets to drop.
    pub ignore: HashSet<String>,
    /// The sets to move into another set, by the name of that set.
    pub merge: HashMap<String, String>,
    /// The sets to rename, by their new name.
    pub map: HashMap<String, String>,
    /// The sets to make from cards of other sets.
    pub extract: HashMap<String, ExtractOp>,
}

/// How a set is made from cards of other sets.
pub struct ExtractOp {
    /// The number of cards of the new set.
    pub count: usize,
    /// Where the cards come from.
    pub cards: Vec<ExtractGroup>,
}

/// The cards that a new set takes from one set.
pub struct ExtractGroup {
    /// The name of the set that the cards come from.
    pub from: String,
    /// For a place in the new set, the place of the card in the set it
    /// comes from.
    pub numbers: HashMap<usize, usize>,
}

/// Why the operations could not be carried out.
#[derive(Debug, PartialEq, Eq)]
pub enum MappingError {
    /// The dataset already holds a set of the name of a set to extract.
    SetAlreadyPresent(String),
    /// A set to extract cards from is not in the dataset.
    ExtractSourceMissing(String),
    /// A place to fill lies outside the new set.
    TargetOutOfRange(usize),
    /// A card to take lies outside the set it is to come from.
    SourceOutOfRange(usize),
    /// A place of the new set was given no card.
    CardNotFilled(usize),
    /// A set to rename is not in the dataset.
    MapSourceMissing(String, String),
    /// A set to merge into another is not in the dataset.
    MergeSourceMissing(String),
    /// A set to merge another into is not in the dataset.
    MergeTargetMissing(String),
    /// A set to ignore is not in the dataset.
    IgnoreMissing(String),
}

/// Whether maps keyed by set names behave as contracts say.
pub open spec fn obeys_name_model() -> bool {
    obeys_order_model::<String>() && obeys_key_model::<String>()
}

/// Whether some group before the group `upto` names the place `target`.
pub open spec fn place_is_named(groups: Seq<ExtractGroup>, upto: int, target: usize) -> bool {
    exists|g: int| 0 <= g < upto && (#[trigger] groups[g]).numbers@.contains_key(target)
}

/// Whether the group `g` is the last one before the group `upto` that names
/// the place `target`.
pub open spec fn last_to_name(groups: Seq<ExtractGroup>, upto: int, target: usize, g: int) -> bool {
    &&& 0 <= g < upto
    &&& groups[g].numbers@.contains_key(target)
    &&& forall|later: int| g < later < upto ==> !(#[trigger] groups[later]).numbers@.contains_key(
        target,
    )
}

/// Whether one of the first `upto` entries names the place `target`.
pub open spec fn entry_names(entries: Seq<(&usize, &usize)>, upto: int, target: usize) -> bool {
    exists|i: int| 0 <= i < upto && *(#[trigger] entries[i]).0 == target
}

/// Whether every group names a set of the dataset, places inside the new
/// set, and cards inside the set it names.
pub open spec fn groups_in_range<T>(
    current_sets: Map<String, Vec<T>>,
    count: usize,
    groups: Seq<ExtractGroup>,
) -> bool {
    forall|g: int|
        0 <= g < groups.len() ==> {
            &&& current_sets.contains_key((#[trigger] groups[g]).from)
            &&& forall|target: usize| #[trigger]
                groups[g].numbers@.contains_key(target) ==> target < count
                    && groups[g].numbers@[target] < current_sets[groups[g].from]@.len()
        }
}

/// Whether `card` is a clone of the card that the last group to name the
/// place `target` takes from its set.
pub open spec fn place_holds<T: Clone>(
    current_sets: Map<String, Vec<T>>,
    groups: Seq<ExtractGroup>,
    target: usize,
    card: T,
) -> bool {
    exists|g: int|
        #![trigger groups[g]]
        last_to_name(groups, groups.len() as int, target, g) && cloned(
            current_sets[groups[g].from]@[groups[g].numbers@[target] as int],
            card,
        )
}

/// Whether `cards` are the cards of the set that `operation` describes:
/// every place holds a clone of the card that the last group to name the
/// place takes from its set.
pub open spec fn extracted_from<T: Clone>(
    current_sets: Map<String, Vec<T>>,
    operation: ExtractOp,
    cards: Seq<T>,
) -> bool {
    &&& cards.len() == operation.count
    &&& forall|target: usize|
        target < operation.count ==> #[trigger] place_holds(
            current_sets,
            operation.cards@,
            target,
            cards[target as int],
        )
}

/// Whether `error` says truly why the cards of the set that `operation`
/// describes cannot be taken from the sets of the dataset.
pub open spec fn extract_fails_with<T>(
    current_sets: Map<String, Vec<T>>,
    operation: ExtractOp,
    error: MappingError,
) -> bool {
    match error {
        MappingError::ExtractSourceMissing(name) => exists|g: int|
            0 <= g < operation.cards@.len() && (#[trigger] operation.cards@[g]).from == name
                && !current_sets.contains_key(name),
        MappingError::TargetOutOfRange(target) => target >= operation.count && place_is_named(
            operation.cards@,
            operation.cards@.len() as int,
            target,
        ),
        MappingError::SourceOutOfRange(source) => exists|g: int, target: usize|
            0 <= g < operation.cards@.len() && (#[trigger] operation.cards@[g]).numbers@.contains_key(target)
                && #[trigger] operation.cards@[g].numbers@[target] == source
                && current_sets.contains_key(operation.cards@[g].from) && source
                >= current_sets[operation.cards@[g].from]@.len(),
        MappingError::CardNotFilled(target) => target < operation.count && !place_is_named(
            operation.cards@,
            operation.cards@.len() as int,
            target,
        ) && forall|before: usize|
            before < target ==> place_is_named(
                operation.cards@,
                operation.cards@.len() as int,
                before,
            ),
        _ => false,
    }
}

/// Takes the cards of a new set from the sets of the dataset.
///
/// The groups are gone through in order, so the last group to name a place
/// decides which card it holds.
pub fn extract_cards<T: Clone>(current_sets: &BTreeMap<String, Vec<T>>, operation: &ExtractOp) -> (res:
    Result<Vec<T>, MappingError>)
    ensures
        obeys_name_model() ==> {
            &&& res is Ok <==> groups_in_range(current_sets@, operation.count, operation.cards@)
                && forall|target: usize|
                    target < operation.count ==> place_is_named(
                        operation.cards@,
                        operation.cards@.len() as int,
                        target,
                    )
            &&& res matches Ok(cards) ==> extracted_from(current_sets@, *operation, cards@)
            &&& res matches Err(error) ==> extract_fails_with(current_sets@, *operation, error)
        },
{
    let count = operation.count;
    let groups = &operation.cards;
    let mut slots: Vec<Option<T>> = Vec::new();
    let mut made: usize = 0;
    while made < count
        invariant
            made <= count,
            slots@.len() == made,
            forall|t: int| 0 <= t < made ==> slots@[t] is None,
        decreases count - made,
    {
        slots.push(None);
        made = made + 1;
    }
    let ghost model = obeys_name_model();
    let mut done: usize = 0;
    while done < groups.len()
        invariant
            done <= groups@.len(),
            count == operation.count,
            groups@ == operation.cards@,
            slots@.len() == count,
            model == obeys_name_model(),
            model ==> groups_in_range(current_sets@, count, groups@.subrange(0, done as int)),
            model ==> forall|target: usize|
                target < count ==> (slots@[target as int] is Some <==> place_is_named(
                    groups@,
                    done as int,
                    target,
                )),
            model ==> forall|target: usize|
                target < count && slots@[target as int] is Some ==> exists|g: int|
                    last_to_name(groups@, done as int, target, g) && cloned(
                        current_sets@[groups@[g].from]@[groups@[g].numbers@[target] as int],
                        #[trigger] slots@[target as int]->0,
                    ),
        decreases groups@.len() - done,
    {
        let group = &groups[done];
        let origin_set = match current_sets.get(&group.from) {
            Some(origin_set) => origin_set,
            None => {
                return Err(MappingError::ExtractSourceMissing(group.from.clone()));
            },
        };
        let entries = collect_bounded(group.numbers.iter(), group.numbers.len());
        let ghost before = slots@;
        let mut at: usize = 0;
        while at < entries.len()
            invariant
                at <= entries@.len(),
                done < groups@.len(),
                *group == groups@[done as int],
                count == operation.count,
                groups@ == operation.cards@,
                slots@.len() == count,
                before.len() == count,
                model == obeys_name_model(),
                model ==> current_sets@.contains_key(group.from) && current_sets@[group.from]
                    == *origin_set,
                entries@.len() == group.numbers@.dom().len(),
                entries@.no_duplicates(),
                forall|i: int|
                    0 <= i < entries@.len() ==> group.numbers@.contains_key(
                        *(#[trigger] entries@[i]).0,
                    ) && group.numbers@[*entries@[i].0] == *entries@[i].1,
                forall|target: usize|
                    group.numbers@.contains_key(target) ==> exists|i: int|
                        0 <= i < entries@.len() && *(#[trigger] entries@[i]).0 == target,
                model ==> forall|i: int|
                    0 <= i < at ==> *(#[trigger] entries@[i]).0 < count && *entries@[i].1
                        < origin_set@.len(),
                model ==> forall|target: usize|
                    target < count ==> if #[trigger] entry_names(entries@, at as int, target) {
                        slots@[target as int] is Some && cloned(
                            origin_set@[group.numbers@[target] as int],
                            slots@[target as int]->0,
                        )
                    } else {
                        slots@[target as int] == before[target as int]
                    },
            decreases entries@.len() - at,
        {
            let target: usize = *entries[at].0;
            let source: usize = *entries[at].1;
            if target >= count {
                proof {
                    assert(groups@[done as int].numbers@.contains_key(target));
                }
                return Err(MappingError::TargetOutOfRange(target));
            }
            if source >= origin_set.len() {
                proof {
                    assert(groups@[done as int].numbers@.contains_key(target));
                }
                return Err(MappingError::SourceOutOfRange(source));
            }
            let card = origin_set[source].clone();
            let ghost slots_before = slots@;
            slots[target] = Some(card);
            proof {
                if model {
                    assert forall|other: usize| other < count implies if #[trigger] entry_names(
                        entries@,
                        at + 1,
                        other,
                    ) {
                        slots@[other as int] is Some && cloned(
                            origin_set@[group.numbers@[other] as int],
                            slots@[other as int]->0,
                        )
                    } else {
                        slots@[other as int] == before[other as int]
                    } by {
                        let named_now = entry_names(entries@, at + 1, other);
                        let named_before = entry_names(entries@, at as int, other);
                        if other == target {
                            assert(*entries@[at as int].0 == other);
                        } else {
                            if named_now {
                                let i = choose|i: int|
                                    0 <= i < at + 1 && *(#[trigger] entries@[i]).0 == other;
                                assert(i < at);
                                assert(named_before);
                            }
                            assert(slots@[other as int] == slots_before[other as int]);
                        }
                    }
                }
            }
            at = at + 1;
        }
        proof {
            if model {
                let next = (done + 1) as int;
                assert forall|g: int| 0 <= g < next implies {
                    &&& current_sets@.contains_key(
                        (#[trigger] groups@.subrange(0, next)[g]).from,
                    )
                    &&& forall|target: usize| #[trigger]
                        groups@.subrange(0, next)[g].numbers@.contains_key(target) ==> target
                            < count && groups@.subrange(0, next)[g].numbers@[target]
                            < current_sets@[groups@.subrange(0, next)[g].from]@.len()
                } by {
                    if g < done {
                        assert(groups@.subrange(0, done as int)[g] == groups@[g]);
                    } else {
                        assert forall|target: usize| #[trigger]
                            group.numbers@.contains_key(target) implies target < count
                            && group.numbers@[target] < origin_set@.len() by {
                            let i = choose|i: int|
                                0 <= i < entries@.len() && *(#[trigger] entries@[i]).0 == target;
                        }
                    }
                }
                assert forall|target: usize| target < count implies (slots@[target as int]
                    is Some <==> place_is_named(groups@, next, target)) by {
                    let named = entry_names(entries@, entries@.len() as int, target);
                    if group.numbers@.contains_key(target) {
                        assert(named);
                        assert(groups@[done as int].numbers@.contains_key(target));
                    } else {
                        if named {
                            let i = choose|i: int|
                                0 <= i < entries@.len() && *(#[trigger] entries@[i]).0 == target;
                            assert(group.numbers@.contains_key(*entries@[i].0));
                        }
                        assert(!named);
                        if place_is_named(groups@, next, target) {
                            let g = choose|g: int|
                                0 <= g < next && (#[trigger] groups@[g]).numbers@.contains_key(
                                    target,
                                );
                            assert(g < done);
                        }
                        if place_is_named(groups@, done as int, target) {
                            let g = choose|g: int|
                                0 <= g < done && (#[trigger] groups@[g]).numbers@.contains_key(
                                    target,
                                );
                            assert(groups@[g].numbers@.contains_key(target));
                        }
                    }
                }
                assert forall|target: usize|
                    target < count && slots@[target as int] is Some implies exists|g: int|
                    last_to_name(groups@, next, target, g) && cloned(
                        current_sets@[groups@[g].from]@[groups@[g].numbers@[target] as int],
                        #[trigger] slots@[target as int]->0,
                    ) by {
                    let named = entry_names(entries@, entries@.len() as int, target);
                    if group.numbers@.contains_key(target) {
                        assert(named);
                        assert(last_to_name(groups@, next, target, done as int));
                    } else {
                        if named {
                            let i = choose|i: int|
                                0 <= i < entries@.len() && *(#[trigger] entries@[i]).0 == target;
                            assert(group.numbers@.contains_key(*entries@[i].0));
                        }
                        assert(slots@[target as int] == before[target as int]);
                        let g = choose|g: int|
                            last_to_name(groups@, done as int, target, g) && cloned(
                                current_sets@[groups@[g].from]@[groups@[g].numbers@[target] as int],
                                before[target as int]->0,
                            );
                        assert(last_to_name(groups@, next, target, g));
                    }
                }
            }
        }
        done = done + 1;
    }
    assert(groups@.subrange(0, done as int) =~= groups@);
    let mut cards: Vec<T> = Vec::with_capacity(count);
    let ghost all = slots@;
    for slot in it: slots
        invariant
            it.seq() == all,
            all.len() == count,
            cards@.len() == it.index(),
            count == operation.count,
            groups@ == operation.cards@,
            model == obeys_name_model(),
            forall|target: int| 0 <= target < it.index() ==> (#[trigger] all[target]) == Some(
                cards@[target],
            ),
            model ==> forall|target: usize|
                target < count ==> ((#[trigger] all[target as int]) is Some <==> place_is_named(
                    groups@,
                    groups@.len() as int,
                    target,
                )),
            model ==> forall|target: usize|
                target < count && all[target as int] is Some ==> exists|g: int|
                    last_to_name(groups@, groups@.len() as int, target, g) && cloned(
                        current_sets@[groups@[g].from]@[groups@[g].numbers@[target] as int],
                        #[trigger] all[target as int]->0,
                    ),
    {
        let ghost place = cards@.len();
        match slot {
            Some(card) => {
                cards.push(card);
            },
            None => {
                proof {
                    if model {
                        assert(all[place as int] is None);
                        assert forall|before: usize| before < place implies place_is_named(
                            groups@,
                            groups@.len() as int,
                            before,
                        ) by {
                            assert(all[before as int] is Some);
                        }
                    }
                }
                return Err(MappingError::CardNotFilled(cards.len()));
            },
        }
    }
    proof {
        if model {
            assert forall|target: usize| target < count implies place_is_named(
                groups@,
                groups@.len() as int,
                target,
            ) by {
                assert(all[target as int] is Some);
            }
            assert forall|target: usize| target < operation.count implies #[trigger] place_holds(
                current_sets@,
                operation.cards@,
                target,
                cards@[target as int],
            ) by {
                assert(all[target as int] == Some(cards@[target as int]));
                assert(all[target as int] is Some);
                let g = choose|g: int|
                    last_to_name(groups@, groups@.len() as int, target, g) && cloned(
                        current_sets@[groups@[g].from]@[groups@[g].numbers@[target] as int],
                        all[target as int]->0,
                    );
                assert(last_to_name(operation.cards@, operation.cards@.len() as int, target, g)
                    && cloned(
                    current_sets@[operation.cards@[g].from]@[operation.cards@[g].numbers@[target] as int],
                    cards@[target as int],
                ));
                assert(place_holds(current_sets@, operation.cards@, target, cards@[target as int]));
            }
        }
    }
    Ok(cards)
}

/// Renames the set `source` to `target`. A set that held the name `target`
/// is replaced.
pub fn rename_set<T>(current_sets: &mut BTreeMap<String, Vec<T>>, source: &String, target: &String) -> (res:
    Result<(), MappingError>)
    ensures
        obeys_name_model() ==> match res {
            Ok(()) => old(current_sets)@.contains_key(*source) && final(current_sets)@ == old(
                current_sets,
            )@.remove(*source).insert(*target, old(current_sets)@[*source]),
            Err(error) => !old(current_sets)@.contains_key(*source) && final(current_sets)@ == old(
                current_sets,
            )@ && error == MappingError::MapSourceMissing(*source, *target),
        },
{
    match current_sets.remove(source) {
        Some(moving) => {
            current_sets.insert(target.clone(), moving);
            Ok(())
        },
        None => {
            proof {
                if obeys_name_model() {
                    assert(final(current_sets)@ =~= old(current_sets)@);
                }
            }
            Err(MappingError::MapSourceMissing(source.clone(), target.clone()))
        },
    }
}

/// Moves the cards of the set `source` to the end of the set `target`, and
/// drops the set `source`.
///
/// Where the set `target` is missing the set `source` is dropped all the
/// same.
pub fn merge_set<T>(current_sets: &mut BTreeMap<String, Vec<T>>, source: &String, target: &String) -> (res:
    Result<(), MappingError>)
    ensures
        obeys_name_model() ==> match res {
            Ok(()) => {
                let rest = old(current_sets)@.remove(*source);
                &&& old(current_sets)@.contains_key(*source)
                &&& rest.contains_key(*target)
                &&& final(current_sets)@.dom() == rest.dom()
                &&& final(current_sets)@[*target]@ == rest[*target]@ + old(
                    current_sets,
                )@[*source]@
                &&& forall|name: String|
                    rest.contains_key(name) && name != *target ==> final(current_sets)@[name]
                        == rest[name]
            },
            Err(MappingError::MergeSourceMissing(name)) => name == *source && !old(
                current_sets,
            )@.contains_key(*source) && final(current_sets)@ == old(current_sets)@,
            Err(MappingError::MergeTargetMissing(name)) => name == *target && old(
                current_sets,
            )@.contains_key(*source) && !old(current_sets)@.remove(*source).contains_key(*target)
                && final(current_sets)@ == old(current_sets)@.remove(*source),
            Err(_) => false,
        },
{
    match current_sets.remove(source) {
        Some(moving) => {
            let ghost rest = current_sets@;
            match current_sets.remove(target) {
                Some(kept) => {
                    let mut kept = kept;
                    let mut moving = moving;
                    kept.append(&mut moving);
                    current_sets.insert(target.clone(), kept);
                    proof {
                        if obeys_name_model() {
                            assert(final(current_sets)@.dom() =~= rest.dom());
                        }
                    }
                    Ok(())
                },
                None => {
                    proof {
                        if obeys_name_model() {
                            assert(final(current_sets)@ =~= rest);
                        }
                    }
                    Err(MappingError::MergeTargetMissing(target.clone()))
                },
            }
        },
        None => {
            proof {
                if obeys_name_model() {
                    assert(final(current_sets)@ =~= old(current_sets)@);
                }
            }
            Err(MappingError::MergeSourceMissing(source.clone()))
        },
    }
}

/// Drops the set `name`.
pub fn ignore_set<T>(current_sets: &mut BTreeMap<String, Vec<T>>, name: &String) -> (res: Result<
    (),
    MappingError,
>)
    ensures
        obeys_name_model() ==> match res {
            Ok(()) => old(current_sets)@.contains_key(*name) && final(current_sets)@ == old(
                current_sets,
            )@.remove(*name),
            Err(error) => !old(current_sets)@.contains_key(*name) && final(current_sets)@ == old(
                current_sets,
            )@ && error == MappingError::IgnoreMissing(*name),
        },
{
    match current_sets.remove(name) {
        Some(_) => Ok(()),
        None => {
            proof {
                if obeys_name_model() {
                    assert(final(current_sets)@ =~= old(current_sets)@);
                }
            }
            Err(MappingError::IgnoreMissing(name.clone()))
        },
    }
}

/// Makes the set `name` from cards of other sets, as `operation` says.
pub fn extract_set<T: Clone>(
    current_sets: &mut BTreeMap<String, Vec<T>>,
    name: &String,
    operation: &ExtractOp,
) -> (res: Result<(), MappingError>)
    ensures
        obeys_name_model() ==> match res {
            Ok(()) => extract_relates(old(current_sets)@, final(current_sets)@, *name, *operation),
            Err(error) => final(current_sets)@ == old(current_sets)@ && extract_set_fails_with(
                old(current_sets)@,
                *name,
                *operation,
                error,
            ),
        },
{
    if current_sets.contains_key(name) {
        return Err(MappingError::SetAlreadyPresent(name.clone()));
    }
    match extract_cards(current_sets, operation) {
        Ok(cards) => {
            current_sets.insert(name.clone(), cards);
            Ok(())
        },
        Err(error) => Err(error),
    }
}

/// Whether `after` is `before` with the new set `name`, made as `operation`
/// says.
pub open spec fn extract_relates<T: Clone>(
    before: Map<String, Vec<T>>,
    after: Map<String, Vec<T>>,
    name: String,
    operation: ExtractOp,
) -> bool {
    &&& !before.contains_key(name)
    &&& after.contains_key(name)
    &&& after == before.insert(name, after[name])
    &&& extracted_from(before, operation, after[name]@)
}

/// Whether `error` says truly why the set `name` cannot be made.
pub open spec fn extract_set_fails_with<T>(
    before: Map<String, Vec<T>>,
    name: String,
    operation: ExtractOp,
    error: MappingError,
) -> bool {
    if before.contains_key(name) {
        error == MappingError::SetAlreadyPresent(name)
    } else {
        extract_fails_with(before, operation, error)
    }
}

/// One operation on a dataset.
pub enum Step {
    /// Make the set of this name from cards of other sets.
    Extract(String),
    /// Rename the set of this name.
    Rename(String),
    /// Merge the set of this name into another.
    Merge(String),
    /// Drop the set of this name.
    Ignore(String),
}

impl MappingOperations {
    /// Whether `steps` holds every operation once, in the order of the four
    /// phases: first what is extracted, then what is renamed, then what is
    /// merged, then what is ignored.
    pub open spec fn schedules(&self, steps: Seq<Step>) -> bool {
        exists|extracted: Seq<String>, renamed: Seq<String>, merged: Seq<String>, ignored: Seq<String>|
            {
                &&& crate::arbitrary::collections::lists_exactly(extracted, self.extract@.dom())
                &&& crate::arbitrary::collections::lists_exactly(renamed, self.map@.dom())
                &&& crate::arbitrary::collections::lists_exactly(merged, self.merge@.dom())
                &&& crate::arbitrary::collections::lists_exactly(ignored, self.ignore@)
                &&& #[trigger] phases(extracted, renamed, merged, ignored) == steps
            }
    }

    /// Whether the operation `step` turns the dataset `before` into the
    /// dataset `after`.
    pub open spec fn step_relates<T: Clone>(
        &self,
        step: Step,
        before: Map<String, Vec<T>>,
        after: Map<String, Vec<T>>,
    ) -> bool {
        match step {
            Step::Extract(name) => extract_relates(before, after, name, self.extract@[name]),
            Step::Rename(source) => before.contains_key(source) && after == before.remove(
                source,
            ).insert(self.map@[source], before[source]),
            Step::Merge(source) => {
                let rest = before.remove(source);
                let target = self.merge@[source];
                &&& before.contains_key(source)
                &&& rest.contains_key(target)
                &&& after.dom() == rest.dom()
                &&& after[target]@ == rest[target]@ + before[source]@
                &&& forall|name: String|
                    rest.contains_key(name) && name != target ==> after[name] == rest[name]
            },
            Step::Ignore(name) => before.contains_key(name) && after == before.remove(name),
        }
    }

    /// Whether `error` says truly why the operation `step` cannot be
    /// carried out on the dataset `before`.
    pub open spec fn step_fails_with<T>(
        &self,
        step: Step,
        before: Map<String, Vec<T>>,
        error: MappingError,
    ) -> bool {
        match step {
            Step::Extract(name) => extract_set_fails_with(
                before,
                name,
                self.extract@[name],
                error,
            ),
            Step::Rename(source) => !before.contains_key(source) && error
                == MappingError::MapSourceMissing(source, self.map@[source]),
            Step::Merge(source) => if before.contains_key(source) {
                !before.remove(source).contains_key(self.merge@[source]) && error
                    == MappingError::MergeTargetMissing(self.merge@[source])
            } else {
                error == MappingError::MergeSourceMissing(source)
            },
            Step::Ignore(name) => !before.contains_key(name) && error
                == MappingError::IgnoreMissing(name),
        }
    }

    /// Whether the first `upto` operations of `steps` lead through the
    /// datasets `states`, one after the other.
    pub open spec fn carried_out<T: Clone>(
        &self,
        steps: Seq<Step>,
        states: Seq<Map<String, Vec<T>>>,
        upto: int,
    ) -> bool {
        &&& 0 <= upto <= steps.len()
        &&& states.len() == upto + 1
        &&& forall|i: int|
            0 <= i < upto ==> self.step_relates(steps[i], #[trigger] states[i], states[i + 1])
    }

    /// A walk that has led through some operations leads through one more
    /// where the next operation relates its last dataset to `after`.
    pub proof fn lemma_carried_one_more<T: Clone>(
        &self,
        steps: Seq<Step>,
        states: Seq<Map<String, Vec<T>>>,
        upto: int,
        after: Map<String, Vec<T>>,
    )
        requires
            self.carried_out(steps, states, upto),
            upto < steps.len(),
            self.step_relates(steps[upto], states[upto], after),
        ensures
            self.carried_out(steps, states.push(after), upto + 1),
            states.push(after)[0] == states[0],
            states.push(after)[upto + 1] == after,
    {
        let longer = states.push(after);
        assert forall|i: int| 0 <= i < upto + 1 implies self.step_relates(
            steps[i],
            #[trigger] longer[i],
            longer[i + 1],
        ) by {
            if i < upto {
                assert(self.step_relates(steps[i], states[i], states[i + 1]));
            }
        }
    }

    /// Whether `res` is an outcome of carrying out the operations on the
    /// dataset `start`: the dataset that all operations lead to, or the
    /// error of the first operation that fails.
    pub open spec fn outcome<T: Clone>(
        &self,
        start: Map<String, Vec<T>>,
        res: Result<BTreeMap<String, Vec<T>>, MappingError>,
    ) -> bool {
        exists|steps: Seq<Step>, states: Seq<Map<String, Vec<T>>>, upto: int|
            {
                &&& self.schedules(steps)
                &&& #[trigger] self.carried_out(steps, states, upto)
                &&& states[0] == start
                &&& match res {
                    Ok(end) => upto == steps.len() && states[upto] == end@,
                    Err(error) => upto < steps.len() && self.step_fails_with(
                        steps[upto],
                        states[upto],
                        error,
                    ),
                }
            }
    }
}

/// The operations of the four phases, one phase after the other.
pub open spec fn phases(
    extracted: Seq<String>,
    renamed: Seq<String>,
    merged: Seq<String>,
    ignored: Seq<String>,
) -> Seq<Step> {
    extracted.map_values(|name: String| Step::Extract(name)) + renamed.map_values(
        |name: String| Step::Rename(name),
    ) + merged.map_values(|name: String| Step::Merge(name)) + ignored.map_values(
        |name: String| Step::Ignore(name),
    )
}

/// Which operation stands at the place `at` of the four phases.
pub proof fn lemma_phase_at(
    extracted: Seq<String>,
    renamed: Seq<String>,
    merged: Seq<String>,
    ignored: Seq<String>,
    at: int,
)
    ensures
        phases(extracted, renamed, merged, ignored).len() == extracted.len() + renamed.len()
            + merged.len() + ignored.len(),
        0 <= at < extracted.len() ==> phases(extracted, renamed, merged, ignored)[at]
            == Step::Extract(extracted[at]),
        extracted.len() <= at < extracted.len() + renamed.len() ==> phases(
            extracted,
            renamed,
            merged,
            ignored,
        )[at] == Step::Rename(renamed[at - extracted.len()]),
        extracted.len() + renamed.len() <= at < extracted.len() + renamed.len() + merged.len()
            ==> phases(extracted, renamed, merged, ignored)[at] == Step::Merge(
            merged[at - extracted.len() - renamed.len()],
        ),
        extracted.len() + renamed.len() + merged.len() <= at < extracted.len() + renamed.len()
            + merged.len() + ignored.len() ==> phases(extracted, renamed, merged, ignored)[at]
            == Step::Ignore(ignored[at - extracted.len() - renamed.len() - merged.len()]),
{
}

impl MappingOperations {
    /// Carries out the operations on a dataset: first the sets to extract
    /// are made, then sets are renamed, then sets are merged, then sets are
    /// dropped. The first operation that cannot be carried out ends the
    /// work with its error.
    ///
    /// Within a phase the operations are carried out in the order in which
    /// their hash map hands them out.
    pub fn map<T: Clone>(&self, current_sets: BTreeMap<String, Vec<T>>) -> (res: Result<
        BTreeMap<String, Vec<T>>,
        MappingError,
    >)
        ensures
            obeys_name_model() ==> self.outcome(current_sets@, res),
    {
        let mut sets = current_sets;
        let extracted = collect_bounded(self.extract.keys(), self.extract.len());
        let renamed = collect_bounded(self.map.keys(), self.map.len());
        let merged = collect_bounded(self.merge.keys(), self.merge.len());
        let ignored = collect_bounded(self.ignore.iter(), self.ignore.len());
        let ghost model = obeys_name_model();
        let ghost start = current_sets@;
        let ghost steps = phases(
            extracted@.unref(),
            renamed@.unref(),
            merged@.unref(),
            ignored@.unref(),
        );
        let ghost mut states: Seq<Map<String, Vec<T>>> = seq![sets@];
        proof {
            lemma_phase_at(extracted@.unref(), renamed@.unref(), merged@.unref(), ignored@.unref(), 0);
            if model {
                lemma_unref_lists(extracted@, self.extract@.dom());
                lemma_unref_lists(renamed@, self.map@.dom());
                lemma_unref_lists(merged@, self.merge@.dom());
                lemma_unref_lists(ignored@, self.ignore@);
                assert(self.schedules(steps));
            }
        }

        let mut at: usize = 0;
        while at < extracted.len()
            invariant
                at <= extracted@.len(),
                model == obeys_name_model(),
                start == current_sets@,
                steps == phases(extracted@.unref(), renamed@.unref(), merged@.unref(), ignored@.unref()),
                model ==> self.schedules(steps),
                model ==> crate::arbitrary::collections::lists_exactly(extracted@.unref(), self.extract@.dom()),
                model ==> crate::arbitrary::collections::lists_exactly(renamed@.unref(), self.map@.dom()),
                model ==> crate::arbitrary::collections::lists_exactly(merged@.unref(), self.merge@.dom()),
                model ==> crate::arbitrary::collections::lists_exactly(ignored@.unref(), self.ignore@),
                model ==> self.carried_out(steps, states, 0 + at),
                model ==> states[0] == start,
                model ==> states[0 + at] == sets@,
            decreases extracted@.len() - at,
        {
            let name: &String = extracted[at];
            let ghost before = sets@;
            proof {
                lemma_phase_at(extracted@.unref(), renamed@.unref(), merged@.unref(), ignored@.unref(), 0 + at);
                if model {
                    assert(extracted@.unref()[at as int] == *name);
                    assert(extracted@.unref().contains(*name));
                }
            }
            let outcome = match self.extract.get(name) {
                Some(operation) => extract_set(&mut sets, name, operation),
                None => Ok(()),
            };
            proof {
                if model {
                    assert(self.extract@.contains_key(*name));
                }
            }
            match outcome {
                Ok(()) => {
                    proof {
                        if model {
                            self.lemma_carried_one_more(steps, states, 0 + at, sets@);
                        }
                        states = states.push(sets@);
                    }
                },
                Err(error) => {
                    proof {
                        if model {
                            assert(self.carried_out(steps, states, 0 + at));
                            assert(self.step_fails_with(steps[0 + at], states[0 + at], error));
                        }
                    }
                    return Err(error);
                },
            }
            at = at + 1;
        }

        let mut at: usize = 0;
        while at < renamed.len()
            invariant
                at <= renamed@.len(),
                model == obeys_name_model(),
                start == current_sets@,
                steps == phases(extracted@.unref(), renamed@.unref(), merged@.unref(), ignored@.unref()),
                model ==> self.schedules(steps),
                model ==> crate::arbitrary::collections::lists_exactly(extracted@.unref(), self.extract@.dom()),
                model ==> crate::arbitrary::collections::lists_exactly(renamed@.unref(), self.map@.dom()),
                model ==> crate::arbitrary::collections::lists_exactly(merged@.unref(), self.merge@.dom()),
                model ==> crate::arbitrary::collections::lists_exactly(ignored@.unref(), self.ignore@),
                model ==> self.carried_out(steps, states, extracted@.len() + at),
                model ==> states[0] == start,
                model ==> states[extracted@.len() + at] == sets@,
            decreases renamed@.len() - at,
        {
            let name: &String = renamed[at];
            let ghost before = sets@;
            proof {
                lemma_phase_at(extracted@.unref(), renamed@.unref(), merged@.unref(), ignored@.unref(), extracted@.len() + at);
                if model {
                    assert(renamed@.unref()[at as int] == *name);
                    assert(renamed@.unref().contains(*name));
                }
            }
            let outcome = match self.map.get(name) {
                Some(target) => rename_set(&mut sets, name, target),
                None => Ok(()),
            };
            proof {
                if model {
                    assert(self.map@.contains_key(*name));
                }
            }
            match outcome {
                Ok(()) => {
                    proof {
                        if model {
                            self.lemma_carried_one_more(steps, states, extracted@.len() + at, sets@);
                        }
                        states = states.push(sets@);
                    }
                },
                Err(error) => {
                    proof {
                        if model {
                            assert(self.carried_out(steps, states, extracted@.len() + at));
                            assert(self.step_fails_with(steps[extracted@.len() + at], states[extracted@.len() + at], error));
                        }
                    }
                    return Err(error);
                },
            }
            at = at + 1;
        }

        let mut at: usize = 0;
        while at < merged.len()
            invariant
                at <= merged@.len(),
                model == obeys_name_model(),
                start == current_sets@,
                steps == phases(extracted@.unref(), renamed@.unref(), merged@.unref(), ignored@.unref()),
                model ==> self.schedules(steps),
                model ==> crate::arbitrary::collections::lists_exactly(extracted@.unref(), self.extract@.dom()),
                model ==> crate::arbitrary::collections::lists_exactly(renamed@.unref(), self.map@.dom()),
                model ==> crate::arbitrary::collections::lists_exactly(merged@.unref(), self.merge@.dom()),
                model ==> crate::arbitrary::collections::lists_exactly(ignored@.unref(), self.ignore@),
                model ==> self.carried_out(steps, states, extracted@.len() + renamed@.len() + at),
                model ==> states[0] == start,
                model ==> states[extracted@.len() + renamed@.len() + at] == sets@,
            decreases merged@.len() - at,
        {
            let name: &String = merged[at];
            let ghost before = sets@;
            proof {
                lemma_phase_at(extracted@.unref(), renamed@.unref(), merged@.unref(), ignored@.unref(), extracted@.len() + renamed@.len() + at);
                if model {
                    assert(merged@.unref()[at as int] == *name);
                    assert(merged@.unref().contains(*name));
                }
            }
            let outcome = match self.merge.get(name) {
                Some(target) => merge_set(&mut sets, name, target),
                None => Ok(()),
            };
            proof {
                if model {
                    assert(self.merge@.contains_key(*name));
                }
            }
            match outcome {
                Ok(()) => {
                    proof {
                        if model {
                            self.lemma_carried_one_more(steps, states, extracted@.len() + renamed@.len() + at, sets@);
                        }
                        states = states.push(sets@);
                    }
                },
                Err(error) => {
                    proof {
                        if model {
                            assert(self.carried_out(steps, states, extracted@.len() + renamed@.len() + at));
                            assert(self.step_fails_with(steps[extracted@.len() + renamed@.len() + at], states[extracted@.len() + renamed@.len() + at], error));
                        }
                    }
                    return Err(error);
                },
            }
            at = at + 1;
        }

        let mut at: usize = 0;
        while at < ignored.len()
            invariant
                at <= ignored@.len(),
                model == obeys_name_model(),
                start == current_sets@,
                steps == phases(extracted@.unref(), renamed@.unref(), merged@.unref(), ignored@.unref()),
                model ==> self.schedules(steps),
                model ==> crate::arbitrary::collections::lists_exactly(extracted@.unref(), self.extract@.dom()),
                model ==> crate::arbitrary::collections::lists_exactly(renamed@.unref(), self.map@.dom()),
                model ==> crate::arbitrary::collections::lists_exactly(merged@.unref(), self.merge@.dom()),
                model ==> crate::arbitrary::collections::lists_exactly(ignored@.unref(), self.ignore@),
                model ==> self.carried_out(steps, states, extracted@.len() + renamed@.len() + merged@.len() + at),
                model ==> states[0] == start,
                model ==> states[extracted@.len() + renamed@.len() + merged@.len() + at] == sets@,
            decreases ignored@.len() - at,
        {
            let name: &String = ignored[at];
            let ghost before = sets@;
            proof {
                lemma_phase_at(extracted@.unref(), renamed@.unref(), merged@.unref(), ignored@.unref(), extracted@.len() + renamed@.len() + merged@.len() + at);
                if model {
                    assert(ignored@.unref()[at as int] == *name);
                    assert(ignored@.unref().contains(*name));
                }
            }
            let outcome = ignore_set(&mut sets, name);
            match outcome {
                Ok(()) => {
                    proof {
                        if model {
                            self.lemma_carried_one_more(steps, states, extracted@.len() + renamed@.len() + merged@.len() + at, sets@);
                        }
                        states = states.push(sets@);
                    }
                },
                Err(error) => {
                    proof {
                        if model {
                            assert(self.carried_out(steps, states, extracted@.len() + renamed@.len() + merged@.len() + at));
                            assert(self.step_fails_with(steps[extracted@.len() + renamed@.len() + merged@.len() + at], states[extracted@.len() + renamed@.len() + merged@.len() + at], error));
                        }
                    }
                    return Err(error);
                },
            }
            at = at + 1;
        }

        proof {
            lemma_phase_at(extracted@.unref(), renamed@.unref(), merged@.unref(), ignored@.unref(), 0);
            if model {
                assert(self.carried_out(steps, states, steps.len() as int));
            }
        }
        Ok(sets)
    }
}

/// A walk of references that has no duplicates and covers `set` lists `set`.
pub proof fn lemma_unref_lists(walk: Seq<&String>, set: Set<String>)
    requires
        walk.no_duplicates(),
        walk.unref().to_set() == set,
    ensures
        crate::arbitrary::collections::lists_exactly(walk.unref(), set),
{
    let names = walk.unref();
    assert forall|i: int, j: int| 0 <= i < j < names.len() implies names[i] != names[j] by {
        assert(walk[i] != walk[j]);
    }
    assert forall|name: String| names.contains(name) <==> set.contains(name) by {
        assert(names.to_set().contains(name) <==> names.contains(name));
    }
}

} // verus!
