use changeset::mapping::{
    extract_cards, extract_set, ignore_set, merge_set, rename_set, ExtractGroup, ExtractOp,
    MappingError, MappingOperations,
};
use std::collections::{BTreeMap, HashMap, HashSet};

fn dataset() -> BTreeMap<String, Vec<u32>> {
    BTreeMap::from([
        ("base".to_string(), vec![10, 11, 12]),
        ("jungle".to_string(), vec![20, 21]),
        ("fossil".to_string(), vec![30]),
    ])
}

fn no_operations() -> MappingOperations {
    MappingOperations {
        ignore: HashSet::new(),
        merge: HashMap::new(),
        map: HashMap::new(),
        extract: HashMap::new(),
    }
}

fn group(from: &str, numbers: &[(usize, usize)]) -> ExtractGroup {
    ExtractGroup {
        from: from.to_string(),
        numbers: numbers.iter().copied().collect(),
    }
}

#[test]
fn rename_moves_a_set_to_its_new_name() {
    let mut sets = dataset();
    assert_eq!(
        rename_set(&mut sets, &"jungle".to_string(), &"Jungle".to_string()),
        Ok(())
    );
    assert_eq!(sets.get("Jungle"), Some(&vec![20, 21]));
    assert!(!sets.contains_key("jungle"));
    assert_eq!(sets.len(), 3);
    assert_eq!(
        rename_set(&mut sets, &"jungle".to_string(), &"x".to_string()),
        Err(MappingError::MapSourceMissing("jungle".to_string(), "x".to_string()))
    );
    assert_eq!(sets.len(), 3);
}

#[test]
fn merge_appends_the_cards_and_drops_the_source() {
    let mut sets = dataset();
    assert_eq!(
        merge_set(&mut sets, &"fossil".to_string(), &"base".to_string()),
        Ok(())
    );
    assert_eq!(sets.get("base"), Some(&vec![10, 11, 12, 30]));
    assert!(!sets.contains_key("fossil"));
    assert_eq!(
        merge_set(&mut sets, &"fossil".to_string(), &"base".to_string()),
        Err(MappingError::MergeSourceMissing("fossil".to_string()))
    );
    assert_eq!(
        merge_set(&mut sets, &"jungle".to_string(), &"rocket".to_string()),
        Err(MappingError::MergeTargetMissing("rocket".to_string()))
    );
    assert!(!sets.contains_key("jungle"));
}

#[test]
fn ignore_drops_a_set() {
    let mut sets = dataset();
    assert_eq!(ignore_set(&mut sets, &"base".to_string()), Ok(()));
    assert!(!sets.contains_key("base"));
    assert_eq!(
        ignore_set(&mut sets, &"base".to_string()),
        Err(MappingError::IgnoreMissing("base".to_string()))
    );
}

#[test]
fn extract_takes_cards_from_other_sets() {
    let sets = dataset();
    let operation = ExtractOp {
        count: 3,
        cards: vec![
            group("base", &[(0, 2), (1, 0)]),
            group("jungle", &[(2, 1), (1, 0)]),
        ],
    };
    assert_eq!(extract_cards(&sets, &operation), Ok(vec![12, 20, 21]));

    let mut sets = dataset();
    assert_eq!(extract_set(&mut sets, &"promo".to_string(), &operation), Ok(()));
    assert_eq!(sets.get("promo"), Some(&vec![12, 20, 21]));
    assert_eq!(sets.len(), 4);
    assert_eq!(
        extract_set(&mut sets, &"promo".to_string(), &operation),
        Err(MappingError::SetAlreadyPresent("promo".to_string()))
    );
}

#[test]
fn extract_reports_what_is_wrong() {
    let sets = dataset();
    let missing = ExtractOp { count: 1, cards: vec![group("rocket", &[(0, 0)])] };
    assert_eq!(
        extract_cards(&sets, &missing),
        Err(MappingError::ExtractSourceMissing("rocket".to_string()))
    );
    let unfilled = ExtractOp { count: 3, cards: vec![group("base", &[(0, 0), (2, 1)])] };
    assert_eq!(extract_cards(&sets, &unfilled), Err(MappingError::CardNotFilled(1)));
    let target = ExtractOp { count: 1, cards: vec![group("base", &[(4, 0)])] };
    assert_eq!(extract_cards(&sets, &target), Err(MappingError::TargetOutOfRange(4)));
    let source = ExtractOp { count: 1, cards: vec![group("fossil", &[(0, 7)])] };
    assert_eq!(extract_cards(&sets, &source), Err(MappingError::SourceOutOfRange(7)));
    let empty = ExtractOp { count: 0, cards: vec![] };
    assert_eq!(extract_cards(&sets, &empty), Ok(vec![]));
}

#[test]
fn operations_run_in_four_phases() {
    let mut operations = no_operations();
    operations.extract.insert(
        "promo".to_string(),
        ExtractOp { count: 2, cards: vec![group("base", &[(0, 1), (1, 2)])] },
    );
    // the extracted set is renamed, then another set is merged into it, then
    // the set that the cards came from is dropped
    operations.map.insert("promo".to_string(), "Promos".to_string());
    operations.merge.insert("fossil".to_string(), "Promos".to_string());
    operations.ignore.insert("base".to_string());

    let result = operations.map(dataset()).unwrap();
    assert_eq!(
        result,
        BTreeMap::from([
            ("Promos".to_string(), vec![11, 12, 30]),
            ("jungle".to_string(), vec![20, 21]),
        ])
    );
    assert_eq!(no_operations().map(dataset()), Ok(dataset()));
}

#[test]
fn the_first_failing_operation_ends_the_work() {
    let mut operations = no_operations();
    operations.map.insert("rocket".to_string(), "Rocket".to_string());
    operations.ignore.insert("gym".to_string());
    assert_eq!(
        operations.map(dataset()),
        Err(MappingError::MapSourceMissing("rocket".to_string(), "Rocket".to_string()))
    );

    let mut operations = no_operations();
    operations.ignore.insert("gym".to_string());
    assert_eq!(
        operations.map(dataset()),
        Err(MappingError::IgnoreMissing("gym".to_string()))
    );

    let mut operations = no_operations();
    operations.merge.insert("base".to_string(), "gym".to_string());
    assert_eq!(
        operations.map(dataset()),
        Err(MappingError::MergeTargetMissing("gym".to_string()))
    );

    let mut operations = no_operations();
    operations
        .extract
        .insert("base".to_string(), ExtractOp { count: 0, cards: vec![] });
    assert_eq!(
        operations.map(dataset()),
        Err(MappingError::SetAlreadyPresent("base".to_string()))
    );
}
