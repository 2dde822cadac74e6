use changeset::report::{group_by_name, merge_names, version_key, version_to_keep};

fn names(list: &[&str]) -> Vec<String> {
    list.iter().map(|name| name.to_string()).collect()
}

#[test]
fn names_are_merged_in_ascending_order() {
    let left = names(&["Abra", "Mew", "Onix"]);
    let right = names(&["Mew", "Natu", "Zubat"]);
    let merged = merge_names(&left.iter().collect(), &right.iter().collect());
    assert_eq!(merged, vec!["Abra", "Mew", "Natu", "Onix", "Zubat"]);
    let none: Vec<String> = vec![];
    assert_eq!(merge_names(&left.iter().collect(), &none.iter().collect()), vec!["Abra", "Mew", "Onix"]);
    assert_eq!(merge_names(&none.iter().collect(), &right.iter().collect()), vec!["Mew", "Natu", "Zubat"]);
    assert!(merge_names(&none.iter().collect(), &none.iter().collect()).is_empty());
}

#[test]
fn items_are_grouped_by_their_names() {
    let items = vec![
        ("Mew".to_string(), 1),
        ("Abra".to_string(), 2),
        ("Mew".to_string(), 3),
        ("Onix".to_string(), 4),
        ("Abra".to_string(), 5),
    ];
    assert_eq!(
        group_by_name(items),
        vec![
            ("Mew".to_string(), vec![1, 3]),
            ("Abra".to_string(), vec![2, 5]),
            ("Onix".to_string(), vec![4]),
        ]
    );
    assert_eq!(group_by_name(Vec::<(String, u8)>::new()), vec![]);
}

#[test]
fn versions_are_told_apart_by_their_cards() {
    let pair = |number: &str, name: &str| (number.to_string(), name.to_string());
    let first = vec![pair("2", "Mew"), pair("1", "Abra"), pair("10", "Onix")];
    let same = vec![pair("10", "Onix"), pair("2", "Mew"), pair("1", "Abra")];
    let other = vec![pair("1", "Abra"), pair("2", "Natu")];
    assert_eq!(version_key(&first), "Abra, Onix, Mew");
    assert_eq!(version_key(&same), version_key(&first));
    assert_eq!(version_key(&other), "Abra, Natu");
    assert_eq!(version_key(&vec![]), "");
    assert_eq!(version_key(&vec![pair("1", "b"), pair("1", "a")]), "a, b");

    let keys = vec![version_key(&first), version_key(&same)];
    assert_eq!(version_to_keep(&keys), Some(0));
    let keys = vec![version_key(&first), version_key(&other), version_key(&same)];
    assert_eq!(version_to_keep(&keys), None);
    assert_eq!(version_to_keep(&vec![]), None);
    assert_eq!(version_to_keep(&vec!["one".to_string()]), Some(0));
}
