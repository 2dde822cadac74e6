use changeset::diff::path_text;
use changeset::diff::{diff, ValueIndex};
use changeset::json::{Json, JsonNumber};

fn number(value: u64) -> Json {
    Json::Number(JsonNumber::PosInt(value))
}

fn text(value: &str) -> Json {
    Json::String(value.to_string())
}

fn object(members: Vec<(&str, Json)>) -> Json {
    Json::Object(
        members
            .into_iter()
            .map(|(key, value)| (key.to_string(), value))
            .collect(),
    )
}

#[test]
fn equal_values_have_no_difference() {
    let value = object(vec![
        ("a", Json::Array(vec![number(1), Json::Null, Json::Bool(true)])),
        ("b", text("x")),
    ]);
    let same = object(vec![
        ("a", Json::Array(vec![number(1), Json::Null, Json::Bool(true)])),
        ("b", text("x")),
    ]);
    assert!(value.same_as(&same));
    assert!(diff(&value, &same).is_empty());
    assert!(diff(&Json::Null, &Json::Null).is_empty());
}

#[test]
fn unequal_leaves_differ_at_the_root() {
    let left = number(1);
    let right = text("1");
    let found = diff(&left, &right);
    assert_eq!(found.len(), 1);
    assert!(found[0].path.is_empty());
    assert_eq!(found[0].left, &left);
    assert_eq!(found[0].right, &right);

    let array = Json::Array(vec![]);
    let empty_object = object(vec![]);
    let found = diff(&array, &empty_object);
    assert_eq!(found.len(), 1);
    assert_eq!(found[0].left, &array);
    assert_eq!(found[0].right, &empty_object);
}

#[test]
fn arrays_are_compared_as_far_as_the_shorter_reaches() {
    let left = Json::Array(vec![number(1), number(2), number(3)]);
    let right = Json::Array(vec![number(1), number(9)]);
    let found = diff(&left, &right);
    assert_eq!(found.len(), 1);
    assert_eq!(found[0].path, vec![ValueIndex::Number(1)]);
    assert_eq!(found[0].left, &number(2));
    assert_eq!(found[0].right, &number(9));
    assert!(!left.same_as(&right));
}

#[test]
fn objects_are_compared_in_key_order() {
    let left = object(vec![
        ("a", number(1)),
        ("b", number(2)),
        ("d", Json::Array(vec![text("x"), text("y")])),
    ]);
    let right = object(vec![
        ("b", number(3)),
        ("c", Json::Bool(false)),
        ("d", Json::Array(vec![text("x"), text("z")])),
    ]);
    let found = diff(&left, &right);
    let paths: Vec<Vec<ValueIndex>> = found.iter().map(|d| d.path.clone()).collect();
    assert_eq!(
        paths,
        vec![
            vec![ValueIndex::Key("a".to_string())],
            vec![ValueIndex::Key("b".to_string())],
            vec![ValueIndex::Key("c".to_string())],
            vec![ValueIndex::Key("d".to_string()), ValueIndex::Number(1)],
        ]
    );
    assert_eq!(found[0].left, &number(1));
    assert_eq!(found[0].right, &Json::Null);
    assert_eq!(found[1].left, &number(2));
    assert_eq!(found[1].right, &number(3));
    assert_eq!(found[2].left, &Json::Null);
    assert_eq!(found[2].right, &Json::Bool(false));
    assert_eq!(found[3].left, &text("y"));
    assert_eq!(found[3].right, &text("z"));
}

#[test]
fn numbers_are_equal_by_kind_and_value() {
    assert!(number(0).same_as(&number(0)));
    assert!(!number(0).same_as(&Json::Number(JsonNumber::NegInt(0))));
    assert!(!Json::Number(JsonNumber::Float(0)).same_as(&number(0)));
    assert!(Json::Number(JsonNumber::NegInt(-4)).same_as(&Json::Number(JsonNumber::NegInt(-4))));
    assert!(!text("a").same_as(&text("b")));
    assert!(!Json::Bool(true).same_as(&Json::Bool(false)));
}

#[test]
fn paths_are_written_out_from_the_root() {
    assert_eq!(path_text(&vec![]), "root");
    assert_eq!(
        path_text(&vec![
            ValueIndex::Number(3),
            ValueIndex::Key("name".to_string()),
            ValueIndex::Number(0)
        ]),
        "root[3].name[0]"
    );
}

#[test]
fn arrays_are_put_in_order() {
    let value = Json::Array(vec![number(3), number(1), Json::Number(JsonNumber::NegInt(-5)), number(2)]);
    assert!(value.is_sortable());
    assert_eq!(
        value.sort_value(),
        Json::Array(vec![Json::Number(JsonNumber::NegInt(-5)), number(1), number(2), number(3)])
    );
    let texts = Json::Array(vec![text("b"), text("ab"), text("a"), text("")]);
    assert_eq!(
        texts.sort_value(),
        Json::Array(vec![text(""), text("a"), text("ab"), text("b")])
    );
    let flags = Json::Array(vec![Json::Bool(true), Json::Bool(false), Json::Bool(true)]);
    assert_eq!(
        flags.sort_value(),
        Json::Array(vec![Json::Bool(false), Json::Bool(true), Json::Bool(true)])
    );
}

#[test]
fn arrays_inside_are_put_in_order_first() {
    let value = object(vec![(
        "a",
        Json::Array(vec![
            Json::Array(vec![number(2), number(1)]),
            Json::Array(vec![]),
            Json::Array(vec![number(9)]),
            Json::Array(vec![number(5)]),
        ]),
    )]);
    assert!(value.is_sortable());
    // arrays come in the order of their lengths; those of one length keep their order
    assert_eq!(
        value.sort_value(),
        object(vec![(
            "a",
            Json::Array(vec![
                Json::Array(vec![]),
                Json::Array(vec![number(9)]),
                Json::Array(vec![number(5)]),
                Json::Array(vec![number(1), number(2)]),
            ]),
        )])
    );
    let objects = Json::Array(vec![
        object(vec![("x", number(1)), ("y", number(2))]),
        object(vec![("z", Json::Array(vec![text("b"), text("a")]))]),
    ]);
    assert_eq!(
        objects.sort_value(),
        Json::Array(vec![
            object(vec![("z", Json::Array(vec![text("a"), text("b")]))]),
            object(vec![("x", number(1)), ("y", number(2))]),
        ])
    );
    assert_eq!(Json::Null.sort_value(), Json::Null);
    assert_eq!(text("x").sort_value(), text("x"));
}

#[test]
fn values_of_two_kinds_have_no_order() {
    let mixed = Json::Array(vec![number(2), text("a"), number(1)]);
    assert!(!mixed.is_sortable());
    assert!(!number(1).comparable_with(&text("a")));
    assert!(!number(1).comes_first(&text("a")));
    assert!(!text("a").comes_first(&number(1)));
    let floats = Json::Array(vec![Json::Number(JsonNumber::Float(1)), number(1)]);
    assert!(!floats.is_sortable());
    let big = Json::Array(vec![number(u64::MAX), number(1)]);
    assert!(!big.is_sortable());
    assert_eq!(JsonNumber::PosInt(u64::MAX).as_i64(), None);
    assert_eq!(JsonNumber::PosInt(7).as_i64(), Some(7));
    assert_eq!(JsonNumber::NegInt(-7).as_i64(), Some(-7));
    assert_eq!(JsonNumber::Float(0).as_i64(), None);
    let inside = object(vec![("a", mixed)]);
    assert!(!inside.is_sortable());
    assert!(Json::Array(vec![Json::Number(JsonNumber::Float(1))]).is_sortable());
    assert!(number(1).comes_first(&number(2)));
    assert!(!number(2).comes_first(&number(2)));
    assert!(Json::Null.comparable_with(&Json::Null));
}
