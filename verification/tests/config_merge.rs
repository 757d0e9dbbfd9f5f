use debug_session::config::{merge, ConfigEntry, ConfigValue};

fn entry(key: &str, value: ConfigValue) -> ConfigEntry {
    ConfigEntry { key: key.to_string(), value }
}

fn object(entries: Vec<ConfigEntry>) -> ConfigValue {
    ConfigValue::Object(entries)
}

#[test]
fn merge_lays_request_over_parent() {
    let parent = object(vec![
        entry("a", ConfigValue::Integer(1)),
        entry("b", object(vec![entry("x", ConfigValue::Integer(1))])),
    ]);
    let request = object(vec![
        entry("b", object(vec![entry("y", ConfigValue::Integer(2))])),
        entry("c", ConfigValue::Integer(3)),
    ]);
    let expected = object(vec![
        entry("a", ConfigValue::Integer(1)),
        entry(
            "b",
            object(vec![
                entry("x", ConfigValue::Integer(1)),
                entry("y", ConfigValue::Integer(2)),
            ]),
        ),
        entry("c", ConfigValue::Integer(3)),
    ]);
    assert_eq!(merge(parent, request), expected);
}

#[test]
fn merge_new_value_wins_on_conflict() {
    let parent = object(vec![
        entry("program", ConfigValue::Text("a.out".to_string())),
        entry("args", ConfigValue::List(vec![ConfigValue::Text("-v".to_string())])),
    ]);
    let request = object(vec![
        entry("program", ConfigValue::Text("b.out".to_string())),
        entry("args", ConfigValue::List(vec![])),
    ]);
    let expected = object(vec![
        entry("program", ConfigValue::Text("b.out".to_string())),
        entry("args", ConfigValue::List(vec![])),
    ]);
    assert_eq!(merge(parent, request), expected);
}

#[test]
fn merge_object_over_scalar_replaces() {
    let request = object(vec![entry("k", ConfigValue::Bool(true))]);
    assert_eq!(merge(ConfigValue::Integer(7), request.clone()), request);
    assert_eq!(merge(request, ConfigValue::Null), ConfigValue::Null);
}

#[test]
fn merge_with_empty_object_keeps_parent() {
    let parent = object(vec![entry("a", ConfigValue::Decimal("1.5".to_string()))]);
    assert_eq!(merge(parent.clone(), object(vec![])), parent);
}

#[test]
fn merge_repeated_key_in_request_merges_in_turn() {
    let parent = object(vec![entry("o", object(vec![entry("x", ConfigValue::Integer(1))]))]);
    let request = object(vec![
        entry("o", object(vec![entry("y", ConfigValue::Integer(2))])),
        entry("o", object(vec![entry("x", ConfigValue::Integer(9))])),
    ]);
    let expected = object(vec![entry(
        "o",
        object(vec![
            entry("x", ConfigValue::Integer(9)),
            entry("y", ConfigValue::Integer(2)),
        ]),
    )]);
    assert_eq!(merge(parent, request), expected);
}

#[test]
fn get_finds_the_first_entry_under_a_key() {
    let value = object(vec![
        entry("a", ConfigValue::Integer(1)),
        entry("b", ConfigValue::Bool(false)),
        entry("a", ConfigValue::Integer(2)),
    ]);
    assert_eq!(value.get("a"), Some(&ConfigValue::Integer(1)));
    assert_eq!(value.get("b"), Some(&ConfigValue::Bool(false)));
    assert_eq!(value.get("c"), None);
    assert_eq!(ConfigValue::Integer(1).get("a"), None);
    assert_eq!(ConfigValue::List(vec![]).get(""), None);
}

#[test]
fn merge_keeps_the_places_of_the_parent_and_adds_new_keys_behind() {
    let parent = object(vec![
        entry("z", ConfigValue::Integer(1)),
        entry("m", ConfigValue::Integer(2)),
        entry("a", ConfigValue::Integer(3)),
    ]);
    let request = object(vec![
        entry("b", ConfigValue::Integer(4)),
        entry("m", ConfigValue::Integer(5)),
        entry("c", ConfigValue::Integer(6)),
    ]);
    let merged = merge(parent, request);
    assert_eq!(
        merged,
        object(vec![
            entry("z", ConfigValue::Integer(1)),
            entry("m", ConfigValue::Integer(5)),
            entry("a", ConfigValue::Integer(3)),
            entry("b", ConfigValue::Integer(4)),
            entry("c", ConfigValue::Integer(6)),
        ])
    );
    assert_eq!(merged.get("m"), Some(&ConfigValue::Integer(5)));
    assert_eq!(merged.get("z"), Some(&ConfigValue::Integer(1)));
}

#[test]
fn merge_goes_down_through_objects_within_objects() {
    let deep = |leaf: ConfigEntry| {
        object(vec![entry("l1", object(vec![entry("l2", object(vec![leaf]))]))])
    };
    let merged = merge(
        deep(entry("old", ConfigValue::Text("kept".to_string()))),
        deep(entry("new", ConfigValue::Null)),
    );
    assert_eq!(
        merged,
        object(vec![entry(
            "l1",
            object(vec![entry(
                "l2",
                object(vec![
                    entry("old", ConfigValue::Text("kept".to_string())),
                    entry("new", ConfigValue::Null),
                ])
            )])
        )])
    );
}

#[test]
fn clone_of_a_configuration_is_equal_to_it() {
    let value = object(vec![
        entry("list", ConfigValue::List(vec![ConfigValue::Integer(i64::MIN), ConfigValue::Null])),
        entry("inner", object(vec![entry("d", ConfigValue::Decimal("1e400".to_string()))])),
    ]);
    assert_eq!(value.clone(), value);
}
