use json_keypath_iter::{ConfigurationError, Element, Iter, PresetStyle, Style, StyleBuilder, Value};

fn number(n: i64) -> Value {
    Value::Number(serde_json::Number::from(n))
}

fn object(members: Vec<(&str, Value)>) -> Value {
    Value::Object(members.into_iter().map(|(k, v)| (String::from(k), v)).collect())
}

fn paths(items: &[Element]) -> Vec<String> {
    items.iter().map(|e| e.path.clone()).collect()
}

fn nested_ab() -> Value {
    object(vec![("a", object(vec![("b", number(2))]))])
}

#[test]
fn square_brackets_preset_paths() {
    let value = object(vec![(
        "first",
        Value::Array(vec![number(1), number(2), number(3)]),
    )]);
    let items = Iter::new(&value)
        .use_style(PresetStyle::SquareBrackets.to_style())
        .collect();
    assert_eq!(items.len(), 3);
    assert_eq!(paths(&items), vec!["[\"first\"][0]", "[\"first\"][1]", "[\"first\"][2]"]);
    assert_eq!(items[0].indices, vec![0]);
    assert_eq!(items[1].indices, vec![1]);
    assert_eq!(items[2].indices, vec![2]);
    assert_eq!(items[2].value, &number(3));
}

#[test]
fn common_js_preset_path() {
    let value = nested_ab();
    let items = Iter::new(&value)
        .use_style(PresetStyle::CommonJs.to_style())
        .collect();
    assert_eq!(
        items,
        vec![Element { path: String::from(".a.b"), indices: vec![], value: &number(2) }]
    );
}

#[test]
fn postgres_json_preset_path() {
    let value = nested_ab();
    let items = Iter::new(&value)
        .use_style(PresetStyle::PostgresJson.to_style())
        .collect();
    assert_eq!(
        items,
        vec![Element { path: String::from("->'a'->'b'"), indices: vec![], value: &number(2) }]
    );
}

#[test]
fn postgres_json_preset_array_path() {
    let value = object(vec![("xs", Value::Array(vec![Value::Null, Value::Bool(false)]))]);
    let items = Iter::new(&value)
        .use_style(PresetStyle::PostgresJson.to_style())
        .collect();
    assert_eq!(paths(&items), vec!["->'xs'->0", "->'xs'->1"]);
}

#[test]
fn common_js_nested_arrays() {
    let value = object(vec![(
        "x42",
        Value::Array(vec![
            Value::Bool(true),
            Value::Array(vec![Value::Null, Value::String(String::from("Hello there."))]),
        ]),
    )]);
    let items = Iter::new(&value)
        .use_style(PresetStyle::CommonJs.to_style())
        .collect();
    assert_eq!(paths(&items), vec![".x42[0]", ".x42[1][0]", ".x42[1][1]"]);
    assert_eq!(items[0].indices, vec![0]);
    assert_eq!(items[1].indices, vec![1, 0]);
    assert_eq!(items[2].indices, vec![1, 1]);
}

#[test]
fn object_parents_included() {
    let value = object(vec![("a", Value::Bool(true)), ("b", Value::Bool(false))]);
    let style = StyleBuilder::new().include_object_parents().build();
    let items = Iter::new(&value).use_style(style).collect();
    assert_eq!(
        items,
        vec![
            Element { path: String::new(), indices: vec![], value: &value },
            Element { path: String::from("[\"a\"]"), indices: vec![], value: &Value::Bool(true) },
            Element { path: String::from("[\"b\"]"), indices: vec![], value: &Value::Bool(false) },
        ]
    );
}

#[test]
fn scalar_root_under_every_style() {
    let value = number(42);
    let styles = vec![
        PresetStyle::SquareBrackets.to_style(),
        PresetStyle::CommonJs.to_style(),
        PresetStyle::PostgresJson.to_style(),
        StyleBuilder::new().show_parents().hide_indices_in_path().build(),
    ];
    for style in styles {
        let items = Iter::new(&value).use_style(style).collect();
        assert_eq!(
            items,
            vec![Element { path: String::new(), indices: vec![], value: &number(42) }]
        );
    }
}

#[test]
fn hidden_indices_share_a_path() {
    let value = Value::Array(vec![
        Value::String(String::from("x")),
        Value::String(String::from("y")),
    ]);
    let style = StyleBuilder::new()
        .array_key_prefix("#")
        .array_key_suffix("$")
        .hide_indices_in_path()
        .skip_parents()
        .build();
    let items = Iter::new(&value).use_style(style).collect();
    assert_eq!(paths(&items), vec!["#$", "#$"]);
    assert_eq!(items[0].indices, vec![0]);
    assert_eq!(items[1].indices, vec![1]);
}

#[test]
fn every_node_once_when_parents_shown() {
    let value = object(vec![
        ("a", Value::Array(vec![number(1), object(vec![("c", Value::Null)])])),
        ("b", object(vec![])),
    ]);
    let style = StyleBuilder::new().show_parents().build();
    let items = Iter::new(&value).use_style(style).collect();
    // root, a, a[0], a[1], a[1].c, b
    assert_eq!(items.len(), 6);
    assert_eq!(
        paths(&items),
        vec!["", "[\"a\"]", "[\"a\"][0]", "[\"a\"][1]", "[\"a\"][1][\"c\"]", "[\"b\"]"]
    );
}

#[test]
fn only_leaves_by_default() {
    let value = object(vec![
        ("a", Value::Array(vec![number(1), object(vec![("c", Value::Null)])])),
        ("b", object(vec![])),
        ("d", Value::Array(vec![])),
    ]);
    let items = Iter::new(&value).collect();
    assert_eq!(items.len(), 2);
    assert_eq!(paths(&items), vec!["[\"a\"][0]", "[\"a\"][1][\"c\"]"]);
    assert_eq!(items[1].indices, vec![1]);
}

#[test]
fn empty_containers_yield_nothing_when_skipped() {
    let value = Value::Array(vec![]);
    assert!(Iter::new(&value).collect().is_empty());
    let value = object(vec![]);
    assert!(Iter::new(&value).collect().is_empty());
}

#[test]
fn indices_follow_arrays_only() {
    let value = Value::Array(vec![
        number(0),
        object(vec![("k", Value::Array(vec![number(5), number(6)]))]),
    ]);
    let items = Iter::new(&value).collect();
    assert_eq!(paths(&items), vec!["[0]", "[1][\"k\"][0]", "[1][\"k\"][1]"]);
    assert_eq!(items[1].indices, vec![1, 0]);
    assert_eq!(items[2].indices, vec![1, 1]);
}

#[test]
fn repeated_runs_agree() {
    let value = object(vec![
        ("z", Value::Array(vec![number(1), number(2)])),
        ("y", Value::Bool(true)),
    ]);
    let first = Iter::new(&value).use_style(StyleBuilder::new().show_parents().build()).collect();
    let second = Iter::new(&value).use_style(StyleBuilder::new().show_parents().build()).collect();
    assert_eq!(first, second);
    assert_eq!(paths(&first), vec!["", "[\"z\"]", "[\"z\"][0]", "[\"z\"][1]", "[\"y\"]"]);
}

#[test]
fn exhausted_traversal_stays_exhausted() {
    let value = Value::Bool(false);
    let mut iter = Iter::new(&value);
    assert!(iter.next().is_some());
    assert!(iter.next().is_none());
    assert!(iter.next().is_none());
}

#[test]
fn multi_digit_indices() {
    let value = Value::Array((0..12).map(number).collect());
    let items = Iter::new(&value).collect();
    assert_eq!(items.len(), 12);
    assert_eq!(items[10].path, "[10]");
    assert_eq!(items[11].path, "[11]");
    assert_eq!(items[11].indices, vec![11]);
}

#[test]
fn format_helpers() {
    let style = PresetStyle::SquareBrackets.to_style();
    assert_eq!(style.object_format(&String::from("[0]"), &String::from("k")), "[0][\"k\"]");
    assert_eq!(style.array_format(&String::from(".a"), 1234), ".a[1234]");
    assert_eq!(style.array_format(&String::new(), 0), "[0]");
    assert!(style.should_skip_object_parents());
    assert!(style.should_skip_array_parents());
    let style = StyleBuilder::new().hide_object_keys_in_path().hide_array_keys_in_path().build();
    assert_eq!(style.object_format(&String::from("p"), &String::from("k")), "p[\"\"]");
    assert_eq!(style.array_format(&String::from("p"), 7), "p[]");
}

#[test]
fn builder_defaults() {
    let value = object(vec![("apple", Value::Array(vec![number(1)]))]);
    let items = Iter::new(&value).use_style(StyleBuilder::new().build()).collect();
    assert_eq!(items[0].path, "[\"apple\"][0]");

    let items = Iter::new(&value)
        .use_style(StyleBuilder::new().object_key_prefix(">>>").build())
        .collect();
    assert_eq!(items[0].path, ">>>apple\"][0]");

    let items = Iter::new(&value)
        .use_style(StyleBuilder::new().object_key_suffix("$$$").build())
        .collect();
    assert_eq!(items[0].path, "[\"apple$$$[0]");

    let items = Iter::new(&value)
        .use_style(StyleBuilder::new().array_key_prefix(":::").build())
        .collect();
    assert_eq!(items[0].path, "[\"apple\"]:::0]");

    let items = Iter::new(&value)
        .use_style(StyleBuilder::new().array_key_suffix("!!!").build())
        .collect();
    assert_eq!(items[0].path, "[\"apple\"][0!!!");

    let items = Iter::new(&value)
        .use_style(StyleBuilder::new().hide_object_keys_in_path().build())
        .collect();
    assert_eq!(items[0].path, "[\"\"][0]");

    let items = Iter::new(&value)
        .use_style(StyleBuilder::new().include_array_parents().build())
        .collect();
    assert_eq!(items[0].path, "[\"apple\"]");
    assert_eq!(items[0].value, &Value::Array(vec![number(1)]));
}

#[test]
fn builder_resets_restore_defaults() {
    let value = object(vec![("k", Value::Array(vec![number(1)]))]);
    let style = PresetStyle::PostgresJson
        .to_builder()
        .default_object_key_prefix()
        .default_object_key_suffix()
        .default_array_key_prefix()
        .default_array_key_suffix()
        .hide_object_keys_in_path()
        .default_object_keys_in_path()
        .hide_array_keys_in_path()
        .default_array_keys_in_path()
        .include_object_parents()
        .default_object_parents()
        .include_array_parents()
        .default_array_parents()
        .build();
    let items = Iter::new(&value).use_style(style).collect();
    assert_eq!(paths(&items), vec!["[\"k\"][0]"]);
}

#[test]
fn preset_builder_override() {
    let value = object(vec![("k", Value::Array(vec![number(1)]))]);
    let style = PresetStyle::CommonJs.to_builder().include_object_parents().build();
    let items = Iter::new(&value).use_style(style).collect();
    assert_eq!(paths(&items), vec!["", ".k[0]"]);
}

#[test]
fn show_and_skip_parents_set_both_kinds() {
    let value = Value::Array(vec![object(vec![("a", Value::Null)])]);
    let items = Iter::new(&value).use_style(StyleBuilder::new().show_parents().build()).collect();
    assert_eq!(paths(&items), vec!["", "[0]", "[0][\"a\"]"]);
    let style = StyleBuilder::new().show_parents().skip_parents().build();
    let items = Iter::new(&value).use_style(style).collect();
    assert_eq!(paths(&items), vec!["[0][\"a\"]"]);
    let style = StyleBuilder::new().hide_indices_in_path().show_indices_in_path().build();
    let items = Iter::new(&value).use_style(style).collect();
    assert_eq!(paths(&items), vec!["[0][\"a\"]"]);
}

#[test]
fn try_build_accepts_unambiguous_styles() {
    let style: Style = StyleBuilder::new()
        .hide_object_keys_in_path()
        .hide_array_keys_in_path()
        .try_build()
        .unwrap();
    assert_eq!(style.array_format(&String::new(), 3), "[]");
    assert!(StyleBuilder::new().object_key_prefix("").object_key_suffix("").try_build().is_ok());
}

#[test]
fn try_build_refuses_empty_object_step() {
    let result = StyleBuilder::new()
        .object_key_prefix("")
        .object_key_suffix("")
        .hide_object_keys_in_path()
        .array_key_prefix("")
        .array_key_suffix("")
        .hide_array_keys_in_path()
        .try_build();
    assert_eq!(result.unwrap_err(), ConfigurationError::EmptyObjectStep);
}

#[test]
fn try_build_refuses_empty_array_step() {
    let result = StyleBuilder::new()
        .array_key_prefix("")
        .array_key_suffix("")
        .hide_indices_in_path()
        .try_build();
    assert_eq!(result.unwrap_err(), ConfigurationError::EmptyArrayStep);
}
