use dynamodb_json::dynamodb::{marshall, unmarshall};
use dynamodb_json::value::{AttributeValue, Number, Value};

fn s(text: &str) -> Value {
    Value::String(text.to_owned())
}

fn integer(i: i64) -> Value {
    if i < 0 {
        Value::Number(Number::NegInt(i))
    } else {
        Value::Number(Number::PosInt(i as u64))
    }
}

fn float(f: f64) -> Value {
    Value::Number(Number::Float(serde_json::Number::from_f64(f).unwrap().to_string()))
}

fn obj(members: Vec<(&str, Value)>) -> Value {
    Value::Object(members.into_iter().map(|(k, v)| (k.to_owned(), v)).collect())
}

fn round_trip(v: &Value) -> Value {
    unmarshall(&marshall(v))
}

fn string_map() -> Value {
    obj(vec![("some", s("42")), ("value", s("42"))])
}

fn example2(hola: &str) -> Value {
    obj(vec![
        ("algo", string_map()),
        ("hola", s(hola)),
        ("mundo", Value::Bool(true)),
        ("otro", integer(42)),
    ])
}

#[test]
fn it_works() {
    let example = obj(vec![
        ("a", integer(42)),
        ("fake", Value::Null),
        ("hello", s("world")),
        ("other", example2("mundo")),
        (
            "others",
            Value::Array(vec![
                example2("mundo1"),
                example2("mundo2"),
                example2("mundo3"),
                example2("mundo4"),
                example2("mundo5"),
            ]),
        ),
        ("some", string_map()),
        (
            "values",
            Value::Array(vec![string_map(), string_map(), string_map(), string_map(), string_map()]),
        ),
        ("world", Value::Bool(false)),
    ]);
    assert_eq!(round_trip(&example), example);
}

#[test]
fn test_simple_struct() {
    let example = obj(vec![("name", s("Alice")), ("age", integer(30))]);
    assert_eq!(round_trip(&example), example);
}

#[test]
fn test_optional_values_some() {
    let example = obj(vec![("id", integer(999)), ("label", s("Hello Option"))]);
    assert_eq!(round_trip(&example), example);
}

#[test]
fn test_optional_values_none() {
    let example = obj(vec![("id", integer(999)), ("label", Value::Null)]);
    assert_eq!(round_trip(&example), example);
}

#[test]
fn test_floating_numbers() {
    let example = obj(vec![("value1", float(123.456)), ("value2", float(78.9f32 as f64))]);
    assert_eq!(round_trip(&example), example);
}

#[test]
fn test_byte_array() {
    let example = obj(vec![(
        "data",
        Value::Array(vec![integer(1), integer(2), integer(3), integer(4), integer(255)]),
    )]);
    assert_eq!(round_trip(&example), example);
}

#[test]
fn test_large_integers() {
    let example = obj(vec![
        ("big_positive", integer(9_223_372_036_854_775_807)),
        ("big_negative", integer(-9_223_372_036_854_775_808)),
    ]);
    let attr = marshall(&example);
    match &attr {
        AttributeValue::M(members) => {
            assert_eq!(members[0].1, AttributeValue::N("9223372036854775807".to_owned()));
            assert_eq!(members[1].1, AttributeValue::N("-9223372036854775808".to_owned()));
        }
        other => panic!("expected a map, got {:?}", other),
    }
    assert_eq!(unmarshall(&attr), example);
}

#[test]
fn test_empty_collections() {
    let data = obj(vec![("empty_vec", Value::Array(vec![])), ("empty_map", obj(vec![]))]);
    assert_eq!(round_trip(&data), data);
}

#[test]
fn test_dynamodb_sets() {
    let input = AttributeValue::Ss(vec!["apple".to_owned(), "banana".to_owned(), "cherry".to_owned()]);
    let as_json = unmarshall(&input);
    assert_eq!(as_json, Value::Array(vec![s("apple"), s("banana"), s("cherry")]));
    let rem = marshall(&as_json);
    assert_eq!(
        rem,
        AttributeValue::L(vec![
            AttributeValue::S("apple".to_owned()),
            AttributeValue::S("banana".to_owned()),
            AttributeValue::S("cherry".to_owned()),
        ])
    );
}

#[test]
fn test_unparseable_numbers() {
    let input = AttributeValue::N("123abc".to_string());
    let json_val = unmarshall(&input);
    assert_eq!(json_val, s("123abc"));
    let rem = marshall(&json_val);
    assert_eq!(rem, AttributeValue::S("123abc".to_string()));
}

#[test]
fn test_out_of_range_integers() {
    let input = AttributeValue::N("999999999999999999999".to_string());
    let json_val = unmarshall(&input);
    assert_eq!(json_val, s("999999999999999999999"));
    let rem = marshall(&json_val);
    assert_eq!(rem, AttributeValue::S("999999999999999999999".to_string()));
}

#[test]
fn test_nested_optional_fields() {
    let example = obj(vec![("inner", obj(vec![("value", Value::Null)]))]);
    assert_eq!(round_trip(&example), example);
}

#[test]
fn test_mix_null_and_valid() {
    let json_val = obj(vec![
        ("arrayField", Value::Array(vec![Value::Null, integer(1), Value::Bool(true), s("string")])),
        ("otherField", integer(42)),
        ("someField", Value::Null),
    ]);
    assert_eq!(round_trip(&json_val), json_val);
}

#[test]
fn test_booleans_in_arrays_and_maps() {
    let json_val = obj(vec![
        ("falseVal", Value::Bool(false)),
        (
            "mixedArray",
            Value::Array(vec![Value::Bool(true), Value::Bool(false), integer(123), s("hello")]),
        ),
        ("trueVal", Value::Bool(true)),
    ]);
    assert_eq!(round_trip(&json_val), json_val);
}

#[test]
fn test_special_strings() {
    let data = obj(vec![
        ("regular", s("Hello World!")),
        ("emoji", s("\u{f8ff}\u{fc}\u{f2}\u{c4}\u{f8ff}\u{fc}\u{ee}\u{2022}")),
        ("unicode", s("\u{201e}\u{c5}\u{ec}\u{201e}\u{c7}\u{ec}\u{201e}\u{c5}\u{b4}\u{201e}\u{c5}\u{b0}\u{201e}\u{c5}\u{d8}\u{2030}\u{220f}\u{f1}\u{c1}\u{ef}\u{e5}")),
    ]);
    assert_eq!(round_trip(&data), data);
}

#[test]
fn test_mixed_array_data_types() {
    let json_val = Value::Array(vec![
        s("hello"),
        integer(123),
        Value::Bool(true),
        Value::Null,
        obj(vec![("nested", s("object"))]),
    ]);
    assert_eq!(round_trip(&json_val), json_val);
}

#[test]
fn test_deeply_nested() {
    let json_val = obj(vec![(
        "level1",
        obj(vec![("level2", obj(vec![("level3", obj(vec![("value", integer(999))]))]))]),
    )]);
    assert_eq!(round_trip(&json_val), json_val);
}

#[test]
fn test_zero_values() {
    let data = obj(vec![("int_zero", integer(0)), ("float_zero", float(0.0)), ("empty_str", s(""))]);
    assert_eq!(round_trip(&data), data);
}

#[test]
fn test_enums() {
    let data = obj(vec![(
        "StructVariant",
        obj(vec![("x", s("example")), ("y", Value::Bool(true))]),
    )]);
    assert_eq!(round_trip(&data), data);
}
