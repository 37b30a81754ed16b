use indexmap::map::MutableKeys;
use indexmap::IndexMap;
use serde_valid::error::{Errors, Failure};
use serde_valid::fitness::Malformed;
use serde_valid::ordered::{
    index_map_is_well_formed, index_map_keys_distinct, try_validate_index_map, validate_index_map,
};
use serde_valid::rule::{Literal, Rule, Verdict};
use serde_valid::text::{push_integer, push_natural, push_quoted, push_str, str_equal};
use serde_valid::validate::{array_errors, object_errors, validate_entries_of, validate_slice};
use serde_valid::value::{Aggregate, Constraint, Field, Value};
use serde_valid::{validate_string_length, Length, MaxLengthErrorParams, Validate, ValidateMaxLength};
use std::path::{Path, PathBuf};

fn quoted(s: &str) -> String {
    let mut out = Vec::new();
    push_quoted(&mut out, s);
    out.into_iter().collect()
}

#[test]
fn string_literals_are_escaped() {
    assert_eq!(quoted("abc"), "\"abc\"");
    assert_eq!(quoted(""), "\"\"");
    assert_eq!(quoted("a\"b"), "\"a\\\"b\"");
    assert_eq!(quoted("a\\b"), "\"a\\\\b\"");
    assert_eq!(quoted("a\nb\rc\td"), "\"a\\nb\\rc\\td\"");
    assert_eq!(quoted("\u{8}\u{c}"), "\"\\b\\f\"");
    assert_eq!(quoted("\u{0}\u{1f}\u{b}"), "\"\\u0000\\u001f\\u000b\"");
    assert_eq!(quoted("\u{7f} é 😍"), "\"\u{7f} é 😍\"");
    assert_eq!(quoted("`<= 4`"), "\"`<= 4`\"");
}

#[test]
fn numerals() {
    let natural = |n: u128| {
        let mut out = Vec::new();
        push_natural(&mut out, n);
        out.into_iter().collect::<String>()
    };
    let integer = |n: i128| {
        let mut out = vec!['x'];
        push_integer(&mut out, n);
        out.into_iter().collect::<String>()
    };
    assert_eq!(natural(0), "0");
    assert_eq!(natural(7), "7");
    assert_eq!(natural(10), "10");
    assert_eq!(natural(1234567890), "1234567890");
    assert_eq!(natural(u128::MAX), u128::MAX.to_string());
    assert_eq!(integer(0), "x0");
    assert_eq!(integer(-1), "x-1");
    assert_eq!(integer(42), "x42");
    assert_eq!(integer(i128::MIN), format!("x{}", i128::MIN));
    assert_eq!(integer(i128::MAX), format!("x{}", i128::MAX));
}

#[test]
fn characters_and_strings() {
    let mut out = vec!['a'];
    push_str(&mut out, "bé😍");
    assert_eq!(out, vec!['a', 'b', 'é', '😍']);
    push_str(&mut out, "");
    assert_eq!(out.len(), 4);
    assert!(str_equal("abc", "abc"));
    assert!(!str_equal("abc", "abd"));
    assert!(!str_equal("abc", "ab"));
}

#[test]
fn trees_render_in_their_shape() {
    let failure = |message: &str| Failure::custom(message.to_string());
    let flat = Errors::NewType { errors: vec![failure("a"), failure("b")] };
    assert_eq!(flat.to_string(), "{\"errors\":[\"a\",\"b\"]}");
    let named = Errors::Object {
        errors: vec![failure("own")],
        properties: vec![
            ("x".to_string(), Errors::NewType { errors: vec![failure("a")] }),
            ("y".to_string(), Errors::Array {
                errors: vec![],
                items: vec![(10, Errors::NewType { errors: vec![failure("b")] })],
            }),
        ],
    };
    assert_eq!(
        named.to_string(),
        "{\"errors\":[\"own\"],\"properties\":{\"x\":{\"errors\":[\"a\"]},\"y\":{\"errors\":[],\"items\":{\"10\":{\"errors\":[\"b\"]}}}}}"
    );
    let without_entries = Errors::Object { errors: vec![failure("own")], properties: vec![] };
    assert_eq!(without_entries.to_string(), "{\"errors\":[\"own\"]}");
    let array_without_entries = Errors::Array { errors: vec![failure("own")], items: vec![] };
    assert_eq!(array_without_entries.to_string(), "{\"errors\":[\"own\"]}");
}

#[test]
fn empty_trees_are_never_built() {
    assert!(object_errors(vec![], vec![]).is_ok());
    assert!(array_errors(vec![], vec![]).is_ok());
    assert!(object_errors(vec![Failure::custom("a".to_string())], vec![]).is_err());
    assert!(array_errors(vec![], vec![(0, Errors::NewType { errors: vec![Failure::custom("a".to_string())] })]).is_err());
}

#[test]
fn values_are_equal_by_structure() {
    let a = Value::Sequence(vec![Value::Integer(1), Value::Text("x".to_string())]);
    let b = Value::Sequence(vec![Value::Integer(1), Value::Text("x".to_string())]);
    let c = Value::Sequence(vec![Value::Integer(1), Value::Text("y".to_string())]);
    assert!(a.equals(&b));
    assert!(!a.equals(&c));
    assert!(!a.equals(&Value::Integer(1)));
    assert!(Value::Bytes(vec![1, 2]).equals(&Value::Bytes(vec![1, 2])));
    assert!(!Value::Bytes(vec![1, 2]).equals(&Value::Bytes(vec![1, 3])));
    assert!(Value::Optional(None).equals(&Value::Optional(None)));
    assert!(!Value::Optional(None).equals(&Value::Optional(Some(Box::new(Value::Integer(1))))));
    let mapping = |n: i128| Value::Mapping(vec![("k".to_string(), Value::Integer(n))]);
    assert!(mapping(1).equals(&mapping(1)));
    assert!(!mapping(1).equals(&mapping(2)));
    let aggregate = |n: i128, max: i128| Aggregate::Named {
        fields: vec![("val".to_string(), Field { value: Value::Integer(n), constraints: vec![Constraint::new(Rule::Maximum(max))] })],
        rules: vec![(None, Verdict::Pass)],
    };
    assert!(aggregate(1, 4).equals(&aggregate(1, 4)));
    assert!(!aggregate(1, 4).equals(&aggregate(2, 4)));
    assert!(!aggregate(1, 4).equals(&aggregate(1, 5)));
    assert!(Rule::Enumerate(vec![Literal::Integer(1)]).equals(&Rule::Enumerate(vec![Literal::Integer(1)])));
    assert!(!Rule::Enumerate(vec![Literal::Integer(1)]).equals(&Rule::Enumerate(vec![Literal::Text("1".to_string())])));
    assert!(!Rule::Minimum(1).equals(&Rule::Maximum(1)));
    assert!(Rule::Maximum(4).duplicate().equals(&Rule::Maximum(4)));
    assert!(Rule::Enumerate(vec![Literal::Text("a".to_string())]).duplicate().equals(&Rule::Enumerate(vec![Literal::Text("a".to_string())])));
}

#[test]
fn length_counts_each_code_point_once() {
    assert_eq!("a\u{310}e\u{301}o\u{308}\u{332}".length(), 7);
    assert!(validate_string_length("a\u{310}e\u{301}o\u{308}\u{332}", Some(7), Some(7)));
    assert!(!validate_string_length("a\u{310}e\u{301}o\u{308}\u{332}", Some(3), Some(3)));
    assert!(ValidateMaxLength::validate("a\u{310}e\u{301}o\u{308}\u{332}", 7).is_ok());
    assert_eq!(
        ValidateMaxLength::validate("a\u{310}e\u{301}o\u{308}\u{332}", 3),
        Err(MaxLengthErrorParams::new(3))
    );
    let emoji = "😍👺🙋🏽👨‍🎤👨‍👩‍👧‍👦";
    assert_eq!(emoji.length(), 14);
    assert!(validate_string_length(emoji, Some(14), Some(14)));
    assert_eq!(
        ValidateMaxLength::validate(emoji, 13),
        Err(MaxLengthErrorParams::new(13))
    );
    assert_eq!("abcde".as_bytes().length(), 5);
    assert_eq!("あ堯".as_bytes().length(), 6);
    assert_eq!("あ堯".length(), 2);
    assert_eq!(['a', 'b'].length(), 2);
    assert_eq!(ValidateMaxLength::validate("abcde", 4), Err(MaxLengthErrorParams { max_length: 4 }));
    assert!(validate_string_length("", None, None));
    assert!(!validate_string_length("abc", Some(4), Some(2)));
}

#[test]
fn path_length_counts_the_characters_of_its_text() {
    assert_eq!(Path::new("./foo/bar.txt").length(), 13);
    assert_eq!(Path::new("あ堯.txt").length(), 6);
    assert_eq!(Path::new("").length(), 0);
    assert_eq!(PathBuf::from("fo\u{fffd}o").length(), 4);
    assert_eq!(PathBuf::from("あ堯").length(), 2);
    assert!(validate_string_length(Path::new("あ堯"), Some(2), Some(2)));
    assert!(!validate_string_length(&PathBuf::from("あ堯"), Some(3), None));
    assert_eq!(
        ValidateMaxLength::validate(&PathBuf::from("あ堯"), 1),
        Err(MaxLengthErrorParams::new(1))
    );
    assert!(ValidateMaxLength::validate(Path::new("あ堯"), 2).is_ok());
}

fn wrapper(n: i128) -> Aggregate {
    Aggregate::NewType {
        field: Box::new(Field { value: Value::Integer(n), constraints: vec![Constraint::new(Rule::Maximum(4))] }),
        rules: vec![],
    }
}

#[test]
fn slices_and_entries() {
    let items = vec![wrapper(1), wrapper(5)];
    assert_eq!(
        validate_slice(&items).unwrap_err().to_string(),
        "{\"errors\":[],\"items\":{\"1\":{\"errors\":[\"The number must be `<= 4`.\"]}}}"
    );
    let entries = vec![("b".to_string(), wrapper(9)), ("a".to_string(), wrapper(1)), ("c".to_string(), wrapper(7))];
    assert_eq!(
        validate_entries_of(&entries).unwrap_err().to_string(),
        "{\"errors\":[],\"properties\":{\"b\":{\"errors\":[\"The number must be `<= 4`.\"]},\"c\":{\"errors\":[\"The number must be `<= 4`.\"]}}}"
    );
    let borrowed: Vec<(String, &Aggregate)> = entries.iter().map(|(key, value)| (key.clone(), value)).collect();
    assert_eq!(
        validate_entries_of(&borrowed).unwrap_err().to_string(),
        validate_entries_of(&entries).unwrap_err().to_string()
    );
    let none: Vec<(String, Aggregate)> = vec![("a".to_string(), wrapper(1))];
    assert!(validate_entries_of(&none).is_ok());
}

#[test]
fn index_map_is_validated_in_insertion_order() {
    let mut map: IndexMap<String, Value> = IndexMap::new();
    map.insert("z".to_string(), Value::Nested(Box::new(wrapper(5))));
    map.insert("m".to_string(), Value::Nested(Box::new(wrapper(1))));
    map.insert("a".to_string(), Value::Nested(Box::new(wrapper(6))));
    assert!(index_map_is_well_formed(&map));
    let expected = "{\"errors\":[],\"properties\":{\"z\":{\"errors\":[\"The number must be `<= 4`.\"]},\"a\":{\"errors\":[\"The number must be `<= 4`.\"]}}}";
    assert_eq!(validate_index_map(&map).unwrap_err().to_string(), expected);
    assert_eq!(map.validate().unwrap_err().to_string(), expected);
    assert_eq!(try_validate_index_map(&map).unwrap().unwrap_err().to_string(), expected);
    let mut valid: IndexMap<String, Value> = IndexMap::new();
    valid.insert("a".to_string(), Value::Integer(1));
    assert!(validate_index_map(&valid).is_ok());
    let empty: IndexMap<String, Value> = IndexMap::new();
    assert!(validate_index_map(&empty).is_ok());
    let mut malformed: IndexMap<String, Value> = IndexMap::new();
    malformed.insert("a".to_string(), Value::Nested(Box::new(Aggregate::NewType {
        field: Box::new(Field { value: Value::Integer(1), constraints: vec![Constraint::new(Rule::MultipleOf(0))] }),
        rules: vec![],
    })));
    assert!(!index_map_is_well_formed(&malformed));
    assert_eq!(try_validate_index_map(&malformed).unwrap_err(), Malformed);
}

#[test]
fn index_map_with_a_key_changed_in_place_is_refused() {
    let mut map: IndexMap<String, Value> = IndexMap::new();
    map.insert("a".to_string(), Value::Nested(Box::new(wrapper(5))));
    map.insert("b".to_string(), Value::Nested(Box::new(wrapper(6))));
    map.insert("c".to_string(), Value::Integer(1));
    assert!(index_map_keys_distinct(&map));
    assert!(index_map_is_well_formed(&map));
    if let Some((key, _)) = map.get_index_mut2(1) {
        *key = "a".to_string();
    }
    assert_eq!(map.len(), 3);
    assert!(!index_map_keys_distinct(&map));
    assert!(!index_map_is_well_formed(&map));
    assert!(!map.is_well_formed());
    assert_eq!(try_validate_index_map(&map).unwrap_err(), Malformed);
    let empty: IndexMap<String, Value> = IndexMap::new();
    assert!(index_map_keys_distinct(&empty));
}
