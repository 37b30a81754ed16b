use serde_valid::error::Errors;
use serde_valid::fitness::{try_validate, Malformed};
use serde_valid::rule::{Literal, Rule, Verdict};
use serde_valid::validate::{validate_aggregate, validate_field, validate_value};
use serde_valid::value::{Aggregate, Constraint, Field, Value};
use serde_valid::Validate;

fn number(value: i128, rules: Vec<Rule>) -> Field {
    Field {
        value: Value::Integer(value),
        constraints: rules.into_iter().map(Constraint::new).collect(),
    }
}

fn named(fields: Vec<(&str, Field)>) -> Aggregate {
    Aggregate::Named {
        fields: fields
            .into_iter()
            .map(|(name, field)| (name.to_string(), field))
            .collect(),
        rules: vec![],
    }
}

fn text_of(result: Result<(), Errors>) -> String {
    result.unwrap_err().to_string()
}

#[test]
fn named_field_over_maximum() {
    let aggregate = named(vec![("val", number(5, vec![Rule::Maximum(4)]))]);
    assert_eq!(
        text_of(validate_aggregate(&aggregate)),
        "{\"errors\":[],\"properties\":{\"val\":{\"errors\":[\"The number must be `<= 4`.\"]}}}"
    );
}

#[test]
fn indexed_fields_both_over_maximum() {
    let aggregate = Aggregate::Indexed {
        fields: vec![
            (0, number(5, vec![Rule::Maximum(4)])),
            (1, number(4, vec![Rule::Maximum(3)])),
        ],
        rules: vec![],
    };
    assert_eq!(
        text_of(validate_aggregate(&aggregate)),
        "{\"errors\":[],\"items\":{\"0\":{\"errors\":[\"The number must be `<= 4`.\"]},\"1\":{\"errors\":[\"The number must be `<= 3`.\"]}}}"
    );
}

#[test]
fn array_of_aggregates_reports_only_the_failing_index() {
    let items = [
        named(vec![("val", number(1, vec![Rule::Maximum(4)]))]),
        named(vec![("val", number(5, vec![Rule::Maximum(4)]))]),
        named(vec![("val", number(2, vec![Rule::Maximum(4)]))]),
    ];
    let inner = text_of(validate_aggregate(&items[1]));
    assert_eq!(
        text_of(items.validate()),
        format!("{{\"errors\":[],\"items\":{{\"1\":{}}}}}", inner)
    );
    let tree = items.validate().unwrap_err();
    match tree {
        Errors::Array { errors, items } => {
            assert!(errors.is_empty());
            assert_eq!(items.len(), 1);
            assert_eq!(items[0].0, 1);
        }
        _ => panic!("an array yields an indexed tree"),
    }
}

#[test]
fn vector_of_aggregates_reports_by_position() {
    let items = vec![
        named(vec![("val", number(9, vec![Rule::Maximum(4)]))]),
        named(vec![("val", number(1, vec![Rule::Maximum(4)]))]),
        named(vec![("val", number(7, vec![Rule::Maximum(4)]))]),
    ];
    let tree = items.validate().unwrap_err();
    match tree {
        Errors::Array { errors, items } => {
            assert!(errors.is_empty());
            let keys: Vec<usize> = items.iter().map(|entry| entry.0).collect();
            assert_eq!(keys, vec![0, 2]);
        }
        _ => panic!("a vector yields an indexed tree"),
    }
    let valid: Vec<Aggregate> = vec![named(vec![("val", number(1, vec![Rule::Maximum(4)]))])];
    assert!(valid.validate().is_ok());
    let empty: Vec<Aggregate> = vec![];
    assert!(empty.validate().is_ok());
}

#[test]
fn optional_value_delegates_or_passes() {
    let present = Some(named(vec![("val", number(5, vec![Rule::Maximum(4)]))]));
    assert!(present.validate().is_err());
    let absent: Option<Aggregate> = None;
    assert!(absent.validate().is_ok());
}

#[test]
fn cross_field_rule_without_target_reports_on_the_aggregate() {
    let aggregate = Aggregate::Named {
        fields: vec![
            ("val1".to_string(), Field { value: Value::Text("val1".to_string()), constraints: vec![] }),
            ("val2".to_string(), number(1, vec![])),
        ],
        rules: vec![(None, Verdict::Fail("Rule error.".to_string()))],
    };
    assert_eq!(
        text_of(validate_aggregate(&aggregate)),
        "{\"errors\":[\"Rule error.\"]}"
    );
}

#[test]
fn cross_field_rule_with_target_reports_on_the_field() {
    let aggregate = Aggregate::Named {
        fields: vec![
            ("a".to_string(), number(5, vec![Rule::Maximum(4)])),
            ("b".to_string(), number(1, vec![])),
        ],
        rules: vec![
            (Some("a".to_string()), Verdict::Fail("a and b disagree".to_string())),
            (Some("c".to_string()), Verdict::Fail("c is missing".to_string())),
            (Some("b".to_string()), Verdict::Pass),
        ],
    };
    assert_eq!(
        text_of(validate_aggregate(&aggregate)),
        "{\"errors\":[],\"properties\":{\"a\":{\"errors\":[\"The number must be `<= 4`.\",\"a and b disagree\"]},\"c\":{\"errors\":[\"c is missing\"]}}}"
    );
}

#[test]
fn two_failing_rules_give_two_failures() {
    let field = number(7, vec![Rule::Maximum(4), Rule::MultipleOf(2), Rule::Minimum(0)]);
    let tree = validate_field(&field).unwrap_err();
    match &tree {
        Errors::NewType { errors } => {
            assert_eq!(errors.len(), 2);
            assert_eq!(errors[0].message, "The number must be `<= 4`.");
            assert_eq!(errors[1].message, "The value must be multiple of `2`.");
        }
        _ => panic!("a leaf field yields a flat tree"),
    }
    assert_eq!(
        tree.to_string(),
        "{\"errors\":[\"The number must be `<= 4`.\",\"The value must be multiple of `2`.\"]}"
    );
}

#[test]
fn absent_optional_field_never_fails() {
    let field = Field {
        value: Value::Optional(None),
        constraints: vec![
            Constraint::new(Rule::Maximum(4)),
            Constraint::new(Rule::MinLength(3)),
            Constraint::new(Rule::UniqueItems),
            Constraint::new(Rule::Custom(Verdict::Fail("never reported".to_string()))),
        ],
    };
    assert!(validate_field(&field).is_ok());
    let aggregate = named(vec![("maybe", field)]);
    assert_eq!(try_validate(&aggregate).unwrap().is_ok(), true);
}

#[test]
fn present_optional_field_is_judged_by_its_value() {
    let field = Field {
        value: Value::Optional(Some(Box::new(Value::Optional(Some(Box::new(Value::Integer(5))))))),
        constraints: vec![Constraint::new(Rule::Maximum(4))],
    };
    assert_eq!(
        text_of(validate_field(&field)),
        "{\"errors\":[\"The number must be `<= 4`.\"]}"
    );
}

#[test]
fn single_value_wrapper_is_flat() {
    let aggregate = Aggregate::NewType {
        field: Box::new(number(5, vec![Rule::Maximum(4)])),
        rules: vec![],
    };
    let tree = validate_aggregate(&aggregate).unwrap_err();
    assert!(matches!(tree, Errors::NewType { .. }));
    assert_eq!(tree.to_string(), "{\"errors\":[\"The number must be `<= 4`.\"]}");
}

#[test]
fn single_value_wrapper_appends_its_own_failures() {
    let aggregate = Aggregate::NewType {
        field: Box::new(number(5, vec![Rule::Maximum(4)])),
        rules: vec![Verdict::Pass, Verdict::Fail("odd".to_string())],
    };
    assert_eq!(
        text_of(validate_aggregate(&aggregate)),
        "{\"errors\":[\"The number must be `<= 4`.\",\"odd\"]}"
    );
    let only_own = Aggregate::NewType {
        field: Box::new(number(1, vec![Rule::Maximum(4)])),
        rules: vec![Verdict::Fail("odd".to_string())],
    };
    assert_eq!(text_of(validate_aggregate(&only_own)), "{\"errors\":[\"odd\"]}");
}

#[test]
fn valid_named_aggregate_is_ok() {
    let aggregate = Aggregate::Named {
        fields: vec![
            ("a".to_string(), number(1, vec![Rule::Maximum(4), Rule::Minimum(0)])),
            ("b".to_string(), Field { value: Value::Text("abc".to_string()), constraints: vec![Constraint::new(Rule::MaxLength(3))] }),
        ],
        rules: vec![(None, Verdict::Pass)],
    };
    assert!(validate_aggregate(&aggregate).is_ok());
    assert!(matches!(try_validate(&aggregate), Ok(Ok(()))));
}

#[test]
fn nested_aggregate_tree_is_the_entry() {
    let inner = named(vec![
        ("x", number(5, vec![Rule::Maximum(4)])),
        ("y", number(1, vec![Rule::Maximum(4)])),
    ]);
    let inner_text = text_of(validate_aggregate(&inner));
    assert_eq!(
        inner_text,
        "{\"errors\":[],\"properties\":{\"x\":{\"errors\":[\"The number must be `<= 4`.\"]}}}"
    );
    let outer = named(vec![
        ("first", number(1, vec![Rule::Maximum(4)])),
        ("inner", Field { value: Value::Nested(Box::new(inner)), constraints: vec![] }),
    ]);
    assert_eq!(
        text_of(validate_aggregate(&outer)),
        format!("{{\"errors\":[],\"properties\":{{\"inner\":{}}}}}", inner_text)
    );
}

#[test]
fn own_failures_come_before_nested_failures() {
    let inner = Aggregate::Named {
        fields: vec![("x".to_string(), number(5, vec![Rule::Maximum(4)]))],
        rules: vec![(None, Verdict::Fail("inner rule".to_string()))],
    };
    let outer = named(vec![(
        "inner",
        Field {
            value: Value::Nested(Box::new(inner)),
            constraints: vec![Constraint::new(Rule::Custom(Verdict::Fail("outer rule".to_string())))],
        },
    )]);
    assert_eq!(
        text_of(validate_aggregate(&outer)),
        "{\"errors\":[],\"properties\":{\"inner\":{\"errors\":[\"outer rule\",\"inner rule\"],\"properties\":{\"x\":{\"errors\":[\"The number must be `<= 4`.\"]}}}}}"
    );
}

#[test]
fn sequence_value_reports_failing_items_by_position() {
    let item = |n: i128| Value::Nested(Box::new(named(vec![("val", number(n, vec![Rule::Maximum(4)]))])));
    let value = Value::Sequence(vec![item(1), item(5), item(2), item(9)]);
    let tree = validate_value(&value).unwrap_err();
    match &tree {
        Errors::Array { errors, items } => {
            assert!(errors.is_empty());
            assert_eq!(items.iter().map(|entry| entry.0).collect::<Vec<usize>>(), vec![1, 3]);
        }
        _ => panic!("a sequence yields an indexed tree"),
    }
    let field = Field {
        value,
        constraints: vec![Constraint::new(Rule::MaxItems(3))],
    };
    assert_eq!(
        text_of(validate_field(&field)),
        "{\"errors\":[\"The length of the items must be `<= 3`.\"],\"items\":{\"1\":{\"errors\":[],\"properties\":{\"val\":{\"errors\":[\"The number must be `<= 4`.\"]}}},\"3\":{\"errors\":[],\"properties\":{\"val\":{\"errors\":[\"The number must be `<= 4`.\"]}}}}}"
    );
}

#[test]
fn mapping_value_reports_failing_values_by_key() {
    let item = |n: i128| Value::Nested(Box::new(Aggregate::NewType {
        field: Box::new(number(n, vec![Rule::Minimum(0)])),
        rules: vec![],
    }));
    let value = Value::Mapping(vec![
        ("good".to_string(), item(1)),
        ("bad \"one\"".to_string(), item(-1)),
    ]);
    assert_eq!(
        text_of(validate_value(&value)),
        "{\"errors\":[],\"properties\":{\"bad \\\"one\\\"\":{\"errors\":[\"The number must be `>= 0`.\"]}}}"
    );
}

#[test]
fn leaf_values_are_valid() {
    assert!(validate_value(&Value::Integer(1)).is_ok());
    assert!(validate_value(&Value::Text("x".to_string())).is_ok());
    assert!(validate_value(&Value::Bytes(vec![1, 2])).is_ok());
    assert!(validate_value(&Value::Optional(None)).is_ok());
    assert!(validate_value(&Value::Sequence(vec![Value::Integer(1)])).is_ok());
    assert!(validate_value(&Value::Mapping(vec![])).is_ok());
}

#[test]
fn validation_is_idempotent() {
    let aggregate = Aggregate::Named {
        fields: vec![
            ("a".to_string(), number(5, vec![Rule::Maximum(4), Rule::Enumerate(vec![Literal::Integer(1), Literal::Integer(2)])])),
            ("b".to_string(), Field { value: Value::Text("abcd".to_string()), constraints: vec![Constraint::new(Rule::MaxLength(3))] }),
        ],
        rules: vec![(None, Verdict::Fail("no".to_string()))],
    };
    let first = validate_aggregate(&aggregate).unwrap_err();
    let second = validate_aggregate(&aggregate).unwrap_err();
    assert_eq!(first.to_string(), second.to_string());
    assert_eq!(
        first.to_string(),
        "{\"errors\":[\"no\"],\"properties\":{\"a\":{\"errors\":[\"The number must be `<= 4`.\",\"The value must be in [1, 2].\"]},\"b\":{\"errors\":[\"The length of the value must be `<= 3`.\"]}}}"
    );
}

#[test]
fn caller_message_replaces_the_default() {
    let field = Field {
        value: Value::Sequence(vec![Value::Integer(1), Value::Integer(2), Value::Integer(3)]),
        constraints: vec![
            Constraint::with_message(Rule::MinItems(4), "this is min custom message_fn.".to_string()),
            Constraint::with_message(Rule::MaxItems(2), "this is max custom message.".to_string()),
        ],
    };
    let aggregate = named(vec![("val", field)]);
    assert_eq!(
        text_of(validate_aggregate(&aggregate)),
        "{\"errors\":[],\"properties\":{\"val\":{\"errors\":[\"this is min custom message_fn.\",\"this is max custom message.\"]}}}"
    );
}

#[test]
fn malformed_aggregates_are_refused() {
    let zero_divisor = named(vec![("a", number(4, vec![Rule::MultipleOf(0)]))]);
    assert_eq!(try_validate(&zero_divisor).unwrap_err(), Malformed);
    let bad_pattern = named(vec![(
        "a",
        Field { value: Value::Text("x".to_string()), constraints: vec![Constraint::new(Rule::Pattern("(".to_string()))] },
    )]);
    assert_eq!(try_validate(&bad_pattern).unwrap_err(), Malformed);
    let wrong_type = named(vec![("a", number(4, vec![Rule::MaxLength(3)]))]);
    assert_eq!(try_validate(&wrong_type).unwrap_err(), Malformed);
    let twice = named(vec![("a", number(4, vec![])), ("a", number(5, vec![]))]);
    assert_eq!(try_validate(&twice).unwrap_err(), Malformed);
    let twice_indexed = Aggregate::Indexed {
        fields: vec![(0, number(4, vec![])), (0, number(5, vec![]))],
        rules: vec![],
    };
    assert_eq!(try_validate(&twice_indexed).unwrap_err(), Malformed);
    let twice_in_mapping = named(vec![(
        "m",
        Field {
            value: Value::Mapping(vec![("k".to_string(), Value::Integer(1)), ("k".to_string(), Value::Integer(2))]),
            constraints: vec![],
        },
    )]);
    assert_eq!(try_validate(&twice_in_mapping).unwrap_err(), Malformed);
    let nested_bad = named(vec![(
        "outer",
        Field { value: Value::Sequence(vec![Value::Nested(Box::new(zero_divisor))]), constraints: vec![] },
    )]);
    assert_eq!(try_validate(&nested_bad).unwrap_err(), Malformed);
}

#[test]
fn well_formed_aggregates_are_validated() {
    let aggregate = named(vec![("val", number(5, vec![Rule::Maximum(4)]))]);
    let result = try_validate(&aggregate).unwrap();
    assert_eq!(
        result.unwrap_err().to_string(),
        "{\"errors\":[],\"properties\":{\"val\":{\"errors\":[\"The number must be `<= 4`.\"]}}}"
    );
}
