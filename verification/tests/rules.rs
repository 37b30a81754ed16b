use serde_valid::custom::{choose_message, judge, verdict_of, wrap_closure_validation};
use serde_valid::error::Failure;
use serde_valid::evaluate::{
    evaluate, rule_applies, rule_holds, validate_enumerate, validate_multiple_of,
    validate_unique_items, verdict,
};
use serde_valid::pattern::{is_valid_pattern, matched, matches_pattern};
use serde_valid::rule::{Literal, Rule, RuleKind, Verdict};
use serde_valid::value::{Aggregate, Constraint, Field, Value};

fn text(s: &str) -> Value {
    Value::Text(s.to_string())
}

fn numbers(items: &[i128]) -> Value {
    Value::Sequence(items.iter().map(|n| Value::Integer(*n)).collect())
}

#[test]
fn numeric_bounds() {
    assert!(rule_holds(&Rule::Minimum(5), &Value::Integer(5)));
    assert!(!rule_holds(&Rule::Minimum(5), &Value::Integer(4)));
    assert!(rule_holds(&Rule::Maximum(5), &Value::Integer(5)));
    assert!(!rule_holds(&Rule::Maximum(5), &Value::Integer(6)));
    assert!(rule_holds(&Rule::ExclusiveMinimum(5), &Value::Integer(6)));
    assert!(!rule_holds(&Rule::ExclusiveMinimum(5), &Value::Integer(5)));
    assert!(rule_holds(&Rule::ExclusiveMaximum(5), &Value::Integer(4)));
    assert!(!rule_holds(&Rule::ExclusiveMaximum(5), &Value::Integer(5)));
    assert!(rule_holds(&Rule::Minimum(i128::MIN), &Value::Integer(i128::MIN)));
    assert!(rule_holds(&Rule::Maximum(i128::MAX), &Value::Integer(i128::MAX)));
}

#[test]
fn multiples() {
    assert!(validate_multiple_of(10, 5));
    assert!(!validate_multiple_of(10, 3));
    assert!(validate_multiple_of(-10, 5));
    assert!(validate_multiple_of(10, -5));
    assert!(!validate_multiple_of(-10, 3));
    assert!(validate_multiple_of(0, 7));
    assert!(validate_multiple_of(i128::MIN, -1));
    assert!(validate_multiple_of(i128::MIN, 2));
    assert!(!validate_multiple_of(i128::MAX, 2));
    assert!(validate_multiple_of(i128::MIN, i128::MIN));
    assert!(!validate_multiple_of(1, i128::MIN));
    assert!(rule_holds(&Rule::MultipleOf(5), &Value::Integer(15)));
    assert!(!rule_holds(&Rule::MultipleOf(5), &Value::Integer(16)));
}

#[test]
fn lengths_count_characters_and_bytes() {
    assert!(rule_holds(&Rule::MinLength(5), &text("abcde")));
    assert!(!rule_holds(&Rule::MinLength(6), &text("abcde")));
    assert!(rule_holds(&Rule::MaxLength(5), &text("abcde")));
    assert!(!rule_holds(&Rule::MaxLength(4), &text("abcde")));
    assert!(rule_holds(&Rule::MaxLength(2), &text("あ堯")));
    assert!(!rule_holds(&Rule::MaxLength(1), &text("あ堯")));
    assert!(rule_holds(&Rule::MaxLength(3), &text("😍👺👻")));
    assert!(rule_holds(&Rule::MinLength(7), &text("a\u{310}e\u{301}o\u{308}\u{332}")));
    assert!(!rule_holds(&Rule::MaxLength(6), &text("a\u{310}e\u{301}o\u{308}\u{332}")));
    assert!(rule_holds(&Rule::MaxLength(6), &Value::Bytes("あ堯".as_bytes().to_vec())));
    assert!(!rule_holds(&Rule::MaxLength(5), &Value::Bytes("あ堯".as_bytes().to_vec())));
}

#[test]
fn patterns_search_the_text() {
    assert!(matches_pattern(r"^\d{5}$", "12345"));
    assert!(!matches_pattern(r"^\d{5}$", "123456"));
    assert!(matches_pattern(r"\d{5}", "ab123456"));
    assert!(!matches_pattern("abc", "abd"));
    assert!(!matches_pattern("(", "("));
    assert!(is_valid_pattern(r"^\d{5}$"));
    assert!(!is_valid_pattern("("));
    assert!(matched(Some(true)));
    assert!(!matched(Some(false)));
    assert!(!matched(None));
    assert!(rule_holds(&Rule::Pattern(r"^\d{4}-\d{2}$".to_string()), &text("2020-09")));
    assert!(!rule_holds(&Rule::Pattern(r"^\d{4}-\d{2}$".to_string()), &text("2020/09")));
    assert!(rule_holds(&Rule::Pattern("b+".to_string()), &text("aabba")));
}

#[test]
fn items_and_properties_are_counted() {
    assert!(rule_holds(&Rule::MinItems(3), &numbers(&[1, 2, 3])));
    assert!(!rule_holds(&Rule::MinItems(4), &numbers(&[1, 2, 3])));
    assert!(rule_holds(&Rule::MaxItems(3), &numbers(&[1, 2, 3])));
    assert!(!rule_holds(&Rule::MaxItems(2), &numbers(&[1, 2, 3])));
    let mapping = Value::Mapping(vec![
        ("a".to_string(), Value::Integer(1)),
        ("b".to_string(), Value::Integer(2)),
    ]);
    assert!(rule_holds(&Rule::MinProperties(2), &mapping));
    assert!(!rule_holds(&Rule::MinProperties(3), &mapping));
    assert!(rule_holds(&Rule::MaxProperties(2), &mapping));
    assert!(!rule_holds(&Rule::MaxProperties(1), &mapping));
}

#[test]
fn unique_items_compare_every_pair() {
    assert!(rule_holds(&Rule::UniqueItems, &numbers(&[1, 2, 3])));
    assert!(!rule_holds(&Rule::UniqueItems, &numbers(&[1, 2, 1])));
    assert!(rule_holds(&Rule::UniqueItems, &numbers(&[])));
    let nested = |items: &[i128]| numbers(items);
    assert!(validate_unique_items(&vec![nested(&[1, 2]), nested(&[2, 1]), nested(&[1])]));
    assert!(!validate_unique_items(&vec![nested(&[1, 2]), nested(&[3]), nested(&[1, 2])]));
    assert!(!validate_unique_items(&vec![text("a"), text("b"), text("b")]));
    assert!(validate_unique_items(&vec![text("1"), Value::Integer(1)]));
    assert!(!validate_unique_items(&vec![
        Value::Optional(None),
        Value::Optional(Some(Box::new(Value::Integer(1)))),
        Value::Optional(None),
    ]));
}

#[test]
fn enumerations_test_membership() {
    let literals = vec![Literal::Integer(5), Literal::Integer(10), Literal::Text("15".to_string())];
    assert!(validate_enumerate(&Value::Integer(10), &literals));
    assert!(!validate_enumerate(&Value::Integer(15), &literals));
    assert!(validate_enumerate(&text("15"), &literals));
    assert!(!validate_enumerate(&text("5"), &literals));
    assert!(!validate_enumerate(&Value::Integer(10), &vec![]));
    assert!(rule_holds(&Rule::Enumerate(vec![Literal::Integer(1)]), &Value::Integer(1)));
}

#[test]
fn custom_rules_hold_when_the_predicate_passed() {
    assert!(rule_holds(&Rule::Custom(Verdict::Pass), &Value::Integer(1)));
    assert!(!rule_holds(&Rule::Custom(Verdict::Fail("no".to_string())), &Value::Integer(1)));
}

#[test]
fn optional_values_are_judged_by_what_they_wrap() {
    let present = Value::Optional(Some(Box::new(Value::Integer(5))));
    assert!(rule_holds(&Rule::Maximum(5), &present));
    assert!(!rule_holds(&Rule::Maximum(4), &present));
    assert!(rule_holds(&Rule::Maximum(4), &Value::Optional(None)));
    assert!(rule_holds(&Rule::Pattern("x".to_string()), &Value::Optional(None)));
    assert!(rule_holds(&Rule::Custom(Verdict::Fail("no".to_string())), &Value::Optional(None)));
}

#[test]
fn rules_do_not_hold_of_values_of_another_type() {
    assert!(!rule_holds(&Rule::Maximum(5), &text("1")));
    assert!(!rule_holds(&Rule::MaxLength(5), &Value::Integer(1)));
    assert!(!rule_holds(&Rule::MaxItems(5), &text("1")));
    assert!(!rule_holds(&Rule::UniqueItems, &Value::Integer(1)));
    assert!(!rule_holds(&Rule::MaxProperties(5), &numbers(&[1])));
    assert!(!rule_holds(&Rule::Pattern("1".to_string()), &Value::Integer(1)));
}

#[test]
fn rules_apply_to_values_of_their_type() {
    assert!(rule_applies(&Rule::Maximum(5), &Value::Integer(1)));
    assert!(rule_applies(&Rule::Enumerate(vec![]), &Value::Integer(1)));
    assert!(!rule_applies(&Rule::MaxLength(5), &Value::Integer(1)));
    assert!(rule_applies(&Rule::MaxLength(5), &text("")));
    assert!(rule_applies(&Rule::Pattern("a".to_string()), &text("")));
    assert!(rule_applies(&Rule::MaxLength(5), &Value::Bytes(vec![])));
    assert!(!rule_applies(&Rule::Pattern("a".to_string()), &Value::Bytes(vec![])));
    assert!(rule_applies(&Rule::UniqueItems, &numbers(&[])));
    assert!(!rule_applies(&Rule::MaxProperties(1), &numbers(&[])));
    assert!(rule_applies(&Rule::MaxProperties(1), &Value::Mapping(vec![])));
    assert!(rule_applies(&Rule::MaxLength(5), &Value::Optional(None)));
    assert!(rule_applies(&Rule::MaxLength(5), &Value::Optional(Some(Box::new(text("a"))))));
    assert!(!rule_applies(&Rule::MaxLength(5), &Value::Optional(Some(Box::new(Value::Integer(1))))));
    let nested = Value::Nested(Box::new(Aggregate::NewType {
        field: Box::new(Field { value: Value::Integer(1), constraints: vec![] }),
        rules: vec![],
    }));
    assert!(rule_applies(&Rule::Custom(Verdict::Pass), &nested));
    assert!(!rule_applies(&Rule::Maximum(1), &nested));
}

#[test]
fn default_messages() {
    let message = |rule: Rule| rule.to_default_message();
    assert_eq!(message(Rule::Minimum(-3)), "The number must be `>= -3`.");
    assert_eq!(message(Rule::Maximum(4)), "The number must be `<= 4`.");
    assert_eq!(message(Rule::ExclusiveMinimum(0)), "The number must be `> 0`.");
    assert_eq!(message(Rule::ExclusiveMaximum(100)), "The number must be `< 100`.");
    assert_eq!(message(Rule::MultipleOf(5)), "The value must be multiple of `5`.");
    assert_eq!(message(Rule::MinLength(5)), "The length of the value must be `>= 5`.");
    assert_eq!(message(Rule::MaxLength(12)), "The length of the value must be `<= 12`.");
    assert_eq!(
        message(Rule::Pattern(r"^\d{5}$".to_string())),
        "The value must match the pattern of \"^\\\\d{5}$\"."
    );
    assert_eq!(message(Rule::MinItems(4)), "The length of the items must be `>= 4`.");
    assert_eq!(message(Rule::MaxItems(2)), "The length of the items must be `<= 2`.");
    assert_eq!(message(Rule::UniqueItems), "The items must be unique.");
    assert_eq!(message(Rule::MinProperties(1)), "The size of the properties must be `>= 1`.");
    assert_eq!(message(Rule::MaxProperties(9)), "The size of the properties must be `<= 9`.");
    assert_eq!(
        message(Rule::Enumerate(vec![
            Literal::Integer(5),
            Literal::Integer(-10),
            Literal::Text("a\"b".to_string()),
        ])),
        "The value must be in [5, -10, \"a\\\"b\"]."
    );
    assert_eq!(message(Rule::Enumerate(vec![])), "The value must be in [].");
    assert_eq!(message(Rule::Custom(Verdict::Fail("Rule error.".to_string()))), "Rule error.");
    assert_eq!(message(Rule::Custom(Verdict::Pass)), "");
    assert_eq!(
        message(Rule::Minimum(i128::MIN)),
        "The number must be `>= -170141183460469231731687303715884105728`."
    );
    assert_eq!(
        message(Rule::Maximum(i128::MAX)),
        "The number must be `<= 170141183460469231731687303715884105727`."
    );
    assert_eq!(message(Rule::Minimum(0)), "The number must be `>= 0`.");
    assert_eq!(message(Rule::MaxItems(usize::MAX)), format!("The length of the items must be `<= {}`.", usize::MAX));
}

#[test]
fn kinds() {
    assert_eq!(Rule::Maximum(4).kind(), RuleKind::Maximum);
    assert_eq!(Rule::UniqueItems.kind(), RuleKind::UniqueItems);
    assert_eq!(Rule::Custom(Verdict::Pass).kind(), RuleKind::Custom);
    assert_eq!(Rule::Pattern("a".to_string()).kind(), RuleKind::Pattern);
}

#[test]
fn evaluation_reports_the_rule_and_its_default_message() {
    assert!(evaluate(&Rule::Maximum(4), &Value::Integer(4)).is_ok());
    let failure = evaluate(&Rule::Maximum(4), &Value::Integer(5)).unwrap_err();
    assert!(failure.rule.equals(&Rule::Maximum(4)));
    assert_eq!(failure.message, "The number must be `<= 4`.");
    let again = evaluate(&Rule::Maximum(4), &Value::Integer(5)).unwrap_err();
    assert!(again.rule.equals(&failure.rule));
    assert_eq!(again.message, failure.message);
    assert!(verdict(&Rule::UniqueItems, true).is_ok());
    assert_eq!(verdict(&Rule::UniqueItems, false).unwrap_err().message, "The items must be unique.");
}

fn reject(_value: &i32) -> Result<(), Failure> {
    Err(Failure::custom("Rule error.".to_string()))
}

fn accept(_value: &i32) -> Result<(), Failure> {
    Ok(())
}

#[test]
fn predicates_of_the_caller() {
    assert!(wrap_closure_validation(&1, accept).is_ok());
    assert_eq!(wrap_closure_validation(&1, reject).unwrap_err().message, "Rule error.");
    let limit = 3;
    let result = wrap_closure_validation(&5, |value| {
        if *value <= limit {
            Ok(())
        } else {
            Err(Failure::custom(format!("{} is over {}", value, limit)))
        }
    });
    assert_eq!(result.unwrap_err().message, "5 is over 3");
    assert!(matches!(judge(&1, accept), Verdict::Pass));
    assert!(judge(&1, reject).equals(&Verdict::Fail("Rule error.".to_string())));
    assert!(verdict_of(Ok(())).equals(&Verdict::Pass));
    assert!(verdict_of(Err(Failure::custom("no".to_string()))).equals(&Verdict::Fail("no".to_string())));
    let failure = Failure::custom("no".to_string());
    assert!(failure.rule.equals(&Rule::Custom(Verdict::Fail("no".to_string()))));
    assert_eq!(failure.duplicate().message, "no");
}

fn min_error_message(_rule: &Rule) -> String {
    "this is min custom message_fn.".to_string()
}

#[test]
fn message_precedence() {
    let rule = Rule::MinItems(4);
    let none: Option<fn(&Rule) -> String> = None;
    assert_eq!(
        choose_message(&rule, Some("literal".to_string()), Some(min_error_message)),
        Some("literal".to_string())
    );
    assert_eq!(choose_message(&rule, Some("literal".to_string()), none), Some("literal".to_string()));
    assert_eq!(
        choose_message(&rule, None, Some(min_error_message)),
        Some("this is min custom message_fn.".to_string())
    );
    assert_eq!(choose_message(&rule, None, none), None);
    let constraint = Constraint::new(Rule::MinItems(4));
    assert!(constraint.message.is_none());
    let constraint = Constraint::with_message(Rule::MinItems(4), "m".to_string());
    assert_eq!(constraint.message, Some("m".to_string()));
    assert!(constraint.rule.equals(&Rule::MinItems(4)));
}
