use serde_valid::binding::{
    classify_message, classify_validation, collect_renames, conclude, field_key, find_rename,
    find_rename_in_attribute, find_rename_in_item, gather, plan_custom, read_message_part,
    rule_form, rule_name, rule_named, ArgumentForm, ArgumentHead, Attribute, BindingError, CustomItem,
    CustomPlan, DeclaredField, MessageKind, MetaForm, MetaValue, RenameItem, SerdeItem,
};
use serde_valid::rule::RuleKind;

fn head(name: &str, form: MetaForm) -> ArgumentHead {
    ArgumentHead { name: name.to_string(), form }
}

#[test]
fn every_rule_has_its_name_and_form() {
    let table = [
        ("minimum", RuleKind::Minimum, MetaForm::NameValue),
        ("maximum", RuleKind::Maximum, MetaForm::NameValue),
        ("exclusive_minimum", RuleKind::ExclusiveMinimum, MetaForm::NameValue),
        ("exclusive_maximum", RuleKind::ExclusiveMaximum, MetaForm::NameValue),
        ("multiple_of", RuleKind::MultipleOf, MetaForm::NameValue),
        ("min_length", RuleKind::MinLength, MetaForm::NameValue),
        ("max_length", RuleKind::MaxLength, MetaForm::NameValue),
        ("pattern", RuleKind::Pattern, MetaForm::NameValue),
        ("min_items", RuleKind::MinItems, MetaForm::NameValue),
        ("max_items", RuleKind::MaxItems, MetaForm::NameValue),
        ("unique_items", RuleKind::UniqueItems, MetaForm::Path),
        ("min_properties", RuleKind::MinProperties, MetaForm::NameValue),
        ("max_properties", RuleKind::MaxProperties, MetaForm::NameValue),
        ("enumerate", RuleKind::Enumerate, MetaForm::List),
        ("custom", RuleKind::Custom, MetaForm::List),
    ];
    for (name, kind, form) in table {
        assert_eq!(rule_named(name), Some(kind));
        assert_eq!(rule_name(kind), name);
        assert_eq!(rule_form(kind), form);
        assert_eq!(classify_validation(name, form), Ok(kind));
    }
    assert_eq!(rule_named("minimums"), None);
    assert_eq!(rule_named(""), None);
    assert_eq!(rule_named("Minimum"), None);
}

#[test]
fn a_rule_in_another_form_is_refused() {
    assert_eq!(
        classify_validation("unique_items", MetaForm::NameValue),
        Err(BindingError::PathValidationTakesNothing(RuleKind::UniqueItems))
    );
    assert_eq!(
        classify_validation("unique_items", MetaForm::List),
        Err(BindingError::PathValidationTakesNothing(RuleKind::UniqueItems))
    );
    assert_eq!(
        classify_validation("enumerate", MetaForm::Path),
        Err(BindingError::ListValidationNeedsItems(RuleKind::Enumerate))
    );
    assert_eq!(
        classify_validation("custom", MetaForm::NameValue),
        Err(BindingError::ListValidationNeedsItems(RuleKind::Custom))
    );
    assert_eq!(
        classify_validation("maximum", MetaForm::Path),
        Err(BindingError::NameValueValidationNeedsValue(RuleKind::Maximum))
    );
    assert_eq!(
        classify_validation("pattern", MetaForm::List),
        Err(BindingError::NameValueValidationNeedsValue(RuleKind::Pattern))
    );
    assert_eq!(classify_validation("maxmum", MetaForm::NameValue), Err(BindingError::UnknownValidationType));
}

#[test]
fn messages_are_literals_or_functions() {
    assert_eq!(classify_message("message", MetaForm::NameValue), Ok(MessageKind::Literal));
    assert_eq!(classify_message("message_fn", MetaForm::List), Ok(MessageKind::Function));
    assert_eq!(classify_message("message", MetaForm::List), Err(BindingError::NameValueMessageNeedsValue));
    assert_eq!(classify_message("message", MetaForm::Path), Err(BindingError::NameValueMessageNeedsValue));
    assert_eq!(classify_message("message_fn", MetaForm::Path), Err(BindingError::ListMessageNeedsItems));
    assert_eq!(classify_message("message_fn", MetaForm::NameValue), Err(BindingError::ListMessageNeedsItems));
    assert_eq!(classify_message("msg", MetaForm::NameValue), Err(BindingError::UnknownMessageType));
}

#[test]
fn arguments_after_the_rule() {
    assert_eq!(read_message_part(&vec![]).unwrap_err(), BindingError::ValidationTypeRequired);
    let one = read_message_part(&vec![head("maximum", MetaForm::NameValue)]).unwrap();
    assert_eq!(one.message, None);
    assert!(one.errors.is_empty());
    let two = read_message_part(&vec![
        head("maximum", MetaForm::NameValue),
        head("message", MetaForm::NameValue),
    ])
    .unwrap();
    assert_eq!(two.message, Some(MessageKind::Literal));
    assert!(two.errors.is_empty());
    let with_function = read_message_part(&vec![
        head("maximum", MetaForm::NameValue),
        head("message_fn", MetaForm::List),
    ])
    .unwrap();
    assert_eq!(with_function.message, Some(MessageKind::Function));
    let bad_message = read_message_part(&vec![
        head("maximum", MetaForm::NameValue),
        head("massage", MetaForm::NameValue),
    ])
    .unwrap();
    assert_eq!(bad_message.message, None);
    assert_eq!(bad_message.errors, vec![BindingError::UnknownMessageType]);
    let four = read_message_part(&vec![
        head("maximum", MetaForm::NameValue),
        head("message", MetaForm::NameValue),
        head("a", MetaForm::Path),
        head("b", MetaForm::Path),
    ])
    .unwrap();
    assert_eq!(four.message, None);
    assert_eq!(
        four.errors,
        vec![BindingError::TooManyListItems(2), BindingError::TooManyListItems(3)]
    );
}

#[test]
fn a_declaration_is_sound_only_without_errors() {
    assert_eq!(conclude::<i32, BindingError>(Ok(1), vec![]), Ok(1));
    assert_eq!(
        conclude(Ok(1), vec![BindingError::UnknownMessageType]),
        Err(vec![BindingError::UnknownMessageType])
    );
    assert_eq!(
        conclude::<i32, BindingError>(Err(vec![BindingError::UnknownValidationType]), vec![BindingError::TooManyListItems(2)]),
        Err(vec![BindingError::TooManyListItems(2), BindingError::UnknownValidationType])
    );
    assert_eq!(
        conclude::<i32, BindingError>(Err(vec![BindingError::UnknownValidationType]), vec![]),
        Err(vec![BindingError::UnknownValidationType])
    );
}

#[test]
fn fields_are_gathered_or_all_errors_are() {
    assert_eq!(gather::<i32, BindingError>(vec![Ok(1), Ok(2), Ok(3)]), Ok(vec![1, 2, 3]));
    assert_eq!(gather::<i32, BindingError>(vec![]), Ok(vec![]));
    assert_eq!(
        gather(vec![
            Ok(1),
            Err(vec![BindingError::UnknownValidationType, BindingError::TooManyListItems(2)]),
            Ok(3),
            Err(vec![BindingError::ValidationTypeRequired]),
        ]),
        Err(vec![
            BindingError::UnknownValidationType,
            BindingError::TooManyListItems(2),
            BindingError::ValidationTypeRequired,
        ])
    );
    assert_eq!(gather::<i32, BindingError>(vec![Ok(1), Err(vec![])]), Ok(vec![1]));
}

fn item(form: ArgumentForm, arguments: Vec<ArgumentForm>) -> CustomItem {
    CustomItem { form, arguments }
}

#[test]
fn custom_rules_name_one_function() {
    assert_eq!(
        plan_custom(&vec![item(ArgumentForm::Path, vec![])]),
        Ok(CustomPlan { function_at: 0, with_arguments: false })
    );
    assert_eq!(
        plan_custom(&vec![item(ArgumentForm::List, vec![ArgumentForm::Path, ArgumentForm::Literal])]),
        Ok(CustomPlan { function_at: 0, with_arguments: true })
    );
    assert_eq!(plan_custom(&vec![]), Err(BindingError::CustomFunctionRequired));
    assert_eq!(
        plan_custom(&vec![item(ArgumentForm::Path, vec![]), item(ArgumentForm::Path, vec![])]),
        Err(BindingError::DuplicatedCustomFunction(1))
    );
    assert_eq!(
        plan_custom(&vec![item(ArgumentForm::Path, vec![]), item(ArgumentForm::List, vec![ArgumentForm::List])]),
        Err(BindingError::DuplicatedCustomFunction(1))
    );
    assert_eq!(
        plan_custom(&vec![item(ArgumentForm::NameValue, vec![]), item(ArgumentForm::Literal, vec![])]),
        Err(BindingError::UnexpectedNameValueArgument(0))
    );
    assert_eq!(
        plan_custom(&vec![item(ArgumentForm::Path, vec![]), item(ArgumentForm::Literal, vec![])]),
        Err(BindingError::UnexpectedLiteralArgument(1))
    );
    assert_eq!(
        plan_custom(&vec![item(
            ArgumentForm::List,
            vec![ArgumentForm::Path, ArgumentForm::NameValue, ArgumentForm::List]
        )]),
        Err(BindingError::UnexpectedNameValueArgument(1))
    );
    assert_eq!(
        plan_custom(&vec![item(ArgumentForm::List, vec![ArgumentForm::Literal, ArgumentForm::List])]),
        Err(BindingError::UnexpectedListArgument(1))
    );
}

fn text(s: &str) -> MetaValue {
    MetaValue::Text(s.to_string())
}

fn serde(items: Vec<SerdeItem>) -> Attribute {
    Attribute { name: "serde".to_string(), items: Some(items) }
}

#[test]
fn renames_are_read_from_serde_attributes() {
    assert_eq!(find_rename_in_item(&SerdeItem::NameValue { value: text("other") }), Some("other".to_string()));
    assert_eq!(find_rename_in_item(&SerdeItem::NameValue { value: MetaValue::Other }), None);
    assert_eq!(find_rename_in_item(&SerdeItem::Other), None);
    let list = SerdeItem::List {
        items: vec![
            RenameItem::NameValue { name: "serialize".to_string(), value: text("ser") },
            RenameItem::Other,
            RenameItem::NameValue { name: "deserialize".to_string(), value: MetaValue::Other },
            RenameItem::NameValue { name: "deserialize".to_string(), value: text("de") },
            RenameItem::NameValue { name: "deserialize".to_string(), value: text("late") },
        ],
    };
    assert_eq!(find_rename_in_item(&list), Some("de".to_string()));
    assert_eq!(find_rename_in_item(&SerdeItem::List { items: vec![] }), None);
    assert_eq!(
        find_rename_in_attribute(&serde(vec![SerdeItem::Other, SerdeItem::NameValue { value: text("a") }, SerdeItem::NameValue { value: text("b") }])),
        Some("a".to_string())
    );
    assert_eq!(
        find_rename_in_attribute(&Attribute { name: "validate".to_string(), items: Some(vec![SerdeItem::NameValue { value: text("a") }]) }),
        None
    );
    assert_eq!(find_rename_in_attribute(&Attribute { name: "serde".to_string(), items: None }), None);
    assert_eq!(
        find_rename(&vec![
            serde(vec![SerdeItem::NameValue { value: text("first") }]),
            Attribute { name: "doc".to_string(), items: None },
            serde(vec![SerdeItem::NameValue { value: text("last") }]),
            serde(vec![SerdeItem::Other]),
        ]),
        Some("last".to_string())
    );
    assert_eq!(find_rename(&vec![]), None);
}

#[test]
fn fields_report_under_the_name_they_are_given() {
    let fields = vec![
        DeclaredField { name: "a".to_string(), attributes: vec![serde(vec![SerdeItem::NameValue { value: text("alpha") }])] },
        DeclaredField { name: "b".to_string(), attributes: vec![] },
        DeclaredField { name: "c".to_string(), attributes: vec![serde(vec![SerdeItem::List { items: vec![RenameItem::NameValue { name: "deserialize".to_string(), value: text("gamma") }] }])] },
    ];
    let renames = collect_renames(&fields);
    assert_eq!(
        renames,
        vec![("a".to_string(), "alpha".to_string()), ("c".to_string(), "gamma".to_string())]
    );
    assert_eq!(field_key(&renames, "a"), "alpha");
    assert_eq!(field_key(&renames, "b"), "b");
    assert_eq!(field_key(&renames, "c"), "gamma");
    assert_eq!(field_key(&vec![], "x"), "x");
    let twice = vec![("a".to_string(), "one".to_string()), ("a".to_string(), "two".to_string())];
    assert_eq!(field_key(&twice, "a"), "two");
}
