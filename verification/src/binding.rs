//! The rules by which declared constraints are read: how each rule is named
//! and written, which arguments a declaration may have, and under which key
//! a field reports. They are stated over plain values (names, forms and
//! positions), so that whatever reads the declarations can follow them.

use vstd::prelude::*;
use crate::rule::RuleKind;
use crate::text::str_equal;

verus! {

/// The form in which an argument of a declaration is written.
#[derive(Clone, Copy, Debug, PartialEq, Eq, Structural)]
pub enum MetaForm {
    /// A bare name, such as `unique_items`.
    Path,
    /// A name with a list of arguments, such as `enumerate(1, 2, 3)`.
    List,
    /// A name with a value, such as `maximum = 4`.
    NameValue,
}

/// What is wrong with a declaration.
#[derive(Clone, Copy, Debug, PartialEq, Eq, Structural)]
pub enum BindingError {
    /// The declaration names no rule.
    ValidationTypeRequired,
    /// The declaration has an argument beyond the rule and its message, at this position.
    TooManyListItems(usize),
    /// The rule is written as a bare name, and was given a value or arguments.
    PathValidationTakesNothing(RuleKind),
    /// The rule is written with a list of arguments, and was given none.
    ListValidationNeedsItems(RuleKind),
    /// The rule is written with a value, and was given none.
    NameValueValidationNeedsValue(RuleKind),
    /// No rule has this name.
    UnknownValidationType,
    /// The message is written with a list of arguments, and was given none.
    ListMessageNeedsItems,
    /// The message is written with a value, and was given none.
    NameValueMessageNeedsValue,
    /// No way to give a message has this name.
    UnknownMessageType,
    /// A custom rule was given a name with a value, at this position.
    UnexpectedNameValueArgument(usize),
    /// A custom rule was given a literal, at this position.
    UnexpectedLiteralArgument(usize),
    /// The function of a custom rule was given a list as an argument, at this position.
    UnexpectedListArgument(usize),
    /// A custom rule names a second function, at this position.
    DuplicatedCustomFunction(usize),
    /// A custom rule names no function.
    CustomFunctionRequired,
}

/// The rule that a name stands for, if it is the name of a rule.
pub open spec fn kind_named(name: Seq<char>) -> Option<RuleKind> {
    if name == "minimum"@ {
        Some(RuleKind::Minimum)
    } else if name == "maximum"@ {
        Some(RuleKind::Maximum)
    } else if name == "exclusive_minimum"@ {
        Some(RuleKind::ExclusiveMinimum)
    } else if name == "exclusive_maximum"@ {
        Some(RuleKind::ExclusiveMaximum)
    } else if name == "multiple_of"@ {
        Some(RuleKind::MultipleOf)
    } else if name == "min_length"@ {
        Some(RuleKind::MinLength)
    } else if name == "max_length"@ {
        Some(RuleKind::MaxLength)
    } else if name == "pattern"@ {
        Some(RuleKind::Pattern)
    } else if name == "min_items"@ {
        Some(RuleKind::MinItems)
    } else if name == "max_items"@ {
        Some(RuleKind::MaxItems)
    } else if name == "unique_items"@ {
        Some(RuleKind::UniqueItems)
    } else if name == "min_properties"@ {
        Some(RuleKind::MinProperties)
    } else if name == "max_properties"@ {
        Some(RuleKind::MaxProperties)
    } else if name == "enumerate"@ {
        Some(RuleKind::Enumerate)
    } else if name == "custom"@ {
        Some(RuleKind::Custom)
    } else {
        None
    }
}

/// The rule that a name stands for, if it is the name of a rule.
pub fn rule_named(name: &str) -> (kind: Option<RuleKind>)
    ensures
        kind == kind_named(name@),
{
    if str_equal(name, "minimum") {
        Some(RuleKind::Minimum)
    } else if str_equal(name, "maximum") {
        Some(RuleKind::Maximum)
    } else if str_equal(name, "exclusive_minimum") {
        Some(RuleKind::ExclusiveMinimum)
    } else if str_equal(name, "exclusive_maximum") {
        Some(RuleKind::ExclusiveMaximum)
    } else if str_equal(name, "multiple_of") {
        Some(RuleKind::MultipleOf)
    } else if str_equal(name, "min_length") {
        Some(RuleKind::MinLength)
    } else if str_equal(name, "max_length") {
        Some(RuleKind::MaxLength)
    } else if str_equal(name, "pattern") {
        Some(RuleKind::Pattern)
    } else if str_equal(name, "min_items") {
        Some(RuleKind::MinItems)
    } else if str_equal(name, "max_items") {
        Some(RuleKind::MaxItems)
    } else if str_equal(name, "unique_items") {
        Some(RuleKind::UniqueItems)
    } else if str_equal(name, "min_properties") {
        Some(RuleKind::MinProperties)
    } else if str_equal(name, "max_properties") {
        Some(RuleKind::MaxProperties)
    } else if str_equal(name, "enumerate") {
        Some(RuleKind::Enumerate)
    } else if str_equal(name, "custom") {
        Some(RuleKind::Custom)
    } else {
        None
    }
}

/// The name by which a rule is declared.
pub open spec fn name_of(kind: RuleKind) -> Seq<char> {
    match kind {
        RuleKind::Minimum => "minimum"@,
        RuleKind::Maximum => "maximum"@,
        RuleKind::ExclusiveMinimum => "exclusive_minimum"@,
        RuleKind::ExclusiveMaximum => "exclusive_maximum"@,
        RuleKind::MultipleOf => "multiple_of"@,
        RuleKind::MinLength => "min_length"@,
        RuleKind::MaxLength => "max_length"@,
        RuleKind::Pattern => "pattern"@,
        RuleKind::MinItems => "min_items"@,
        RuleKind::MaxItems => "max_items"@,
        RuleKind::UniqueItems => "unique_items"@,
        RuleKind::MinProperties => "min_properties"@,
        RuleKind::MaxProperties => "max_properties"@,
        RuleKind::Enumerate => "enumerate"@,
        RuleKind::Custom => "custom"@,
    }
}

/// The name by which a rule is declared.
pub fn rule_name(kind: RuleKind) -> (name: &'static str)
    ensures
        name@ == name_of(kind),
{
    match kind {
        RuleKind::Minimum => "minimum",
        RuleKind::Maximum => "maximum",
        RuleKind::ExclusiveMinimum => "exclusive_minimum",
        RuleKind::ExclusiveMaximum => "exclusive_maximum",
        RuleKind::MultipleOf => "multiple_of",
        RuleKind::MinLength => "min_length",
        RuleKind::MaxLength => "max_length",
        RuleKind::Pattern => "pattern",
        RuleKind::MinItems => "min_items",
        RuleKind::MaxItems => "max_items",
        RuleKind::UniqueItems => "unique_items",
        RuleKind::MinProperties => "min_properties",
        RuleKind::MaxProperties => "max_properties",
        RuleKind::Enumerate => "enumerate",
        RuleKind::Custom => "custom",
    }
}

/// Every rule is read back from its own name: no two rules share a name.
pub proof fn law_rule_names_are_distinct(kind: RuleKind)
    ensures
        kind_named(name_of(kind)) == Some(kind),
{
    reveal_strlit("minimum");
    reveal_strlit("maximum");
    reveal_strlit("exclusive_minimum");
    reveal_strlit("exclusive_maximum");
    reveal_strlit("multiple_of");
    reveal_strlit("min_length");
    reveal_strlit("max_length");
    reveal_strlit("pattern");
    reveal_strlit("min_items");
    reveal_strlit("max_items");
    reveal_strlit("unique_items");
    reveal_strlit("min_properties");
    reveal_strlit("max_properties");
    reveal_strlit("enumerate");
    reveal_strlit("custom");
    assert("minimum"@.len() == 7);
    assert("maximum"@.len() == 7);
    assert("exclusive_minimum"@.len() == 17);
    assert("exclusive_maximum"@.len() == 17);
    assert("multiple_of"@.len() == 11);
    assert("min_length"@.len() == 10);
    assert("max_length"@.len() == 10);
    assert("pattern"@.len() == 7);
    assert("min_items"@.len() == 9);
    assert("max_items"@.len() == 9);
    assert("unique_items"@.len() == 12);
    assert("min_properties"@.len() == 14);
    assert("max_properties"@.len() == 14);
    assert("enumerate"@.len() == 9);
    assert("custom"@.len() == 6);
    assert("maximum"@[1] != "minimum"@[1]);
    assert("pattern"@[0] != "minimum"@[0]);
    assert("pattern"@[0] != "maximum"@[0]);
    assert("exclusive_maximum"@[11] != "exclusive_minimum"@[11]);
    assert("max_length"@[1] != "min_length"@[1]);
    assert("max_items"@[1] != "min_items"@[1]);
    assert("enumerate"@[0] != "min_items"@[0]);
    assert("enumerate"@[0] != "max_items"@[0]);
    assert("max_properties"@[1] != "min_properties"@[1]);
}

/// The form in which a rule is written: uniqueness as a bare name,
/// enumerations and custom rules with a list of arguments, and every other
/// rule with a value.
pub open spec fn form_of(kind: RuleKind) -> MetaForm {
    match kind {
        RuleKind::UniqueItems => MetaForm::Path,
        RuleKind::Enumerate | RuleKind::Custom => MetaForm::List,
        _ => MetaForm::NameValue,
    }
}

/// The form in which a rule is written.
pub fn rule_form(kind: RuleKind) -> (form: MetaForm)
    ensures
        form == form_of(kind),
{
    match kind {
        RuleKind::UniqueItems => MetaForm::Path,
        RuleKind::Enumerate | RuleKind::Custom => MetaForm::List,
        _ => MetaForm::NameValue,
    }
}

/// The error for a rule that was written in another form than its own.
pub open spec fn wrong_form(kind: RuleKind) -> BindingError {
    match form_of(kind) {
        MetaForm::Path => BindingError::PathValidationTakesNothing(kind),
        MetaForm::List => BindingError::ListValidationNeedsItems(kind),
        MetaForm::NameValue => BindingError::NameValueValidationNeedsValue(kind),
    }
}

/// The rule that an argument declares, from its name and its form: the rule
/// of that name where it is written in the rule's own form; an error that
/// says how the rule is written where it is not; and an error where the name
/// is not that of a rule.
pub open spec fn classified(name: Seq<char>, form: MetaForm) -> Result<RuleKind, BindingError> {
    match kind_named(name) {
        Some(kind) => if form_of(kind) == form {
            Ok(kind)
        } else {
            Err(wrong_form(kind))
        },
        None => Err(BindingError::UnknownValidationType),
    }
}

/// The rule that an argument declares, from its name and its form.
pub fn classify_validation(name: &str, form: MetaForm) -> (result: Result<RuleKind, BindingError>)
    ensures
        result == classified(name@, form),
{
    match rule_named(name) {
        Some(kind) => {
            let own = rule_form(kind);
            if own == form {
                Ok(kind)
            } else {
                match own {
                    MetaForm::Path => Err(BindingError::PathValidationTakesNothing(kind)),
                    MetaForm::List => Err(BindingError::ListValidationNeedsItems(kind)),
                    MetaForm::NameValue => Err(BindingError::NameValueValidationNeedsValue(kind)),
                }
            }
        },
        None => Err(BindingError::UnknownValidationType),
    }
}

/// How a caller gives the message of a constraint.
#[derive(Clone, Copy, Debug, PartialEq, Eq, Structural)]
pub enum MessageKind {
    /// As a literal: `message = "..."`.
    Literal,
    /// As a function of the rule's parameters: `message_fn(...)`.
    Function,
}

/// The way of giving a message that an argument declares, from its name and
/// its form: `message` with a value, or `message_fn` with a list.
pub open spec fn classified_message(name: Seq<char>, form: MetaForm) -> Result<
    MessageKind,
    BindingError,
> {
    if name == "message_fn"@ {
        if form == MetaForm::List {
            Ok(MessageKind::Function)
        } else {
            Err(BindingError::ListMessageNeedsItems)
        }
    } else if name == "message"@ {
        if form == MetaForm::NameValue {
            Ok(MessageKind::Literal)
        } else {
            Err(BindingError::NameValueMessageNeedsValue)
        }
    } else {
        Err(BindingError::UnknownMessageType)
    }
}

/// The way of giving a message that an argument declares.
pub fn classify_message(name: &str, form: MetaForm) -> (result: Result<MessageKind, BindingError>)
    ensures
        result == classified_message(name@, form),
{
    if str_equal(name, "message_fn") {
        if form == MetaForm::List {
            Ok(MessageKind::Function)
        } else {
            Err(BindingError::ListMessageNeedsItems)
        }
    } else if str_equal(name, "message") {
        if form == MetaForm::NameValue {
            Ok(MessageKind::Literal)
        } else {
            Err(BindingError::NameValueMessageNeedsValue)
        }
    } else {
        Err(BindingError::UnknownMessageType)
    }
}

/// The name and the form of one argument of a declaration.
#[derive(Debug)]
pub struct ArgumentHead {
    pub name: String,
    pub form: MetaForm,
}

/// What the arguments of a declaration say beside the rule itself.
#[derive(Debug)]
pub struct MessagePart {
    /// How the message is given, if the declaration gives one.
    pub message: Option<MessageKind>,
    /// What is wrong with the arguments after the first.
    pub errors: Vec<BindingError>,
}

/// The errors for the arguments from the third on, one for each.
pub open spec fn surplus(count: nat) -> Seq<BindingError> {
    Seq::new((count - 2) as nat, |i: int| BindingError::TooManyListItems((i + 2) as usize))
}

/// How the message is given and what is wrong with the arguments after the
/// first: a declaration of one argument gives no message; the second of two
/// arguments is read as the message; with more than two, each argument from
/// the third on is an error, and no message is read.
pub open spec fn message_of(heads: Seq<ArgumentHead>) -> (Option<MessageKind>, Seq<BindingError>) {
    if heads.len() == 2 {
        match classified_message(heads[1].name@, heads[1].form) {
            Ok(kind) => (Some(kind), Seq::empty()),
            Err(error) => (None, seq![error]),
        }
    } else if heads.len() > 2 {
        (None, surplus(heads.len()))
    } else {
        (None, Seq::empty())
    }
}

/// Reads the arguments of a declaration after the first. A declaration
/// without arguments names no rule and is refused at once.
pub fn read_message_part(heads: &Vec<ArgumentHead>) -> (result: Result<MessagePart, BindingError>)
    ensures
        heads.len() == 0 ==> result == Err::<MessagePart, BindingError>(
            BindingError::ValidationTypeRequired,
        ),
        heads.len() > 0 ==> (result matches Ok(part) && (part.message, part.errors@) == message_of(
            heads@,
        )),
{
    if heads.len() == 0 {
        return Err(BindingError::ValidationTypeRequired);
    }
    let mut errors: Vec<BindingError> = Vec::new();
    let mut message: Option<MessageKind> = None;
    if heads.len() == 2 {
        match classify_message(heads[1].name.as_str(), heads[1].form) {
            Ok(kind) => {
                message = Some(kind);
            },
            Err(error) => {
                errors.push(error);
            },
        }
        assert(errors@ =~= message_of(heads@).1);
    } else if heads.len() > 2 {
        let mut i: usize = 2;
        while i < heads.len()
            invariant
                2 <= i <= heads.len(),
                errors@.len() == i - 2,
                forall|k: int|
                    0 <= k < errors@.len() ==> errors@[k] == BindingError::TooManyListItems(
                        (k + 2) as usize,
                    ),
            decreases heads.len() - i,
        {
            errors.push(BindingError::TooManyListItems(i));
            i += 1;
        }
        assert(errors@ =~= surplus(heads@.len()));
    } else {
        assert(errors@ =~= Seq::empty());
    }
    Ok(MessagePart { message, errors })
}

/// What a declaration comes to: the validator that was read from its first
/// argument where nothing is wrong with the declaration; else every error,
/// those of the other arguments before those of the validator.
pub fn conclude<T, E>(validator: Result<T, Vec<E>>, errors: Vec<E>) -> (result: Result<T, Vec<E>>)
    ensures
        match validator {
            Ok(value) => if errors@.len() == 0 {
                result == Ok::<T, Vec<E>>(value)
            } else {
                result matches Err(all) && all@ == errors@
            },
            Err(more) => result matches Err(all) && all@ == errors@ + more@,
        },
{
    match validator {
        Ok(value) => {
            if errors.len() == 0 {
                Ok(value)
            } else {
                Err(errors)
            }
        },
        Err(more) => {
            let mut all = errors;
            let mut rest = more;
            all.append(&mut rest);
            Err(all)
        },
    }
}

/// The values of the results that succeeded, in order.
pub open spec fn values_of<T, E>(results: Seq<Result<T, E>>) -> Seq<T>
    decreases results.len(),
{
    if results.len() == 0 {
        Seq::empty()
    } else {
        match results.last() {
            Ok(value) => values_of(results.drop_last()).push(value),
            Err(_) => values_of(results.drop_last()),
        }
    }
}

/// The errors of the results that failed, in order.
pub open spec fn errors_of<T, E>(results: Seq<Result<T, Vec<E>>>) -> Seq<E>
    decreases results.len(),
{
    if results.len() == 0 {
        Seq::empty()
    } else {
        match results.last() {
            Ok(_) => errors_of(results.drop_last()),
            Err(errors) => errors_of(results.drop_last()) + errors@,
        }
    }
}

/// Gathers what was read of the fields of an aggregate: every validator
/// where each field was read without error; else every error of every
/// field, in order. No error stops the reading of the other fields.
pub fn gather<T, E>(results: Vec<Result<T, Vec<E>>>) -> (result: Result<Vec<T>, Vec<E>>)
    ensures
        errors_of(results@).len() == 0 ==> (result matches Ok(values) && values@ == values_of(
            results@,
        )),
        errors_of(results@).len() > 0 ==> (result matches Err(errors) && errors@ == errors_of(
            results@,
        )),
{
    let ghost all = results@;
    let mut rest = results;
    let mut values: Vec<T> = Vec::new();
    let mut errors: Vec<E> = Vec::new();
    let mut i: usize = 0;
    let count = rest.len();
    while i < count
        invariant
            i <= count,
            count == all.len(),
            rest@ == all.skip(i as int),
            values@ == values_of(all.take(i as int)),
            errors@ == errors_of(all.take(i as int)),
        decreases count - i,
    {
        let ghost before = rest@;
        let next = rest.remove(0);
        proof {
            let prefix = all.take(i + 1);
            assert(prefix.drop_last() =~= all.take(i as int));
            assert(prefix.last() == next);
            assert(rest@ =~= all.skip(i + 1));
        }
        match next {
            Ok(value) => {
                values.push(value);
            },
            Err(more) => {
                let mut failed = more;
                errors.append(&mut failed);
            },
        }
        i += 1;
    }
    assert(all.take(count as int) =~= all);
    if errors.len() == 0 {
        Ok(values)
    } else {
        Err(errors)
    }
}

/// The form of an argument inside a list: a literal, or a name written in
/// one of the three forms.
#[derive(Clone, Copy, Debug, PartialEq, Eq, Structural)]
pub enum ArgumentForm {
    Literal,
    Path,
    List,
    NameValue,
}

/// One argument of a custom rule: its form and, where it is a list, the
/// forms of the arguments in the list.
#[derive(Debug)]
pub struct CustomItem {
    pub form: ArgumentForm,
    pub arguments: Vec<ArgumentForm>,
}

/// How a custom rule calls its function.
#[derive(Clone, Copy, Debug, PartialEq, Eq, Structural)]
pub struct CustomPlan {
    /// The position of the argument that names the function.
    pub function_at: usize,
    /// Whether the function is called with the arguments listed after its name.
    pub with_arguments: bool,
}

/// The first error among the arguments listed for a function, looking at the
/// first `upto` of them: a function takes literals and names of fields, so a
/// list or a name with a value is an error.
pub open spec fn first_bad_argument(arguments: Seq<ArgumentForm>, upto: nat) -> Option<BindingError>
    decreases upto,
{
    if upto == 0 {
        None
    } else {
        match first_bad_argument(arguments, (upto - 1) as nat) {
            Some(error) => Some(error),
            None => match arguments[upto - 1] {
                ArgumentForm::List => Some(
                    BindingError::UnexpectedListArgument((upto - 1) as usize),
                ),
                ArgumentForm::NameValue => Some(
                    BindingError::UnexpectedNameValueArgument((upto - 1) as usize),
                ),
                _ => None,
            },
        }
    }
}

/// What reading one more argument of a custom rule gives, from what was
/// read before it: a bare name or a list names the function, once; a name
/// with a value or a literal is an error.
pub open spec fn custom_step(found: Option<CustomPlan>, item: CustomItem, position: nat) -> Result<
    Option<CustomPlan>,
    BindingError,
> {
    match item.form {
        ArgumentForm::Literal => Err(BindingError::UnexpectedLiteralArgument(position as usize)),
        ArgumentForm::NameValue => Err(
            BindingError::UnexpectedNameValueArgument(position as usize),
        ),
        ArgumentForm::Path => if found is Some {
            Err(BindingError::DuplicatedCustomFunction(position as usize))
        } else {
            Ok(Some(CustomPlan { function_at: position as usize, with_arguments: false }))
        },
        ArgumentForm::List => if found is Some {
            Err(BindingError::DuplicatedCustomFunction(position as usize))
        } else {
            match first_bad_argument(item.arguments@, item.arguments@.len()) {
                Some(error) => Err(error),
                None => Ok(Some(CustomPlan { function_at: position as usize, with_arguments: true })),
            }
        },
    }
}

/// What reading the first `upto` arguments of a custom rule gives: the first
/// error in reading order, else the function that was named, if any was.
pub open spec fn custom_scan(items: Seq<CustomItem>, upto: nat) -> Result<
    Option<CustomPlan>,
    BindingError,
>
    decreases upto,
{
    if upto == 0 {
        Ok(None)
    } else {
        match custom_scan(items, (upto - 1) as nat) {
            Err(error) => Err(error),
            Ok(found) => custom_step(found, items[upto - 1], (upto - 1) as nat),
        }
    }
}

/// How a custom rule calls its function: the arguments are read in order,
/// the first error ends the reading, and a rule that names no function is
/// an error.
pub open spec fn custom_plan(items: Seq<CustomItem>) -> Result<CustomPlan, BindingError> {
    match custom_scan(items, items.len()) {
        Err(error) => Err(error),
        Ok(found) => match found {
            Some(plan) => Ok(plan),
            None => Err(BindingError::CustomFunctionRequired),
        },
    }
}

fn check_arguments(arguments: &Vec<ArgumentForm>) -> (bad: Option<BindingError>)
    ensures
        bad == first_bad_argument(arguments@, arguments@.len()),
{
    let mut i: usize = 0;
    while i < arguments.len()
        invariant
            i <= arguments.len(),
            first_bad_argument(arguments@, i as nat) is None,
        decreases arguments.len() - i,
    {
        match arguments[i] {
            ArgumentForm::List => {
                proof {
                    lemma_bad_argument_stays(arguments@, (i + 1) as nat, arguments@.len());
                }
                return Some(BindingError::UnexpectedListArgument(i));
            },
            ArgumentForm::NameValue => {
                proof {
                    lemma_bad_argument_stays(arguments@, (i + 1) as nat, arguments@.len());
                }
                return Some(BindingError::UnexpectedNameValueArgument(i));
            },
            _ => {},
        }
        i += 1;
    }
    None
}

proof fn lemma_bad_argument_stays(arguments: Seq<ArgumentForm>, from: nat, upto: nat)
    requires
        from <= upto,
        first_bad_argument(arguments, from) is Some,
    ensures
        first_bad_argument(arguments, upto) == first_bad_argument(arguments, from),
    decreases upto - from,
{
    if from < upto {
        lemma_bad_argument_stays(arguments, from, (upto - 1) as nat);
    }
}

proof fn lemma_custom_error_stays(items: Seq<CustomItem>, from: nat, upto: nat)
    requires
        from <= upto,
        custom_scan(items, from) is Err,
    ensures
        custom_scan(items, upto) == custom_scan(items, from),
    decreases upto - from,
{
    if from < upto {
        lemma_custom_error_stays(items, from, (upto - 1) as nat);
    }
}

/// Reads the arguments of a custom rule and says how it calls its function.
pub fn plan_custom(items: &Vec<CustomItem>) -> (result: Result<CustomPlan, BindingError>)
    ensures
        result == custom_plan(items@),
{
    let mut found: Option<CustomPlan> = None;
    let mut i: usize = 0;
    while i < items.len()
        invariant
            i <= items.len(),
            custom_scan(items@, i as nat) == Ok::<Option<CustomPlan>, BindingError>(found),
        decreases items.len() - i,
    {
        let step: Result<Option<CustomPlan>, BindingError> = match items[i].form {
            ArgumentForm::Literal => Err(BindingError::UnexpectedLiteralArgument(i)),
            ArgumentForm::NameValue => Err(BindingError::UnexpectedNameValueArgument(i)),
            ArgumentForm::Path => if found.is_some() {
                Err(BindingError::DuplicatedCustomFunction(i))
            } else {
                Ok(Some(CustomPlan { function_at: i, with_arguments: false }))
            },
            ArgumentForm::List => if found.is_some() {
                Err(BindingError::DuplicatedCustomFunction(i))
            } else {
                match check_arguments(&items[i].arguments) {
                    Some(error) => Err(error),
                    None => Ok(Some(CustomPlan { function_at: i, with_arguments: true })),
                }
            },
        };
        assert(step == custom_step(found, items@[i as int], i as nat));
        match step {
            Ok(next) => {
                found = next;
            },
            Err(error) => {
                proof {
                    lemma_custom_error_stays(items@, (i + 1) as nat, items@.len());
                }
                return Err(error);
            },
        }
        i += 1;
    }
    match found {
        Some(plan) => Ok(plan),
        None => Err(BindingError::CustomFunctionRequired),
    }
}

/// The value of a name-value argument: a text, or anything else.
#[derive(Debug)]
pub enum MetaValue {
    Text(String),
    Other,
}

/// One argument inside a `rename(...)` list.
#[derive(Debug)]
pub enum RenameItem {
    /// A name with a value, such as `deserialize = "other"`.
    NameValue { name: String, value: MetaValue },
    /// Any other argument.
    Other,
}

/// One argument of a `serde(...)` attribute.
#[derive(Debug)]
pub enum SerdeItem {
    /// A name with a value, such as `rename = "other"`.
    NameValue { value: MetaValue },
    /// A name with a list of arguments, such as `rename(deserialize = "other")`.
    List { items: Vec<RenameItem> },
    /// Any other argument.
    Other,
}

/// An attribute of a field: its name and, where it is a list that can be
/// read, its arguments.
#[derive(Debug)]
pub struct Attribute {
    pub name: String,
    pub items: Option<Vec<SerdeItem>>,
}

/// The name that the first `upto` arguments of a list give for reading the
/// field: the text of the first argument `deserialize = "..."`.
pub open spec fn rename_in_list(items: Seq<RenameItem>, upto: nat) -> Option<Seq<char>>
    decreases upto,
{
    if upto == 0 {
        None
    } else {
        match rename_in_list(items, (upto - 1) as nat) {
            Some(name) => Some(name),
            None => match items[upto - 1] {
                RenameItem::NameValue { name, value: MetaValue::Text(text) } => if name@
                    == "deserialize"@ {
                    Some(text@)
                } else {
                    None
                },
                _ => None,
            },
        }
    }
}

/// The name that one argument of a `serde(...)` attribute gives to the
/// field: the text of a name-value argument, or what the list of a list
/// argument gives for reading the field.
pub open spec fn rename_in_item(item: SerdeItem) -> Option<Seq<char>> {
    match item {
        SerdeItem::NameValue { value: MetaValue::Text(text) } => Some(text@),
        SerdeItem::List { items } => rename_in_list(items@, items@.len()),
        _ => None,
    }
}

/// The name that the first `upto` arguments of a `serde(...)` attribute give
/// to the field: that of the first argument that gives one.
pub open spec fn rename_in_items(items: Seq<SerdeItem>, upto: nat) -> Option<Seq<char>>
    decreases upto,
{
    if upto == 0 {
        None
    } else {
        match rename_in_items(items, (upto - 1) as nat) {
            Some(name) => Some(name),
            None => rename_in_item(items[upto - 1]),
        }
    }
}

/// The name that an attribute gives to the field: none unless the attribute
/// is `serde` with a list of arguments.
pub open spec fn rename_in_attribute(attribute: Attribute) -> Option<Seq<char>> {
    if attribute.name@ == "serde"@ {
        match attribute.items {
            Some(items) => rename_in_items(items@, items@.len()),
            None => None,
        }
    } else {
        None
    }
}

/// The name that the first `upto` attributes of a field give to it: that of
/// the last attribute that gives one.
pub open spec fn rename_of(attributes: Seq<Attribute>, upto: nat) -> Option<Seq<char>>
    decreases upto,
{
    if upto == 0 {
        None
    } else {
        match rename_in_attribute(attributes[upto - 1]) {
            Some(name) => Some(name),
            None => rename_of(attributes, (upto - 1) as nat),
        }
    }
}

/// The view of an optional name.
pub open spec fn name_view(name: Option<String>) -> Option<Seq<char>> {
    match name {
        Some(text) => Some(text@),
        None => None,
    }
}

proof fn lemma_rename_in_list_stays(items: Seq<RenameItem>, from: nat, upto: nat)
    requires
        from <= upto,
        rename_in_list(items, from) is Some,
    ensures
        rename_in_list(items, upto) == rename_in_list(items, from),
    decreases upto - from,
{
    if from < upto {
        lemma_rename_in_list_stays(items, from, (upto - 1) as nat);
    }
}

proof fn lemma_rename_in_items_stays(items: Seq<SerdeItem>, from: nat, upto: nat)
    requires
        from <= upto,
        rename_in_items(items, from) is Some,
    ensures
        rename_in_items(items, upto) == rename_in_items(items, from),
    decreases upto - from,
{
    if from < upto {
        lemma_rename_in_items_stays(items, from, (upto - 1) as nat);
    }
}

fn find_rename_in_list(items: &Vec<RenameItem>) -> (found: Option<String>)
    ensures
        name_view(found) == rename_in_list(items@, items@.len()),
{
    let mut i: usize = 0;
    while i < items.len()
        invariant
            i <= items.len(),
            rename_in_list(items@, i as nat) is None,
        decreases items.len() - i,
    {
        match &items[i] {
            RenameItem::NameValue { name, value } => {
                if str_equal(name.as_str(), "deserialize") {
                    match value {
                        MetaValue::Text(text) => {
                            proof {
                                lemma_rename_in_list_stays(items@, (i + 1) as nat, items@.len());
                            }
                            return Some(text.clone());
                        },
                        MetaValue::Other => {},
                    }
                }
            },
            RenameItem::Other => {},
        }
        i += 1;
    }
    None
}

/// The name that one argument of a `serde(...)` attribute gives to the field.
pub fn find_rename_in_item(item: &SerdeItem) -> (found: Option<String>)
    ensures
        name_view(found) == rename_in_item(*item),
{
    match item {
        SerdeItem::NameValue { value } => match value {
            MetaValue::Text(text) => Some(text.clone()),
            MetaValue::Other => None,
        },
        SerdeItem::List { items } => find_rename_in_list(items),
        SerdeItem::Other => None,
    }
}

/// The name that an attribute gives to the field.
pub fn find_rename_in_attribute(attribute: &Attribute) -> (found: Option<String>)
    ensures
        name_view(found) == rename_in_attribute(*attribute),
{
    if !str_equal(attribute.name.as_str(), "serde") {
        return None;
    }
    match &attribute.items {
        Some(items) => {
            let mut i: usize = 0;
            while i < items.len()
                invariant
                    i <= items.len(),
                    attribute.name@ == "serde"@,
                    attribute.items == Some(*items),
                    rename_in_items(items@, i as nat) is None,
                decreases items.len() - i,
            {
                match find_rename_in_item(&items[i]) {
                    Some(name) => {
                        proof {
                            assert(rename_in_items(items@, (i + 1) as nat) == Some(name@));
                            lemma_rename_in_items_stays(items@, (i + 1) as nat, items@.len());
                        }
                        return Some(name);
                    },
                    None => {},
                }
                i += 1;
            }
            None
        },
        None => None,
    }
}

/// The name that the attributes of a field give to it: that of the last
/// attribute that gives one.
pub fn find_rename(attributes: &Vec<Attribute>) -> (found: Option<String>)
    ensures
        name_view(found) == rename_of(attributes@, attributes@.len()),
{
    let mut found: Option<String> = None;
    let mut i: usize = 0;
    while i < attributes.len()
        invariant
            i <= attributes.len(),
            name_view(found) == rename_of(attributes@, i as nat),
        decreases attributes.len() - i,
    {
        match find_rename_in_attribute(&attributes[i]) {
            Some(name) => {
                found = Some(name);
            },
            None => {},
        }
        i += 1;
    }
    found
}

/// A field of an aggregate as it is declared: its name and its attributes.
#[derive(Debug)]
pub struct DeclaredField {
    pub name: String,
    pub attributes: Vec<Attribute>,
}

/// The renames of the first `upto` fields: for each field that is given
/// another name, in declaration order, its own name and the name given.
pub open spec fn renames_of(fields: Seq<DeclaredField>, upto: nat) -> Seq<(Seq<char>, Seq<char>)>
    decreases upto,
{
    if upto == 0 {
        Seq::empty()
    } else {
        let before = renames_of(fields, (upto - 1) as nat);
        let field = fields[upto - 1];
        match rename_of(field.attributes@, field.attributes@.len()) {
            Some(name) => before.push((field.name@, name)),
            None => before,
        }
    }
}

/// The views of a list of renames.
pub open spec fn rename_views(renames: Seq<(String, String)>) -> Seq<(Seq<char>, Seq<char>)> {
    Seq::new(renames.len(), |i: int| (renames[i].0@, renames[i].1@))
}

/// Collects the renames of the fields of an aggregate.
pub fn collect_renames(fields: &Vec<DeclaredField>) -> (renames: Vec<(String, String)>)
    ensures
        rename_views(renames@) == renames_of(fields@, fields@.len()),
{
    let mut renames: Vec<(String, String)> = Vec::new();
    let mut i: usize = 0;
    assert(rename_views(renames@) =~= renames_of(fields@, 0));
    while i < fields.len()
        invariant
            i <= fields.len(),
            rename_views(renames@) == renames_of(fields@, i as nat),
        decreases fields.len() - i,
    {
        let ghost before = rename_views(renames@);
        match find_rename(&fields[i].attributes) {
            Some(name) => {
                renames.push((fields[i].name.clone(), name));
                assert(rename_views(renames@) =~= before.push((fields@[i as int].name@, name@)));
            },
            None => {},
        }
        i += 1;
    }
    renames
}

/// The key under which a field reports, looking at the first `upto` renames:
/// the name that the last rename of the field gives, else the field's own name.
pub open spec fn key_of(renames: Seq<(Seq<char>, Seq<char>)>, name: Seq<char>, upto: nat) -> Seq<
    char,
>
    decreases upto,
{
    if upto == 0 {
        name
    } else if renames[upto - 1].0 == name {
        renames[upto - 1].1
    } else {
        key_of(renames, name, (upto - 1) as nat)
    }
}

/// The key under which a field reports: the name that it was given, else its own.
pub fn field_key(renames: &Vec<(String, String)>, name: &str) -> (key: String)
    ensures
        key@ == key_of(rename_views(renames@), name@, renames@.len()),
{
    let mut key: String = name.to_owned();
    let mut i: usize = 0;
    while i < renames.len()
        invariant
            i <= renames.len(),
            key@ == key_of(rename_views(renames@), name@, i as nat),
        decreases renames.len() - i,
    {
        if str_equal(renames[i].0.as_str(), name) {
            key = renames[i].1.clone();
        }
        i += 1;
    }
    key
}

} // verus!
