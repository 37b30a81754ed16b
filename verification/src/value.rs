//! The values that can be validated: leaves, optional wrappers, collections
//! and aggregates, each aggregate with the constraints of its fields.

use vstd::prelude::*;
use crate::rule::{Rule, RuleView, Verdict, VerdictView};

verus! {

/// A rule attached to a field, with the message to report instead of the
/// rule's default message, if the caller supplied one.
#[derive(Debug)]
pub struct Constraint {
    pub rule: Rule,
    pub message: Option<String>,
}

/// The mathematical value of a [`Constraint`].
pub struct ConstraintView {
    pub rule: RuleView,
    pub message: Option<Seq<char>>,
}

impl View for Constraint {
    type V = ConstraintView;

    open spec fn view(&self) -> ConstraintView {
        ConstraintView {
            rule: self.rule@,
            message: match self.message {
                Some(message) => Some(message@),
                None => None,
            },
        }
    }
}

/// The values of a list of constraints.
pub open spec fn constraint_views(constraints: Seq<Constraint>) -> Seq<ConstraintView> {
    Seq::new(constraints.len(), |i: int| constraints[i]@)
}

/// A value under validation.
#[derive(Debug)]
pub enum Value {
    /// A whole number.
    Integer(i128),
    /// A text, measured in characters.
    Text(String),
    /// A byte string, measured in bytes.
    Bytes(Vec<u8>),
    /// A value that may be absent.
    Optional(Option<Box<Value>>),
    /// An ordered sequence or a fixed-size array.
    Sequence(Vec<Value>),
    /// A mapping from text keys to values, in the order in which it is walked.
    Mapping(Vec<(String, Value)>),
    /// A nested aggregate.
    Nested(Box<Aggregate>),
}

/// The value of a field and the constraints declared for it, in declaration order.
#[derive(Debug)]
pub struct Field {
    pub value: Value,
    pub constraints: Vec<Constraint>,
}

/// A composite value. Its shape is part of its type: fields with names,
/// fields with positions, or a single wrapped value. Each shape carries the
/// verdicts of the aggregate's cross-field rules, in declaration order; a
/// rule of a named or positional aggregate may name the field to report
/// against.
#[derive(Debug)]
#[allow(inconsistent_fields)]
pub enum Aggregate {
    Named { fields: Vec<(String, Field)>, rules: Vec<(Option<String>, Verdict)> },
    Indexed { fields: Vec<(usize, Field)>, rules: Vec<(Option<usize>, Verdict)> },
    NewType { field: Box<Field>, rules: Vec<Verdict> },
}

/// The mathematical value of a [`Value`].
pub enum ValueView {
    Integer(int),
    Text(Seq<char>),
    Bytes(Seq<u8>),
    Optional(Option<Box<ValueView>>),
    Sequence(Seq<ValueView>),
    Mapping(Seq<(Seq<char>, ValueView)>),
    Nested(Box<AggregateView>),
}

/// The mathematical value of a [`Field`].
pub struct FieldView {
    pub value: ValueView,
    pub constraints: Seq<ConstraintView>,
}

/// The mathematical value of an [`Aggregate`].
#[allow(inconsistent_fields)]
pub enum AggregateView {
    Named { fields: Seq<(Seq<char>, FieldView)>, rules: Seq<(Option<Seq<char>>, VerdictView)> },
    Indexed { fields: Seq<(nat, FieldView)>, rules: Seq<(Option<nat>, VerdictView)> },
    NewType { field: FieldView, rules: Seq<VerdictView> },
}

/// The view of an optional text key.
pub open spec fn name_target_view(target: Option<String>) -> Option<Seq<char>> {
    match target {
        Some(name) => Some(name@),
        None => None,
    }
}

/// The view of an optional index key.
pub open spec fn index_target_view(target: Option<usize>) -> Option<nat> {
    match target {
        Some(index) => Some(index as nat),
        None => None,
    }
}

/// The values of the cross-field rules of a named aggregate.
pub open spec fn name_rule_views(rules: Seq<(Option<String>, Verdict)>) -> Seq<
    (Option<Seq<char>>, VerdictView),
> {
    Seq::new(rules.len(), |i: int| (name_target_view(rules[i].0), rules[i].1@))
}

/// The values of the cross-field rules of a positional aggregate.
pub open spec fn index_rule_views(rules: Seq<(Option<usize>, Verdict)>) -> Seq<
    (Option<nat>, VerdictView),
> {
    Seq::new(rules.len(), |i: int| (index_target_view(rules[i].0), rules[i].1@))
}

/// The values of a list of verdicts.
pub open spec fn verdict_views(rules: Seq<Verdict>) -> Seq<VerdictView> {
    Seq::new(rules.len(), |i: int| rules[i]@)
}

/// The value of a value under validation.
pub open spec fn value_view(value: Value) -> ValueView
    decreases value,
{
    match value {
        Value::Integer(n) => ValueView::Integer(n as int),
        Value::Text(s) => ValueView::Text(s@),
        Value::Bytes(b) => ValueView::Bytes(b@),
        Value::Optional(inner) => match inner {
            Some(b) => ValueView::Optional(Some(Box::new(value_view(*b)))),
            None => ValueView::Optional(None),
        },
        Value::Sequence(items) => ValueView::Sequence(
            Seq::new(
                items@.len(),
                |i: int|
                    if 0 <= i < items@.len() {
                        value_view(items@[i])
                    } else {
                        ValueView::Integer(0)
                    },
            ),
        ),
        Value::Mapping(entries) => ValueView::Mapping(
            Seq::new(
                entries@.len(),
                |i: int|
                    if 0 <= i < entries@.len() {
                        (entries@[i].0@, value_view(entries@[i].1))
                    } else {
                        (Seq::empty(), ValueView::Integer(0))
                    },
            ),
        ),
        Value::Nested(aggregate) => ValueView::Nested(Box::new(aggregate_view(*aggregate))),
    }
}

/// The value of a field.
pub open spec fn field_view(field: Field) -> FieldView
    decreases field,
{
    FieldView { value: value_view(field.value), constraints: constraint_views(field.constraints@) }
}

/// The value of an aggregate.
pub open spec fn aggregate_view(aggregate: Aggregate) -> AggregateView
    decreases aggregate,
{
    match aggregate {
        Aggregate::Named { fields, rules } => AggregateView::Named {
            fields: Seq::new(
                fields@.len(),
                |i: int|
                    if 0 <= i < fields@.len() {
                        (fields@[i].0@, field_view(fields@[i].1))
                    } else {
                        (
                            Seq::empty(),
                            FieldView { value: ValueView::Integer(0), constraints: Seq::empty() },
                        )
                    },
            ),
            rules: name_rule_views(rules@),
        },
        Aggregate::Indexed { fields, rules } => AggregateView::Indexed {
            fields: Seq::new(
                fields@.len(),
                |i: int|
                    if 0 <= i < fields@.len() {
                        (fields@[i].0 as nat, field_view(fields@[i].1))
                    } else {
                        (
                            0nat,
                            FieldView { value: ValueView::Integer(0), constraints: Seq::empty() },
                        )
                    },
            ),
            rules: index_rule_views(rules@),
        },
        Aggregate::NewType { field, rules } => AggregateView::NewType {
            field: field_view(*field),
            rules: verdict_views(rules@),
        },
    }
}

impl View for Value {
    type V = ValueView;

    open spec fn view(&self) -> ValueView {
        value_view(*self)
    }
}

impl View for Field {
    type V = FieldView;

    open spec fn view(&self) -> FieldView {
        field_view(*self)
    }
}

impl View for Aggregate {
    type V = AggregateView;

    open spec fn view(&self) -> AggregateView {
        aggregate_view(*self)
    }
}

/// The values of a list of values.
pub open spec fn value_views(items: Seq<Value>) -> Seq<ValueView> {
    Seq::new(items.len(), |i: int| items[i]@)
}

/// The values of the entries of a mapping.
pub open spec fn entry_views(entries: Seq<(String, Value)>) -> Seq<(Seq<char>, ValueView)> {
    Seq::new(entries.len(), |i: int| (entries[i].0@, entries[i].1@))
}

/// The values of the fields of a named aggregate.
pub open spec fn named_field_views(fields: Seq<(String, Field)>) -> Seq<(Seq<char>, FieldView)> {
    Seq::new(fields.len(), |i: int| (fields[i].0@, fields[i].1@))
}

/// The values of the fields of a positional aggregate.
pub open spec fn indexed_field_views(fields: Seq<(usize, Field)>) -> Seq<(nat, FieldView)> {
    Seq::new(fields.len(), |i: int| (fields[i].0 as nat, fields[i].1@))
}

/// The view of a sequence is the sequence of its items' views.
pub proof fn lemma_sequence_view(items: Vec<Value>)
    ensures
        Value::Sequence(items)@ == ValueView::Sequence(value_views(items@)),
{
    assert(Value::Sequence(items)@->Sequence_0 =~= value_views(items@));
}

/// The view of a mapping is the sequence of its entries' views.
pub proof fn lemma_mapping_view(entries: Vec<(String, Value)>)
    ensures
        Value::Mapping(entries)@ == ValueView::Mapping(entry_views(entries@)),
{
    assert(Value::Mapping(entries)@->Mapping_0 =~= entry_views(entries@));
}

/// The view of a named aggregate is made of the views of its parts.
pub proof fn lemma_named_view(fields: Vec<(String, Field)>, rules: Vec<(Option<String>, Verdict)>)
    ensures
        (Aggregate::Named { fields, rules })@ == (AggregateView::Named {
            fields: named_field_views(fields@),
            rules: name_rule_views(rules@),
        }),
{
    let view = (Aggregate::Named { fields, rules })@;
    assert(view->Named_fields =~= named_field_views(fields@));
}

/// The view of a positional aggregate is made of the views of its parts.
pub proof fn lemma_indexed_view(fields: Vec<(usize, Field)>, rules: Vec<(Option<usize>, Verdict)>)
    ensures
        (Aggregate::Indexed { fields, rules })@ == (AggregateView::Indexed {
            fields: indexed_field_views(fields@),
            rules: index_rule_views(rules@),
        }),
{
    let view = (Aggregate::Indexed { fields, rules })@;
    assert(view->Indexed_fields =~= indexed_field_views(fields@));
}

} // verus!
