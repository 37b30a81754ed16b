//! Whether a value and its constraints are fit for validation, decided before
//! any rule is evaluated.

use vstd::prelude::*;
use crate::assemble::{outcome_view, Key};
use crate::error::{distinct_keys, ErrorTree, Errors};
use crate::evaluate::rule_applies;
use crate::outcome::{
    aggregate_outcome, aggregate_well_formed, constraint_fits, field_well_formed,
    lemma_indexed_well_formed, lemma_mapping_well_formed, lemma_named_well_formed,
    lemma_sequence_well_formed, value_well_formed,
};
use crate::pattern::is_valid_pattern;
use crate::rule::Rule;
use crate::validate::{keyed_fields, validate_aggregate};
use crate::value::{
    constraint_views, entry_views, lemma_indexed_view, lemma_mapping_view, lemma_named_view,
    lemma_sequence_view, value_views, Aggregate, Constraint, Field, Value,
};

verus! {

impl Rule {
    /// Whether the rule's parameter is one that can be evaluated.
    pub fn is_well_formed(&self) -> (ok: bool)
        ensures
            ok == self@.well_formed(),
    {
        match self {
            Rule::MultipleOf(divisor) => *divisor != 0,
            Rule::Pattern(pattern) => is_valid_pattern(pattern.as_str()),
            _ => true,
        }
    }
}

/// Whether every constraint can be evaluated on the value.
pub fn constraints_fit(constraints: &Vec<Constraint>, value: &Value) -> (ok: bool)
    ensures
        ok == (forall|i: int|
            0 <= i < constraints.len() ==> constraint_fits(
                #[trigger] constraint_views(constraints@)[i],
                value@,
            )),
{
    let mut i: usize = 0;
    while i < constraints.len()
        invariant
            i <= constraints.len(),
            forall|k: int|
                0 <= k < i ==> constraint_fits(
                    #[trigger] constraint_views(constraints@)[k],
                    value@,
                ),
        decreases constraints.len() - i,
    {
        if !constraints[i].rule.is_well_formed() || !rule_applies(&constraints[i].rule, value) {
            assert(!constraint_fits(constraint_views(constraints@)[i as int], value@));
            return false;
        }
        i += 1;
    }
    true
}

/// Whether no two entries have the same key.
pub fn keys_distinct<K: Key, V>(entries: &Vec<(K, V)>) -> (ok: bool)
    ensures
        ok == (forall|i: int, j: int|
            0 <= i < j < entries.len() ==> (#[trigger] entries[i]).0.model() != (
            #[trigger] entries[j]).0.model()),
{
    let mut j: usize = 0;
    while j < entries.len()
        invariant
            j <= entries.len(),
            forall|a: int, b: int|
                0 <= a < b < j ==> (#[trigger] entries[a]).0.model() != (
                #[trigger] entries[b]).0.model(),
        decreases entries.len() - j,
    {
        let mut i: usize = 0;
        while i < j
            invariant
                i <= j,
                j < entries.len(),
                forall|a: int|
                    0 <= a < i ==> (#[trigger] entries[a]).0.model() != entries[j as int].0.model(),
            decreases j - i,
        {
            if entries[i].0.same(&entries[j].0) {
                return false;
            }
            i += 1;
        }
        j += 1;
    }
    true
}

/// Keys of entries are distinct exactly when their mathematical values are.
proof fn lemma_distinct_entries(entries: Seq<(String, Value)>)
    ensures
        distinct_keys(entry_views(entries)) == (forall|i: int, j: int|
            0 <= i < j < entries.len() ==> (#[trigger] entries[i]).0.model() != (
            #[trigger] entries[j]).0.model()),
{
    let views = entry_views(entries);
    if forall|i: int, j: int|
        0 <= i < j < entries.len() ==> (#[trigger] entries[i]).0.model() != (
        #[trigger] entries[j]).0.model() {
        assert forall|i: int, j: int| 0 <= i < j < views.len() implies (#[trigger] views[i]).0
            != (#[trigger] views[j]).0 by {
            assert(entries[i].0.model() != entries[j].0.model());
        }
    } else {
        let (i, j) = choose|i: int, j: int|
            0 <= i < j < entries.len() && (#[trigger] entries[i]).0.model() == (
            #[trigger] entries[j]).0.model();
        assert(views[i].0 == views[j].0);
    }
}

/// Whether a value is fit for validation.
pub fn value_is_well_formed(value: &Value) -> (ok: bool)
    ensures
        ok == value_well_formed(value@),
    decreases value,
{
    match value {
        Value::Optional(inner) => match inner {
            Some(wrapped) => value_is_well_formed(wrapped),
            None => true,
        },
        Value::Sequence(items) => {
            proof {
                lemma_sequence_view(*items);
                lemma_sequence_well_formed(value_views(items@));
            }
            items_are_well_formed(items)
        },
        Value::Mapping(entries) => {
            proof {
                lemma_mapping_view(*entries);
                lemma_mapping_well_formed(entry_views(entries@));
                lemma_distinct_entries(entries@);
            }
            keys_distinct(entries) && entries_are_well_formed(entries)
        },
        Value::Nested(aggregate) => aggregate_is_well_formed(aggregate),
        _ => true,
    }
}

fn items_are_well_formed(items: &Vec<Value>) -> (ok: bool)
    ensures
        ok == (forall|i: int|
            0 <= i < items.len() ==> value_well_formed(#[trigger] value_views(items@)[i])),
    decreases items,
{
    let mut i: usize = 0;
    while i < items.len()
        invariant
            i <= items.len(),
            forall|k: int| 0 <= k < i ==> value_well_formed(#[trigger] value_views(items@)[k]),
        decreases items.len() - i,
    {
        proof {
            assert(decreases_to!(items@ => items@[i as int]));
        }
        if !value_is_well_formed(&items[i]) {
            assert(!value_well_formed(value_views(items@)[i as int]));
            return false;
        }
        i += 1;
    }
    true
}

fn entries_are_well_formed(entries: &Vec<(String, Value)>) -> (ok: bool)
    ensures
        ok == (forall|i: int|
            0 <= i < entries.len() ==> value_well_formed(
                (#[trigger] entry_views(entries@)[i]).1,
            )),
    decreases entries,
{
    let mut i: usize = 0;
    while i < entries.len()
        invariant
            i <= entries.len(),
            forall|k: int|
                0 <= k < i ==> value_well_formed((#[trigger] entry_views(entries@)[k]).1),
        decreases entries.len() - i,
    {
        proof {
            assert(decreases_to!(entries@ => entries@[i as int]));
        }
        if !value_is_well_formed(&entries[i].1) {
            assert(!value_well_formed(entry_views(entries@)[i as int].1));
            return false;
        }
        i += 1;
    }
    true
}

/// Whether a field is fit for validation.
pub fn field_is_well_formed(field: &Field) -> (ok: bool)
    ensures
        ok == field_well_formed(field@),
    decreases field,
{
    assert(field@.constraints == constraint_views(field.constraints@));
    value_is_well_formed(&field.value) && constraints_fit(&field.constraints, &field.value)
}

fn fields_are_well_formed<K: Key>(fields: &Vec<(K, Field)>) -> (ok: bool)
    ensures
        ok == (forall|i: int|
            0 <= i < fields.len() ==> field_well_formed((#[trigger] keyed_fields(fields@)[i]).1)),
    decreases fields,
{
    let mut i: usize = 0;
    while i < fields.len()
        invariant
            i <= fields.len(),
            forall|k: int|
                0 <= k < i ==> field_well_formed((#[trigger] keyed_fields(fields@)[k]).1),
        decreases fields.len() - i,
    {
        proof {
            assert(decreases_to!(fields@ => fields@[i as int]));
        }
        if !field_is_well_formed(&fields[i].1) {
            assert(!field_well_formed(keyed_fields(fields@)[i as int].1));
            return false;
        }
        i += 1;
    }
    true
}

/// Keys of fields are distinct exactly when their mathematical values are.
proof fn lemma_distinct_fields<K: Key>(fields: Seq<(K, Field)>)
    ensures
        distinct_keys(keyed_fields(fields)) == (forall|i: int, j: int|
            0 <= i < j < fields.len() ==> (#[trigger] fields[i]).0.model() != (
            #[trigger] fields[j]).0.model()),
{
    let views = keyed_fields(fields);
    if forall|i: int, j: int|
        0 <= i < j < fields.len() ==> (#[trigger] fields[i]).0.model() != (
        #[trigger] fields[j]).0.model() {
        assert forall|i: int, j: int| 0 <= i < j < views.len() implies (#[trigger] views[i]).0
            != (#[trigger] views[j]).0 by {
            assert(fields[i].0.model() != fields[j].0.model());
        }
    } else {
        let (i, j) = choose|i: int, j: int|
            0 <= i < j < fields.len() && (#[trigger] fields[i]).0.model() == (
            #[trigger] fields[j]).0.model();
        assert(views[i].0 == views[j].0);
    }
}

/// Whether an aggregate is fit for validation.
pub fn aggregate_is_well_formed(aggregate: &Aggregate) -> (ok: bool)
    ensures
        ok == aggregate_well_formed(aggregate@),
    decreases aggregate,
{
    match aggregate {
        Aggregate::Named { fields, rules } => {
            proof {
                lemma_named_view(*fields, *rules);
                assert(aggregate@->Named_fields =~= keyed_fields(fields@));
                lemma_distinct_fields(fields@);
                lemma_named_well_formed(keyed_fields(fields@), aggregate@->Named_rules);
            }
            keys_distinct(fields) && fields_are_well_formed(fields)
        },
        Aggregate::Indexed { fields, rules } => {
            proof {
                lemma_indexed_view(*fields, *rules);
                assert(aggregate@->Indexed_fields =~= keyed_fields(fields@));
                lemma_distinct_fields(fields@);
                lemma_indexed_well_formed(keyed_fields(fields@), aggregate@->Indexed_rules);
            }
            keys_distinct(fields) && fields_are_well_formed(fields)
        },
        Aggregate::NewType { field, rules } => field_is_well_formed(field),
    }
}

/// The reason for which an aggregate was not validated: a rule of it has a
/// parameter that cannot be evaluated, or is attached to a value of a type it
/// cannot be asked of, or two fields or two entries of a mapping share a key.
#[derive(Clone, Copy, Debug, PartialEq, Eq, Structural)]
pub struct Malformed;

/// What validating an aggregate returned, as a value for contracts: nothing
/// where the aggregate was not fit for validation, else what it yielded.
pub open spec fn checked_view(result: Result<Result<(), Errors>, Malformed>) -> Option<
    Option<ErrorTree>,
> {
    match result {
        Ok(validated) => Some(outcome_view(validated)),
        Err(_) => None,
    }
}

/// Validates an aggregate after making sure that it is fit for validation.
/// An aggregate that is not fit is refused, and none of its rules is evaluated.
pub fn try_validate(aggregate: &Aggregate) -> (result: Result<Result<(), Errors>, Malformed>)
    ensures
        checked_view(result) == (if aggregate_well_formed(aggregate@) {
            Some(aggregate_outcome(aggregate@))
        } else {
            None
        }),
        result matches Ok(Err(errors)) ==> errors@.well_formed(),
{
    if aggregate_is_well_formed(aggregate) {
        Ok(validate_aggregate(aggregate))
    } else {
        Err(Malformed)
    }
}

} // verus!
