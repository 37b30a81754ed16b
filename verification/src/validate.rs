//! The validation engine: every field of an aggregate is validated against
//! its constraints, nested values are validated in turn, and all failures are
//! assembled into one error tree.

use vstd::prelude::*;
use crate::assemble::{
    collect_failures, collect_verdicts, keyed_rules, keyed_trees, layer, lemma_keyed_trees_empty,
    lemma_keyed_trees_push, outcome_view, report_rules, wrap, Key,
};
use crate::error::{
    distinct_keys, failure_views, item_views, lemma_array_view, lemma_object_view, property_views,
    ErrorTree, Errors, Failure,
};
use crate::fitness::{aggregate_is_well_formed, field_is_well_formed, value_is_well_formed};
use crate::outcome::{
    aggregate_outcome, aggregate_well_formed, entry_outcomes, failing, field_outcome,
    field_outcomes, field_well_formed, indexed_tree, item_outcomes, lemma_failing_ends,
    lemma_failing_step, lemma_indexed_well_formed,
    lemma_mapping_well_formed, lemma_named_well_formed, lemma_sequence_well_formed, named_tree,
    sequence_tree, value_outcome, value_outcomes, value_well_formed,
};
use crate::value::{
    entry_views, index_rule_views, indexed_field_views, lemma_indexed_view, lemma_mapping_view,
    lemma_named_view, lemma_sequence_view, name_rule_views, named_field_views, value_views,
    Aggregate, Field, FieldView, Value,
};
use crate::wellformed::{
    lemma_aggregate_outcome_well_formed, lemma_failing_distinct, lemma_failing_well_formed,
    lemma_field_outcome_well_formed, lemma_indexed_tree_well_formed, lemma_item_outcomes_distinct,
    lemma_named_tree_well_formed, lemma_value_outcome_well_formed,
};

verus! {

/// The named tree of these failures and entries, or `Ok` where both are empty.
pub fn object_errors(errors: Vec<Failure>, properties: Vec<(String, Errors)>) -> (result: Result<
    (),
    Errors,
>)
    ensures
        outcome_view(result) == named_tree(failure_views(errors@), keyed_trees(properties@)),
{
    proof {
        lemma_object_view(errors, properties);
        assert(keyed_trees(properties@) =~= property_views(properties@));
    }
    if errors.len() == 0 && properties.len() == 0 {
        Ok(())
    } else {
        Err(Errors::Object { errors, properties })
    }
}

/// The indexed tree of these failures and entries, or `Ok` where both are empty.
pub fn array_errors(errors: Vec<Failure>, items: Vec<(usize, Errors)>) -> (result: Result<
    (),
    Errors,
>)
    ensures
        outcome_view(result) == indexed_tree(failure_views(errors@), keyed_trees(items@)),
{
    proof {
        lemma_array_view(errors, items);
        assert(keyed_trees(items@) =~= item_views(items@));
    }
    if errors.len() == 0 && items.len() == 0 {
        Ok(())
    } else {
        Err(Errors::Array { errors, items })
    }
}

/// Validates a value: a leaf and an absent optional value are valid, a
/// present optional value is what it wraps, a sequence reports its failing
/// items by position, a mapping its failing values by key, and a nested
/// aggregate is validated as an aggregate.
pub fn validate_value(value: &Value) -> (result: Result<(), Errors>)
    requires
        value_well_formed(value@),
    ensures
        outcome_view(result) == value_outcome(value@),
        result matches Err(errors) ==> errors@.well_formed(),
    decreases value,
{
    proof {
        lemma_value_outcome_well_formed(value@);
    }
    match value {
        Value::Optional(inner) => match inner {
            Some(wrapped) => validate_value(wrapped),
            None => Ok(()),
        },
        Value::Sequence(items) => {
            proof {
                lemma_sequence_view(*items);
                lemma_sequence_well_formed(value_views(items@));
            }
            let entries = validate_items(items);
            proof {
                lemma_keyed_trees_empty::<usize>();
            }
            array_errors(Vec::new(), entries)
        },
        Value::Mapping(entries) => {
            proof {
                lemma_mapping_view(*entries);
                lemma_mapping_well_formed(entry_views(entries@));
            }
            let properties = validate_entries(entries);
            proof {
                lemma_keyed_trees_empty::<String>();
            }
            object_errors(Vec::new(), properties)
        },
        Value::Nested(aggregate) => validate_aggregate(aggregate),
        _ => Ok(()),
    }
}

fn validate_items(items: &Vec<Value>) -> (entries: Vec<(usize, Errors)>)
    requires
        forall|i: int| 0 <= i < items.len() ==> value_well_formed(#[trigger] value_views(items@)[i]),
    ensures
        keyed_trees(entries@) == failing(item_outcomes(value_outcomes(value_views(items@)))),
    decreases items,
{
    let ghost all = item_outcomes(value_outcomes(value_views(items@)));
    let mut entries: Vec<(usize, Errors)> = Vec::new();
    let mut i: usize = 0;
    proof {
        lemma_failing_ends(all);
        lemma_keyed_trees_empty::<usize>();
    }
    while i < items.len()
        invariant
            i <= items.len(),
            all == item_outcomes(value_outcomes(value_views(items@))),
            forall|k: int|
                0 <= k < items.len() ==> value_well_formed(#[trigger] value_views(items@)[k]),
            keyed_trees(entries@) == failing(all.take(i as int)),
        decreases items.len() - i,
    {
        proof {
            assert(decreases_to!(items@ => items@[i as int]));
            assert(all[i as int] == (i as nat, value_outcome(items@[i as int]@)));
            lemma_failing_step(all, i as int);
        }
        match validate_value(&items[i]) {
            Ok(_) => {},
            Err(tree) => {
                proof {
                    lemma_keyed_trees_push(entries@, i, tree);
                }
                entries.push((i, tree));
            },
        }
        i += 1;
    }
    entries
}

fn validate_entries(entries: &Vec<(String, Value)>) -> (properties: Vec<(String, Errors)>)
    requires
        forall|i: int|
            0 <= i < entries.len() ==> value_well_formed((#[trigger] entry_views(entries@)[i]).1),
    ensures
        keyed_trees(properties@) == failing(entry_outcomes(entry_views(entries@))),
    decreases entries,
{
    let ghost all = entry_outcomes(entry_views(entries@));
    let mut properties: Vec<(String, Errors)> = Vec::new();
    let mut i: usize = 0;
    proof {
        lemma_failing_ends(all);
        lemma_keyed_trees_empty::<String>();
    }
    while i < entries.len()
        invariant
            i <= entries.len(),
            all == entry_outcomes(entry_views(entries@)),
            forall|k: int|
                0 <= k < entries.len() ==> value_well_formed(
                    (#[trigger] entry_views(entries@)[k]).1,
                ),
            keyed_trees(properties@) == failing(all.take(i as int)),
        decreases entries.len() - i,
    {
        proof {
            assert(decreases_to!(entries@ => entries@[i as int]));
            assert(all[i as int] == (entries@[i as int].0@, value_outcome(entries@[i as int].1@)));
            lemma_failing_step(all, i as int);
        }
        match validate_value(&entries[i].1) {
            Ok(_) => {},
            Err(tree) => {
                let key = entries[i].0.clone();
                proof {
                    lemma_keyed_trees_push(properties@, key, tree);
                }
                properties.push((key, tree));
            },
        }
        i += 1;
    }
    properties
}

/// The values of keyed fields.
pub open spec fn keyed_fields<K: Key>(fields: Seq<(K, Field)>) -> Seq<(K::Model, FieldView)> {
    Seq::new(fields.len(), |i: int| (fields[i].0.model(), fields[i].1@))
}

/// The field aggregator: evaluates every constraint of the field, validates
/// its value, and layers the field's own failures over what the value yielded.
pub fn validate_field(field: &Field) -> (result: Result<(), Errors>)
    requires
        field_well_formed(field@),
    ensures
        outcome_view(result) == field_outcome(field@),
        result matches Err(errors) ==> errors@.well_formed(),
    decreases field,
{
    proof {
        lemma_field_outcome_well_formed(field@);
        assert forall|i: int| 0 <= i < field.constraints.len() implies (
        #[trigger] field.constraints[i])@.rule.well_formed() by {
            assert(field@.constraints[i] == field.constraints[i]@);
        }
    }
    let direct = collect_failures(&field.constraints, &field.value);
    let nested = validate_value(&field.value);
    layer(direct, nested)
}

fn validate_fields<K: Key>(fields: &Vec<(K, Field)>) -> (entries: Vec<(K, Errors)>)
    requires
        forall|i: int|
            0 <= i < fields.len() ==> field_well_formed((#[trigger] keyed_fields(fields@)[i]).1),
    ensures
        keyed_trees(entries@) == failing(field_outcomes(keyed_fields(fields@))),
    decreases fields,
{
    let ghost all = field_outcomes(keyed_fields(fields@));
    let mut entries: Vec<(K, Errors)> = Vec::new();
    let mut i: usize = 0;
    proof {
        lemma_failing_ends(all);
        lemma_keyed_trees_empty::<K>();
    }
    while i < fields.len()
        invariant
            i <= fields.len(),
            all == field_outcomes(keyed_fields(fields@)),
            forall|k: int|
                0 <= k < fields.len() ==> field_well_formed(
                    (#[trigger] keyed_fields(fields@)[k]).1,
                ),
            keyed_trees(entries@) == failing(all.take(i as int)),
        decreases fields.len() - i,
    {
        proof {
            assert(decreases_to!(fields@ => fields@[i as int]));
            assert(all[i as int] == (
                fields@[i as int].0.model(),
                field_outcome(fields@[i as int].1@),
            ));
            lemma_failing_step(all, i as int);
        }
        match validate_field(&fields[i].1) {
            Ok(_) => {},
            Err(tree) => {
                let key = fields[i].0.duplicate();
                proof {
                    lemma_keyed_trees_push(entries@, key, tree);
                }
                entries.push((key, tree));
            },
        }
        i += 1;
    }
    entries
}

/// Validates an aggregate: every field, in declaration order, then the
/// cross-field rules. `Ok` exactly where nothing failed anywhere.
pub fn validate_aggregate(aggregate: &Aggregate) -> (result: Result<(), Errors>)
    requires
        aggregate_well_formed(aggregate@),
    ensures
        outcome_view(result) == aggregate_outcome(aggregate@),
        result matches Err(errors) ==> errors@.well_formed(),
    decreases aggregate,
{
    proof {
        lemma_aggregate_outcome_well_formed(aggregate@);
    }
    match aggregate {
        Aggregate::Named { fields, rules } => {
            proof {
                lemma_named_view(*fields, *rules);
                assert(named_field_views(fields@) =~= keyed_fields(fields@));
                assert(name_rule_views(rules@) =~= keyed_rules(rules@));
                lemma_named_well_formed(keyed_fields(fields@), keyed_rules(rules@));
            }
            let mut properties = validate_fields(fields);
            let mut errors: Vec<Failure> = Vec::new();
            assert(failure_views(errors@) =~= Seq::empty());
            report_rules(&mut errors, &mut properties, rules);
            object_errors(errors, properties)
        },
        Aggregate::Indexed { fields, rules } => {
            proof {
                lemma_indexed_view(*fields, *rules);
                assert(indexed_field_views(fields@) =~= keyed_fields(fields@));
                assert(index_rule_views(rules@) =~= keyed_rules(rules@));
                lemma_indexed_well_formed(keyed_fields(fields@), keyed_rules(rules@));
            }
            let mut items = validate_fields(fields);
            let mut errors: Vec<Failure> = Vec::new();
            assert(failure_views(errors@) =~= Seq::empty());
            report_rules(&mut errors, &mut items, rules);
            array_errors(errors, items)
        },
        Aggregate::NewType { field, rules } => {
            let inner = validate_field(field);
            wrap(inner, collect_verdicts(rules))
        },
    }
}

/// What can be validated.
pub trait Validate {
    /// Whether the value is fit for validation.
    spec fn well_formed(&self) -> bool;

    /// What validating the value yields: no tree where it is valid, else its tree.
    spec fn outcome(&self) -> Option<ErrorTree>;

    /// Whether the value is fit for validation.
    fn is_well_formed(&self) -> (ok: bool)
        ensures
            ok == self.well_formed(),
    ;

    /// Validates the value: `Ok` exactly where nothing failed anywhere in it,
    /// else the tree of all its failures.
    fn validate(&self) -> (result: Result<(), Errors>)
        requires
            self.well_formed(),
        ensures
            outcome_view(result) == self.outcome(),
            result matches Err(errors) ==> errors@.well_formed(),
    ;

    /// What a value that is fit for validation yields is a well-formed tree:
    /// it is not empty, and no key occurs twice among the entries of a tree in it.
    proof fn outcome_is_well_formed(&self)
        requires
            self.well_formed(),
        ensures
            self.outcome() matches Some(tree) ==> tree.well_formed(),
    ;
}

impl Validate for Value {
    open spec fn well_formed(&self) -> bool {
        value_well_formed(self@)
    }

    open spec fn outcome(&self) -> Option<ErrorTree> {
        value_outcome(self@)
    }

    fn is_well_formed(&self) -> (ok: bool) {
        value_is_well_formed(self)
    }

    fn validate(&self) -> (result: Result<(), Errors>) {
        validate_value(self)
    }

    proof fn outcome_is_well_formed(&self) {
        lemma_value_outcome_well_formed(self@);
    }
}

impl Validate for Field {
    open spec fn well_formed(&self) -> bool {
        field_well_formed(self@)
    }

    open spec fn outcome(&self) -> Option<ErrorTree> {
        field_outcome(self@)
    }

    fn is_well_formed(&self) -> (ok: bool) {
        field_is_well_formed(self)
    }

    fn validate(&self) -> (result: Result<(), Errors>) {
        validate_field(self)
    }

    proof fn outcome_is_well_formed(&self) {
        lemma_field_outcome_well_formed(self@);
    }
}

impl Validate for Aggregate {
    open spec fn well_formed(&self) -> bool {
        aggregate_well_formed(self@)
    }

    open spec fn outcome(&self) -> Option<ErrorTree> {
        aggregate_outcome(self@)
    }

    fn is_well_formed(&self) -> (ok: bool) {
        aggregate_is_well_formed(self)
    }

    fn validate(&self) -> (result: Result<(), Errors>) {
        validate_aggregate(self)
    }

    proof fn outcome_is_well_formed(&self) {
        lemma_aggregate_outcome_well_formed(self@);
    }
}

/// What each item of a list yields.
pub open spec fn outcomes_of<T: Validate>(items: Seq<T>) -> Seq<Option<ErrorTree>> {
    Seq::new(items.len(), |i: int| items[i].outcome())
}

/// What the value of each entry of a list yields, with the entry's key.
pub open spec fn keyed_outcomes<T: Validate>(entries: Seq<(String, T)>) -> Seq<
    (Seq<char>, Option<ErrorTree>),
> {
    Seq::new(entries.len(), |i: int| (entries[i].0@, entries[i].1.outcome()))
}

/// What a list of items that are fit for validation yields is a well-formed tree.
pub proof fn lemma_sequence_tree_well_formed<T: Validate>(items: Seq<T>)
    requires
        forall|i: int| 0 <= i < items.len() ==> (#[trigger] items[i]).well_formed(),
    ensures
        sequence_tree(outcomes_of(items)) matches Some(tree) ==> tree.well_formed(),
{
    let outcomes = item_outcomes(outcomes_of(items));
    assert forall|i: int| 0 <= i < outcomes.len() implies ((
    #[trigger] outcomes[i]).1 matches Some(tree) ==> tree.well_formed()) by {
        items[i].outcome_is_well_formed();
    }
    lemma_failing_well_formed(outcomes);
    lemma_item_outcomes_distinct(outcomes_of(items));
    lemma_failing_distinct(outcomes);
    lemma_indexed_tree_well_formed(Seq::empty(), failing(outcomes));
}

/// Whether every item is fit for validation.
pub fn slice_is_well_formed<T: Validate>(items: &[T]) -> (ok: bool)
    ensures
        ok == (forall|i: int| 0 <= i < items@.len() ==> (#[trigger] items@[i]).well_formed()),
{
    let mut i: usize = 0;
    while i < items.len()
        invariant
            i <= items@.len(),
            forall|k: int| 0 <= k < i ==> (#[trigger] items@[k]).well_formed(),
        decreases items@.len() - i,
    {
        if !items[i].is_well_formed() {
            return false;
        }
        i += 1;
    }
    true
}

/// Whether the value of every entry is fit for validation.
pub fn entries_are_well_formed<T: Validate>(entries: &[(String, T)]) -> (ok: bool)
    ensures
        ok == (forall|i: int| 0 <= i < entries@.len() ==> (#[trigger] entries@[i]).1.well_formed()),
{
    let mut i: usize = 0;
    while i < entries.len()
        invariant
            i <= entries@.len(),
            forall|k: int| 0 <= k < i ==> (#[trigger] entries@[k]).1.well_formed(),
        decreases entries@.len() - i,
    {
        if !entries[i].1.is_well_formed() {
            return false;
        }
        i += 1;
    }
    true
}

/// What a list of entries whose values are fit for validation yields is a
/// well-formed tree, where no two of the entries share a key.
pub proof fn lemma_entries_tree_well_formed<T: Validate>(entries: Seq<(String, T)>)
    requires
        forall|i: int| 0 <= i < entries.len() ==> (#[trigger] entries[i]).1.well_formed(),
        distinct_keys(keyed_outcomes(entries)),
    ensures
        named_tree(Seq::empty(), failing(keyed_outcomes(entries))) matches Some(tree)
            ==> tree.well_formed(),
{
    let outcomes = keyed_outcomes(entries);
    assert forall|i: int| 0 <= i < outcomes.len() implies ((
    #[trigger] outcomes[i]).1 matches Some(tree) ==> tree.well_formed()) by {
        entries[i].1.outcome_is_well_formed();
    }
    lemma_failing_well_formed(outcomes);
    lemma_failing_distinct(outcomes);
    lemma_named_tree_well_formed(Seq::empty(), failing(outcomes));
}

fn collect_slice<T: Validate>(items: &[T]) -> (entries: Vec<(usize, Errors)>)
    requires
        forall|i: int| 0 <= i < items@.len() ==> (#[trigger] items@[i]).well_formed(),
    ensures
        keyed_trees(entries@) == failing(item_outcomes(outcomes_of(items@))),
{
    let ghost all = item_outcomes(outcomes_of(items@));
    let mut entries: Vec<(usize, Errors)> = Vec::new();
    let mut i: usize = 0;
    proof {
        lemma_failing_ends(all);
        lemma_keyed_trees_empty::<usize>();
    }
    while i < items.len()
        invariant
            i <= items@.len(),
            all == item_outcomes(outcomes_of(items@)),
            forall|k: int| 0 <= k < items@.len() ==> (#[trigger] items@[k]).well_formed(),
            keyed_trees(entries@) == failing(all.take(i as int)),
        decreases items@.len() - i,
    {
        proof {
            assert(all[i as int] == (i as nat, items@[i as int].outcome()));
            lemma_failing_step(all, i as int);
        }
        match items[i].validate() {
            Ok(_) => {},
            Err(tree) => {
                proof {
                    lemma_keyed_trees_push(entries@, i, tree);
                }
                entries.push((i, tree));
            },
        }
        i += 1;
    }
    entries
}

/// Validates every item and reports the failing ones by position.
pub fn validate_slice<T: Validate>(items: &[T]) -> (result: Result<(), Errors>)
    requires
        forall|i: int| 0 <= i < items@.len() ==> (#[trigger] items@[i]).well_formed(),
    ensures
        outcome_view(result) == sequence_tree(outcomes_of(items@)),
        result matches Err(errors) ==> errors@.well_formed(),
{
    proof {
        lemma_sequence_tree_well_formed(items@);
        lemma_keyed_trees_empty::<usize>();
    }
    let entries = collect_slice(items);
    array_errors(Vec::new(), entries)
}

fn collect_entries<T: Validate>(entries: &[(String, T)]) -> (properties: Vec<(String, Errors)>)
    requires
        forall|i: int| 0 <= i < entries@.len() ==> (#[trigger] entries@[i]).1.well_formed(),
    ensures
        keyed_trees(properties@) == failing(keyed_outcomes(entries@)),
{
    let ghost all = keyed_outcomes(entries@);
    let mut properties: Vec<(String, Errors)> = Vec::new();
    let mut i: usize = 0;
    proof {
        lemma_failing_ends(all);
        lemma_keyed_trees_empty::<String>();
    }
    while i < entries.len()
        invariant
            i <= entries@.len(),
            all == keyed_outcomes(entries@),
            forall|k: int| 0 <= k < entries@.len() ==> (#[trigger] entries@[k]).1.well_formed(),
            keyed_trees(properties@) == failing(all.take(i as int)),
        decreases entries@.len() - i,
    {
        proof {
            assert(all[i as int] == (entries@[i as int].0@, entries@[i as int].1.outcome()));
            lemma_failing_step(all, i as int);
        }
        match entries[i].1.validate() {
            Ok(_) => {},
            Err(tree) => {
                let key = entries[i].0.clone();
                proof {
                    lemma_keyed_trees_push(properties@, key, tree);
                }
                properties.push((key, tree));
            },
        }
        i += 1;
    }
    properties
}

/// Validates the value of every entry of a mapping, given as its entries in
/// the order in which the mapping is walked, and reports the failing ones by key.
pub fn validate_entries_of<T: Validate>(entries: &[(String, T)]) -> (result: Result<(), Errors>)
    requires
        forall|i: int| 0 <= i < entries@.len() ==> (#[trigger] entries@[i]).1.well_formed(),
    ensures
        outcome_view(result) == named_tree(Seq::empty(), failing(keyed_outcomes(entries@))),
        distinct_keys(keyed_outcomes(entries@)) ==> (result matches Err(errors)
            ==> errors@.well_formed()),
{
    proof {
        if distinct_keys(keyed_outcomes(entries@)) {
            lemma_entries_tree_well_formed(entries@);
        }
        lemma_keyed_trees_empty::<String>();
    }
    let properties = collect_entries(entries);
    object_errors(Vec::new(), properties)
}

impl<T: Validate> Validate for Vec<T> {
    open spec fn well_formed(&self) -> bool {
        forall|i: int| 0 <= i < self@.len() ==> (#[trigger] self@[i]).well_formed()
    }

    open spec fn outcome(&self) -> Option<ErrorTree> {
        sequence_tree(outcomes_of(self@))
    }

    fn is_well_formed(&self) -> (ok: bool) {
        slice_is_well_formed(self.as_slice())
    }

    fn validate(&self) -> (result: Result<(), Errors>) {
        validate_slice(self.as_slice())
    }

    proof fn outcome_is_well_formed(&self) {
        lemma_sequence_tree_well_formed(self@);
    }
}

impl<T: Validate, const N: usize> Validate for [T; N] {
    open spec fn well_formed(&self) -> bool {
        forall|i: int| 0 <= i < self@.len() ==> (#[trigger] self@[i]).well_formed()
    }

    open spec fn outcome(&self) -> Option<ErrorTree> {
        sequence_tree(outcomes_of(self@))
    }

    fn is_well_formed(&self) -> (ok: bool) {
        slice_is_well_formed(self.as_slice())
    }

    fn validate(&self) -> (result: Result<(), Errors>) {
        validate_slice(self.as_slice())
    }

    proof fn outcome_is_well_formed(&self) {
        lemma_sequence_tree_well_formed(self@);
    }
}

impl<T: Validate> Validate for Option<T> {
    open spec fn well_formed(&self) -> bool {
        match self {
            Some(value) => value.well_formed(),
            None => true,
        }
    }

    open spec fn outcome(&self) -> Option<ErrorTree> {
        match self {
            Some(value) => value.outcome(),
            None => None,
        }
    }

    fn is_well_formed(&self) -> (ok: bool) {
        match self {
            Some(value) => value.is_well_formed(),
            None => true,
        }
    }

    fn validate(&self) -> (result: Result<(), Errors>) {
        match self {
            Some(value) => value.validate(),
            None => Ok(()),
        }
    }

    proof fn outcome_is_well_formed(&self) {
        match self {
            Some(value) => {
                value.outcome_is_well_formed();
            },
            None => {},
        }
    }
}

impl<T: Validate> Validate for &T {
    open spec fn well_formed(&self) -> bool {
        (**self).well_formed()
    }

    open spec fn outcome(&self) -> Option<ErrorTree> {
        (**self).outcome()
    }

    fn is_well_formed(&self) -> (ok: bool) {
        (**self).is_well_formed()
    }

    fn validate(&self) -> (result: Result<(), Errors>) {
        (**self).validate()
    }

    proof fn outcome_is_well_formed(&self) {
        (**self).outcome_is_well_formed();
    }
}

} // verus!
