//! The invariant of error trees: what validation yields is never an empty
//! tree, has no key twice among the entries of a tree, and has an entry only
//! for a part that itself yielded a tree.

use vstd::prelude::*;
use crate::error::{distinct_keys, ErrorTree, FailureView};
use crate::outcome::{
    aggregate_outcome, aggregate_well_formed, apply_rules, custom_failure, direct_failures,
    entry_outcomes, failed_verdicts, failing, field_outcome, field_outcomes, field_well_formed,
    item_outcomes, key_position, lemma_indexed_well_formed, lemma_mapping_well_formed,
    lemma_named_well_formed, lemma_sequence_well_formed, report_at, value_outcome, value_outcomes,
    value_well_formed, wrapped,
};
use crate::rule::VerdictView;
use crate::value::{AggregateView, FieldView, ValueView};

verus! {

/// Whether every entry's tree is well formed.
pub open spec fn entries_well_formed<K>(entries: Seq<(K, ErrorTree)>) -> bool {
    forall|i: int| 0 <= i < entries.len() ==> (#[trigger] entries[i]).1.well_formed()
}

/// A named tree is well formed exactly when it is not empty, no name occurs
/// twice among its entries, and every entry's tree is well formed.
pub proof fn lemma_named_tree_well_formed(
    errors: Seq<FailureView>,
    properties: Seq<(Seq<char>, ErrorTree)>,
)
    ensures
        (ErrorTree::Named { errors, properties }).well_formed() == ((errors.len() > 0
            || properties.len() > 0) && distinct_keys(properties) && entries_well_formed(
            properties,
        )),
{
    let tree = ErrorTree::Named { errors, properties };
    if tree.well_formed() {
        assert forall|i: int| 0 <= i < properties.len() implies (
        #[trigger] properties[i]).1.well_formed() by {
            assert(tree->properties[i] == properties[i]);
        }
    }
}

/// An indexed tree is well formed exactly when it is not empty, no index
/// occurs twice among its entries, and every entry's tree is well formed.
pub proof fn lemma_indexed_tree_well_formed(
    errors: Seq<FailureView>,
    items: Seq<(nat, ErrorTree)>,
)
    ensures
        (ErrorTree::Indexed { errors, items }).well_formed() == ((errors.len() > 0 || items.len()
            > 0) && distinct_keys(items) && entries_well_formed(items)),
{
    let tree = ErrorTree::Indexed { errors, items };
    if tree.well_formed() {
        assert forall|i: int| 0 <= i < items.len() implies (#[trigger] items[i]).1.well_formed() by {
            assert(tree->items[i] == items[i]);
        }
    }
}

/// A well-formed tree stays well formed when failures are appended to its own.
pub proof fn lemma_with_errors_well_formed(tree: ErrorTree, more: Seq<FailureView>)
    requires
        tree.well_formed(),
    ensures
        tree.with_errors(more).well_formed(),
{
    match tree {
        ErrorTree::Named { errors, properties } => {
            lemma_named_tree_well_formed(errors, properties);
            lemma_named_tree_well_formed(errors + more, properties);
        },
        ErrorTree::Indexed { errors, items } => {
            lemma_indexed_tree_well_formed(errors, items);
            lemma_indexed_tree_well_formed(errors + more, items);
        },
        ErrorTree::Flat { errors } => {},
    }
}

/// A well-formed tree stays well formed when failures are put before its own.
pub proof fn lemma_after_errors_well_formed(tree: ErrorTree, first: Seq<FailureView>)
    requires
        tree.well_formed(),
    ensures
        tree.after_errors(first).well_formed(),
{
    match tree {
        ErrorTree::Named { errors, properties } => {
            lemma_named_tree_well_formed(errors, properties);
            lemma_named_tree_well_formed(first + errors, properties);
        },
        ErrorTree::Indexed { errors, items } => {
            lemma_indexed_tree_well_formed(errors, items);
            lemma_indexed_tree_well_formed(first + errors, items);
        },
        ErrorTree::Flat { errors } => {},
    }
}

/// Every entry among the failing parts is a part that yielded that tree, and
/// a part that yielded a tree has an entry.
pub proof fn lemma_failing_entries<K>(outcomes: Seq<(K, Option<ErrorTree>)>)
    ensures
        forall|j: int|
            0 <= j < failing(outcomes).len() ==> exists|i: int|
                0 <= i < outcomes.len() && #[trigger] outcomes[i] == ((
                    #[trigger] failing(outcomes)[j]).0,
                    Some(failing(outcomes)[j].1),
                ),
        forall|i: int|
            0 <= i < outcomes.len() && (#[trigger] outcomes[i]).1 is Some ==> exists|j: int|
                0 <= j < failing(outcomes).len() && #[trigger] failing(outcomes)[j] == (
                    outcomes[i].0,
                    outcomes[i].1->0,
                ),
    decreases outcomes.len(),
{
    if outcomes.len() > 0 {
        let shorter = outcomes.drop_last();
        lemma_failing_entries(shorter);
        let before = failing(shorter);
        let all = failing(outcomes);
        assert forall|j: int| 0 <= j < all.len() implies exists|i: int|
            0 <= i < outcomes.len() && #[trigger] outcomes[i] == ((#[trigger] all[j]).0, Some(
                all[j].1,
            )) by {
            if j < before.len() {
                assert(all[j] == before[j]);
                let i = choose|i: int|
                    0 <= i < shorter.len() && #[trigger] shorter[i] == (before[j].0, Some(
                        before[j].1,
                    ));
                assert(outcomes[i] == shorter[i]);
            } else {
                assert(outcomes[outcomes.len() - 1] == (all[j].0, Some(all[j].1)));
            }
        }
        assert forall|i: int|
            0 <= i < outcomes.len() && (#[trigger] outcomes[i]).1 is Some implies exists|j: int|
            0 <= j < all.len() && #[trigger] all[j] == (outcomes[i].0, outcomes[i].1->0) by {
            if i < shorter.len() {
                assert(shorter[i] == outcomes[i]);
                let j = choose|j: int|
                    0 <= j < before.len() && #[trigger] before[j] == (
                        shorter[i].0,
                        shorter[i].1->0,
                    );
                assert(all[j] == before[j]);
            } else {
                assert(all[all.len() - 1] == (outcomes[i].0, outcomes[i].1->0));
            }
        }
    }
}

/// Where no two parts share a key, no two entries among the failing parts do.
pub proof fn lemma_failing_distinct<K>(outcomes: Seq<(K, Option<ErrorTree>)>)
    requires
        distinct_keys(outcomes),
    ensures
        distinct_keys(failing(outcomes)),
    decreases outcomes.len(),
{
    if outcomes.len() > 0 {
        let shorter = outcomes.drop_last();
        assert(distinct_keys(shorter)) by {
            assert forall|i: int, j: int| 0 <= i < j < shorter.len() implies (
            #[trigger] shorter[i]).0 != (#[trigger] shorter[j]).0 by {
                assert(shorter[i] == outcomes[i]);
                assert(shorter[j] == outcomes[j]);
            }
        }
        lemma_failing_distinct(shorter);
        lemma_failing_entries(shorter);
        let before = failing(shorter);
        let all = failing(outcomes);
        assert forall|a: int, b: int| 0 <= a < b < all.len() implies (#[trigger] all[a]).0 != (
        #[trigger] all[b]).0 by {
            if b < before.len() {
                assert(all[a] == before[a]);
                assert(all[b] == before[b]);
            } else {
                assert(all[a] == before[a]);
                let i = choose|i: int|
                    0 <= i < shorter.len() && #[trigger] shorter[i] == (before[a].0, Some(
                        before[a].1,
                    ));
                assert(outcomes[i] == shorter[i]);
                assert(outcomes[i].0 != outcomes[outcomes.len() - 1].0);
            }
        }
    }
}

/// Where every tree that a part yielded is well formed, so is every entry.
pub proof fn lemma_failing_well_formed<K>(outcomes: Seq<(K, Option<ErrorTree>)>)
    requires
        forall|i: int|
            0 <= i < outcomes.len() ==> ((#[trigger] outcomes[i]).1 matches Some(tree)
                ==> tree.well_formed()),
    ensures
        entries_well_formed(failing(outcomes)),
{
    lemma_failing_entries(outcomes);
    let all = failing(outcomes);
    assert forall|j: int| 0 <= j < all.len() implies (#[trigger] all[j]).1.well_formed() by {
        let i = choose|i: int|
            0 <= i < outcomes.len() && #[trigger] outcomes[i] == (all[j].0, Some(all[j].1));
        assert(outcomes[i].1 == Some(all[j].1));
    }
}

/// A report against a key keeps the keys distinct and the entries well formed.
pub proof fn lemma_report_at<K>(entries: Seq<(K, ErrorTree)>, key: K, failure: FailureView)
    requires
        distinct_keys(entries),
        entries_well_formed(entries),
    ensures
        distinct_keys(report_at(entries, key, failure)),
        entries_well_formed(report_at(entries, key, failure)),
        report_at(entries, key, failure).len() >= entries.len(),
        report_at(entries, key, failure).len() > 0,
{
    crate::assemble::lemma_key_position(entries, key);
    let after = report_at(entries, key, failure);
    match key_position(entries, key) {
        Some(position) => {
            lemma_with_errors_well_formed(entries[position].1, seq![failure]);
            assert forall|i: int, j: int| 0 <= i < j < after.len() implies (#[trigger] after[i]).0
                != (#[trigger] after[j]).0 by {
                assert(after[i].0 == entries[i].0);
                assert(after[j].0 == entries[j].0);
            }
            assert forall|i: int| 0 <= i < after.len() implies (
            #[trigger] after[i]).1.well_formed() by {
                if i != position {
                    assert(after[i] == entries[i]);
                }
            }
        },
        None => {
            assert forall|i: int, j: int| 0 <= i < j < after.len() implies (#[trigger] after[i]).0
                != (#[trigger] after[j]).0 by {
                assert(after[i] == entries[i]);
                if j < entries.len() {
                    assert(after[j] == entries[j]);
                }
            }
            assert forall|i: int| 0 <= i < after.len() implies (
            #[trigger] after[i]).1.well_formed() by {
                if i < entries.len() {
                    assert(after[i] == entries[i]);
                }
            }
        },
    }
}

/// The cross-field rules keep the keys distinct and the entries well formed,
/// and lose neither a failure nor an entry.
pub proof fn lemma_apply_rules<K>(
    errors: Seq<FailureView>,
    entries: Seq<(K, ErrorTree)>,
    rules: Seq<(Option<K>, VerdictView)>,
)
    requires
        distinct_keys(entries),
        entries_well_formed(entries),
    ensures
        distinct_keys(apply_rules(errors, entries, rules).1),
        entries_well_formed(apply_rules(errors, entries, rules).1),
        apply_rules(errors, entries, rules).0.len() >= errors.len(),
        apply_rules(errors, entries, rules).1.len() >= entries.len(),
    decreases rules.len(),
{
    if rules.len() > 0 {
        lemma_apply_rules(errors, entries, rules.drop_last());
        let reported = apply_rules(errors, entries, rules.drop_last());
        match rules.last().1 {
            VerdictView::Pass => {},
            VerdictView::Fail(message) => match rules.last().0 {
                Some(key) => {
                    lemma_report_at(reported.1, key, custom_failure(message));
                },
                None => {},
            },
        }
    }
}

/// The positions of the items of a sequence are distinct keys.
pub proof fn lemma_item_outcomes_distinct(outcomes: Seq<Option<ErrorTree>>)
    ensures
        distinct_keys(item_outcomes(outcomes)),
{
}

/// What a well-formed value yields is a well-formed tree.
pub proof fn lemma_value_outcome_well_formed(value: ValueView)
    requires
        value_well_formed(value),
    ensures
        value_outcome(value) matches Some(tree) ==> tree.well_formed(),
    decreases value,
{
    match value {
        ValueView::Optional(inner) => match inner {
            Some(wrapped) => {
                lemma_value_outcome_well_formed(*wrapped);
            },
            None => {},
        },
        ValueView::Sequence(items) => {
            lemma_sequence_well_formed(items);
            let outcomes = item_outcomes(value_outcomes(items));
            assert forall|i: int| 0 <= i < outcomes.len() implies ((
            #[trigger] outcomes[i]).1 matches Some(tree) ==> tree.well_formed()) by {
                lemma_value_outcome_well_formed(items[i]);
            }
            lemma_failing_well_formed(outcomes);
            lemma_item_outcomes_distinct(value_outcomes(items));
            lemma_failing_distinct(outcomes);
            lemma_indexed_tree_well_formed(Seq::empty(), failing(outcomes));
        },
        ValueView::Mapping(entries) => {
            lemma_mapping_well_formed(entries);
            let outcomes = entry_outcomes(entries);
            assert forall|i: int| 0 <= i < outcomes.len() implies ((
            #[trigger] outcomes[i]).1 matches Some(tree) ==> tree.well_formed()) by {
                lemma_value_outcome_well_formed(entries[i].1);
            }
            lemma_failing_well_formed(outcomes);
            assert(distinct_keys(outcomes)) by {
                assert forall|i: int, j: int| 0 <= i < j < outcomes.len() implies (
                #[trigger] outcomes[i]).0 != (#[trigger] outcomes[j]).0 by {
                    assert(entries[i].0 != entries[j].0);
                }
            }
            lemma_failing_distinct(outcomes);
            lemma_named_tree_well_formed(Seq::empty(), failing(outcomes));
        },
        ValueView::Nested(aggregate) => {
            lemma_aggregate_outcome_well_formed(*aggregate);
        },
        _ => {},
    }
}

/// What a well-formed field yields is a well-formed tree.
pub proof fn lemma_field_outcome_well_formed(field: FieldView)
    requires
        field_well_formed(field),
    ensures
        field_outcome(field) matches Some(tree) ==> tree.well_formed(),
    decreases field,
{
    lemma_value_outcome_well_formed(field.value);
    match value_outcome(field.value) {
        Some(tree) => {
            lemma_after_errors_well_formed(tree, direct_failures(field.constraints, field.value));
        },
        None => {},
    }
}

proof fn lemma_fields_outcome_well_formed<K>(fields: Seq<(K, FieldView)>)
    requires
        distinct_keys(fields),
        forall|i: int| 0 <= i < fields.len() ==> field_well_formed((#[trigger] fields[i]).1),
    ensures
        distinct_keys(failing(field_outcomes(fields))),
        entries_well_formed(failing(field_outcomes(fields))),
    decreases fields,
{
    let outcomes = field_outcomes(fields);
    assert forall|i: int| 0 <= i < outcomes.len() implies ((
    #[trigger] outcomes[i]).1 matches Some(tree) ==> tree.well_formed()) by {
        assert(field_well_formed(fields[i].1));
        lemma_field_outcome_well_formed(fields[i].1);
    }
    lemma_failing_well_formed(outcomes);
    assert(distinct_keys(outcomes)) by {
        assert forall|i: int, j: int| 0 <= i < j < outcomes.len() implies (
        #[trigger] outcomes[i]).0 != (#[trigger] outcomes[j]).0 by {
            assert(fields[i].0 != fields[j].0);
        }
    }
    lemma_failing_distinct(outcomes);
}

/// What a well-formed aggregate yields is a well-formed tree: it is not
/// empty, no key occurs twice among the entries of a tree in it, and every
/// entry holds a tree that is well formed in turn.
pub proof fn lemma_aggregate_outcome_well_formed(aggregate: AggregateView)
    requires
        aggregate_well_formed(aggregate),
    ensures
        aggregate_outcome(aggregate) matches Some(tree) ==> tree.well_formed(),
    decreases aggregate,
{
    match aggregate {
        AggregateView::Named { fields, rules } => {
            lemma_named_well_formed(fields, rules);
            lemma_fields_outcome_well_formed(fields);
            let entries = failing(field_outcomes(fields));
            lemma_apply_rules(Seq::empty(), entries, rules);
            let reported = apply_rules(Seq::empty(), entries, rules);
            lemma_named_tree_well_formed(reported.0, reported.1);
        },
        AggregateView::Indexed { fields, rules } => {
            lemma_indexed_well_formed(fields, rules);
            lemma_fields_outcome_well_formed(fields);
            let entries = failing(field_outcomes(fields));
            lemma_apply_rules(Seq::empty(), entries, rules);
            let reported = apply_rules(Seq::empty(), entries, rules);
            lemma_indexed_tree_well_formed(reported.0, reported.1);
        },
        AggregateView::NewType { field, rules } => {
            lemma_field_outcome_well_formed(field);
            match field_outcome(field) {
                Some(tree) => {
                    lemma_with_errors_well_formed(tree, failed_verdicts(rules));
                },
                None => {},
            }
        },
    }
}

} // verus!
