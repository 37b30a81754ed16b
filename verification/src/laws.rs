//! What holds of every validation, stated over the specification of the
//! engine and proved from it.

use vstd::prelude::*;
use crate::assemble::outcome_view;
use crate::error::{ErrorTree, Errors, Failure, FailureView};
use crate::evaluate::{evaluation, evaluation_view, holds};
use crate::outcome::{
    aggregate_outcome, apply_rules, constraint_failure, custom_failure, direct_failures,
    failed_verdicts, failing, field_outcome, field_outcomes, report_at, value_outcome,
};
use crate::render::{message_list, render};
use crate::rule::{RuleView, VerdictView};
use crate::text::natural_digits;
use crate::value::{AggregateView, ConstraintView, FieldView, ValueView};

verus! {

/// Evaluation is a function of its inputs: whatever two evaluations of the
/// same rule on the same value return, both pass or both fail, and where they
/// fail they report the same failure.
pub proof fn law_evaluation_is_pure(
    rule: RuleView,
    value: ValueView,
    first: Result<(), Failure>,
    second: Result<(), Failure>,
)
    requires
        evaluation_view(first) == evaluation(rule, value),
        evaluation_view(second) == evaluation(rule, value),
    ensures
        first is Ok <==> second is Ok,
        first matches Err(a) ==> (second matches Err(b) && a@ == b@),
{
}

/// Validation is idempotent: whatever two validations of the same aggregate
/// return, both are `Ok` or both are trees with the same structure, which
/// have the same text form.
pub proof fn law_validation_is_idempotent(
    aggregate: AggregateView,
    first: Result<(), Errors>,
    second: Result<(), Errors>,
)
    requires
        outcome_view(first) == aggregate_outcome(aggregate),
        outcome_view(second) == aggregate_outcome(aggregate),
    ensures
        first is Ok <==> second is Ok,
        first matches Err(a) ==> (second matches Err(b) && a@ == b@ && render(a@) == render(b@)),
{
}

/// The number of constraints that do not hold of a value.
pub open spec fn failing_count(constraints: Seq<ConstraintView>, value: ValueView) -> nat
    decreases constraints.len(),
{
    if constraints.len() == 0 {
        0
    } else {
        failing_count(constraints.drop_last(), value) + (if holds(
            constraints.last().rule,
            value,
        ) {
            0nat
        } else {
            1nat
        })
    }
}

/// Multiplicity: a field reports one failure for each of its rules that does
/// not hold, however many they are, and its tree starts with these failures.
pub proof fn law_every_failing_rule_is_reported(field: FieldView)
    ensures
        direct_failures(field.constraints, field.value).len() == failing_count(
            field.constraints,
            field.value,
        ),
        failing_count(field.constraints, field.value) > 0 ==> field_outcome(field) is Some,
        field_outcome(field) matches Some(tree) ==> tree.errors().len() >= failing_count(
            field.constraints,
            field.value,
        ) && tree.errors().take(failing_count(field.constraints, field.value) as int)
            == direct_failures(field.constraints, field.value),
{
    lemma_direct_failures_count(field.constraints, field.value);
    let direct = direct_failures(field.constraints, field.value);
    match value_outcome(field.value) {
        Some(nested) => {
            assert((direct + nested.errors()).take(direct.len() as int) =~= direct);
        },
        None => {
            assert(direct.take(direct.len() as int) =~= direct);
        },
    }
}

proof fn lemma_direct_failures_count(constraints: Seq<ConstraintView>, value: ValueView)
    ensures
        direct_failures(constraints, value).len() == failing_count(constraints, value),
    decreases constraints.len(),
{
    if constraints.len() > 0 {
        lemma_direct_failures_count(constraints.drop_last(), value);
    }
}

/// Two failing rules on a value without sub-structure give a flat tree of
/// exactly two failures, in the order of the rules.
pub proof fn law_two_failing_rules_give_two_failures(
    first: ConstraintView,
    second: ConstraintView,
    value: ValueView,
)
    requires
        !holds(first.rule, value),
        !holds(second.rule, value),
        value_outcome(value) is None,
    ensures
        field_outcome(FieldView { value, constraints: seq![first, second] }) == Some(
            ErrorTree::Flat {
                errors: seq![
                    constraint_failure(first, value)->0,
                    constraint_failure(second, value)->0,
                ],
            },
        ),
{
    reveal_with_fuel(direct_failures, 3);
    let constraints = seq![first, second];
    assert(constraints.drop_last() =~= seq![first]);
    assert(seq![first].drop_last() =~= Seq::<ConstraintView>::empty());
    assert(direct_failures(seq![first], value) =~= seq![constraint_failure(first, value)->0]);
    assert(direct_failures(constraints, value) =~= seq![
        constraint_failure(first, value)->0,
        constraint_failure(second, value)->0,
    ]);
}

/// Optional short-circuit: an absent optional value meets every rule, so a
/// field that holds one contributes no failure, whatever rules are attached.
pub proof fn law_absent_optional_never_fails(constraints: Seq<ConstraintView>)
    ensures
        direct_failures(constraints, ValueView::Optional(None)).len() == 0,
        field_outcome(FieldView { value: ValueView::Optional(None), constraints }) is None,
    decreases constraints.len(),
{
    if constraints.len() > 0 {
        law_absent_optional_never_fails(constraints.drop_last());
    }
}

/// Shape fidelity: a single-value wrapper whose value has no failing
/// sub-structure yields a flat tree or none. The tree holds the failures of
/// the field's rules followed by those of the wrapper's own rules, and its
/// text form has the key `errors` alone.
pub proof fn law_single_value_wrapper_is_flat(field: FieldView, rules: Seq<VerdictView>)
    requires
        value_outcome(field.value) is None,
    ensures
        aggregate_outcome(AggregateView::NewType { field, rules }) matches Some(tree) ==> tree
            == (ErrorTree::Flat {
            errors: direct_failures(field.constraints, field.value) + failed_verdicts(rules),
        }) && render(tree) == "{\"errors\":["@ + message_list(tree.errors()) + "]"@ + "}"@,
        aggregate_outcome(AggregateView::NewType { field, rules }) is None <==> direct_failures(
            field.constraints,
            field.value,
        ).len() + failed_verdicts(rules).len() == 0,
{
    let direct = direct_failures(field.constraints, field.value);
    let own = failed_verdicts(rules);
    if direct.len() == 0 {
        assert(direct + own =~= own);
    }
}

/// Where no part yields a tree, there is no entry.
pub proof fn lemma_failing_none<K>(outcomes: Seq<(K, Option<ErrorTree>)>)
    requires
        forall|i: int| 0 <= i < outcomes.len() ==> (#[trigger] outcomes[i]).1 is None,
    ensures
        failing(outcomes) == Seq::<(K, ErrorTree)>::empty(),
    decreases outcomes.len(),
{
    if outcomes.len() > 0 {
        let shorter = outcomes.drop_last();
        assert forall|i: int| 0 <= i < shorter.len() implies (#[trigger] shorter[i]).1 is None by {
            assert(shorter[i] == outcomes[i]);
        }
        lemma_failing_none(shorter);
    }
}

/// Where exactly one part yields a tree, the entries are that one entry.
pub proof fn lemma_failing_single<K>(outcomes: Seq<(K, Option<ErrorTree>)>, at: int, tree: ErrorTree)
    requires
        0 <= at < outcomes.len(),
        outcomes[at].1 == Some(tree),
        forall|i: int| 0 <= i < outcomes.len() && i != at ==> (#[trigger] outcomes[i]).1 is None,
    ensures
        failing(outcomes) == seq![(outcomes[at].0, tree)],
    decreases outcomes.len(),
{
    let shorter = outcomes.drop_last();
    if at == outcomes.len() - 1 {
        assert forall|i: int| 0 <= i < shorter.len() implies (#[trigger] shorter[i]).1 is None by {
            assert(shorter[i] == outcomes[i]);
        }
        lemma_failing_none(shorter);
        assert(failing(outcomes) =~= seq![(outcomes[at].0, tree)]);
    } else {
        assert(shorter[at] == outcomes[at]);
        assert forall|i: int| 0 <= i < shorter.len() && i != at implies (
        #[trigger] shorter[i]).1 is None by {
            assert(shorter[i] == outcomes[i]);
        }
        lemma_failing_single(shorter, at, tree);
        assert(outcomes[outcomes.len() - 1].1 is None);
    }
}

/// Rules that all passed change nothing.
pub proof fn lemma_rules_all_pass<K>(
    errors: Seq<FailureView>,
    entries: Seq<(K, ErrorTree)>,
    rules: Seq<(Option<K>, VerdictView)>,
)
    requires
        forall|i: int| 0 <= i < rules.len() ==> (#[trigger] rules[i]).1 is Pass,
    ensures
        apply_rules(errors, entries, rules) == (errors, entries),
    decreases rules.len(),
{
    if rules.len() > 0 {
        let shorter = rules.drop_last();
        assert forall|i: int| 0 <= i < shorter.len() implies (#[trigger] shorter[i]).1 is Pass by {
            assert(shorter[i] == rules[i]);
        }
        lemma_rules_all_pass(errors, entries, shorter);
        assert(rules[rules.len() - 1].1 is Pass);
    }
}

/// A rule that failed leaves a failure or an entry behind.
pub proof fn lemma_failed_rule_reports<K>(
    errors: Seq<FailureView>,
    entries: Seq<(K, ErrorTree)>,
    rules: Seq<(Option<K>, VerdictView)>,
    at: int,
)
    requires
        0 <= at < rules.len(),
        rules[at].1 is Fail,
    ensures
        apply_rules(errors, entries, rules).0.len() + apply_rules(errors, entries, rules).1.len()
            > 0,
    decreases rules.len(),
{
    let shorter = rules.drop_last();
    let before = apply_rules(errors, entries, shorter);
    if at < rules.len() - 1 {
        assert(shorter[at] == rules[at]);
        lemma_failed_rule_reports(errors, entries, shorter, at);
    }
    match rules.last().1 {
        VerdictView::Pass => {},
        VerdictView::Fail(message) => match rules.last().0 {
            Some(key) => {
                lemma_report_grows(before.1, key, custom_failure(message));
            },
            None => {},
        },
    }
}

proof fn lemma_report_grows<K>(entries: Seq<(K, ErrorTree)>, key: K, failure: FailureView)
    ensures
        report_at(entries, key, failure).len() >= entries.len(),
        report_at(entries, key, failure).len() > 0,
{
    crate::assemble::lemma_key_position(entries, key);
}

proof fn lemma_rules_keep<K>(
    errors: Seq<FailureView>,
    entries: Seq<(K, ErrorTree)>,
    rules: Seq<(Option<K>, VerdictView)>,
)
    ensures
        apply_rules(errors, entries, rules).0.len() >= errors.len(),
        apply_rules(errors, entries, rules).1.len() >= entries.len(),
    decreases rules.len(),
{
    if rules.len() > 0 {
        lemma_rules_keep(errors, entries, rules.drop_last());
        let before = apply_rules(errors, entries, rules.drop_last());
        match rules.last().1 {
            VerdictView::Pass => {},
            VerdictView::Fail(message) => match rules.last().0 {
                Some(key) => {
                    lemma_report_grows(before.1, key, custom_failure(message));
                },
                None => {},
            },
        }
    }
}

/// Whether nothing failed in an aggregate with keyed fields: every field
/// yields no tree and every cross-field rule passed.
pub open spec fn nothing_failed<K>(
    fields: Seq<(K, FieldView)>,
    rules: Seq<(Option<K>, VerdictView)>,
) -> bool {
    &&& forall|i: int| 0 <= i < fields.len() ==> field_outcome((#[trigger] fields[i]).1) is None
    &&& forall|i: int| 0 <= i < rules.len() ==> (#[trigger] rules[i]).1 is Pass
}

proof fn lemma_keyed_outcome_none<K>(
    fields: Seq<(K, FieldView)>,
    rules: Seq<(Option<K>, VerdictView)>,
)
    ensures
        nothing_failed(fields, rules) <==> {
            let reported = apply_rules(Seq::empty(), failing(field_outcomes(fields)), rules);
            reported.0.len() == 0 && reported.1.len() == 0
        },
{
    let outcomes = field_outcomes(fields);
    let entries = failing(outcomes);
    let reported = apply_rules(Seq::empty(), entries, rules);
    if nothing_failed(fields, rules) {
        assert forall|i: int| 0 <= i < outcomes.len() implies (#[trigger] outcomes[i]).1 is None by {
            assert(field_outcome(fields[i].1) is None);
        }
        lemma_failing_none(outcomes);
        lemma_rules_all_pass(Seq::empty(), entries, rules);
    } else {
        lemma_rules_keep(Seq::empty(), entries, rules);
        if exists|i: int| 0 <= i < fields.len() && field_outcome((#[trigger] fields[i]).1) is Some {
            let i = choose|i: int|
                0 <= i < fields.len() && field_outcome((#[trigger] fields[i]).1) is Some;
            crate::wellformed::lemma_failing_entries(outcomes);
            assert(outcomes[i].1 is Some);
            assert(entries.len() > 0);
        } else {
            let i = choose|i: int| 0 <= i < rules.len() && !((#[trigger] rules[i]).1 is Pass);
            lemma_failed_rule_reports(Seq::empty(), entries, rules, i);
        }
    }
}

/// Empty-entry omission: an aggregate with named fields yields no tree
/// exactly when every field passes and every cross-field rule passed. It
/// never yields a tree without failures and without entries.
pub proof fn law_named_aggregate_is_valid_iff_nothing_failed(
    fields: Seq<(Seq<char>, FieldView)>,
    rules: Seq<(Option<Seq<char>>, VerdictView)>,
)
    ensures
        aggregate_outcome(AggregateView::Named { fields, rules }) is None <==> nothing_failed(
            fields,
            rules,
        ),
        aggregate_outcome(AggregateView::Named { fields, rules }) matches Some(tree) ==> tree
            matches ErrorTree::Named { errors, properties } && errors.len() + properties.len() > 0,
{
    lemma_keyed_outcome_none(fields, rules);
}

/// An aggregate with positional fields yields no tree exactly when every
/// field passes and every cross-field rule passed. It never yields a tree
/// without failures and without entries.
pub proof fn law_indexed_aggregate_is_valid_iff_nothing_failed(
    fields: Seq<(nat, FieldView)>,
    rules: Seq<(Option<nat>, VerdictView)>,
)
    ensures
        aggregate_outcome(AggregateView::Indexed { fields, rules }) is None <==> nothing_failed(
            fields,
            rules,
        ),
        aggregate_outcome(AggregateView::Indexed { fields, rules }) matches Some(tree) ==> tree
            matches ErrorTree::Indexed { errors, items } && errors.len() + items.len() > 0,
{
    lemma_keyed_outcome_none(fields, rules);
}

/// Nesting: where the only failing field of an aggregate with named fields
/// holds a nested aggregate, has no failing rule of its own, and no
/// cross-field rule failed, the tree has no failures of its own and exactly
/// one entry: the field's name with the tree of the nested aggregate.
pub proof fn law_nested_tree_is_the_entry(
    fields: Seq<(Seq<char>, FieldView)>,
    rules: Seq<(Option<Seq<char>>, VerdictView)>,
    at: int,
    inner: AggregateView,
    tree: ErrorTree,
)
    requires
        0 <= at < fields.len(),
        fields[at].1.value == ValueView::Nested(Box::new(inner)),
        aggregate_outcome(inner) == Some(tree),
        direct_failures(fields[at].1.constraints, fields[at].1.value).len() == 0,
        forall|i: int|
            0 <= i < fields.len() && i != at ==> field_outcome((#[trigger] fields[i]).1) is None,
        forall|i: int| 0 <= i < rules.len() ==> (#[trigger] rules[i]).1 is Pass,
    ensures
        aggregate_outcome(AggregateView::Named { fields, rules }) == Some(
            ErrorTree::Named { errors: Seq::empty(), properties: seq![(fields[at].0, tree)] },
        ),
{
    let outcomes = field_outcomes(fields);
    let direct = direct_failures(fields[at].1.constraints, fields[at].1.value);
    assert(direct =~= Seq::empty());
    assert(tree.after_errors(direct) == tree) by {
        match tree {
            ErrorTree::Named { errors, properties } => {
                assert(direct + errors =~= errors);
            },
            ErrorTree::Indexed { errors, items } => {
                assert(direct + errors =~= errors);
            },
            ErrorTree::Flat { errors } => {
                assert(direct + errors =~= errors);
            },
        }
    }
    assert(outcomes[at].1 == Some(tree));
    assert forall|i: int| 0 <= i < outcomes.len() && i != at implies (
    #[trigger] outcomes[i]).1 is None by {
        assert(field_outcome(fields[i].1) is None);
    }
    lemma_failing_single(outcomes, at, tree);
    lemma_rules_all_pass(Seq::empty(), failing(outcomes), rules);
}

/// The positions of the parts that yield a tree, in ascending order.
pub open spec fn failing_positions<K>(outcomes: Seq<(K, Option<ErrorTree>)>) -> Seq<int>
    decreases outcomes.len(),
{
    if outcomes.len() == 0 {
        Seq::empty()
    } else {
        let before = failing_positions(outcomes.drop_last());
        if outcomes.last().1 is Some {
            before.push(outcomes.len() - 1)
        } else {
            before
        }
    }
}

/// Ordering: the entries of a tree follow the order of the parts. Each entry
/// is the key and the tree of one part that yielded a tree, and an entry that
/// comes later belongs to a part that comes later.
pub proof fn law_entries_follow_the_order_of_the_parts<K>(outcomes: Seq<(K, Option<ErrorTree>)>)
    ensures
        failing_positions(outcomes).len() == failing(outcomes).len(),
        forall|j: int|
            0 <= j < failing(outcomes).len() ==> {
                let at = #[trigger] failing_positions(outcomes)[j];
                0 <= at < outcomes.len() && outcomes[at] == (
                    failing(outcomes)[j].0,
                    Some(failing(outcomes)[j].1),
                )
            },
        forall|a: int, b: int|
            0 <= a < b < failing(outcomes).len() ==> failing_positions(outcomes)[a]
                < failing_positions(outcomes)[b],
    decreases outcomes.len(),
{
    if outcomes.len() > 0 {
        let shorter = outcomes.drop_last();
        law_entries_follow_the_order_of_the_parts(shorter);
        let positions = failing_positions(outcomes);
        let entries = failing(outcomes);
        assert forall|j: int| 0 <= j < entries.len() implies {
            let at = #[trigger] positions[j];
            0 <= at < outcomes.len() && outcomes[at] == (entries[j].0, Some(entries[j].1))
        } by {
            if j < failing(shorter).len() {
                let at = failing_positions(shorter)[j];
                assert(positions[j] == at);
                assert(shorter[at] == outcomes[at]);
            }
        }
        assert forall|a: int, b: int| 0 <= a < b < entries.len() implies positions[a]
            < positions[b] by {
            if b < failing(shorter).len() {
                assert(positions[a] == failing_positions(shorter)[a]);
                assert(positions[b] == failing_positions(shorter)[b]);
            } else {
                assert(positions[a] == failing_positions(shorter)[a]);
            }
        }
    }
}

/// Whether a character is a decimal digit.
pub open spec fn is_digit(c: char) -> bool {
    c == '0' || c == '1' || c == '2' || c == '3' || c == '4' || c == '5' || c == '6' || c == '7'
        || c == '8' || c == '9'
}

/// The key of an indexed entry is the canonical numeral of its index: it is
/// not empty, it holds decimal digits only, and it starts with a zero only
/// where the index is zero.
pub proof fn law_index_keys_are_canonical(index: nat)
    ensures
        natural_digits(index).len() >= 1,
        forall|i: int|
            0 <= i < natural_digits(index).len() ==> is_digit(#[trigger] natural_digits(index)[i]),
        index > 0 ==> natural_digits(index)[0] != '0',
        index == 0 ==> natural_digits(index) == seq!['0'],
    decreases index,
{
    if index >= 10 {
        law_index_keys_are_canonical(index / 10);
        let head = natural_digits(index / 10);
        assert(natural_digits(index)[0] == head[0]);
        assert forall|i: int| 0 <= i < natural_digits(index).len() implies is_digit(
            #[trigger] natural_digits(index)[i],
        ) by {
            if i < head.len() {
                assert(natural_digits(index)[i] == head[i]);
            }
        }
    }
}

} // verus!
