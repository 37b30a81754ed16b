//! What validation yields, as a function of the validated value: the
//! specification that the engine is proved against.

use vstd::prelude::*;
use crate::error::{distinct_keys, ErrorTree, FailureView};
use crate::evaluate::{applies, holds};
use crate::rule::{default_message, RuleView, VerdictView};
use crate::value::{AggregateView, ConstraintView, FieldView, ValueView};

verus! {

/// The message of a failed constraint: the caller's message where there is
/// one, else the rule's default message.
pub open spec fn resolved_message(constraint: ConstraintView) -> Seq<char> {
    match constraint.message {
        Some(message) => message,
        None => default_message(constraint.rule),
    }
}

/// What one constraint reports of a value: nothing where its rule holds,
/// which it does of every absent optional value, else one failure.
pub open spec fn constraint_failure(constraint: ConstraintView, value: ValueView) -> Option<
    FailureView,
> {
    if holds(constraint.rule, value) {
        None
    } else {
        Some(FailureView { rule: constraint.rule, message: resolved_message(constraint) })
    }
}

/// The failures of a value against its constraints: every constraint is
/// evaluated, in declaration order, and each one that fails adds a failure.
pub open spec fn direct_failures(constraints: Seq<ConstraintView>, value: ValueView) -> Seq<
    FailureView,
>
    decreases constraints.len(),
{
    if constraints.len() == 0 {
        Seq::empty()
    } else {
        let before = direct_failures(constraints.drop_last(), value);
        match constraint_failure(constraints.last(), value) {
            Some(failure) => before.push(failure),
            None => before,
        }
    }
}

/// The tree of a field from the failures of its own constraints and the tree
/// of its value, if the value has one: the value's tree with the field's own
/// failures put first, or a flat tree of the field's own failures, or no tree.
pub open spec fn layered(direct: Seq<FailureView>, nested: Option<ErrorTree>) -> Option<
    ErrorTree,
> {
    match nested {
        Some(tree) => Some(tree.after_errors(direct)),
        None => if direct.len() == 0 {
            None
        } else {
            Some(ErrorTree::Flat { errors: direct })
        },
    }
}

/// The entries of a tree from the outcomes of the parts, in order: a part
/// gets an entry exactly when it has a tree.
pub open spec fn failing<K>(outcomes: Seq<(K, Option<ErrorTree>)>) -> Seq<(K, ErrorTree)>
    decreases outcomes.len(),
{
    if outcomes.len() == 0 {
        Seq::empty()
    } else {
        let before = failing(outcomes.drop_last());
        match outcomes.last().1 {
            Some(tree) => before.push((outcomes.last().0, tree)),
            None => before,
        }
    }
}

/// Collecting the entries of one more part: the part adds an entry exactly
/// when it has a tree.
pub proof fn lemma_failing_step<K>(outcomes: Seq<(K, Option<ErrorTree>)>, at: int)
    requires
        0 <= at < outcomes.len(),
    ensures
        failing(outcomes.take(at + 1)) == (match outcomes[at].1 {
            Some(tree) => failing(outcomes.take(at)).push((outcomes[at].0, tree)),
            None => failing(outcomes.take(at)),
        }),
{
    let next = outcomes.take(at + 1);
    assert(next.drop_last() =~= outcomes.take(at));
    assert(next.last() == outcomes[at]);
}

/// Before any part is looked at there is no entry, and once every part has
/// been looked at the entries are those of all parts.
pub proof fn lemma_failing_ends<K>(outcomes: Seq<(K, Option<ErrorTree>)>)
    ensures
        failing(outcomes.take(0)) == Seq::<(K, ErrorTree)>::empty(),
        outcomes.take(outcomes.len() as int) == outcomes,
{
    assert(outcomes.take(outcomes.len() as int) =~= outcomes);
}

/// The tree with named entries, or none where there is nothing to report.
pub open spec fn named_tree(errors: Seq<FailureView>, properties: Seq<(Seq<char>, ErrorTree)>)
    -> Option<ErrorTree> {
    if errors.len() == 0 && properties.len() == 0 {
        None
    } else {
        Some(ErrorTree::Named { errors, properties })
    }
}

/// The tree with indexed entries, or none where there is nothing to report.
pub open spec fn indexed_tree(errors: Seq<FailureView>, items: Seq<(nat, ErrorTree)>) -> Option<
    ErrorTree,
> {
    if errors.len() == 0 && items.len() == 0 {
        None
    } else {
        Some(ErrorTree::Indexed { errors, items })
    }
}

/// The failure that a rejecting predicate reports.
pub open spec fn custom_failure(message: Seq<char>) -> FailureView {
    FailureView { rule: RuleView::Custom(VerdictView::Fail(message)), message }
}

/// The position of the first entry with this key, if there is one.
pub open spec fn key_position<K>(entries: Seq<(K, ErrorTree)>, key: K) -> Option<int>
    decreases entries.len(),
{
    if entries.len() == 0 {
        None
    } else {
        match key_position(entries.drop_last(), key) {
            Some(position) => Some(position),
            None => if entries.last().0 == key {
                Some(entries.len() - 1)
            } else {
                None
            },
        }
    }
}

/// The entries after a failure is reported against `key`: it is appended to
/// the failures of the entry with that key, or, where no entry has the key,
/// a new entry with a flat tree of that one failure is added at the end.
pub open spec fn report_at<K>(entries: Seq<(K, ErrorTree)>, key: K, failure: FailureView) -> Seq<
    (K, ErrorTree),
> {
    match key_position(entries, key) {
        Some(position) => entries.update(
            position,
            (key, entries[position].1.with_errors(seq![failure])),
        ),
        None => entries.push((key, ErrorTree::Flat { errors: seq![failure] })),
    }
}

/// The failures of an aggregate itself and its entries after its cross-field
/// rules, which run after the fields, in declaration order: a rule that
/// passed changes nothing; one that failed reports against the field it
/// names or, where it names none, against the aggregate itself.
pub open spec fn apply_rules<K>(
    errors: Seq<FailureView>,
    entries: Seq<(K, ErrorTree)>,
    rules: Seq<(Option<K>, VerdictView)>,
) -> (Seq<FailureView>, Seq<(K, ErrorTree)>)
    decreases rules.len(),
{
    if rules.len() == 0 {
        (errors, entries)
    } else {
        let (own, reported) = apply_rules(errors, entries, rules.drop_last());
        match rules.last().1 {
            VerdictView::Pass => (own, reported),
            VerdictView::Fail(message) => match rules.last().0 {
                Some(key) => (own, report_at(reported, key, custom_failure(message))),
                None => (own.push(custom_failure(message)), reported),
            },
        }
    }
}

/// The failures of the predicates that rejected, in order.
pub open spec fn failed_verdicts(rules: Seq<VerdictView>) -> Seq<FailureView>
    decreases rules.len(),
{
    if rules.len() == 0 {
        Seq::empty()
    } else {
        let before = failed_verdicts(rules.drop_last());
        match rules.last() {
            VerdictView::Pass => before,
            VerdictView::Fail(message) => before.push(custom_failure(message)),
        }
    }
}

/// The tree of a single-value wrapper: the tree of its one field with the
/// wrapper's own failures appended, or a flat tree of those failures, or none.
pub open spec fn wrapped(field: Option<ErrorTree>, own: Seq<FailureView>) -> Option<ErrorTree> {
    match field {
        Some(tree) => Some(tree.with_errors(own)),
        None => if own.len() == 0 {
            None
        } else {
            Some(ErrorTree::Flat { errors: own })
        },
    }
}

/// The outcomes of the items of a sequence, each with its position.
pub open spec fn item_outcomes(outcomes: Seq<Option<ErrorTree>>) -> Seq<(nat, Option<ErrorTree>)> {
    Seq::new(outcomes.len(), |i: int| (i as nat, outcomes[i]))
}

/// The tree of a sequence from the outcomes of its items: the failing items
/// by position, and no failures of its own.
pub open spec fn sequence_tree(outcomes: Seq<Option<ErrorTree>>) -> Option<ErrorTree> {
    indexed_tree(Seq::empty(), failing(item_outcomes(outcomes)))
}

/// What validating a value yields: no tree where it is valid, else its tree.
///
/// A leaf is valid, and so is an absent optional value; a present one yields
/// what the wrapped value yields. A sequence yields the trees of its failing
/// items by position, a mapping those of its failing values by key, and a
/// nested aggregate what the aggregate yields.
pub open spec fn value_outcome(value: ValueView) -> Option<ErrorTree>
    decreases value,
{
    match value {
        ValueView::Optional(inner) => match inner {
            Some(wrapped) => value_outcome(*wrapped),
            None => None,
        },
        ValueView::Sequence(items) => sequence_tree(value_outcomes(items)),
        ValueView::Mapping(entries) => named_tree(Seq::empty(), failing(entry_outcomes(entries))),
        ValueView::Nested(aggregate) => aggregate_outcome(*aggregate),
        _ => None,
    }
}

/// What each item of a sequence yields.
pub open spec fn value_outcomes(items: Seq<ValueView>) -> Seq<Option<ErrorTree>>
    decreases items,
{
    Seq::new(
        items.len(),
        |i: int|
            if 0 <= i < items.len() {
                value_outcome(items[i])
            } else {
                None
            },
    )
}

/// What the value of each entry of a mapping yields, with the entry's key.
pub open spec fn entry_outcomes(entries: Seq<(Seq<char>, ValueView)>) -> Seq<
    (Seq<char>, Option<ErrorTree>),
>
    decreases entries,
{
    Seq::new(
        entries.len(),
        |i: int|
            if 0 <= i < entries.len() {
                (entries[i].0, value_outcome(entries[i].1))
            } else {
                (Seq::empty(), None)
            },
    )
}

/// What a field yields: the failures of its own constraints layered over
/// what its value yields.
pub open spec fn field_outcome(field: FieldView) -> Option<ErrorTree>
    decreases field,
{
    layered(direct_failures(field.constraints, field.value), value_outcome(field.value))
}

/// What each field of an aggregate yields, with the field's key.
pub open spec fn field_outcomes<K>(fields: Seq<(K, FieldView)>) -> Seq<(K, Option<ErrorTree>)>
    decreases fields,
{
    Seq::new(
        fields.len(),
        |i: int|
            if 0 <= i < fields.len() {
                (fields[i].0, field_outcome(fields[i].1))
            } else {
                (arbitrary(), None)
            },
    )
}

/// What validating an aggregate yields.
///
/// Every field is validated, in declaration order, and gets an entry exactly
/// when it yields a tree; then the cross-field rules report. An aggregate
/// with named fields yields a named tree, one with positional fields an
/// indexed tree, and a single-value wrapper the tree of its field with its
/// own failures appended. Where nothing failed, there is no tree.
pub open spec fn aggregate_outcome(aggregate: AggregateView) -> Option<ErrorTree>
    decreases aggregate,
{
    match aggregate {
        AggregateView::Named { fields, rules } => {
            let reported = apply_rules(Seq::empty(), failing(field_outcomes(fields)), rules);
            named_tree(reported.0, reported.1)
        },
        AggregateView::Indexed { fields, rules } => {
            let reported = apply_rules(Seq::empty(), failing(field_outcomes(fields)), rules);
            indexed_tree(reported.0, reported.1)
        },
        AggregateView::NewType { field, rules } => wrapped(
            field_outcome(field),
            failed_verdicts(rules),
        ),
    }
}

/// Whether a constraint can be evaluated on a value: its rule's parameter is
/// usable and the rule can be asked of a value of that type.
pub open spec fn constraint_fits(constraint: ConstraintView, value: ValueView) -> bool {
    constraint.rule.well_formed() && applies(constraint.rule, value)
}

/// Whether a value is fit for validation: no mapping in it has a key twice,
/// and every aggregate in it is well formed.
pub open spec fn value_well_formed(value: ValueView) -> bool
    decreases value,
{
    match value {
        ValueView::Optional(inner) => match inner {
            Some(wrapped) => value_well_formed(*wrapped),
            None => true,
        },
        ValueView::Sequence(items) => forall|i: int|
            0 <= i < items.len() ==> value_well_formed(#[trigger] items[i]),
        ValueView::Mapping(entries) => distinct_keys(entries) && forall|i: int|
            0 <= i < entries.len() ==> value_well_formed((#[trigger] entries[i]).1),
        ValueView::Nested(aggregate) => aggregate_well_formed(*aggregate),
        _ => true,
    }
}

/// Whether a field is fit for validation: its value is, and each of its
/// constraints can be evaluated on the value.
pub open spec fn field_well_formed(field: FieldView) -> bool
    decreases field,
{
    &&& value_well_formed(field.value)
    &&& forall|i: int|
        0 <= i < field.constraints.len() ==> constraint_fits(
            #[trigger] field.constraints[i],
            field.value,
        )
}

/// Whether an aggregate is fit for validation: no two of its fields have the
/// same key, and every field is well formed.
pub open spec fn aggregate_well_formed(aggregate: AggregateView) -> bool
    decreases aggregate,
{
    match aggregate {
        AggregateView::Named { fields, rules } => distinct_keys(fields) && forall|i: int|
            0 <= i < fields.len() ==> field_well_formed((#[trigger] fields[i]).1),
        AggregateView::Indexed { fields, rules } => distinct_keys(fields) && forall|i: int|
            0 <= i < fields.len() ==> field_well_formed((#[trigger] fields[i]).1),
        AggregateView::NewType { field, rules } => field_well_formed(field),
    }
}

/// A sequence is fit for validation exactly when each of its items is.
pub proof fn lemma_sequence_well_formed(items: Seq<ValueView>)
    ensures
        value_well_formed(ValueView::Sequence(items)) == (forall|i: int|
            0 <= i < items.len() ==> value_well_formed(#[trigger] items[i])),
{
    if value_well_formed(ValueView::Sequence(items)) {
        assert forall|i: int| 0 <= i < items.len() implies value_well_formed(
            #[trigger] items[i],
        ) by {
            assert(ValueView::Sequence(items)->Sequence_0[i] == items[i]);
        }
    }
    if forall|i: int| 0 <= i < items.len() ==> value_well_formed(#[trigger] items[i]) {
        assert(value_well_formed(ValueView::Sequence(items)));
    }
}

/// A mapping is fit for validation exactly when no key occurs twice in it
/// and each of its values is fit.
pub proof fn lemma_mapping_well_formed(entries: Seq<(Seq<char>, ValueView)>)
    ensures
        value_well_formed(ValueView::Mapping(entries)) == (distinct_keys(entries) && forall|
            i: int,
        | 0 <= i < entries.len() ==> value_well_formed((#[trigger] entries[i]).1)),
{
    if value_well_formed(ValueView::Mapping(entries)) {
        assert forall|i: int| 0 <= i < entries.len() implies value_well_formed(
            (#[trigger] entries[i]).1,
        ) by {
            assert(ValueView::Mapping(entries)->Mapping_0[i] == entries[i]);
        }
    }
}

/// An aggregate with named fields is fit for validation exactly when no name
/// occurs twice among its fields and each field is fit.
pub proof fn lemma_named_well_formed(
    fields: Seq<(Seq<char>, FieldView)>,
    rules: Seq<(Option<Seq<char>>, VerdictView)>,
)
    ensures
        aggregate_well_formed(AggregateView::Named { fields, rules }) == (distinct_keys(fields)
            && forall|i: int| 0 <= i < fields.len() ==> field_well_formed((#[trigger] fields[i]).1)),
{
    let aggregate = AggregateView::Named { fields, rules };
    if aggregate_well_formed(aggregate) {
        assert forall|i: int| 0 <= i < fields.len() implies field_well_formed(
            (#[trigger] fields[i]).1,
        ) by {
            assert(aggregate->Named_fields[i] == fields[i]);
        }
    }
}

/// An aggregate with positional fields is fit for validation exactly when no
/// index occurs twice among its fields and each field is fit.
pub proof fn lemma_indexed_well_formed(
    fields: Seq<(nat, FieldView)>,
    rules: Seq<(Option<nat>, VerdictView)>,
)
    ensures
        aggregate_well_formed(AggregateView::Indexed { fields, rules }) == (distinct_keys(fields)
            && forall|i: int| 0 <= i < fields.len() ==> field_well_formed((#[trigger] fields[i]).1)),
{
    let aggregate = AggregateView::Indexed { fields, rules };
    if aggregate_well_formed(aggregate) {
        assert forall|i: int| 0 <= i < fields.len() implies field_well_formed(
            (#[trigger] fields[i]).1,
        ) by {
            assert(aggregate->Indexed_fields[i] == fields[i]);
        }
    }
}

} // verus!
