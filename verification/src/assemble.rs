//! Building error trees: the composited validator, the failures of one
//! field, layering, and the reports of cross-field rules.

use vstd::prelude::*;
use crate::error::{
    failure_views, lemma_array_view, lemma_object_view, ErrorTree, Errors, Failure, FailureView,
};
use crate::evaluate::rule_holds;
use crate::outcome::{
    apply_rules, constraint_failure, custom_failure, direct_failures, failed_verdicts, key_position,
    layered, report_at, resolved_message, wrapped,
};
use crate::rule::{Rule, RuleView, Verdict, VerdictView};
use crate::value::{constraint_views, verdict_views, Constraint, Value};

verus! {

/// The view of what a validation returned: no tree for `Ok`, else the tree.
pub open spec fn outcome_view(result: Result<(), Errors>) -> Option<ErrorTree> {
    match result {
        Ok(_) => None,
        Err(errors) => Some(errors@),
    }
}

/// The view of an optional failure.
pub open spec fn failure_option_view(failure: Option<Failure>) -> Option<FailureView> {
    match failure {
        Some(failure) => Some(failure@),
        None => None,
    }
}

/// A key of an entry of an error tree: a field name or a position.
pub trait Key: Sized {
    /// The mathematical value of the key.
    type Model;

    /// The mathematical value of this key.
    spec fn model(&self) -> Self::Model;

    /// Whether two keys are the same.
    fn same(&self, other: &Self) -> (same: bool)
        ensures
            same == (self.model() == other.model()),
    ;

    /// A copy of this key.
    fn duplicate(&self) -> (copy: Self)
        ensures
            copy.model() == self.model(),
    ;
}

impl Key for String {
    type Model = Seq<char>;

    open spec fn model(&self) -> Seq<char> {
        self@
    }

    fn same(&self, other: &Self) -> (same: bool) {
        *self == *other
    }

    fn duplicate(&self) -> (copy: Self) {
        self.clone()
    }
}

impl Key for usize {
    type Model = nat;

    open spec fn model(&self) -> nat {
        *self as nat
    }

    fn same(&self, other: &Self) -> (same: bool) {
        *self == *other
    }

    fn duplicate(&self) -> (copy: Self) {
        *self
    }
}

/// The values of keyed entries.
pub open spec fn keyed_trees<K: Key>(entries: Seq<(K, Errors)>) -> Seq<(K::Model, ErrorTree)> {
    Seq::new(entries.len(), |i: int| (entries[i].0.model(), entries[i].1@))
}

/// The values of keyed entries with one more entry at the end.
pub proof fn lemma_keyed_trees_push<K: Key>(entries: Seq<(K, Errors)>, key: K, tree: Errors)
    ensures
        keyed_trees(entries.push((key, tree))) == keyed_trees(entries).push((key.model(), tree@)),
{
    assert(keyed_trees(entries.push((key, tree))) =~= keyed_trees(entries).push(
        (key.model(), tree@),
    ));
}

/// No entries have no values.
pub proof fn lemma_keyed_trees_empty<K: Key>()
    ensures
        keyed_trees(Seq::<(K, Errors)>::empty()) == Seq::<(K::Model, ErrorTree)>::empty(),
        failure_views(Seq::<Failure>::empty()) == Seq::<FailureView>::empty(),
{
    assert(keyed_trees(Seq::<(K, Errors)>::empty()) =~= Seq::<(K::Model, ErrorTree)>::empty());
    assert(failure_views(Seq::<Failure>::empty()) =~= Seq::<FailureView>::empty());
}

/// The view of an optional key.
pub open spec fn target_model<K: Key>(target: Option<K>) -> Option<K::Model> {
    match target {
        Some(key) => Some(key.model()),
        None => None,
    }
}

/// The values of keyed cross-field rules.
pub open spec fn keyed_rules<K: Key>(rules: Seq<(Option<K>, Verdict)>) -> Seq<
    (Option<K::Model>, VerdictView),
> {
    Seq::new(rules.len(), |i: int| (target_model(rules[i].0), rules[i].1@))
}

/// The message of a failed constraint: the caller's message where there is
/// one, else the rule's default message.
pub fn resolve_message(constraint: &Constraint) -> (message: String)
    ensures
        message@ == resolved_message(constraint@),
{
    match &constraint.message {
        Some(message) => message.clone(),
        None => constraint.rule.to_default_message(),
    }
}

/// The composited validator: evaluates one constraint on a value. An absent
/// optional value meets it; a failure carries the resolved message.
pub fn check_constraint(constraint: &Constraint, value: &Value) -> (failure: Option<Failure>)
    requires
        constraint@.rule matches RuleView::MultipleOf(divisor) ==> divisor != 0,
    ensures
        failure_option_view(failure) == constraint_failure(constraint@, value@),
{
    if rule_holds(&constraint.rule, value) {
        None
    } else {
        Some(Failure { rule: constraint.rule.duplicate(), message: resolve_message(constraint) })
    }
}

/// Evaluates every constraint of a field on its value, in declaration order,
/// and collects the failures. No failure stops the evaluation.
pub fn collect_failures(constraints: &Vec<Constraint>, value: &Value) -> (failures: Vec<Failure>)
    requires
        forall|i: int|
            0 <= i < constraints.len() ==> ((#[trigger] constraints[i])@.rule matches RuleView::MultipleOf(
                divisor,
            ) ==> divisor != 0),
    ensures
        failure_views(failures@) == direct_failures(constraint_views(constraints@), value@),
{
    let ghost all = constraint_views(constraints@);
    let mut failures: Vec<Failure> = Vec::new();
    let mut i: usize = 0;
    assert(failure_views(failures@) =~= direct_failures(all.take(0), value@));
    while i < constraints.len()
        invariant
            i <= constraints.len(),
            all == constraint_views(constraints@),
            forall|k: int|
                0 <= k < constraints.len() ==> ((#[trigger] constraints[k])@.rule matches RuleView::MultipleOf(
                    divisor,
                ) ==> divisor != 0),
            failure_views(failures@) == direct_failures(all.take(i as int), value@),
        decreases constraints.len() - i,
    {
        let ghost before = failure_views(failures@);
        let found = check_constraint(&constraints[i], value);
        proof {
            let next = all.take(i + 1);
            assert(next.drop_last() =~= all.take(i as int));
            assert(next.last() == constraints@[i as int]@);
        }
        match found {
            Some(failure) => {
                failures.push(failure);
                assert(failure_views(failures@) =~= before.push(failure@));
            },
            None => {},
        }
        i += 1;
    }
    assert(all.take(constraints.len() as int) =~= all);
    failures
}

/// Puts `first` before the failures attached to the tree itself.
pub fn prepend_errors(first: Vec<Failure>, tree: Errors) -> (result: Errors)
    ensures
        result@ == tree@.after_errors(failure_views(first@)),
{
    let mut all = first;
    match tree {
        Errors::Object { errors, properties } => {
            let mut rest = errors;
            proof {
                lemma_object_view(errors, properties);
            }
            all.append(&mut rest);
            proof {
                lemma_object_view(all, properties);
                assert(failure_views(all@) =~= failure_views(first@) + failure_views(errors@));
            }
            Errors::Object { errors: all, properties }
        },
        Errors::Array { errors, items } => {
            let mut rest = errors;
            proof {
                lemma_array_view(errors, items);
            }
            all.append(&mut rest);
            proof {
                lemma_array_view(all, items);
                assert(failure_views(all@) =~= failure_views(first@) + failure_views(errors@));
            }
            Errors::Array { errors: all, items }
        },
        Errors::NewType { errors } => {
            let mut rest = errors;
            all.append(&mut rest);
            assert(failure_views(all@) =~= failure_views(first@) + failure_views(errors@));
            Errors::NewType { errors: all }
        },
    }
}

/// Appends `more` to the failures attached to the tree itself.
pub fn append_errors(tree: Errors, more: Vec<Failure>) -> (result: Errors)
    ensures
        result@ == tree@.with_errors(failure_views(more@)),
{
    let mut rest = more;
    match tree {
        Errors::Object { errors, properties } => {
            let mut all = errors;
            proof {
                lemma_object_view(errors, properties);
            }
            all.append(&mut rest);
            proof {
                lemma_object_view(all, properties);
                assert(failure_views(all@) =~= failure_views(errors@) + failure_views(more@));
            }
            Errors::Object { errors: all, properties }
        },
        Errors::Array { errors, items } => {
            let mut all = errors;
            proof {
                lemma_array_view(errors, items);
            }
            all.append(&mut rest);
            proof {
                lemma_array_view(all, items);
                assert(failure_views(all@) =~= failure_views(errors@) + failure_views(more@));
            }
            Errors::Array { errors: all, items }
        },
        Errors::NewType { errors } => {
            let mut all = errors;
            all.append(&mut rest);
            assert(failure_views(all@) =~= failure_views(errors@) + failure_views(more@));
            Errors::NewType { errors: all }
        },
    }
}

/// The tree of a field from the failures of its own constraints and what its
/// value yielded: the field's own failures come first.
pub fn layer(direct: Vec<Failure>, nested: Result<(), Errors>) -> (result: Result<(), Errors>)
    ensures
        outcome_view(result) == layered(failure_views(direct@), outcome_view(nested)),
{
    match nested {
        Err(tree) => Err(prepend_errors(direct, tree)),
        Ok(_) => if direct.len() == 0 {
            Ok(())
        } else {
            Err(Errors::NewType { errors: direct })
        },
    }
}

/// The tree of a single-value wrapper from what its field yielded and the
/// wrapper's own failures, which come last.
pub fn wrap(field: Result<(), Errors>, own: Vec<Failure>) -> (result: Result<(), Errors>)
    ensures
        outcome_view(result) == wrapped(outcome_view(field), failure_views(own@)),
{
    match field {
        Err(tree) => Err(append_errors(tree, own)),
        Ok(_) => if own.len() == 0 {
            Ok(())
        } else {
            Err(Errors::NewType { errors: own })
        },
    }
}

fn custom_failure_of(message: &String) -> (failure: Failure)
    ensures
        failure@ == custom_failure(message@),
{
    Failure { rule: Rule::Custom(Verdict::Fail(message.clone())), message: message.clone() }
}

/// The failures of the predicates that rejected, in order.
pub fn collect_verdicts(rules: &Vec<Verdict>) -> (failures: Vec<Failure>)
    ensures
        failure_views(failures@) == failed_verdicts(verdict_views(rules@)),
{
    let ghost all = verdict_views(rules@);
    let mut failures: Vec<Failure> = Vec::new();
    let mut i: usize = 0;
    assert(failure_views(failures@) =~= failed_verdicts(all.take(0)));
    while i < rules.len()
        invariant
            i <= rules.len(),
            all == verdict_views(rules@),
            failure_views(failures@) == failed_verdicts(all.take(i as int)),
        decreases rules.len() - i,
    {
        let ghost before = failure_views(failures@);
        proof {
            let next = all.take(i + 1);
            assert(next.drop_last() =~= all.take(i as int));
            assert(next.last() == rules@[i as int]@);
        }
        match &rules[i] {
            Verdict::Pass => {},
            Verdict::Fail(message) => {
                failures.push(custom_failure_of(message));
                assert(failure_views(failures@) =~= before.push(custom_failure(message@)));
            },
        }
        i += 1;
    }
    assert(all.take(rules.len() as int) =~= all);
    failures
}

/// Where `key_position` finds a key, the entry there has it.
pub proof fn lemma_key_position<K>(entries: Seq<(K, ErrorTree)>, key: K)
    ensures
        key_position(entries, key) matches Some(position) ==> 0 <= position < entries.len()
            && entries[position].0 == key,
        key_position(entries, key) is None ==> forall|i: int|
            0 <= i < entries.len() ==> (#[trigger] entries[i]).0 != key,
    decreases entries.len(),
{
    if entries.len() > 0 {
        lemma_key_position(entries.drop_last(), key);
        if key_position(entries.drop_last(), key) is None {
            assert forall|i: int| 0 <= i < entries.len() - 1 implies (#[trigger] entries[i]).0
                != key by {
                assert(entries.drop_last()[i] == entries[i]);
            }
        }
    }
}

fn find_key<K: Key>(entries: &Vec<(K, Errors)>, key: &K) -> (found: Option<usize>)
    ensures
        match found {
            Some(position) => key_position(keyed_trees(entries@), key.model()) == Some(
                position as int,
            ),
            None => key_position(keyed_trees(entries@), key.model()) is None,
        },
{
    let ghost all = keyed_trees(entries@);
    let mut found: Option<usize> = None;
    let mut i: usize = 0;
    while i < entries.len()
        invariant
            i <= entries.len(),
            all == keyed_trees(entries@),
            match found {
                Some(position) => key_position(all.take(i as int), key.model()) == Some(
                    position as int,
                ),
                None => key_position(all.take(i as int), key.model()) is None,
            },
        decreases entries.len() - i,
    {
        proof {
            let next = all.take(i + 1);
            assert(next.drop_last() =~= all.take(i as int));
            assert(next.last() == all[i as int]);
        }
        if found.is_none() && entries[i].0.same(key) {
            found = Some(i);
        }
        i += 1;
    }
    assert(all.take(entries.len() as int) =~= all);
    found
}

/// Reports a failure against `key`: it is appended to the failures of the
/// entry with that key, or, where no entry has the key, a new entry with a
/// flat tree of that one failure is added at the end.
pub fn report<K: Key>(entries: &mut Vec<(K, Errors)>, key: &K, failure: Failure)
    ensures
        keyed_trees(final(entries)@) == report_at(
            keyed_trees(old(entries)@),
            key.model(),
            failure@,
        ),
{
    let ghost before = keyed_trees(entries@);
    proof {
        lemma_key_position(before, key.model());
    }
    let mut one: Vec<Failure> = Vec::new();
    one.push(failure);
    assert(failure_views(one@) =~= seq![failure@]);
    match find_key(entries, key) {
        Some(position) => {
            let (name, tree) = entries.remove(position);
            let extended = append_errors(tree, one);
            entries.insert(position, (name, extended));
            assert(keyed_trees(entries@) =~= report_at(before, key.model(), failure@));
        },
        None => {
            entries.push((key.duplicate(), Errors::NewType { errors: one }));
            assert(keyed_trees(entries@) =~= report_at(before, key.model(), failure@));
        },
    }
}

/// Runs the reports of an aggregate's cross-field rules, in declaration
/// order, after its fields: a rule that failed reports against the field it
/// names or, where it names none, against the aggregate itself.
pub fn report_rules<K: Key>(
    errors: &mut Vec<Failure>,
    entries: &mut Vec<(K, Errors)>,
    rules: &Vec<(Option<K>, Verdict)>,
)
    ensures
        (failure_views(final(errors)@), keyed_trees(final(entries)@)) == apply_rules(
            failure_views(old(errors)@),
            keyed_trees(old(entries)@),
            keyed_rules(rules@),
        ),
{
    let ghost own = failure_views(errors@);
    let ghost reported = keyed_trees(entries@);
    let ghost all = keyed_rules(rules@);
    let mut i: usize = 0;
    while i < rules.len()
        invariant
            i <= rules.len(),
            all == keyed_rules(rules@),
            (failure_views(errors@), keyed_trees(entries@)) == apply_rules(
                own,
                reported,
                all.take(i as int),
            ),
        decreases rules.len() - i,
    {
        let ghost so_far = failure_views(errors@);
        proof {
            let next = all.take(i + 1);
            assert(next.drop_last() =~= all.take(i as int));
            assert(next.last() == all[i as int]);
        }
        match &rules[i].1 {
            Verdict::Pass => {},
            Verdict::Fail(message) => match &rules[i].0 {
                Some(key) => {
                    report(entries, key, custom_failure_of(message));
                },
                None => {
                    errors.push(custom_failure_of(message));
                    assert(failure_views(errors@) =~= so_far.push(custom_failure(message@)));
                },
            },
        }
        i += 1;
    }
    assert(all.take(rules.len() as int) =~= all);
}

} // verus!
