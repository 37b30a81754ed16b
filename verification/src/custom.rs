//! Predicates and message functions of the caller: how their results enter
//! the rules that the engine evaluates.

use vstd::prelude::*;
use crate::error::Failure;
use crate::outcome::custom_failure;
use crate::rule::{Rule, Verdict, VerdictView};
use crate::value::Constraint;

verus! {

impl Failure {
    /// The failure that a predicate reports when it rejects with `message`.
    pub fn custom(message: String) -> (failure: Failure)
        ensures
            failure@ == custom_failure(message@),
    {
        Failure { rule: Rule::Custom(Verdict::Fail(message.clone())), message }
    }
}

/// Calls the predicate `f` on `data` and hands its result on. It exists so
/// that a closure written in place has the type of its argument fixed.
pub fn wrap_closure_validation<T>(
    data: &T,
    f: impl FnOnce(&T) -> Result<(), Failure>,
) -> (result: Result<(), Failure>)
    requires
        f.requires((data,)),
    ensures
        f.ensures((data,), result),
{
    f(data)
}

/// The verdict that stands for a predicate's result.
pub open spec fn verdict_for(result: Result<(), Failure>) -> VerdictView {
    match result {
        Ok(_) => VerdictView::Pass,
        Err(failure) => VerdictView::Fail(failure@.message),
    }
}

/// The verdict that stands for a predicate's result: a pass for `Ok`, else a
/// rejection with the message of the failure that the predicate returned.
pub fn verdict_of(result: Result<(), Failure>) -> (verdict: Verdict)
    ensures
        verdict@ == verdict_for(result),
{
    match result {
        Ok(_) => Verdict::Pass,
        Err(failure) => Verdict::Fail(failure.message),
    }
}

/// Runs a predicate of the caller on `data` and records its verdict. The
/// verdict is that of one of the results that the predicate may return.
pub fn judge<T, F: FnOnce(&T) -> Result<(), Failure>>(data: &T, predicate: F) -> (verdict:
    Verdict)
    requires
        predicate.requires((data,)),
    ensures
        exists|result: Result<(), Failure>|
            predicate.ensures((data,), result) && verdict@ == verdict_for(result),
{
    let result = wrap_closure_validation(data, predicate);
    verdict_of(result)
}

/// The message that a constraint carries, from what the caller supplied: the
/// literal where there is one; else what the message function gives for the
/// rule; else none, and the rule's default message will be used.
pub fn choose_message<F: FnOnce(&Rule) -> String>(
    rule: &Rule,
    literal: Option<String>,
    message_fn: Option<F>,
) -> (message: Option<String>)
    requires
        literal is None ==> (message_fn matches Some(f) ==> f.requires((rule,))),
    ensures
        literal is Some ==> message == literal,
        literal is None ==> (match message_fn {
            Some(f) => message matches Some(text) && f.ensures((rule,), text),
            None => message is None,
        }),
{
    match literal {
        Some(text) => Some(text),
        None => match message_fn {
            Some(f) => Some(f(rule)),
            None => None,
        },
    }
}

impl Constraint {
    /// The constraint that evaluates `rule` and reports with the rule's default message.
    pub fn new(rule: Rule) -> (constraint: Constraint)
        ensures
            constraint.rule == rule,
            constraint.message is None,
    {
        Constraint { rule, message: None }
    }

    /// The constraint that evaluates `rule` and reports with `message`.
    pub fn with_message(rule: Rule, message: String) -> (constraint: Constraint)
        ensures
            constraint.rule == rule,
            constraint.message == Some(message),
    {
        Constraint { rule, message: Some(message) }
    }
}

} // verus!
