//! The constraint evaluators: for each kind of rule, whether it holds of a value.

use vstd::arithmetic::div_mod::{lemma_fundamental_div_mod, lemma_fundamental_div_mod_converse_mod};
use vstd::prelude::*;
use crate::error::{Failure, FailureView};
use crate::pattern::{matches_pattern, pattern_compiles, pattern_found};
use crate::rule::{default_message, literal_views, Literal, LiteralView, Rule, RuleView, Verdict};
use crate::value::{lemma_mapping_view, lemma_sequence_view, value_views, Value, ValueView};

verus! {

/// The absolute value of an integer.
pub open spec fn magnitude(n: int) -> nat {
    if n < 0 {
        (-n) as nat
    } else {
        n as nat
    }
}

proof fn lemma_divides_negated(a: int, d: int)
    requires
        d > 0,
    ensures
        (a % d == 0) == ((-a) % d == 0),
{
    if a % d == 0 {
        lemma_fundamental_div_mod(a, d);
        let q = a / d;
        assert(-a == (-q) * d + 0) by (nonlinear_arith)
            requires
                a == d * q + 0,
        ;
        lemma_fundamental_div_mod_converse_mod(-a, d, -q, 0);
    }
    if (-a) % d == 0 {
        lemma_fundamental_div_mod(-a, d);
        let q = (-a) / d;
        assert(a == (-q) * d + 0) by (nonlinear_arith)
            requires
                -a == d * q + 0,
        ;
        lemma_fundamental_div_mod_converse_mod(a, d, -q, 0);
    }
}

proof fn lemma_divisor_negated(a: int, d: int)
    requires
        d > 0,
    ensures
        (a % d == 0) == (a % (-d) == 0),
{
    if a % (-d) == 0 {
        lemma_fundamental_div_mod(a, -d);
        let q = a / (-d);
        assert(a == (-q) * d + 0) by (nonlinear_arith)
            requires
                a == (-d) * q + 0,
        ;
        lemma_fundamental_div_mod_converse_mod(a, d, -q, 0);
    }
    if a % d == 0 && a % (-d) != 0 {
        lemma_fundamental_div_mod(a, d);
        lemma_fundamental_div_mod(a, -d);
        let q = a / d;
        let r = a % (-d);
        let p = a / (-d);
        assert(0 <= r < d) by (nonlinear_arith)
            requires
                r == a % (-d),
                d > 0,
        ;
        assert(r == d * (q + p)) by (nonlinear_arith)
            requires
                a == d * q,
                a == (-d) * p + r,
        ;
        assert(r == 0) by (nonlinear_arith)
            requires
                r == d * (q + p),
                0 <= r < d,
                d > 0,
        ;
    }
}

/// An integer is a multiple of a divisor exactly when their absolute values are.
pub proof fn lemma_multiple_of_magnitudes(a: int, d: int)
    requires
        d != 0,
    ensures
        (a % d == 0) == (magnitude(a) % magnitude(d) == 0),
{
    let md = magnitude(d) as int;
    if d < 0 {
        lemma_divisor_negated(a, md);
    }
    if a < 0 {
        lemma_divides_negated(a, md);
    }
}

fn magnitude_of(n: i128) -> (m: u128)
    ensures
        m == magnitude(n as int),
{
    if n < 0 {
        (-(n + 1)) as u128 + 1
    } else {
        n as u128
    }
}

/// Whether `value` is a multiple of `divisor`: the remainder of their division is zero.
pub open spec fn is_multiple(value: int, divisor: int) -> bool {
    value % divisor == 0
}

/// Whether `value` is a multiple of `divisor`.
pub fn validate_multiple_of(value: i128, divisor: i128) -> (ok: bool)
    requires
        divisor != 0,
    ensures
        ok == is_multiple(value as int, divisor as int),
{
    proof {
        lemma_multiple_of_magnitudes(value as int, divisor as int);
    }
    magnitude_of(value) % magnitude_of(divisor) == 0
}

/// Whether no two items are equal.
pub open spec fn unique(items: Seq<ValueView>) -> bool {
    forall|i: int, j: int| 0 <= i < j < items.len() ==> items[i] != items[j]
}

/// Whether no two items are equal. Every pair of items is compared.
pub fn validate_unique_items(items: &Vec<Value>) -> (ok: bool)
    ensures
        ok == unique(value_views(items@)),
{
    let ghost views = value_views(items@);
    let mut j: usize = 0;
    while j < items.len()
        invariant
            j <= items.len(),
            views == value_views(items@),
            forall|a: int, b: int| 0 <= a < b < j ==> views[a] != views[b],
        decreases items.len() - j,
    {
        let mut i: usize = 0;
        while i < j
            invariant
                i <= j,
                j < items.len(),
                views == value_views(items@),
                forall|a: int| 0 <= a < i ==> views[a] != views[j as int],
            decreases j - i,
        {
            if items[i].equals(&items[j]) {
                assert(views[i as int] == views[j as int]);
                return false;
            }
            i += 1;
        }
        j += 1;
    }
    true
}

/// The value that a literal stands for.
pub open spec fn literal_value(literal: LiteralView) -> ValueView {
    match literal {
        LiteralView::Integer(n) => ValueView::Integer(n),
        LiteralView::Text(s) => ValueView::Text(s),
    }
}

/// Whether `value` is one of `literals`.
pub open spec fn listed(literals: Seq<LiteralView>, value: ValueView) -> bool {
    exists|i: int| 0 <= i < literals.len() && literal_value(#[trigger] literals[i]) == value
}

/// Whether `value` is one of `literals`.
pub fn validate_enumerate(value: &Value, literals: &Vec<Literal>) -> (ok: bool)
    ensures
        ok == listed(literal_views(literals@), value@),
{
    let ghost all = literal_views(literals@);
    let mut i: usize = 0;
    while i < literals.len()
        invariant
            i <= literals.len(),
            all == literal_views(literals@),
            forall|k: int| 0 <= k < i ==> literal_value(#[trigger] all[k]) != value@,
        decreases literals.len() - i,
    {
        let hit = match (&literals[i], value) {
            (Literal::Integer(a), Value::Integer(b)) => *a == *b,
            (Literal::Text(a), Value::Text(b)) => *a == *b,
            _ => false,
        };
        if hit {
            assert(literal_value(all[i as int]) == value@);
            return true;
        }
        i += 1;
    }
    false
}

/// Whether a rule of this kind can be asked of a value of this type. A rule
/// on an optional value is asked of what the value wraps; of an absent value
/// nothing is asked, so every rule may be attached to it.
pub open spec fn applies(rule: RuleView, value: ValueView) -> bool
    decreases value,
{
    match value {
        ValueView::Optional(inner) => match inner {
            Some(wrapped) => applies(rule, *wrapped),
            None => true,
        },
        ValueView::Integer(_) => match rule {
            RuleView::Minimum(_) | RuleView::Maximum(_) | RuleView::ExclusiveMinimum(_)
            | RuleView::ExclusiveMaximum(_) | RuleView::MultipleOf(_) | RuleView::Enumerate(_)
            | RuleView::Custom(_) => true,
            _ => false,
        },
        ValueView::Text(_) => match rule {
            RuleView::MinLength(_) | RuleView::MaxLength(_) | RuleView::Pattern(_)
            | RuleView::Enumerate(_) | RuleView::Custom(_) => true,
            _ => false,
        },
        ValueView::Bytes(_) => match rule {
            RuleView::MinLength(_) | RuleView::MaxLength(_) | RuleView::Custom(_) => true,
            _ => false,
        },
        ValueView::Sequence(_) => match rule {
            RuleView::MinItems(_) | RuleView::MaxItems(_) | RuleView::UniqueItems
            | RuleView::Custom(_) => true,
            _ => false,
        },
        ValueView::Mapping(_) => match rule {
            RuleView::MinProperties(_) | RuleView::MaxProperties(_) | RuleView::Custom(_) => true,
            _ => false,
        },
        ValueView::Nested(_) => rule is Custom,
    }
}

/// Whether `rule` holds of `value`.
///
/// An absent optional value meets every rule, and a present one is judged by
/// what it wraps. Numbers are compared by their order; a text is measured in
/// characters and a byte string in bytes; a pattern is searched for anywhere
/// in the text; items are unique when no two of them are equal; a custom rule
/// holds when its predicate passed. A rule that cannot be asked of the
/// value's type does not hold.
pub open spec fn holds(rule: RuleView, value: ValueView) -> bool
    decreases value,
{
    match value {
        ValueView::Optional(inner) => match inner {
            Some(wrapped) => holds(rule, *wrapped),
            None => true,
        },
        _ => match rule {
            RuleView::Minimum(bound) => value matches ValueView::Integer(n) && n >= bound,
            RuleView::Maximum(bound) => value matches ValueView::Integer(n) && n <= bound,
            RuleView::ExclusiveMinimum(bound) => value matches ValueView::Integer(n) && n > bound,
            RuleView::ExclusiveMaximum(bound) => value matches ValueView::Integer(n) && n < bound,
            RuleView::MultipleOf(divisor) => value matches ValueView::Integer(n) && is_multiple(
                n,
                divisor,
            ),
            RuleView::MinLength(bound) => match value {
                ValueView::Text(s) => s.len() >= bound,
                ValueView::Bytes(b) => b.len() >= bound,
                _ => false,
            },
            RuleView::MaxLength(bound) => match value {
                ValueView::Text(s) => s.len() <= bound,
                ValueView::Bytes(b) => b.len() <= bound,
                _ => false,
            },
            RuleView::Pattern(pattern) => value matches ValueView::Text(s) && pattern_compiles(
                pattern,
            ) && pattern_found(pattern, s),
            RuleView::MinItems(bound) => value matches ValueView::Sequence(items) && items.len()
                >= bound,
            RuleView::MaxItems(bound) => value matches ValueView::Sequence(items) && items.len()
                <= bound,
            RuleView::UniqueItems => value matches ValueView::Sequence(items) && unique(items),
            RuleView::MinProperties(bound) => value matches ValueView::Mapping(entries)
                && entries.len() >= bound,
            RuleView::MaxProperties(bound) => value matches ValueView::Mapping(entries)
                && entries.len() <= bound,
            RuleView::Enumerate(literals) => listed(literals, value),
            RuleView::Custom(verdict) => verdict is Pass,
        },
    }
}

/// Whether a rule of this kind can be asked of a value of this type.
pub fn rule_applies(rule: &Rule, value: &Value) -> (ok: bool)
    ensures
        ok == applies(rule@, value@),
    decreases value,
{
    match value {
        Value::Optional(inner) => match inner {
            Some(wrapped) => rule_applies(rule, wrapped),
            None => true,
        },
        Value::Integer(_) => match rule {
            Rule::Minimum(_) | Rule::Maximum(_) | Rule::ExclusiveMinimum(_)
            | Rule::ExclusiveMaximum(_) | Rule::MultipleOf(_) | Rule::Enumerate(_)
            | Rule::Custom(_) => true,
            _ => false,
        },
        Value::Text(_) => match rule {
            Rule::MinLength(_) | Rule::MaxLength(_) | Rule::Pattern(_) | Rule::Enumerate(_)
            | Rule::Custom(_) => true,
            _ => false,
        },
        Value::Bytes(_) => match rule {
            Rule::MinLength(_) | Rule::MaxLength(_) | Rule::Custom(_) => true,
            _ => false,
        },
        Value::Sequence(_) => match rule {
            Rule::MinItems(_) | Rule::MaxItems(_) | Rule::UniqueItems | Rule::Custom(_) => true,
            _ => false,
        },
        Value::Mapping(_) => match rule {
            Rule::MinProperties(_) | Rule::MaxProperties(_) | Rule::Custom(_) => true,
            _ => false,
        },
        Value::Nested(_) => match rule {
            Rule::Custom(_) => true,
            _ => false,
        },
    }
}

/// Whether `rule` holds of `value`.
pub fn rule_holds(rule: &Rule, value: &Value) -> (ok: bool)
    requires
        rule@ matches RuleView::MultipleOf(divisor) ==> divisor != 0,
    ensures
        ok == holds(rule@, value@),
    decreases value,
{
    match value {
        Value::Optional(inner) => match inner {
            Some(wrapped) => rule_holds(rule, wrapped),
            None => true,
        },
        _ => match rule {
            Rule::Minimum(bound) => match value {
                Value::Integer(n) => *n >= *bound,
                _ => false,
            },
            Rule::Maximum(bound) => match value {
                Value::Integer(n) => *n <= *bound,
                _ => false,
            },
            Rule::ExclusiveMinimum(bound) => match value {
                Value::Integer(n) => *n > *bound,
                _ => false,
            },
            Rule::ExclusiveMaximum(bound) => match value {
                Value::Integer(n) => *n < *bound,
                _ => false,
            },
            Rule::MultipleOf(divisor) => match value {
                Value::Integer(n) => validate_multiple_of(*n, *divisor),
                _ => false,
            },
            Rule::MinLength(bound) => match value {
                Value::Text(s) => s.as_str().unicode_len() >= *bound,
                Value::Bytes(b) => b.len() >= *bound,
                _ => false,
            },
            Rule::MaxLength(bound) => match value {
                Value::Text(s) => s.as_str().unicode_len() <= *bound,
                Value::Bytes(b) => b.len() <= *bound,
                _ => false,
            },
            Rule::Pattern(pattern) => match value {
                Value::Text(s) => matches_pattern(pattern.as_str(), s.as_str()),
                _ => false,
            },
            Rule::MinItems(bound) => match value {
                Value::Sequence(items) => {
                    proof {
                        lemma_sequence_view(*items);
                    }
                    items.len() >= *bound
                },
                _ => false,
            },
            Rule::MaxItems(bound) => match value {
                Value::Sequence(items) => {
                    proof {
                        lemma_sequence_view(*items);
                    }
                    items.len() <= *bound
                },
                _ => false,
            },
            Rule::UniqueItems => match value {
                Value::Sequence(items) => {
                    proof {
                        lemma_sequence_view(*items);
                    }
                    validate_unique_items(items)
                },
                _ => false,
            },
            Rule::MinProperties(bound) => match value {
                Value::Mapping(entries) => {
                    proof {
                        lemma_mapping_view(*entries);
                    }
                    entries.len() >= *bound
                },
                _ => false,
            },
            Rule::MaxProperties(bound) => match value {
                Value::Mapping(entries) => {
                    proof {
                        lemma_mapping_view(*entries);
                    }
                    entries.len() <= *bound
                },
                _ => false,
            },
            Rule::Enumerate(literals) => validate_enumerate(value, literals),
            Rule::Custom(verdict) => match verdict {
                Verdict::Pass => true,
                Verdict::Fail(_) => false,
            },
        },
    }
}

/// What evaluating `rule` on `value` yields: nothing where the rule holds,
/// else the failure that names the rule and carries its default message.
pub open spec fn evaluation(rule: RuleView, value: ValueView) -> Option<FailureView> {
    if holds(rule, value) {
        None
    } else {
        Some(FailureView { rule, message: default_message(rule) })
    }
}

/// The result of a rule, once it is known whether the rule holds: `Ok` where
/// it does, else the failure that names the rule and carries its default message.
pub fn verdict(rule: &Rule, ok: bool) -> (result: Result<(), Failure>)
    ensures
        result is Ok <==> ok,
        result matches Err(failure) ==> failure@ == (FailureView {
            rule: rule@,
            message: default_message(rule@),
        }),
{
    if ok {
        Ok(())
    } else {
        Err(Failure { rule: rule.duplicate(), message: rule.to_default_message() })
    }
}

/// The view of what an evaluation returned: nothing for `Ok`, else the failure.
pub open spec fn evaluation_view(result: Result<(), Failure>) -> Option<FailureView> {
    match result {
        Ok(_) => None,
        Err(failure) => Some(failure@),
    }
}

/// Evaluates `rule` on `value`: `Ok` exactly where the rule holds, else the
/// failure that names the rule and carries its default message.
pub fn evaluate(rule: &Rule, value: &Value) -> (result: Result<(), Failure>)
    requires
        rule@ matches RuleView::MultipleOf(divisor) ==> divisor != 0,
    ensures
        evaluation_view(result) == evaluation(rule@, value@),
{
    verdict(rule, rule_holds(rule, value))
}

} // verus!
