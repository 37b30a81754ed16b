//! Value equality: two values are equal when their mathematical values are.
//! It is decided by walking both structures side by side.

use vstd::prelude::*;
use crate::rule::{literal_views, Literal, Rule, Verdict};
use crate::value::{
    constraint_views, entry_views, index_rule_views, indexed_field_views, lemma_indexed_view,
    lemma_mapping_view, lemma_named_view, lemma_sequence_view, name_rule_views, named_field_views,
    value_views, verdict_views, Aggregate, Constraint, Field, Value,
};

verus! {

fn literals_equal(a: &Vec<Literal>, b: &Vec<Literal>) -> (same: bool)
    ensures
        same == (literal_views(a@) == literal_views(b@)),
{
    if a.len() != b.len() {
        assert(literal_views(a@).len() != literal_views(b@).len());
        return false;
    }
    let mut i: usize = 0;
    while i < a.len()
        invariant
            i <= a.len(),
            a.len() == b.len(),
            forall|k: int| 0 <= k < i ==> (#[trigger] a@[k])@ == b@[k]@,
        decreases a.len() - i,
    {
        if !a[i].equals(&b[i]) {
            assert(literal_views(a@)[i as int] != literal_views(b@)[i as int]);
            return false;
        }
        i += 1;
    }
    assert(literal_views(a@) =~= literal_views(b@));
    true
}

fn bytes_equal(a: &Vec<u8>, b: &Vec<u8>) -> (same: bool)
    ensures
        same == (a@ == b@),
{
    if a.len() != b.len() {
        return false;
    }
    let mut i: usize = 0;
    while i < a.len()
        invariant
            i <= a.len(),
            a.len() == b.len(),
            forall|k: int| 0 <= k < i ==> a@[k] == b@[k],
        decreases a.len() - i,
    {
        if a[i] != b[i] {
            return false;
        }
        i += 1;
    }
    assert(a@ =~= b@);
    true
}

impl Rule {
    /// Whether two rules are the same rule with the same parameter.
    pub fn equals(&self, other: &Rule) -> (same: bool)
        ensures
            same == (self@ == other@),
    {
        match (self, other) {
            (Rule::Minimum(a), Rule::Minimum(b)) => *a == *b,
            (Rule::Maximum(a), Rule::Maximum(b)) => *a == *b,
            (Rule::ExclusiveMinimum(a), Rule::ExclusiveMinimum(b)) => *a == *b,
            (Rule::ExclusiveMaximum(a), Rule::ExclusiveMaximum(b)) => *a == *b,
            (Rule::MultipleOf(a), Rule::MultipleOf(b)) => *a == *b,
            (Rule::MinLength(a), Rule::MinLength(b)) => *a == *b,
            (Rule::MaxLength(a), Rule::MaxLength(b)) => *a == *b,
            (Rule::Pattern(a), Rule::Pattern(b)) => *a == *b,
            (Rule::MinItems(a), Rule::MinItems(b)) => *a == *b,
            (Rule::MaxItems(a), Rule::MaxItems(b)) => *a == *b,
            (Rule::UniqueItems, Rule::UniqueItems) => true,
            (Rule::MinProperties(a), Rule::MinProperties(b)) => *a == *b,
            (Rule::MaxProperties(a), Rule::MaxProperties(b)) => *a == *b,
            (Rule::Enumerate(a), Rule::Enumerate(b)) => literals_equal(a, b),
            (Rule::Custom(a), Rule::Custom(b)) => a.equals(b),
            _ => false,
        }
    }
}

impl Constraint {
    /// Whether two constraints hold the same rule and the same message.
    pub fn equals(&self, other: &Constraint) -> (same: bool)
        ensures
            same == (self@ == other@),
    {
        let same_message = match (&self.message, &other.message) {
            (Some(a), Some(b)) => *a == *b,
            (None, None) => true,
            _ => false,
        };
        same_message && self.rule.equals(&other.rule)
    }
}

fn constraints_equal(a: &Vec<Constraint>, b: &Vec<Constraint>) -> (same: bool)
    ensures
        same == (constraint_views(a@) == constraint_views(b@)),
{
    if a.len() != b.len() {
        assert(constraint_views(a@).len() != constraint_views(b@).len());
        return false;
    }
    let mut i: usize = 0;
    while i < a.len()
        invariant
            i <= a.len(),
            a.len() == b.len(),
            forall|k: int| 0 <= k < i ==> (#[trigger] a@[k])@ == b@[k]@,
        decreases a.len() - i,
    {
        if !a[i].equals(&b[i]) {
            assert(constraint_views(a@)[i as int] != constraint_views(b@)[i as int]);
            return false;
        }
        i += 1;
    }
    assert(constraint_views(a@) =~= constraint_views(b@));
    true
}

fn verdicts_equal(a: &Vec<Verdict>, b: &Vec<Verdict>) -> (same: bool)
    ensures
        same == (verdict_views(a@) == verdict_views(b@)),
{
    if a.len() != b.len() {
        assert(verdict_views(a@).len() != verdict_views(b@).len());
        return false;
    }
    let mut i: usize = 0;
    while i < a.len()
        invariant
            i <= a.len(),
            a.len() == b.len(),
            forall|k: int| 0 <= k < i ==> (#[trigger] a@[k])@ == b@[k]@,
        decreases a.len() - i,
    {
        if !a[i].equals(&b[i]) {
            assert(verdict_views(a@)[i as int] != verdict_views(b@)[i as int]);
            return false;
        }
        i += 1;
    }
    assert(verdict_views(a@) =~= verdict_views(b@));
    true
}

fn name_rules_equal(a: &Vec<(Option<String>, Verdict)>, b: &Vec<(Option<String>, Verdict)>) -> (same:
    bool)
    ensures
        same == (name_rule_views(a@) == name_rule_views(b@)),
{
    if a.len() != b.len() {
        assert(name_rule_views(a@).len() != name_rule_views(b@).len());
        return false;
    }
    let mut i: usize = 0;
    while i < a.len()
        invariant
            i <= a.len(),
            a.len() == b.len(),
            forall|k: int| 0 <= k < i ==> name_rule_views(a@)[k] == name_rule_views(b@)[k],
        decreases a.len() - i,
    {
        let same_target = match (&a[i].0, &b[i].0) {
            (Some(x), Some(y)) => *x == *y,
            (None, None) => true,
            _ => false,
        };
        if !same_target || !a[i].1.equals(&b[i].1) {
            assert(name_rule_views(a@)[i as int] != name_rule_views(b@)[i as int]);
            return false;
        }
        i += 1;
    }
    assert(name_rule_views(a@) =~= name_rule_views(b@));
    true
}

fn index_rules_equal(a: &Vec<(Option<usize>, Verdict)>, b: &Vec<(Option<usize>, Verdict)>) -> (same:
    bool)
    ensures
        same == (index_rule_views(a@) == index_rule_views(b@)),
{
    if a.len() != b.len() {
        assert(index_rule_views(a@).len() != index_rule_views(b@).len());
        return false;
    }
    let mut i: usize = 0;
    while i < a.len()
        invariant
            i <= a.len(),
            a.len() == b.len(),
            forall|k: int| 0 <= k < i ==> index_rule_views(a@)[k] == index_rule_views(b@)[k],
        decreases a.len() - i,
    {
        let same_target = match (&a[i].0, &b[i].0) {
            (Some(x), Some(y)) => *x == *y,
            (None, None) => true,
            _ => false,
        };
        if !same_target || !a[i].1.equals(&b[i].1) {
            assert(index_rule_views(a@)[i as int] != index_rule_views(b@)[i as int]);
            return false;
        }
        i += 1;
    }
    assert(index_rule_views(a@) =~= index_rule_views(b@));
    true
}

impl Value {
    /// Whether two values are equal.
    pub fn equals(&self, other: &Value) -> (same: bool)
        ensures
            same == (self@ == other@),
        decreases self,
    {
        match (self, other) {
            (Value::Integer(a), Value::Integer(b)) => *a == *b,
            (Value::Text(a), Value::Text(b)) => *a == *b,
            (Value::Bytes(a), Value::Bytes(b)) => bytes_equal(a, b),
            (Value::Optional(a), Value::Optional(b)) => match (a, b) {
                (Some(x), Some(y)) => x.equals(y),
                (None, None) => true,
                _ => false,
            },
            (Value::Sequence(a), Value::Sequence(b)) => {
                proof {
                    lemma_sequence_view(*a);
                    lemma_sequence_view(*b);
                }
                values_equal(a, b)
            },
            (Value::Mapping(a), Value::Mapping(b)) => {
                proof {
                    lemma_mapping_view(*a);
                    lemma_mapping_view(*b);
                }
                entries_equal(a, b)
            },
            (Value::Nested(a), Value::Nested(b)) => a.equals(b),
            _ => false,
        }
    }
}

fn values_equal(a: &Vec<Value>, b: &Vec<Value>) -> (same: bool)
    ensures
        same == (value_views(a@) == value_views(b@)),
    decreases a,
{
    if a.len() != b.len() {
        assert(value_views(a@).len() != value_views(b@).len());
        return false;
    }
    let mut i: usize = 0;
    while i < a.len()
        invariant
            i <= a.len(),
            a.len() == b.len(),
            forall|k: int| 0 <= k < i ==> (#[trigger] a@[k])@ == b@[k]@,
        decreases a.len() - i,
    {
        proof {
            assert(decreases_to!(a@ => a@[i as int]));
        }
        if !a[i].equals(&b[i]) {
            assert(value_views(a@)[i as int] != value_views(b@)[i as int]);
            return false;
        }
        i += 1;
    }
    assert(value_views(a@) =~= value_views(b@));
    true
}

fn entries_equal(a: &Vec<(String, Value)>, b: &Vec<(String, Value)>) -> (same: bool)
    ensures
        same == (entry_views(a@) == entry_views(b@)),
    decreases a,
{
    if a.len() != b.len() {
        assert(entry_views(a@).len() != entry_views(b@).len());
        return false;
    }
    let mut i: usize = 0;
    while i < a.len()
        invariant
            i <= a.len(),
            a.len() == b.len(),
            forall|k: int| 0 <= k < i ==> entry_views(a@)[k] == entry_views(b@)[k],
        decreases a.len() - i,
    {
        proof {
            assert(decreases_to!(a@ => a@[i as int]));
        }
        if !(a[i].0 == b[i].0) || !a[i].1.equals(&b[i].1) {
            assert(entry_views(a@)[i as int] != entry_views(b@)[i as int]);
            return false;
        }
        i += 1;
    }
    assert(entry_views(a@) =~= entry_views(b@));
    true
}

impl Field {
    /// Whether two fields hold equal values under the same constraints.
    pub fn equals(&self, other: &Field) -> (same: bool)
        ensures
            same == (self@ == other@),
        decreases self,
    {
        constraints_equal(&self.constraints, &other.constraints) && self.value.equals(
            &other.value,
        )
    }
}

fn named_fields_equal(a: &Vec<(String, Field)>, b: &Vec<(String, Field)>) -> (same: bool)
    ensures
        same == (named_field_views(a@) == named_field_views(b@)),
    decreases a,
{
    if a.len() != b.len() {
        assert(named_field_views(a@).len() != named_field_views(b@).len());
        return false;
    }
    let mut i: usize = 0;
    while i < a.len()
        invariant
            i <= a.len(),
            a.len() == b.len(),
            forall|k: int| 0 <= k < i ==> named_field_views(a@)[k] == named_field_views(b@)[k],
        decreases a.len() - i,
    {
        proof {
            assert(decreases_to!(a@ => a@[i as int]));
        }
        if !(a[i].0 == b[i].0) || !a[i].1.equals(&b[i].1) {
            assert(named_field_views(a@)[i as int] != named_field_views(b@)[i as int]);
            return false;
        }
        i += 1;
    }
    assert(named_field_views(a@) =~= named_field_views(b@));
    true
}

fn indexed_fields_equal(a: &Vec<(usize, Field)>, b: &Vec<(usize, Field)>) -> (same: bool)
    ensures
        same == (indexed_field_views(a@) == indexed_field_views(b@)),
    decreases a,
{
    if a.len() != b.len() {
        assert(indexed_field_views(a@).len() != indexed_field_views(b@).len());
        return false;
    }
    let mut i: usize = 0;
    while i < a.len()
        invariant
            i <= a.len(),
            a.len() == b.len(),
            forall|k: int|
                0 <= k < i ==> indexed_field_views(a@)[k] == indexed_field_views(b@)[k],
        decreases a.len() - i,
    {
        proof {
            assert(decreases_to!(a@ => a@[i as int]));
        }
        if a[i].0 != b[i].0 || !a[i].1.equals(&b[i].1) {
            assert(indexed_field_views(a@)[i as int] != indexed_field_views(b@)[i as int]);
            return false;
        }
        i += 1;
    }
    assert(indexed_field_views(a@) =~= indexed_field_views(b@));
    true
}

impl Aggregate {
    /// Whether two aggregates have the same shape, equal fields and the same rules.
    pub fn equals(&self, other: &Aggregate) -> (same: bool)
        ensures
            same == (self@ == other@),
        decreases self,
    {
        match (self, other) {
            (
                Aggregate::Named { fields: a, rules: ra },
                Aggregate::Named { fields: b, rules: rb },
            ) => {
                proof {
                    lemma_named_view(*a, *ra);
                    lemma_named_view(*b, *rb);
                }
                name_rules_equal(ra, rb) && named_fields_equal(a, b)
            },
            (
                Aggregate::Indexed { fields: a, rules: ra },
                Aggregate::Indexed { fields: b, rules: rb },
            ) => {
                proof {
                    lemma_indexed_view(*a, *ra);
                    lemma_indexed_view(*b, *rb);
                }
                index_rules_equal(ra, rb) && indexed_fields_equal(a, b)
            },
            (
                Aggregate::NewType { field: a, rules: ra },
                Aggregate::NewType { field: b, rules: rb },
            ) => verdicts_equal(ra, rb) && a.equals(b),
            _ => false,
        }
    }
}

} // verus!
