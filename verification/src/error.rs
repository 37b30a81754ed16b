//! The error tree: what validation reports, in the shape of the validated data.

use vstd::prelude::*;
use crate::rule::{Rule, RuleView};

verus! {

/// One rule that did not hold for one value.
#[derive(Debug)]
pub struct Failure {
    /// The rule that failed, with its parameter.
    pub rule: Rule,
    /// The message that reports it.
    pub message: String,
}

/// The mathematical value of a [`Failure`].
pub struct FailureView {
    pub rule: RuleView,
    pub message: Seq<char>,
}

impl View for Failure {
    type V = FailureView;

    open spec fn view(&self) -> FailureView {
        FailureView { rule: self.rule@, message: self.message@ }
    }
}

impl Failure {
    /// A copy of this failure.
    pub fn duplicate(&self) -> (copy: Failure)
        ensures
            copy@ == self@,
    {
        Failure { rule: self.rule.duplicate(), message: self.message.clone() }
    }
}

/// The values of a list of failures.
pub open spec fn failure_views(failures: Seq<Failure>) -> Seq<FailureView> {
    Seq::new(failures.len(), |i: int| failures[i]@)
}

/// The failures of one aggregate. Its shape is that of the aggregate: fields
/// with names, fields with positions, or a single value.
///
/// The entries of a tree are held as a list of pairs, in insertion order, in
/// which no key occurs twice (see [`ErrorTree::well_formed`]). An ordered map
/// such as `indexmap::IndexMap` cannot hold them: the tree is a recursive
/// type, and Verus admits no recursion through a type that it cannot look
/// into, nor a proof of termination over what such a map holds.
#[derive(Debug)]
pub enum Errors {
    /// Of an aggregate with named fields: its own failures, and for each
    /// failing field, in declaration order, the field's name and its tree.
    Object { errors: Vec<Failure>, properties: Vec<(String, Errors)> },
    /// Of an aggregate with positional fields or of a sequence: its own
    /// failures, and for each failing position, in declaration order, the
    /// index and its tree.
    Array { errors: Vec<Failure>, items: Vec<(usize, Errors)> },
    /// Of a single wrapped value: its failures.
    NewType { errors: Vec<Failure> },
}

/// The mathematical value of [`Errors`].
pub enum ErrorTree {
    Named { errors: Seq<FailureView>, properties: Seq<(Seq<char>, ErrorTree)> },
    Indexed { errors: Seq<FailureView>, items: Seq<(nat, ErrorTree)> },
    Flat { errors: Seq<FailureView> },
}

/// The value of an error tree.
pub open spec fn tree_of(errors: Errors) -> ErrorTree
    decreases errors,
{
    match errors {
        Errors::Object { errors, properties } => ErrorTree::Named {
            errors: failure_views(errors@),
            properties: Seq::new(
                properties@.len(),
                |i: int|
                    if 0 <= i < properties@.len() {
                        (properties@[i].0@, tree_of(properties@[i].1))
                    } else {
                        (Seq::empty(), ErrorTree::Flat { errors: Seq::empty() })
                    },
            ),
        },
        Errors::Array { errors, items } => ErrorTree::Indexed {
            errors: failure_views(errors@),
            items: Seq::new(
                items@.len(),
                |i: int|
                    if 0 <= i < items@.len() {
                        (items@[i].0 as nat, tree_of(items@[i].1))
                    } else {
                        (0nat, ErrorTree::Flat { errors: Seq::empty() })
                    },
            ),
        },
        Errors::NewType { errors } => ErrorTree::Flat { errors: failure_views(errors@) },
    }
}

impl View for Errors {
    type V = ErrorTree;

    open spec fn view(&self) -> ErrorTree {
        tree_of(*self)
    }
}

/// The values of the entries of a named tree.
pub open spec fn property_views(properties: Seq<(String, Errors)>) -> Seq<(Seq<char>, ErrorTree)> {
    Seq::new(properties.len(), |i: int| (properties[i].0@, properties[i].1@))
}

/// The values of the entries of an indexed tree.
pub open spec fn item_views(items: Seq<(usize, Errors)>) -> Seq<(nat, ErrorTree)> {
    Seq::new(items.len(), |i: int| (items[i].0 as nat, items[i].1@))
}

/// The view of a named tree is made of the views of its parts.
pub proof fn lemma_object_view(errors: Vec<Failure>, properties: Vec<(String, Errors)>)
    ensures
        (Errors::Object { errors, properties })@ == (ErrorTree::Named {
            errors: failure_views(errors@),
            properties: property_views(properties@),
        }),
{
    let tree = (Errors::Object { errors, properties })@;
    assert(tree->properties =~= property_views(properties@));
}

/// The view of an indexed tree is made of the views of its parts.
pub proof fn lemma_array_view(errors: Vec<Failure>, items: Vec<(usize, Errors)>)
    ensures
        (Errors::Array { errors, items })@ == (ErrorTree::Indexed {
            errors: failure_views(errors@),
            items: item_views(items@),
        }),
{
    let tree = (Errors::Array { errors, items })@;
    assert(tree->items =~= item_views(items@));
}

/// Whether no two entries have the same key.
pub open spec fn distinct_keys<K, V>(entries: Seq<(K, V)>) -> bool {
    forall|i: int, j: int|
        0 <= i < j < entries.len() ==> (#[trigger] entries[i]).0 != (#[trigger] entries[j]).0
}

impl ErrorTree {
    /// The failures attached to the aggregate itself.
    pub open spec fn errors(self) -> Seq<FailureView> {
        match self {
            ErrorTree::Named { errors, .. } => errors,
            ErrorTree::Indexed { errors, .. } => errors,
            ErrorTree::Flat { errors } => errors,
        }
    }

    /// The number of failures in the whole tree.
    pub open spec fn failure_count(self) -> nat
        decreases self,
    {
        match self {
            ErrorTree::Named { errors, properties } => errors.len() + entries_failure_count(
                properties,
            ),
            ErrorTree::Indexed { errors, items } => errors.len() + entries_failure_count(items),
            ErrorTree::Flat { errors } => errors.len(),
        }
    }

    /// Whether the tree reports something and does so once: it holds a
    /// failure or an entry, no key occurs twice among its entries, and every
    /// entry's tree is itself well formed.
    pub open spec fn well_formed(self) -> bool
        decreases self,
    {
        match self {
            ErrorTree::Named { errors, properties } => {
                &&& errors.len() > 0 || properties.len() > 0
                &&& distinct_keys(properties)
                &&& forall|i: int|
                    0 <= i < properties.len() ==> (#[trigger] properties[i]).1.well_formed()
            },
            ErrorTree::Indexed { errors, items } => {
                &&& errors.len() > 0 || items.len() > 0
                &&& distinct_keys(items)
                &&& forall|i: int| 0 <= i < items.len() ==> (#[trigger] items[i]).1.well_formed()
            },
            ErrorTree::Flat { errors } => errors.len() > 0,
        }
    }

    /// The tree with `more` appended to the failures attached to the aggregate itself.
    pub open spec fn with_errors(self, more: Seq<FailureView>) -> ErrorTree {
        match self {
            ErrorTree::Named { errors, properties } => ErrorTree::Named {
                errors: errors + more,
                properties,
            },
            ErrorTree::Indexed { errors, items } => ErrorTree::Indexed {
                errors: errors + more,
                items,
            },
            ErrorTree::Flat { errors } => ErrorTree::Flat { errors: errors + more },
        }
    }

    /// The tree with `first` put before the failures attached to the aggregate itself.
    pub open spec fn after_errors(self, first: Seq<FailureView>) -> ErrorTree {
        match self {
            ErrorTree::Named { errors, properties } => ErrorTree::Named {
                errors: first + errors,
                properties,
            },
            ErrorTree::Indexed { errors, items } => ErrorTree::Indexed {
                errors: first + errors,
                items,
            },
            ErrorTree::Flat { errors } => ErrorTree::Flat { errors: first + errors },
        }
    }
}

/// The number of failures in the trees of `entries`.
pub open spec fn entries_failure_count<K>(entries: Seq<(K, ErrorTree)>) -> nat
    decreases entries,
{
    if entries.len() == 0 {
        0
    } else {
        entries_failure_count(entries.drop_last()) + entries.last().1.failure_count()
    }
}

/// A well-formed tree holds at least one failure somewhere.
pub proof fn lemma_well_formed_has_failure(tree: ErrorTree)
    requires
        tree.well_formed(),
    ensures
        tree.failure_count() > 0,
    decreases tree,
{
    match tree {
        ErrorTree::Named { errors, properties } => {
            if properties.len() > 0 {
                lemma_well_formed_has_failure(properties.last().1);
            }
        },
        ErrorTree::Indexed { errors, items } => {
            if items.len() > 0 {
                lemma_well_formed_has_failure(items.last().1);
            }
        },
        ErrorTree::Flat { errors } => {},
    }
}

} // verus!
