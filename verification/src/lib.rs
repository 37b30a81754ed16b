//! Validation of structured values against declared constraints, with the
//! failures reported as a tree that mirrors the shape of the validated data.
//!
//! A [`value::Value`] is a leaf, an optional wrapper, a collection or a
//! nested [`value::Aggregate`]; an aggregate lists its fields, each with the
//! constraints declared for it, and the verdicts of its cross-field rules.
//! [`validate::validate_aggregate`] evaluates every constraint of every
//! field, validates nested values in turn, and assembles all failures into
//! one [`error::Errors`] tree, whose canonical text form is JSON.
//!
//! What validation yields is specified in [`outcome`] as a function of the
//! validated value; the engine in [`validate`] is proved against it, and
//! [`laws`] states what follows for every validation.
//!
//! - [`rule`]: the catalogue of rules and their default messages
//! - [`evaluate`]: whether a rule holds of a value
//! - [`assemble`]: failures of one field, layering, reports of cross-field rules
//! - [`fitness`]: whether a value and its constraints are fit for validation
//! - [`custom`]: predicates and message functions of the caller
//! - [`length`]: length validation of texts and byte strings
//! - [`ordered`]: mappings held in an `indexmap::IndexMap`
//! - [`binding`]: the rules by which declared constraints are read

pub mod assemble;
pub mod binding;
pub mod custom;
pub mod equality;
pub mod error;
pub mod evaluate;
pub mod fitness;
pub mod laws;
pub mod length;
pub mod ordered;
pub mod outcome;
pub mod pattern;
pub mod render;
pub mod rule;
pub mod text;
pub mod validate;
pub mod value;
pub mod wellformed;

pub use crate::custom::wrap_closure_validation;
pub use crate::error::{Errors, Failure};
pub use crate::fitness::{try_validate, Malformed};
pub use crate::length::{validate_string_length, Length, MaxLengthErrorParams, ValidateMaxLength};
pub use crate::rule::{Literal, Rule, RuleKind, Verdict};
pub use crate::validate::Validate;
pub use crate::value::{Aggregate, Constraint, Field, Value};
