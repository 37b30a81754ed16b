//! Length validation of texts and byte strings.
//!
//! See <https://json-schema.org/understanding-json-schema/reference/string.html#length>

use std::borrow::Cow;
use std::path::{Path, PathBuf};
use vstd::prelude::*;

verus! {

/// `std::path::Path`, as a type of which nothing is known.
#[verifier::external_type_specification]
#[verifier::external_body]
pub struct ExPath(Path);

/// `std::path::PathBuf`, as a type of which nothing is known.
#[verifier::external_type_specification]
#[verifier::external_body]
pub struct ExPathBuf(PathBuf);

/// What has a length that the length rules measure: a text is measured in
/// characters (Unicode scalar values), a string of bytes in bytes.
pub trait Length {
    /// The length, as a function of the value.
    spec fn measure(&self) -> nat;

    /// The length of the value.
    fn length(&self) -> (n: usize)
        ensures
            n == self.measure(),
    ;
}

impl Length for str {
    open spec fn measure(&self) -> nat {
        self@.len()
    }

    fn length(&self) -> (n: usize) {
        self.unicode_len()
    }
}

impl Length for String {
    open spec fn measure(&self) -> nat {
        self@.len()
    }

    fn length(&self) -> (n: usize) {
        self.as_str().unicode_len()
    }
}

impl<'a> Length for Cow<'a, str> {
    open spec fn measure(&self) -> nat {
        self@.len()
    }

    fn length(&self) -> (n: usize) {
        match self {
            Cow::Borrowed(text) => text.unicode_len(),
            Cow::Owned(text) => text.as_str().unicode_len(),
        }
    }
}

impl Length for Vec<u8> {
    open spec fn measure(&self) -> nat {
        self@.len()
    }

    fn length(&self) -> (n: usize) {
        self.len()
    }
}

impl Length for Vec<char> {
    open spec fn measure(&self) -> nat {
        self@.len()
    }

    fn length(&self) -> (n: usize) {
        self.len()
    }
}

impl Length for [u8] {
    open spec fn measure(&self) -> nat {
        self@.len()
    }

    fn length(&self) -> (n: usize) {
        self.len()
    }
}

impl Length for [char] {
    open spec fn measure(&self) -> nat {
        self@.len()
    }

    fn length(&self) -> (n: usize) {
        self.len()
    }
}

impl<const N: usize> Length for [u8; N] {
    open spec fn measure(&self) -> nat {
        N as nat
    }

    fn length(&self) -> (n: usize) {
        N
    }
}

impl<const N: usize> Length for [char; N] {
    open spec fn measure(&self) -> nat {
        N as nat
    }

    fn length(&self) -> (n: usize) {
        N
    }
}

/// The text of a path: what `Path::to_string_lossy` gives for it, which is
/// the path's own text where that is valid Unicode, with U+FFFD in place of
/// every sequence that is not.
pub uninterp spec fn path_chars(path: &Path) -> Seq<char>;

/// The path that a `PathBuf` holds: what `PathBuf::as_path` borrows from it.
pub uninterp spec fn held_path(path: &PathBuf) -> &Path;

/// Converts a path to text with `Path::to_string_lossy`, which depends on
/// the path alone; the contract gives its result the name `path_chars`.
#[verifier::external_body]
fn path_text(path: &Path) -> (text: Cow<'_, str>)
    ensures
        text@ == path_chars(path),
{
    path.to_string_lossy()
}

/// Borrows a `PathBuf` as a `Path` with `PathBuf::as_path`, which depends on
/// the buffer alone; the contract gives its result the name `held_path`.
#[verifier::external_body]
fn as_path(path: &PathBuf) -> (borrowed: &Path)
    ensures
        borrowed == held_path(path),
{
    path.as_path()
}

/// The length of a path: the number of characters of its text.
pub open spec fn path_length(path: &Path) -> nat {
    path_chars(path).len()
}

impl Length for Path {
    open spec fn measure(&self) -> nat {
        path_length(self)
    }

    /// The number of characters of the path's text.
    fn length(&self) -> (n: usize) {
        path_text(self).length()
    }
}

impl Length for PathBuf {
    open spec fn measure(&self) -> nat {
        path_length(held_path(self))
    }

    /// The number of characters of the path's text.
    fn length(&self) -> (n: usize) {
        path_text(as_path(self)).length()
    }
}

impl<T: Length + ?Sized> Length for &T {
    open spec fn measure(&self) -> nat {
        (**self).measure()
    }

    fn length(&self) -> (n: usize) {
        (**self).length()
    }
}

/// Whether `length` is at least `min`, where there is one, and at most `max`,
/// where there is one.
pub open spec fn within(length: nat, min: Option<usize>, max: Option<usize>) -> bool {
    &&& max matches Some(most) ==> length <= most
    &&& min matches Some(least) ==> least <= length
}

/// Length validation: whether the length of `value` lies within the bounds given.
pub fn validate_string_length<T>(
    value: &T,
    min_length: Option<usize>,
    max_length: Option<usize>,
) -> (ok: bool) where T: Length + ?Sized
    ensures
        ok == within(value.measure(), min_length, max_length),
{
    let length = value.length();
    if let Some(max) = max_length {
        if max < length {
            return false;
        }
    }
    if let Some(min) = min_length {
        if length < min {
            return false;
        }
    }
    true
}

/// The parameter of a failed maximum-length rule.
#[derive(Clone, Copy, Debug, PartialEq, Eq, Structural)]
pub struct MaxLengthErrorParams {
    pub max_length: usize,
}

impl MaxLengthErrorParams {
    pub fn new(max_length: usize) -> (params: MaxLengthErrorParams)
        ensures
            params.max_length == max_length,
    {
        MaxLengthErrorParams { max_length }
    }
}

/// What maximum-length validation returns: `Ok` where the value fits, else
/// the bound that it exceeds.
pub open spec fn max_length_result(fits: bool, max_length: usize) -> Result<
    (),
    MaxLengthErrorParams,
> {
    if fits {
        Ok(())
    } else {
        Err(MaxLengthErrorParams { max_length })
    }
}

/// Maximum-length validation.
pub trait ValidateMaxLength {
    /// Whether the value is at most `max_length` long.
    spec fn fits(&self, max_length: usize) -> bool;

    /// `Ok` where the value is at most `max_length` long, else the bound that
    /// it exceeds.
    fn validate(&self, max_length: usize) -> (result: Result<(), MaxLengthErrorParams>)
        ensures
            result == max_length_result(self.fits(max_length), max_length),
    ;
}

impl<T> ValidateMaxLength for T where T: Length + ?Sized {
    open spec fn fits(&self, max_length: usize) -> bool {
        self.measure() <= max_length
    }

    fn validate(&self, max_length: usize) -> (result: Result<(), MaxLengthErrorParams>) {
        if max_length >= self.length() {
            Ok(())
        } else {
            Err(MaxLengthErrorParams::new(max_length))
        }
    }
}

/// Length validation depends on the value's length and the bounds alone:
/// whatever two validations of the same value against the same bounds
/// return, they return the same.
pub proof fn law_length_validation_is_pure<T: Length + ?Sized>(
    value: &T,
    min_length: Option<usize>,
    max_length: Option<usize>,
    first: bool,
    second: bool,
)
    requires
        first == within(value.measure(), min_length, max_length),
        second == within(value.measure(), min_length, max_length),
    ensures
        first == second,
{
}

/// Maximum-length validation depends on the value's length and the bound
/// alone: whatever two validations of the same value against the same bound
/// return, both pass or both fail with the same parameter.
pub proof fn law_max_length_validation_is_pure<T: Length + ?Sized>(
    value: &T,
    max_length: usize,
    first: Result<(), MaxLengthErrorParams>,
    second: Result<(), MaxLengthErrorParams>,
)
    requires
        first == max_length_result(value.fits(max_length), max_length),
        second == max_length_result(value.fits(max_length), max_length),
    ensures
        first == second,
        first is Ok <==> value.measure() <= max_length,
        first matches Err(params) ==> params.max_length == max_length,
{
}

} // verus!
