//! What the generator reports: structural failures, which end generation,
//! and annotation diagnostics, which are collected while generation goes on.

use vstd::prelude::*;
use vstd::string::*;

verus! {

/// A structural failure: nothing is generated.
#[derive(Clone, Copy, Debug, PartialEq, Eq)]
pub enum Failure {
    /// The input is not a record.
    NotARecord,
    /// The input is a record without fields.
    NoFields,
}

impl Failure {
    /// The text shown for this failure.
    pub open spec fn text(self) -> Seq<char> {
        match self {
            Failure::NotARecord => "input must be a struct"@,
            Failure::NoFields => "input must be a struct with fields"@,
        }
    }

    /// The text shown for this failure.
    pub fn message(&self) -> (r: String)
        ensures
            r@ == self.text(),
    {
        match self {
            Failure::NotARecord => String::from_str("input must be a struct"),
            Failure::NoFields => String::from_str("input must be a struct with fields"),
        }
    }
}

/// A key marker that carries arguments. It is reported at the place of the
/// marker in the input: the field, and the annotation among those that the
/// field had on entry.
#[derive(Clone, Copy, Debug, PartialEq, Eq)]
pub struct Diagnostic {
    pub field: usize,
    pub annotation: usize,
}

} // verus!
