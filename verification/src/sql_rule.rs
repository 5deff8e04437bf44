//! A lint rule as an object: a check on the flags and a word, and the
//! violation it reports.
use vstd::prelude::*;

use crate::queru_parser::FileStateflags;
use crate::violation::Violation;

verus! {

/// A lint rule.
pub trait SqlRule {
    /// The violation of this rule at word `token_location` of line `line`.
    fn get_violation(&self, line: u8, token_location: u8, offending_code: Vec<String>) -> Violation;

    /// The rule is broken by `current_token` read with the flags `fstat`.
    fn check(&self, fstat: &FileStateflags, current_token: &str) -> bool;
}

} // verus!
