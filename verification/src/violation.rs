//! The violation that the rule objects report.
use vstd::prelude::*;

use crate::linting::Finding;
use crate::text::{violation_string, violation_text};

verus! {

/// A rule broken at a place in a file.
#[derive(Debug)]
pub struct Violation {
    pub line: u8,
    pub token_location: u8,
    pub violation_string: String,
    pub offending_code: Vec<String>,
}

impl View for Violation {
    type V = Finding;

    open spec fn view(&self) -> Finding {
        Finding {
            line: self.line as int,
            token_location: self.token_location as int,
            message: self.violation_string@,
            offending_code: self.offending_code.deep_view(),
        }
    }
}

impl Violation {
    /// How the violation is shown: `Line {line}, Token {token}: {message}`, then
    /// the words of the line, joined by spaces, as `{:?}` shows a string.
    pub fn to_string(&self) -> (res: String)
        ensures
            res@ == violation_text(
                self.line,
                self.token_location,
                self.violation_string@,
                self.offending_code.deep_view(),
            ),
    {
        violation_string(
            self.line,
            self.token_location,
            &self.violation_string,
            &self.offending_code,
        )
    }
}

} // verus!
