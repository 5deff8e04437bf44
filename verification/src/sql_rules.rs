//! The rule objects.
use vstd::prelude::*;
use vstd::string::StringExecFns;

use crate::linting::Finding;
use crate::queru_parser::FileStateflags;
use crate::sql_rule::SqlRule;
use crate::text::str_equals;
use crate::violation::Violation;

verus! {

/// `*` in a select list.
pub struct NoSelectStar {}

impl SqlRule for NoSelectStar {
    fn check(&self, fstat: &FileStateflags, current_token: &str) -> (res: bool)
        ensures
            res == (fstat.select && current_token@ == "*"@),
    {
        fstat.select && str_equals(current_token, "*")
    }

    fn get_violation(
        &self,
        line: u8,
        token_location: u8,
        offending_code: Vec<String>,
    ) -> (v: Violation)
        ensures
            v@ == (Finding {
                line: line as int,
                token_location: token_location as int,
                message: "Do not use * in select list, specify columns"@,
                offending_code: offending_code.deep_view(),
            }),
    {
        Violation {
            line,
            token_location,
            violation_string: String::from_str("Do not use * in select list, specify columns"),
            offending_code,
        }
    }
}

/// `NOLOCK` or `(NOLOCK)`, written in capitals, in a select.
pub struct NoNoLock {}

impl SqlRule for NoNoLock {
    fn check(&self, fstat: &FileStateflags, current_token: &str) -> (res: bool)
        ensures
            res == (fstat.select && (current_token@ == "(NOLOCK)"@ || current_token@ == "NOLOCK"@)),
    {
        fstat.select && (str_equals(current_token, "(NOLOCK)") || str_equals(
            current_token,
            "NOLOCK",
        ))
    }

    fn get_violation(
        &self,
        line: u8,
        token_location: u8,
        offending_code: Vec<String>,
    ) -> (v: Violation)
        ensures
            v@ == (Finding {
                line: line as int,
                token_location: token_location as int,
                message: "Do not use NOLOCK"@,
                offending_code: offending_code.deep_view(),
            }),
    {
        Violation {
            line,
            token_location,
            violation_string: String::from_str("Do not use NOLOCK"),
            offending_code,
        }
    }
}

/// A transaction is open.
pub struct LeftOpenTran {}

impl SqlRule for LeftOpenTran {
    fn check(&self, fstat: &FileStateflags, _current_token: &str) -> (res: bool)
        ensures
            res == (fstat.in_transaction),
    {
        fstat.in_transaction
    }

    fn get_violation(
        &self,
        line: u8,
        token_location: u8,
        offending_code: Vec<String>,
    ) -> (v: Violation)
        ensures
            v@ == (Finding {
                line: line as int,
                token_location: token_location as int,
                message: "Transaction left open at end of file"@,
                offending_code: offending_code.deep_view(),
            }),
    {
        Violation {
            line,
            token_location,
            violation_string: String::from_str("Transaction left open at end of file"),
            offending_code,
        }
    }
}

/// `SELECT`, written in capitals, inside a transaction.
pub struct NoSelectInTran {}

impl SqlRule for NoSelectInTran {
    fn check(&self, fstat: &FileStateflags, current_token: &str) -> (res: bool)
        ensures
            res == (fstat.in_transaction && fstat.select && current_token@ == "SELECT"@),
    {
        fstat.in_transaction && fstat.select && str_equals(current_token, "SELECT")
    }

    fn get_violation(
        &self,
        line: u8,
        token_location: u8,
        offending_code: Vec<String>,
    ) -> (v: Violation)
        ensures
            v@ == (Finding {
                line: line as int,
                token_location: token_location as int,
                message: "Do not run select statements in transaction"@,
                offending_code: offending_code.deep_view(),
            }),
    {
        Violation {
            line,
            token_location,
            violation_string: String::from_str("Do not run select statements in transaction"),
            offending_code,
        }
    }
}

} // verus!
