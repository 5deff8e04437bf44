//! The lint rules, and the violations they report.
use vstd::prelude::*;
use vstd::utf8::is_ascii_chars;
use vstd::string::StringExecFns;

use crate::parsing::{
    keyword_of, lemma_condition_words, lemma_keyword_literals, lemma_rule_words_are_plain, FileState,
    Keyword, StateModel,
};
use crate::text::{
    ascii_upper,
    seq_ends_with_char, seq_has_char, seq_starts_with, str_contains_char, str_ends_with_char, str_equals,
    to_uppercase, unicode_uppercase, violation_string, violation_text,
};

verus! {

/// A rule broken at a place in a file.
#[derive(Debug)]
pub struct Violation {
    pub line: u8,
    pub token_location: u8,
    pub violation_string: String,
    pub offending_code: Vec<String>,
}

/// What a `Violation` says, as mathematical values.
pub struct Finding {
    pub line: int,
    pub token_location: int,
    pub message: Seq<char>,
    pub offending_code: Seq<Seq<char>>,
}

impl View for Violation {
    type V = Finding;

    open spec fn view(&self) -> Finding {
        Finding {
            line: self.line as int,
            token_location: self.token_location as int,
            message: self.violation_string@,
            offending_code: self.offending_code.deep_view(),
        }
    }
}

/// The views of a list of violations.
pub open spec fn violations_view(v: Seq<Violation>) -> Seq<Finding> {
    v.map_values(|x: Violation| x@)
}

impl Violation {
    /// A violation of the rule described by `violation_message`, at word
    /// `token_location` of line `line`, whose words are `offending_code`.
    pub fn new(
        line: u8,
        token_location: u8,
        offending_code: Vec<String>,
        violation_message: String,
    ) -> (v: Violation)
        ensures
            v@ == (Finding {
                line: line as int,
                token_location: token_location as int,
                message: violation_message@,
                offending_code: offending_code.deep_view(),
            }),
    {
        Violation { line, token_location, violation_string: violation_message, offending_code }
    }
}

impl Violation {
    /// How the violation is shown: `Line {line}, Token {token}: {message}`, then
    /// the words of the line, joined by spaces, as `{:?}` shows a string.
    pub fn to_string(&self) -> (res: String)
        ensures
            res@ == violation_text(
                self.line,
                self.token_location,
                self.violation_string@,
                self.offending_code.deep_view(),
            ),
    {
        violation_string(
            self.line,
            self.token_location,
            &self.violation_string,
            &self.offending_code,
        )
    }
}

/// The message for a cursor.
pub open spec fn msg_cursors() -> Seq<char> {
    "Do not use CURSORS, prefer while loops with counters"@
}

/// The message for a table name without its schema.
pub open spec fn msg_qualify_tables() -> Seq<char> {
    "Fully qualify tables"@
}

/// The message for `*` in a select list.
pub open spec fn msg_select_star() -> Seq<char> {
    "Do not use * in select list, specify columns"@
}

/// The message for a declaration inside a transaction.
pub open spec fn msg_declare_in_tran() -> Seq<char> {
    "Do not declare variables in transaction"@
}

/// The message for a function call in a `WHERE` clause.
pub open spec fn msg_function_in_where() -> Seq<char> {
    "Do not use functions in where clauses, cache functions as variables first"@
}

/// The message for `NOLOCK`.
pub open spec fn msg_nolock() -> Seq<char> {
    "Do not use NOLOCK"@
}

/// The message for a select inside a transaction.
pub open spec fn msg_select_in_tran() -> Seq<char> {
    "Do not run select statements in transaction"@
}

/// The message for a transaction still open when the file ends.
pub open spec fn msg_tran_open() -> Seq<char> {
    "Transaction left open at end of file"@
}

/// The word is `CURSOR`, in any case, outside comments.
pub open spec fn cursor_used(s: StateModel, token: Seq<char>) -> bool {
    !s.in_comment() && unicode_uppercase(token) == "CURSOR"@
}

/// The word is the table name after `FROM`, and it names no schema.
pub open spec fn table_unqualified(s: StateModel, token: Seq<char>) -> bool {
    s.from_table && !seq_has_char(token, '.')
}

/// The word is `*` inside a select.
pub open spec fn select_star_used(s: StateModel, token: Seq<char>) -> bool {
    s.select && token == "*"@
}

/// A declaration inside a transaction.
pub open spec fn declare_in_tran(s: StateModel) -> bool {
    s.in_transaction && s.declare
}

/// A word ending in `)` inside a `WHERE` clause.
pub open spec fn function_in_where(s: StateModel, token: Seq<char>) -> bool {
    (s.where_clause || s.where_clause_left_assignment || s.where_clause_operand
        || s.where_clause_right_assignment) && seq_ends_with_char(token, ')')
}

/// `NOLOCK` or `(NOLOCK)`, in any case, inside a select.
pub open spec fn nolock_used(s: StateModel, token: Seq<char>) -> bool {
    s.select && (unicode_uppercase(token) == "(NOLOCK)"@ || unicode_uppercase(token) == "NOLOCK"@)
}

/// `SELECT`, in any case, starting a select inside a transaction.
pub open spec fn select_in_tran(s: StateModel, token: Seq<char>) -> bool {
    s.in_transaction && s.select && unicode_uppercase(token) == "SELECT"@
}

/// The rules of the linter.
pub struct Rules {}

impl Rules {
    /// A cursor is used. The review calls this rule and names only its message;
    /// what counts as a cursor is this crate's choice: the word `CURSOR`, in any
    /// case, outside comments.
    pub fn no_cursors(fstat: &FileState, current_token: &str) -> (res: bool)
        ensures
            res == cursor_used(fstat@, current_token@),
            is_ascii_chars(current_token@) ==> res == (!fstat@.in_comment() && ascii_upper(
                current_token@,
            ) == "CURSOR"@),
    {
        if FileState::in_comment(fstat) {
            return false;
        }
        let upper = to_uppercase(current_token);
        str_equals(upper.as_str(), "CURSOR")
    }

    /// A table is named without its schema. The review calls this rule and names
    /// only its message; what counts is this crate's choice: the table name right
    /// after `FROM` in a select, when it holds no `.`.
    pub fn must_qualify_tables(fstat: &FileState, current_token: &str) -> (res: bool)
        ensures
            res == table_unqualified(fstat@, current_token@),
    {
        fstat.from_table && !str_contains_char(current_token, '.')
    }

    /// `*` stands in a select list.
    pub fn no_select_star(fstat: &FileState, current_token: &str) -> (res: bool)
        ensures
            res == select_star_used(fstat@, current_token@),
    {
        fstat.select && str_equals(current_token, "*")
    }

    /// A function is called in a `WHERE` clause.
    pub fn no_function_in_where(fstat: &FileState, current_token: &str) -> (res: bool)
        ensures
            res == function_in_where(fstat@, current_token@),
    {
        (fstat.where_clause || fstat.where_clause_left_assignment || fstat.where_clause_operand
            || fstat.where_clause_right_assignment) && str_ends_with_char(current_token, ')')
    }

    /// `NOLOCK` is asked for in a select.
    pub fn no_nolock(fstat: &FileState, current_token: &str) -> (res: bool)
        ensures
            res == nolock_used(fstat@, current_token@),
            is_ascii_chars(current_token@) ==> res == (fstat.select && (ascii_upper(
                current_token@,
            ) == "(NOLOCK)"@ || ascii_upper(current_token@) == "NOLOCK"@)),
    {
        if !fstat.select {
            return false;
        }
        let upper = to_uppercase(current_token);
        str_equals(upper.as_str(), "(NOLOCK)") || str_equals(upper.as_str(), "NOLOCK")
    }

    /// A transaction is open.
    pub fn left_tran_open(fstat: &FileState, _current_token: &str) -> (res: bool)
        ensures
            res == fstat.in_transaction,
    {
        fstat.in_transaction
    }

    /// The violation for a transaction left open.
    pub fn left_tran_open_violation(
        &self,
        line: u8,
        token_location: u8,
        offending_code: Vec<String>,
    ) -> (v: Violation)
        ensures
            v@ == (Finding {
                line: line as int,
                token_location: token_location as int,
                message: msg_tran_open(),
                offending_code: offending_code.deep_view(),
            }),
    {
        Violation {
            line,
            token_location,
            violation_string: String::from_str("Transaction left open at end of file"),
            offending_code,
        }
    }

    /// A select starts inside a transaction.
    pub fn no_select_in_tran(fstat: &FileState, current_token: &str) -> (res: bool)
        ensures
            res == select_in_tran(fstat@, current_token@),
            is_ascii_chars(current_token@) ==> res == (fstat.in_transaction && fstat.select
                && ascii_upper(current_token@) == "SELECT"@),
    {
        if !(fstat.in_transaction && fstat.select) {
            return false;
        }
        let upper = to_uppercase(current_token);
        str_equals(upper.as_str(), "SELECT")
    }

    /// A variable is declared inside a transaction.
    pub fn no_delcare_in_tran(fstat: &FileState, _current_token: &str) -> (res: bool)
        ensures
            res == declare_in_tran(fstat@),
    {
        fstat.in_transaction && fstat.declare
    }
}

/// A word is reported as a function in a condition exactly when it ends in `)`
/// and any of the four condition places is open: right after `WHERE`, `OR` or
/// `AND`, the left operand, the operator, the right operand.
pub proof fn lemma_function_in_where_places(s: StateModel, t: Seq<char>)
    ensures
        function_in_where(s, t) == ((s.where_clause || s.where_clause_left_assignment
            || s.where_clause_operand || s.where_clause_right_assignment) && t.len() > 0
            && t.last() == ')'),
{
    reveal(seq_ends_with_char);
}

/// After `WHERE`, `OR` or `AND`, each of the next three words that are no
/// keywords (left operand, operator, right operand) is reported exactly when it
/// ends in `)`, whatever the state before; the fourth is past the condition and
/// never reported.
pub proof fn lemma_condition_reach(
    s: StateModel,
    w0: Seq<char>,
    u0: Seq<char>,
    w1: Seq<char>,
    u1: Seq<char>,
    w2: Seq<char>,
    u2: Seq<char>,
    w3: Seq<char>,
    u3: Seq<char>,
    w4: Seq<char>,
    u4: Seq<char>,
)
    requires
        u0 == "WHERE"@ || u0 == "OR"@ || u0 == "AND"@,
        keyword_of(u1) == Keyword::Other,
        keyword_of(u2) == Keyword::Other,
        keyword_of(u3) == Keyword::Other,
        keyword_of(u4) == Keyword::Other,
    ensures
        ({
            let s0 = s.interpreted(w0, u0);
            let s1 = s0.finalized().interpreted(w1, u1);
            let s2 = s1.finalized().interpreted(w2, u2);
            let s3 = s2.finalized().interpreted(w3, u3);
            let s4 = s3.finalized().interpreted(w4, u4);
            &&& function_in_where(s1, w1) == (w1.len() > 0 && w1.last() == ')')
            &&& function_in_where(s2, w2) == (w2.len() > 0 && w2.last() == ')')
            &&& function_in_where(s3, w3) == (w3.len() > 0 && w3.last() == ')')
            &&& !function_in_where(s4, w4)
        }),
{
    reveal(seq_ends_with_char);
    lemma_condition_words(s, w0);
}

/// Inside a select, `*` and `NOLOCK` are reported: after a `SELECT` outside
/// comments, with no closing pending, the word `*` breaks the select-star rule
/// and a word that is `NOLOCK` or `(NOLOCK)` in any case breaks the NOLOCK rule;
/// inside a transaction the `SELECT` itself is reported.
pub proof fn lemma_select_rules(s: StateModel, w: Seq<char>, t: Seq<char>)
    requires
        !s.in_comment(),
        !s.closing_select,
        !seq_starts_with(w, "--"@),
        !seq_has_char(w, ';'),
    ensures
        ({
            let s1 = s.interpreted(w, "SELECT"@);
            &&& s1.finalized().select
            &&& select_star_used(s1.finalized().interpreted("*"@, "*"@), "*"@)
            &&& (unicode_uppercase(t) == "NOLOCK"@ || unicode_uppercase(t) == "(NOLOCK)"@)
                ==> nolock_used(s1.finalized().interpreted(t, unicode_uppercase(t)), t)
            &&& (s.in_transaction && unicode_uppercase(w) == "SELECT"@) ==> select_in_tran(
                s1,
                w,
            )
        }),
{
    lemma_keyword_literals();
    lemma_rule_words_are_plain();
}

/// Comments hide a cursor: `CURSOR`, in any case, is reported outside comments,
/// and not after `/*` (with no closing pending) nor after `--`.
pub proof fn lemma_comments_hide_cursor(s: StateModel, w: Seq<char>, c: Seq<char>)
    requires
        unicode_uppercase(c) == "CURSOR"@,
        !s.closing_block_comment,
    ensures
        (!s.in_comment() && !seq_starts_with(c, "--"@)) ==> cursor_used(
            s.interpreted(c, "CURSOR"@),
            c,
        ),
        !cursor_used(s.interpreted(w, "/*"@).finalized().interpreted(c, "CURSOR"@), c),
        !cursor_used(s.interpreted(w, "--"@).finalized().interpreted(c, "CURSOR"@), c),
{
    lemma_keyword_literals();
    lemma_rule_words_are_plain();
}

/// The word after `FROM` in a select is the table name, reported exactly when it
/// names no schema (holds no `.`); outside a select and a pending table name,
/// the word after `FROM` is never reported.
pub proof fn lemma_from_table_rule(s: StateModel, w1: Seq<char>, w2: Seq<char>, u2: Seq<char>)
    requires
        keyword_of(u2) == Keyword::Other,
    ensures
        s.select ==> table_unqualified(
            s.interpreted(w1, "FROM"@).finalized().interpreted(w2, u2),
            w2,
        ) == !seq_has_char(w2, '.'),
        (!s.select && !s.from) ==> !table_unqualified(
            s.interpreted(w1, "FROM"@).finalized().interpreted(w2, u2),
            w2,
        ),
{
    lemma_keyword_literals();
}

/// A `DECLARE` inside a transaction is reported, and one outside is not.
pub proof fn lemma_declare_in_tran_rule(s: StateModel, w: Seq<char>)
    ensures
        declare_in_tran(s.interpreted(w, "DECLARE"@)) == s.in_transaction,
{
    lemma_keyword_literals();
}

} // verus!
