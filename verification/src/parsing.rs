//! The flag-based interpreter of SQL words: the state it keeps while it walks a
//! file, and how one word changes that state.
use vstd::prelude::*;
use vstd::utf8::is_ascii_chars;

use crate::text::{
    ascii_upper, lemma_ascii_upper, push_char, remove_first_n, remove_first_occurrences, seq_has_char, seq_starts_with,
    str_contains_char, str_equals, str_starts_with, to_uppercase, unicode_uppercase,
};

verus! {

/// The interpreter itself; its work is done by associated functions.
#[derive(Debug, Default)]
pub struct QueruParser {}

/// A file cut into lines, each line cut into words.
#[derive(Debug, Default)]
pub struct ParsedSqlFile {
    pub tokenized_data: Vec<Vec<String>>,
}

/// A variable seen in a `DECLARE` statement.
#[derive(Debug, Default)]
pub struct Variable {
    pub variable_name: String,
    pub variable_type: String,
    pub initial_value: String,
}

/// What a `Variable` holds, as character sequences.
pub struct VariableModel {
    pub name: Seq<char>,
    pub var_type: Seq<char>,
    pub initial_value: Seq<char>,
}

impl View for Variable {
    type V = VariableModel;

    open spec fn view(&self) -> VariableModel {
        VariableModel {
            name: self.variable_name@,
            var_type: self.variable_type@,
            initial_value: self.initial_value@,
        }
    }
}

impl Variable {
    /// A variable with the given name and empty type and initial value.
    pub fn new(name: String) -> (v: Variable)
        ensures
            v@ == (VariableModel {
                name: name@,
                var_type: Seq::<char>::empty(),
                initial_value: Seq::<char>::empty(),
            }),
    {
        Variable { variable_name: name, variable_type: String::new(), initial_value: String::new() }
    }
}

/// The state of the interpreter between two words.
#[derive(Debug)]
pub struct FileState {
    pub line_comment: bool,
    pub block_comment: bool,
    pub closing_block_comment: bool,
    pub closing_select: bool,
    pub select: bool,
    pub begin: bool,
    pub end: bool,
    pub in_transaction: bool,
    pub declare: bool,
    pub check_datatype: bool,
    pub check_var_initial_value: bool,
    pub where_clause: bool,
    pub where_clause_left_assignment: bool,
    pub where_clause_operand: bool,
    pub where_clause_right_assignment: bool,
    pub commit: bool,
    pub from: bool,
    pub from_table: bool,
    pub vars: Vec<Variable>,
}

/// The mathematical value of a `FileState`.
pub struct StateModel {
    pub line_comment: bool,
    pub block_comment: bool,
    pub closing_block_comment: bool,
    pub closing_select: bool,
    pub select: bool,
    pub begin: bool,
    pub end: bool,
    pub in_transaction: bool,
    pub declare: bool,
    pub check_datatype: bool,
    pub check_var_initial_value: bool,
    pub where_clause: bool,
    pub where_clause_left_assignment: bool,
    pub where_clause_operand: bool,
    pub where_clause_right_assignment: bool,
    pub commit: bool,
    pub from: bool,
    pub from_table: bool,
    pub vars: Seq<VariableModel>,
}

/// The views of a vector of variables.
pub open spec fn vars_view(vars: Seq<Variable>) -> Seq<VariableModel> {
    vars.map_values(|v: Variable| v@)
}

impl View for FileState {
    type V = StateModel;

    open spec fn view(&self) -> StateModel {
        StateModel {
            line_comment: self.line_comment,
            block_comment: self.block_comment,
            closing_block_comment: self.closing_block_comment,
            closing_select: self.closing_select,
            select: self.select,
            begin: self.begin,
            end: self.end,
            in_transaction: self.in_transaction,
            declare: self.declare,
            check_datatype: self.check_datatype,
            check_var_initial_value: self.check_var_initial_value,
            where_clause: self.where_clause,
            where_clause_left_assignment: self.where_clause_left_assignment,
            where_clause_operand: self.where_clause_operand,
            where_clause_right_assignment: self.where_clause_right_assignment,
            commit: self.commit,
            from: self.from,
            from_table: self.from_table,
            vars: vars_view(self.vars@),
        }
    }
}

/// A word cleaned of its first `;` and its first two `'`.
pub open spec fn clean_word(word: Seq<char>) -> Seq<char> {
    remove_first_n(remove_first_n(word, ';', 1), '\'', 2)
}

/// The keywords that `interpret` acts on; `Other` is any other word.
#[derive(Debug, Clone, Copy, PartialEq, Eq)]
pub enum Keyword {
    LineComment,
    BlockCommentOpen,
    BlockCommentClose,
    Select,
    From,
    Semicolon,
    Go,
    Begin,
    Tran,
    End,
    Commit,
    Declare,
    Equals,
    Where,
    Fetch,
    Other,
}

/// The keyword that an upper-cased word is.
#[verifier::opaque]
pub open spec fn keyword_of(up: Seq<char>) -> Keyword {
    if up == "--"@ {
        Keyword::LineComment
    } else if up == "/*"@ {
        Keyword::BlockCommentOpen
    } else if up == "*/"@ {
        Keyword::BlockCommentClose
    } else if up == "SELECT"@ {
        Keyword::Select
    } else if up == "FROM"@ {
        Keyword::From
    } else if up == ";"@ {
        Keyword::Semicolon
    } else if up == "GO"@ {
        Keyword::Go
    } else if up == "BEGIN"@ {
        Keyword::Begin
    } else if up == "TRAN"@ || up == "TRANSACTION"@ {
        Keyword::Tran
    } else if up == "END"@ {
        Keyword::End
    } else if up == "COMMIT"@ {
        Keyword::Commit
    } else if up == "DECLARE"@ {
        Keyword::Declare
    } else if up == "="@ {
        Keyword::Equals
    } else if up == "WHERE"@ || up == "OR"@ || up == "AND"@ {
        Keyword::Where
    } else if up == "FETCH"@ {
        Keyword::Fetch
    } else {
        Keyword::Other
    }
}

/// Tells which keyword an upper-cased word is.
pub fn classify_keyword(up: &str) -> (k: Keyword)
    ensures
        k == keyword_of(up@),
{
    reveal(keyword_of);
    if str_equals(up, "--") {
        Keyword::LineComment
    } else if str_equals(up, "/*") {
        Keyword::BlockCommentOpen
    } else if str_equals(up, "*/") {
        Keyword::BlockCommentClose
    } else if str_equals(up, "SELECT") {
        Keyword::Select
    } else if str_equals(up, "FROM") {
        Keyword::From
    } else if str_equals(up, ";") {
        Keyword::Semicolon
    } else if str_equals(up, "GO") {
        Keyword::Go
    } else if str_equals(up, "BEGIN") {
        Keyword::Begin
    } else if str_equals(up, "TRAN") || str_equals(up, "TRANSACTION") {
        Keyword::Tran
    } else if str_equals(up, "END") {
        Keyword::End
    } else if str_equals(up, "COMMIT") {
        Keyword::Commit
    } else if str_equals(up, "DECLARE") {
        Keyword::Declare
    } else if str_equals(up, "=") {
        Keyword::Equals
    } else if str_equals(up, "WHERE") || str_equals(up, "OR") || str_equals(up, "AND") {
        Keyword::Where
    } else if str_equals(up, "FETCH") {
        Keyword::Fetch
    } else {
        Keyword::Other
    }
}

/// The variables, the last given a new initial value.
pub open spec fn with_last_initial(
    vars: Seq<VariableModel>,
    value: Seq<char>,
) -> Seq<VariableModel> {
    vars.update(vars.len() - 1, VariableModel { initial_value: value, ..vars.last() })
}

/// The variables, the last given a new type.
pub open spec fn with_last_type(vars: Seq<VariableModel>, value: Seq<char>) -> Seq<VariableModel> {
    vars.update(vars.len() - 1, VariableModel { var_type: value, ..vars.last() })
}

impl StateModel {
    /// The state of a fresh file: every flag down, no variables.
    pub open spec fn initial() -> StateModel {
        StateModel {
            line_comment: false,
            block_comment: false,
            closing_block_comment: false,
            closing_select: false,
            select: false,
            begin: false,
            end: false,
            in_transaction: false,
            declare: false,
            check_datatype: false,
            check_var_initial_value: false,
            where_clause: false,
            where_clause_left_assignment: false,
            where_clause_operand: false,
            where_clause_right_assignment: false,
            commit: false,
            from: false,
            from_table: false,
            vars: Seq::empty(),
        }
    }

    /// A variable is pending a type or an initial value only when one was declared.
    pub open spec fn wf(self) -> bool {
        (self.check_datatype || self.check_var_initial_value) ==> self.vars.len() > 0
    }

    pub open spec fn in_comment(self) -> bool {
        self.line_comment || self.block_comment || self.closing_block_comment
    }

    /// Completes the closings that the previous word announced: a block comment,
    /// a select, a table name.
    pub open spec fn finalized(self) -> StateModel {
        StateModel {
            closing_block_comment: false,
            block_comment: self.block_comment && !self.closing_block_comment,
            closing_select: false,
            select: self.select && !self.closing_select,
            from_table: false,
            ..self
        }
    }

    /// Ends a statement: no declaration or select stays open.
    pub open spec fn statement_closed(self) -> StateModel {
        StateModel {
            declare: false,
            check_datatype: false,
            check_var_initial_value: false,
            select: false,
            ..self
        }
    }

    /// The flags that the raw word sets, before its keyword is looked at: a
    /// leading `--` opens a line comment, a `;` closes the select and any declaration.
    pub open spec fn marked(self, word: Seq<char>) -> StateModel {
        StateModel {
            line_comment: self.line_comment || seq_starts_with(word, "--"@),
            closing_select: self.closing_select || seq_has_char(word, ';'),
            declare: self.declare && !seq_has_char(word, ';'),
            ..self
        }
    }

    /// The variables after a word that is no keyword: it fills in the initial
    /// value and then the type pending for the last variable, and is the name of
    /// a new variable right after `DECLARE`.
    pub open spec fn vars_after_plain_word(self, value: Seq<char>) -> Seq<VariableModel> {
        let with_initial = if self.check_var_initial_value {
            with_last_initial(self.vars, value)
        } else {
            self.vars
        };
        let with_type = if self.check_datatype {
            with_last_type(with_initial, value)
        } else {
            with_initial
        };
        if self.declare {
            with_type.push(
                VariableModel { name: value, var_type: Seq::empty(), initial_value: Seq::empty() },
            )
        } else {
            with_type
        }
    }

    /// What a word that is no keyword does: it fills in a declaration (name, then
    /// type, then initial value), moves one place along `WHERE left operand right`,
    /// and is the table name when it follows `FROM`.
    pub open spec fn plain_word(self, word: Seq<char>) -> StateModel {
        StateModel {
            vars: self.vars_after_plain_word(clean_word(word)),
            check_var_initial_value: self.check_datatype,
            check_datatype: self.declare,
            declare: false,
            where_clause: false,
            where_clause_left_assignment: self.where_clause,
            where_clause_operand: if self.where_clause {
                self.where_clause_operand
            } else {
                self.where_clause_left_assignment
            },
            where_clause_right_assignment: if self.where_clause
                || self.where_clause_left_assignment {
                self.where_clause_right_assignment
            } else {
                self.where_clause_operand
            },
            from: false,
            from_table: self.from,
            ..self
        }
    }

    /// What a word does as the keyword `k`, after the raw word has been marked.
    pub open spec fn keyword_applied(self, word: Seq<char>, k: Keyword) -> StateModel {
        match k {
            Keyword::LineComment => StateModel { line_comment: true, closing_select: true, ..self },
            Keyword::BlockCommentOpen => StateModel { block_comment: true, ..self },
            Keyword::BlockCommentClose => StateModel { closing_block_comment: true, ..self },
            Keyword::Select => StateModel {
                where_clause: false,
                select: self.select || !self.in_comment(),
                ..self
            },
            Keyword::From => StateModel { from: self.from || self.select, ..self },
            Keyword::Semicolon => StateModel {
                where_clause: false,
                closing_select: true,
                vars: if self.check_var_initial_value {
                    with_last_initial(self.vars, Seq::empty())
                } else {
                    self.vars
                },
                check_var_initial_value: false,
                ..self
            },
            Keyword::Go => StateModel {
                where_clause: false,
                closing_select: true,
                ..self
            }.statement_closed(),
            Keyword::Begin => StateModel { begin: true, where_clause: false, ..self },
            Keyword::Tran => StateModel {
                where_clause: false,
                begin: false,
                commit: self.commit && self.begin,
                in_transaction: if self.begin {
                    true
                } else if self.commit {
                    false
                } else {
                    self.in_transaction
                },
                ..self
            },
            Keyword::End => StateModel {
                where_clause: false,
                end: true,
                ..self
            }.statement_closed(),
            Keyword::Commit => StateModel { commit: true, ..self },
            Keyword::Declare => StateModel {
                where_clause: false,
                select: false,
                declare: true,
                ..self
            },
            Keyword::Equals => self,
            Keyword::Where => StateModel { where_clause: true, ..self },
            Keyword::Fetch => StateModel { select: self.select && self.in_comment(), ..self },
            Keyword::Other => self.plain_word(word),
        }
    }

    /// The state after interpreting `word`, whose upper case is `up`.
    pub open spec fn interpreted(self, word: Seq<char>, up: Seq<char>) -> StateModel {
        self.marked(word).keyword_applied(word, keyword_of(up))
    }

    /// Interpreting the word would take the last variable of an empty list.
    pub open spec fn interpret_fails(self, up: Seq<char>) -> bool {
        &&& self.vars.len() == 0
        &&& {
            ||| keyword_of(up) == Keyword::Semicolon && self.check_var_initial_value
            ||| keyword_of(up) == Keyword::Other && (self.check_var_initial_value
                || self.check_datatype)
        }
    }
}

/// The variables of `flags`, moved out and replaced by an empty vector.
fn take_vars(flags: &mut FileState) -> (vars: Vec<Variable>)
    ensures
        vars_view(vars@) == old(flags)@.vars,
        final(flags)@ == (StateModel { vars: Seq::empty(), ..old(flags)@ }),
{
    let mut vars = Vec::new();
    std::mem::swap(&mut vars, &mut flags.vars);
    assert(vars_view(flags.vars@) =~= Seq::<VariableModel>::empty());
    vars
}

/// Gives the last variable a new initial value.
fn set_last_initial_value(vars: &mut Vec<Variable>, value: String)
    requires
        old(vars).len() > 0,
    ensures
        vars_view(final(vars)@) == with_last_initial(vars_view(old(vars)@), value@),
{
    let mut last = vars.pop().unwrap();
    last = Variable {
        variable_name: last.variable_name,
        variable_type: last.variable_type,
        initial_value: value,
    };
    vars.push(last);
    assert(vars_view(vars@) =~= with_last_initial(vars_view(old(vars)@), value@));
}

/// Gives the last variable a new type.
fn set_last_type(vars: &mut Vec<Variable>, value: String)
    requires
        old(vars).len() > 0,
    ensures
        vars_view(final(vars)@) == with_last_type(vars_view(old(vars)@), value@),
{
    let mut last = vars.pop().unwrap();
    last = Variable {
        variable_name: last.variable_name,
        variable_type: value,
        initial_value: last.initial_value,
    };
    vars.push(last);
    assert(vars_view(vars@) =~= with_last_type(vars_view(old(vars)@), value@));
}

impl FileState {
    /// A fresh state: every flag down, no variables.
    pub fn new() -> (s: FileState)
        ensures
            s@ == StateModel::initial(),
            s@.wf(),
    {
        let s = FileState {
            line_comment: false,
            block_comment: false,
            closing_block_comment: false,
            closing_select: false,
            select: false,
            begin: false,
            end: false,
            in_transaction: false,
            declare: false,
            check_datatype: false,
            check_var_initial_value: false,
            where_clause: false,
            where_clause_left_assignment: false,
            where_clause_operand: false,
            where_clause_right_assignment: false,
            commit: false,
            from: false,
            from_table: false,
            vars: Vec::new(),
        };
        assert(vars_view(s.vars@) =~= Seq::<VariableModel>::empty());
        s
    }

    /// Inside a line comment, a block comment, or the word that closes one.
    pub fn in_comment(flags: &FileState) -> (res: bool)
        ensures
            res == flags@.in_comment(),
    {
        flags.line_comment || flags.block_comment || flags.closing_block_comment
    }

    /// Completes the closings that the previous word announced.
    pub fn finalize_closing_flags(flags: &mut FileState)
        ensures
            final(flags)@ == old(flags)@.finalized(),
    {
        let vars = take_vars(flags);
        *flags = FileState {
            closing_block_comment: false,
            block_comment: flags.block_comment && !flags.closing_block_comment,
            closing_select: false,
            select: flags.select && !flags.closing_select,
            from_table: false,
            vars,
            ..*flags
        };
    }

    /// A new line starts: no line comment.
    pub(crate) fn clear_line_comment(flags: &mut FileState)
        ensures
            final(flags)@ == (StateModel { line_comment: false, ..old(flags)@ }),
    {
        let vars = take_vars(flags);
        let f = &*flags;
        *flags = FileState { line_comment: false, vars, ..*f };
    }

    /// Ends the current statement.
    pub fn close_statement_flags(flags: &mut FileState)
        ensures
            final(flags)@ == old(flags)@.statement_closed(),
    {
        let vars = take_vars(flags);
        *flags = FileState {
            declare: false,
            check_datatype: false,
            check_var_initial_value: false,
            select: false,
            vars,
            ..*flags
        };
    }
}

impl Default for FileState {
    fn default() -> (s: FileState)
        ensures
            s@ == StateModel::initial(),
    {
        FileState::new()
    }
}

/// Interpreting a word keeps the state well formed, so it never takes the last
/// variable of an empty list; neither does completing the closings of a word.
pub proof fn lemma_interpret_keeps_wf(s: StateModel, word: Seq<char>, up: Seq<char>)
    requires
        s.wf(),
    ensures
        !s.interpret_fails(up),
        s.interpreted(word, up).wf(),
        s.finalized().wf(),
{
}

/// Completing the closings twice is completing them once.
pub proof fn lemma_finalize_idempotent(s: StateModel)
    ensures
        s.finalized().finalized() == s.finalized(),
        !s.finalized().closing_block_comment,
        !s.finalized().closing_select,
        !s.finalized().from_table,
{
}

/// Closing a statement twice is closing it once.
pub proof fn lemma_close_statement_idempotent(s: StateModel)
    ensures
        s.statement_closed().statement_closed() == s.statement_closed(),
{
}

/// Interpreting a word never loses a declared variable: the variables are kept
/// in order, each keeps its name, only the last may get a type or initial value,
/// and at most one new variable is added at the end.
pub proof fn lemma_interpret_keeps_variables(s: StateModel, word: Seq<char>, up: Seq<char>)
    requires
        s.wf(),
    ensures
        ({
            let t = s.interpreted(word, up);
            &&& s.vars.len() <= t.vars.len() <= s.vars.len() + 1
            &&& forall|i: int| 0 <= i < s.vars.len() ==> #[trigger] t.vars[i].name == s.vars[i].name
            &&& forall|i: int| 0 <= i < s.vars.len() - 1 ==> #[trigger] t.vars[i] == s.vars[i]
        }),
{
}

/// A word and its ASCII upper case carry the same marks: `--` at the start and `;`.
proof fn lemma_ascii_upper_marks(w: Seq<char>)
    ensures
        seq_starts_with(ascii_upper(w), "--"@) == seq_starts_with(w, "--"@),
        seq_has_char(ascii_upper(w), ';') == seq_has_char(w, ';'),
{
    reveal(seq_starts_with);
    reveal(seq_has_char);
    reveal_strlit("--");
    let u = ascii_upper(w);
    assert(forall|i: int| 0 <= i < w.len() ==> (#[trigger] u[i] == '-') == (w[i] == '-'));
    assert(forall|i: int| 0 <= i < w.len() ==> (#[trigger] u[i] == ';') == (w[i] == ';'));
    if w.len() >= 2 {
        assert(u.subrange(0, 2) =~= seq![u[0], u[1]]);
        assert(w.subrange(0, 2) =~= seq![w[0], w[1]]);
        assert("--"@ =~= seq!['-', '-']);
    }
    if u.contains(';') {
        let i = choose|i: int| 0 <= i < u.len() && u[i] == ';';
        assert(w[i] == ';');
    }
    if w.contains(';') {
        let i = choose|i: int| 0 <= i < w.len() && w[i] == ';';
        assert(u[i] == ';');
    }
}

/// The keywords whose words hold no `;` and start with no `--`: all but `;` and `--`.
pub open spec fn is_plain_keyword(k: Keyword) -> bool {
    k != Keyword::Other && k != Keyword::Semicolon && k != Keyword::LineComment
}

/// Upper-case letters, `/`, `*` and `=`: the characters of the plain keywords.
pub open spec fn keyword_chars(u: Seq<char>) -> bool {
    &&& u.len() > 0
    &&& forall|i: int|
        0 <= i < u.len() ==> ('A' <= #[trigger] u[i] <= 'Z' || u[i] == '/' || u[i] == '*' || u[i]
            == '=')
}

proof fn lemma_keyword_chars(u: Seq<char>)
    requires
        keyword_chars(u),
    ensures
        is_ascii_chars(u),
        ascii_upper(u) == u,
        !seq_has_char(u, ';'),
        !seq_starts_with(u, "--"@),
{
    reveal(seq_has_char);
    reveal(seq_starts_with);
    reveal_strlit("--");
    assert(ascii_upper(u) =~= u);
    if u.len() >= 2 {
        assert(u.subrange(0, 2)[0] == u[0]);
        assert(u.subrange(0, 2) != "--"@);
    }
}

/// An upper-cased word that is a plain keyword is ASCII, is its own ASCII upper
/// case, holds no `;` and starts with no `--`.
pub proof fn lemma_plain_keyword_text(u: Seq<char>)
    requires
        is_plain_keyword(keyword_of(u)),
    ensures
        is_ascii_chars(u),
        ascii_upper(u) == u,
        !seq_has_char(u, ';'),
        !seq_starts_with(u, "--"@),
{
    reveal(keyword_of);
    if u == "/*"@ {
        reveal_strlit("/*");
    } else if u == "*/"@ {
        reveal_strlit("*/");
    } else if u == "SELECT"@ {
        reveal_strlit("SELECT");
    } else if u == "FROM"@ {
        reveal_strlit("FROM");
    } else if u == "GO"@ {
        reveal_strlit("GO");
    } else if u == "BEGIN"@ {
        reveal_strlit("BEGIN");
    } else if u == "TRAN"@ {
        reveal_strlit("TRAN");
    } else if u == "TRANSACTION"@ {
        reveal_strlit("TRANSACTION");
    } else if u == "END"@ {
        reveal_strlit("END");
    } else if u == "COMMIT"@ {
        reveal_strlit("COMMIT");
    } else if u == "DECLARE"@ {
        reveal_strlit("DECLARE");
    } else if u == "="@ {
        reveal_strlit("=");
    } else if u == "WHERE"@ {
        reveal_strlit("WHERE");
    } else if u == "OR"@ {
        reveal_strlit("OR");
    } else if u == "AND"@ {
        reveal_strlit("AND");
    } else if u == "FETCH"@ {
        reveal_strlit("FETCH");
    }
    lemma_keyword_chars(u);
}

/// A word whose upper case is a plain keyword acts as that upper case does.
proof fn lemma_plain_keyword_word(s: StateModel, w: Seq<char>, u: Seq<char>)
    requires
        is_plain_keyword(keyword_of(u)),
        seq_has_char(w, ';') ==> seq_has_char(u, ';'),
        seq_starts_with(w, "--"@) ==> seq_starts_with(u, "--"@),
    ensures
        s.interpreted(w, u) == s.interpreted(u, u),
{
    lemma_plain_keyword_text(u);
    assert(!seq_has_char(w, ';'));
    assert(!seq_starts_with(w, "--"@));
    let m = s.marked(w);
    assert(m == s.marked(u));
    let k = keyword_of(u);
    assert(m.keyword_applied(w, k) == m.keyword_applied(u, k)) by {
        match k {
            Keyword::Other => {},
            _ => {},
        }
    }
}

/// Keywords are matched in any case: an ASCII word whose upper case is a keyword
/// acts exactly as its upper case does (`begin` acts as `BEGIN`).
pub proof fn lemma_interpret_case_insensitive(s: StateModel, w: Seq<char>)
    requires
        is_ascii_chars(w),
        keyword_of(ascii_upper(w)) != Keyword::Other,
    ensures
        s.interpreted(w, ascii_upper(w)) == s.interpreted(
            ascii_upper(w),
            ascii_upper(ascii_upper(w)),
        ),
{
    lemma_ascii_upper(w);
    lemma_ascii_upper_marks(w);
    let u = ascii_upper(w);
    assert(ascii_upper(u) == u);
    let m = s.marked(w);
    assert(m == s.marked(u));
    let k = keyword_of(u);
    assert(k != Keyword::Other);
    assert(m.keyword_applied(w, k) == m.keyword_applied(u, k)) by {
        match k {
            Keyword::Other => {},
            _ => {},
        }
    }
}

/// The lengths of the keyword texts, and the first character of each, which
/// tells apart the texts of one length.
pub(crate) proof fn lemma_keyword_texts()
    ensures
        "--"@.len() == 2,
        "--"@[0] == '-',
        "/*"@.len() == 2,
        "/*"@[0] == '/',
        "*/"@.len() == 2,
        "*/"@[0] == '*',
        "SELECT"@.len() == 6,
        "SELECT"@[0] == 'S',
        "FROM"@.len() == 4,
        "FROM"@[0] == 'F',
        ";"@.len() == 1,
        ";"@[0] == ';',
        "GO"@.len() == 2,
        "GO"@[0] == 'G',
        "BEGIN"@.len() == 5,
        "BEGIN"@[0] == 'B',
        "TRAN"@.len() == 4,
        "TRAN"@[0] == 'T',
        "TRANSACTION"@.len() == 11,
        "TRANSACTION"@[0] == 'T',
        "END"@.len() == 3,
        "END"@[0] == 'E',
        "COMMIT"@.len() == 6,
        "COMMIT"@[0] == 'C',
        "DECLARE"@.len() == 7,
        "DECLARE"@[0] == 'D',
        "="@.len() == 1,
        "="@[0] == '=',
        "WHERE"@.len() == 5,
        "WHERE"@[0] == 'W',
        "OR"@.len() == 2,
        "OR"@[0] == 'O',
        "AND"@.len() == 3,
        "AND"@[0] == 'A',
        "FETCH"@.len() == 5,
        "FETCH"@[0] == 'F',
        "*"@.len() == 1,
        "*"@[0] == '*',
        "NOLOCK"@.len() == 6,
        "NOLOCK"@[0] == 'N',
        "(NOLOCK)"@.len() == 8,
        "(NOLOCK)"@[0] == '(',
        "CURSOR"@.len() == 6,
        "CURSOR"@[0] == 'C',
        "COMMIT"@[1] == 'O',
        "CURSOR"@[1] == 'U',
{
    reveal_strlit("--");
    reveal_strlit("/*");
    reveal_strlit("*/");
    reveal_strlit("SELECT");
    reveal_strlit("FROM");
    reveal_strlit(";");
    reveal_strlit("GO");
    reveal_strlit("BEGIN");
    reveal_strlit("TRAN");
    reveal_strlit("TRANSACTION");
    reveal_strlit("END");
    reveal_strlit("COMMIT");
    reveal_strlit("DECLARE");
    reveal_strlit("=");
    reveal_strlit("WHERE");
    reveal_strlit("OR");
    reveal_strlit("AND");
    reveal_strlit("FETCH");
    reveal_strlit("*");
    reveal_strlit("NOLOCK");
    reveal_strlit("(NOLOCK)");
    reveal_strlit("CURSOR");
}

/// The keywords that the interpreter knows, each by its upper-case text.
pub(crate) proof fn lemma_keyword_literals()
    ensures
        keyword_of("--"@) == Keyword::LineComment,
        keyword_of("/*"@) == Keyword::BlockCommentOpen,
        keyword_of("*/"@) == Keyword::BlockCommentClose,
        keyword_of("SELECT"@) == Keyword::Select,
        keyword_of("FROM"@) == Keyword::From,
        keyword_of(";"@) == Keyword::Semicolon,
        keyword_of("GO"@) == Keyword::Go,
        keyword_of("BEGIN"@) == Keyword::Begin,
        keyword_of("TRAN"@) == Keyword::Tran,
        keyword_of("TRANSACTION"@) == Keyword::Tran,
        keyword_of("END"@) == Keyword::End,
        keyword_of("COMMIT"@) == Keyword::Commit,
        keyword_of("DECLARE"@) == Keyword::Declare,
        keyword_of("="@) == Keyword::Equals,
        keyword_of("WHERE"@) == Keyword::Where,
        keyword_of("OR"@) == Keyword::Where,
        keyword_of("AND"@) == Keyword::Where,
        keyword_of("FETCH"@) == Keyword::Fetch,
{
    reveal(keyword_of);
    lemma_keyword_texts();
}

/// The words that the rules look for are no keywords.
pub(crate) proof fn lemma_rule_words_are_plain()
    ensures
        keyword_of("*"@) == Keyword::Other,
        keyword_of("NOLOCK"@) == Keyword::Other,
        keyword_of("(NOLOCK)"@) == Keyword::Other,
        keyword_of("CURSOR"@) == Keyword::Other,
{
    reveal(keyword_of);
    lemma_keyword_texts();
    assert("COMMIT"@ != "CURSOR"@);
}

/// `WHERE`, `OR` and `AND` each open a condition, and act alike: after any of
/// them the state is the marked state with `where_clause` raised, nothing else
/// changed.
pub proof fn lemma_condition_words(s: StateModel, w: Seq<char>)
    ensures
        s.interpreted(w, "WHERE"@) == (StateModel { where_clause: true, ..s.marked(w) }),
        s.interpreted(w, "OR"@) == s.interpreted(w, "WHERE"@),
        s.interpreted(w, "AND"@) == s.interpreted(w, "WHERE"@),
{
    lemma_keyword_literals();
}

/// A block comment ends at `*/`: outside a line comment, once the closing is
/// completed no comment is open, and a `SELECT` that follows opens a select.
pub proof fn lemma_block_comment_ends(s: StateModel, w: Seq<char>, next: Seq<char>)
    requires
        !s.line_comment,
        !seq_starts_with(w, "--"@),
        !seq_starts_with(next, "--"@),
    ensures
        !s.interpreted(w, "*/"@).finalized().in_comment(),
        s.interpreted(w, "*/"@).finalized().interpreted(next, "SELECT"@).select,
{
    lemma_keyword_literals();
}

/// A block comment starts at `/*`: unless a closing is still pending, it stays
/// open after the closings are completed, and a `SELECT` inside it leaves the select flag as it was.
pub proof fn lemma_block_comment_starts(s: StateModel, w: Seq<char>, next: Seq<char>)
    requires
        !s.closing_block_comment,
    ensures
        s.interpreted(w, "/*"@).finalized().in_comment(),
        s.interpreted(w, "/*"@).finalized().interpreted(next, "SELECT"@).select == s.interpreted(
            w,
            "/*"@,
        ).finalized().select,
{
    lemma_keyword_literals();
}

/// `BEGIN TRAN` (or `BEGIN TRANSACTION`) opens a transaction from any state, and
/// `COMMIT TRAN` ends one unless a `BEGIN` is still waiting for its `TRAN`.
pub proof fn lemma_transaction_words(
    s: StateModel,
    w1: Seq<char>,
    w2: Seq<char>,
    t: Seq<char>,
)
    requires
        t == "TRAN"@ || t == "TRANSACTION"@,
    ensures
        s.interpreted(w1, "BEGIN"@).finalized().interpreted(w2, t).in_transaction,
        !s.begin ==> !s.interpreted(w1, "COMMIT"@).finalized().interpreted(w2, t).in_transaction,
{
    lemma_keyword_literals();
}

/// A word holding `;` ends the select: once its closings are completed no
/// select is open, whatever the word is and whatever the state before it.
pub proof fn lemma_semicolon_ends_select(s: StateModel, w: Seq<char>, up: Seq<char>)
    requires
        seq_has_char(w, ';'),
    ensures
        !s.interpreted(w, up).finalized().select,
{
}

/// `GO` and `END` end the statement: after either no select, declaration or
/// condition is open and no variable waits for a type or an initial value;
/// the variables and the transaction are kept.
pub proof fn lemma_statement_end_words(s: StateModel, w: Seq<char>, up: Seq<char>)
    requires
        up == "GO"@ || up == "END"@,
    ensures
        !s.interpreted(w, up).select,
        !s.interpreted(w, up).declare,
        !s.interpreted(w, up).check_datatype,
        !s.interpreted(w, up).check_var_initial_value,
        !s.interpreted(w, up).where_clause,
        s.interpreted(w, up).vars == s.vars,
        s.interpreted(w, up).in_transaction == s.in_transaction,
{
    lemma_keyword_literals();
}

/// `DECLARE name type = value`, words without `;` and outside a pending
/// declaration, adds one variable at the end of the list with that name, type
/// and initial value, each cleaned of `;` and quotes.
pub proof fn lemma_full_declaration(
    s: StateModel,
    w0: Seq<char>,
    name: Seq<char>,
    un: Seq<char>,
    ty: Seq<char>,
    ut: Seq<char>,
    eq: Seq<char>,
    value: Seq<char>,
    uv: Seq<char>,
)
    requires
        !s.check_datatype,
        !s.check_var_initial_value,
        !seq_has_char(w0, ';'),
        !seq_has_char(name, ';'),
        !seq_has_char(ty, ';'),
        !seq_has_char(eq, ';'),
        keyword_of(un) == Keyword::Other,
        keyword_of(ut) == Keyword::Other,
        keyword_of(uv) == Keyword::Other,
    ensures
        ({
            let s0 = s.interpreted(w0, "DECLARE"@);
            let s1 = s0.finalized().interpreted(name, un);
            let s2 = s1.finalized().interpreted(ty, ut);
            let s3 = s2.finalized().interpreted(eq, "="@);
            let s4 = s3.finalized().interpreted(value, uv);
            &&& s4.vars == s.vars.push(
                VariableModel {
                    name: clean_word(name),
                    var_type: clean_word(ty),
                    initial_value: clean_word(value),
                },
            )
            &&& !s4.declare && !s4.check_datatype && !s4.check_var_initial_value
        }),
{
    lemma_keyword_literals();
    let s0 = s.interpreted(w0, "DECLARE"@);
    let s1 = s0.finalized().interpreted(name, un);
    let s2 = s1.finalized().interpreted(ty, ut);
    let s3 = s2.finalized().interpreted(eq, "="@);
    let s4 = s3.finalized().interpreted(value, uv);
    assert(s4.vars =~= s.vars.push(
        VariableModel {
            name: clean_word(name),
            var_type: clean_word(ty),
            initial_value: clean_word(value),
        },
    ));
}

/// `DECLARE name type` ended by a lone `;` adds one variable with that name and
/// type and an empty initial value, and leaves nothing pending.
pub proof fn lemma_declaration_without_value(
    s: StateModel,
    w0: Seq<char>,
    name: Seq<char>,
    un: Seq<char>,
    ty: Seq<char>,
    ut: Seq<char>,
)
    requires
        !s.check_datatype,
        !s.check_var_initial_value,
        !seq_has_char(w0, ';'),
        !seq_has_char(name, ';'),
        keyword_of(un) == Keyword::Other,
        keyword_of(ut) == Keyword::Other,
    ensures
        ({
            let s0 = s.interpreted(w0, "DECLARE"@);
            let s1 = s0.finalized().interpreted(name, un);
            let s2 = s1.finalized().interpreted(ty, ut);
            let s3 = s2.finalized().interpreted(";"@, ";"@);
            &&& s3.vars == s.vars.push(
                VariableModel {
                    name: clean_word(name),
                    var_type: clean_word(ty),
                    initial_value: Seq::empty(),
                },
            )
            &&& !s3.declare && !s3.check_datatype && !s3.check_var_initial_value
        }),
{
    lemma_keyword_literals();
    let s0 = s.interpreted(w0, "DECLARE"@);
    let s1 = s0.finalized().interpreted(name, un);
    let s2 = s1.finalized().interpreted(ty, ut);
    let s3 = s2.finalized().interpreted(";"@, ";"@);
    assert(s3.vars =~= s.vars.push(
        VariableModel {
            name: clean_word(name),
            var_type: clean_word(ty),
            initial_value: Seq::empty(),
        },
    ));
}

/// Only the word right after `FROM` is a table name: once the previous word's
/// closings are completed, a word is a table name exactly when it is no keyword
/// and a `FROM` in a select came just before it.
pub proof fn lemma_table_name_place(s: StateModel, w: Seq<char>, up: Seq<char>)
    ensures
        s.finalized().interpreted(w, up).from_table == (keyword_of(up) == Keyword::Other && s.from),
{
}

/// A word that starts with `--` opens a line comment, whatever it is.
pub proof fn lemma_dashes_open_line_comment(s: StateModel, w: Seq<char>, up: Seq<char>)
    requires
        seq_starts_with(w, "--"@),
    ensures
        s.interpreted(w, up).line_comment,
        s.interpreted(w, up).in_comment(),
{
}

/// `SELECT`, `;`, `GO`, `BEGIN`, `TRAN`, `END` and `DECLARE` each end a condition.
pub proof fn lemma_condition_enders(s: StateModel, w: Seq<char>, up: Seq<char>)
    requires
        up == "SELECT"@ || up == ";"@ || up == "GO"@ || up == "BEGIN"@ || up == "TRAN"@ || up
            == "TRANSACTION"@ || up == "END"@ || up == "DECLARE"@,
    ensures
        !s.interpreted(w, up).where_clause,
{
    lemma_keyword_literals();
}

/// `FETCH` ends a select outside comments, and inside one leaves it as it was.
pub proof fn lemma_fetch_ends_select(s: StateModel, w: Seq<char>)
    ensures
        !s.marked(w).in_comment() ==> !s.interpreted(w, "FETCH"@).select,
        s.marked(w).in_comment() ==> s.interpreted(w, "FETCH"@).select == s.select,
{
    lemma_keyword_literals();
}

/// `DECLARE` followed by a word that is no keyword declares a variable of that
/// name (cleaned of `;` and quotes), with no type and no initial value yet, at
/// the end of the list; every variable declared before is kept.
pub proof fn lemma_declare_records_variable(
    s: StateModel,
    w1: Seq<char>,
    w2: Seq<char>,
    u2: Seq<char>,
)
    requires
        !seq_has_char(w1, ';'),
        !seq_has_char(w2, ';'),
        !s.check_datatype,
        !s.check_var_initial_value,
        keyword_of(u2) == Keyword::Other,
    ensures
        s.interpreted(w1, "DECLARE"@).finalized().interpreted(w2, u2).vars == s.vars.push(
            VariableModel {
                name: clean_word(w2),
                var_type: Seq::empty(),
                initial_value: Seq::empty(),
            },
        ),
{
    lemma_keyword_literals();
}

impl QueruParser {
    /// The word without its first `;` and its first two `'`.
    pub fn clean_str(string_to_clean: &str) -> (res: String)
        ensures
            res@ == clean_word(string_to_clean@),
    {
        let once = remove_first_occurrences(string_to_clean, ';', 1);
        remove_first_occurrences(once.as_str(), '\'', 2)
    }

    /// The flags that the raw word sets.
    fn mark_word(current_flags: &mut FileState, word: &str)
        ensures
            final(current_flags)@ == old(current_flags)@.marked(word@),
    {
        let dashes = str_starts_with(word, "--");
        let semicolon = str_contains_char(word, ';');
        QueruParser::set_marks(current_flags, dashes, semicolon);
    }

    /// Raises the line comment after `--`; closes the select and any declaration after `;`.
    fn set_marks(current_flags: &mut FileState, dashes: bool, semicolon: bool)
        ensures
            final(current_flags)@ == (StateModel {
                line_comment: old(current_flags)@.line_comment || dashes,
                closing_select: old(current_flags)@.closing_select || semicolon,
                declare: old(current_flags)@.declare && !semicolon,
                ..old(current_flags)@
            }),
    {
        let vars = take_vars(current_flags);
        let f = &*current_flags;
        *current_flags = FileState {
            line_comment: f.line_comment || dashes,
            closing_select: f.closing_select || semicolon,
            declare: f.declare && !semicolon,
            vars,
            ..*f
        };
    }

    /// A word that is no keyword: it fills in a declaration, and moves along a
    /// `WHERE` or `FROM` clause.
    fn apply_plain_word(current_flags: &mut FileState, word: &str)
        requires
            old(current_flags)@.wf(),
        ensures
            final(current_flags)@ == old(current_flags)@.plain_word(word@),
    {
        let value = QueruParser::clean_str(word);
        let ghost v = value@;
        let ghost s0 = current_flags@;
        let mut vars = take_vars(current_flags);
        let civ = current_flags.check_var_initial_value;
        let cd = current_flags.check_datatype;
        let declare = current_flags.declare;
        if civ {
            set_last_initial_value(&mut vars, value.clone());
        }
        if cd {
            set_last_type(&mut vars, value.clone());
        }
        if declare {
            let ghost before = vars@;
            vars.push(Variable::new(value));
            assert(vars_view(vars@) =~= vars_view(before).push(
                VariableModel { name: v, var_type: Seq::empty(), initial_value: Seq::empty() },
            ));
        }
        assert(vars_view(vars@) == s0.vars_after_plain_word(v));
        let wc = current_flags.where_clause;
        let left = current_flags.where_clause_left_assignment;
        let op = current_flags.where_clause_operand;
        let right = current_flags.where_clause_right_assignment;
        *current_flags = FileState {
            check_var_initial_value: cd,
            check_datatype: declare,
            declare: false,
            where_clause: false,
            where_clause_left_assignment: wc,
            where_clause_operand: if wc { op } else { left },
            where_clause_right_assignment: if wc || left { right } else { op },
            from: false,
            from_table: current_flags.from,
            vars,
            ..*current_flags
        };
    }

    /// The keyword `--`: opens a line comment and closes the select.
    fn apply_line_comment(current_flags: &mut FileState, word: &str)
        ensures
            final(current_flags)@ == old(current_flags)@.keyword_applied(word@, Keyword::LineComment),
    {
        let vars = take_vars(current_flags);
        let f = &*current_flags;
        *current_flags = FileState {
            line_comment: true,
            closing_select: true,
            vars,
            ..*f
        };
    }

    /// The keyword `/*`: opens a block comment.
    fn apply_block_comment_open(current_flags: &mut FileState, word: &str)
        ensures
            final(current_flags)@ == old(current_flags)@.keyword_applied(word@, Keyword::BlockCommentOpen),
    {
        let vars = take_vars(current_flags);
        let f = &*current_flags;
        *current_flags = FileState {
            block_comment: true,
            vars,
            ..*f
        };
    }

    /// The keyword `*/`: the block comment closes after this word.
    fn apply_block_comment_close(current_flags: &mut FileState, word: &str)
        ensures
            final(current_flags)@ == old(current_flags)@.keyword_applied(word@, Keyword::BlockCommentClose),
    {
        let vars = take_vars(current_flags);
        let f = &*current_flags;
        *current_flags = FileState {
            closing_block_comment: true,
            vars,
            ..*f
        };
    }

    /// The keyword `SELECT`: ends a `WHERE` clause and, outside comments, opens a select.
    fn apply_select(current_flags: &mut FileState, word: &str)
        ensures
            final(current_flags)@ == old(current_flags)@.keyword_applied(word@, Keyword::Select),
    {
        let in_comment = FileState::in_comment(current_flags);
        let vars = take_vars(current_flags);
        let f = &*current_flags;
        *current_flags = FileState {
            where_clause: false,
            select: f.select || !in_comment,
            vars,
            ..*f
        };
    }

    /// The keyword `FROM`: inside a select, the next word is a table name.
    #[verifier::rlimit(30)]
    fn apply_from(current_flags: &mut FileState, word: &str)
        ensures
            final(current_flags)@ == old(current_flags)@.keyword_applied(word@, Keyword::From),
    {
        let vars = take_vars(current_flags);
        let f = &*current_flags;
        *current_flags = FileState {
            from: f.from || f.select,
            vars,
            ..*f
        };
    }

    /// The keyword `GO`: ends the statement and closes the select.
    fn apply_go(current_flags: &mut FileState, word: &str)
        ensures
            final(current_flags)@ == old(current_flags)@.keyword_applied(word@, Keyword::Go),
    {
        let vars = take_vars(current_flags);
        let f = &*current_flags;
        *current_flags = FileState {
            where_clause: false,
            closing_select: true,
            declare: false,
            check_datatype: false,
            check_var_initial_value: false,
            select: false,
            vars,
            ..*f
        };
    }

    /// The keyword `BEGIN`: a transaction may follow.
    fn apply_begin(current_flags: &mut FileState, word: &str)
        ensures
            final(current_flags)@ == old(current_flags)@.keyword_applied(word@, Keyword::Begin),
    {
        let vars = take_vars(current_flags);
        let f = &*current_flags;
        *current_flags = FileState {
            begin: true,
            where_clause: false,
            vars,
            ..*f
        };
    }

    /// The keywords `TRAN` and `TRANSACTION`: open a transaction after `BEGIN`,
    /// close it after `COMMIT`.
    fn apply_tran(current_flags: &mut FileState, word: &str)
        ensures
            final(current_flags)@ == old(current_flags)@.keyword_applied(word@, Keyword::Tran),
    {
        let vars = take_vars(current_flags);
        let f = &*current_flags;
        *current_flags = FileState {
            where_clause: false,
            begin: false,
            commit: f.commit && f.begin,
            in_transaction: if f.begin {
                true
            } else if f.commit {
                false
            } else {
                f.in_transaction
            },
            vars,
            ..*f
        };
    }

    /// The keyword `END`: ends the statement.
    fn apply_end(current_flags: &mut FileState, word: &str)
        ensures
            final(current_flags)@ == old(current_flags)@.keyword_applied(word@, Keyword::End),
    {
        let vars = take_vars(current_flags);
        let f = &*current_flags;
        *current_flags = FileState {
            where_clause: false,
            end: true,
            declare: false,
            check_datatype: false,
            check_var_initial_value: false,
            select: false,
            vars,
            ..*f
        };
    }

    /// The keyword `COMMIT`: a transaction may close.
    fn apply_commit(current_flags: &mut FileState, word: &str)
        ensures
            final(current_flags)@ == old(current_flags)@.keyword_applied(word@, Keyword::Commit),
    {
        let vars = take_vars(current_flags);
        let f = &*current_flags;
        *current_flags = FileState {
            commit: true,
            vars,
            ..*f
        };
    }

    /// The keyword `DECLARE`: the next word names a variable.
    fn apply_declare(current_flags: &mut FileState, word: &str)
        ensures
            final(current_flags)@ == old(current_flags)@.keyword_applied(word@, Keyword::Declare),
    {
        let vars = take_vars(current_flags);
        let f = &*current_flags;
        *current_flags = FileState {
            where_clause: false,
            select: false,
            declare: true,
            vars,
            ..*f
        };
    }

    /// The keywords `WHERE`, `OR` and `AND`: open a condition.
    fn apply_where(current_flags: &mut FileState, word: &str)
        ensures
            final(current_flags)@ == old(current_flags)@.keyword_applied(word@, Keyword::Where),
    {
        let vars = take_vars(current_flags);
        let f = &*current_flags;
        *current_flags = FileState {
            where_clause: true,
            vars,
            ..*f
        };
    }

    /// The keyword `FETCH`: outside comments, closes the select.
    fn apply_fetch(current_flags: &mut FileState, word: &str)
        ensures
            final(current_flags)@ == old(current_flags)@.keyword_applied(word@, Keyword::Fetch),
    {
        let in_comment = FileState::in_comment(current_flags);
        let vars = take_vars(current_flags);
        let f = &*current_flags;
        *current_flags = FileState {
            select: f.select && in_comment,
            vars,
            ..*f
        };
    }

    /// The keyword `=` changes nothing.
    fn apply_equals(current_flags: &mut FileState, word: &str)
        ensures
            final(current_flags)@ == old(current_flags)@.keyword_applied(word@, Keyword::Equals),
    {
    }

    /// The keyword `;`: closes the statement, and leaves a pending initial value empty.
    fn apply_semicolon(current_flags: &mut FileState, word: &str)
        requires
            old(current_flags)@.check_var_initial_value ==> old(current_flags)@.vars.len() > 0,
        ensures
            final(current_flags)@ == old(current_flags)@.keyword_applied(word@, Keyword::Semicolon),
    {
        let mut vars = take_vars(current_flags);
        if current_flags.check_var_initial_value {
            set_last_initial_value(&mut vars, String::new());
        }
        let f = &*current_flags;
        *current_flags = FileState {
            where_clause: false,
            closing_select: true,
            check_var_initial_value: false,
            vars,
            ..*f
        };
    }

    /// Interprets `word`, given `upper_word`, its upper case: the keyword that it
    /// is, or else the part of a declaration, `WHERE` clause or `FROM` clause it fills.
    pub fn interpret_keyword(current_flags: &mut FileState, word: &str, upper_word: &str)
        requires
            !old(current_flags)@.interpret_fails(upper_word@),
        ensures
            final(current_flags)@ == old(current_flags)@.interpreted(word@, upper_word@),
    {
        QueruParser::mark_word(current_flags, word);
        match classify_keyword(upper_word) {
            Keyword::LineComment => QueruParser::apply_line_comment(current_flags, word),
            Keyword::BlockCommentOpen => QueruParser::apply_block_comment_open(current_flags, word),
            Keyword::BlockCommentClose => {
                QueruParser::apply_block_comment_close(current_flags, word)
            },
            Keyword::Select => QueruParser::apply_select(current_flags, word),
            Keyword::From => QueruParser::apply_from(current_flags, word),
            Keyword::Go => QueruParser::apply_go(current_flags, word),
            Keyword::Begin => QueruParser::apply_begin(current_flags, word),
            Keyword::Tran => QueruParser::apply_tran(current_flags, word),
            Keyword::End => QueruParser::apply_end(current_flags, word),
            Keyword::Commit => QueruParser::apply_commit(current_flags, word),
            Keyword::Declare => QueruParser::apply_declare(current_flags, word),
            Keyword::Where => QueruParser::apply_where(current_flags, word),
            Keyword::Fetch => QueruParser::apply_fetch(current_flags, word),
            Keyword::Equals => QueruParser::apply_equals(current_flags, word),
            Keyword::Semicolon => QueruParser::apply_semicolon(current_flags, word),
            Keyword::Other => QueruParser::apply_plain_word(current_flags, word),
        }
    }

    /// Interprets one word of a file: changes the state as the word's keyword,
    /// or its place in a declaration, `WHERE` or `FROM` clause, says.
    pub fn interpret(current_flags: &mut FileState, word: &str)
        requires
            !old(current_flags)@.interpret_fails(unicode_uppercase(word@)),
        ensures
            final(current_flags)@ == old(current_flags)@.interpreted(word@, unicode_uppercase(word@)),
            is_ascii_chars(word@) ==> final(current_flags)@ == old(current_flags)@.interpreted(
                word@,
                ascii_upper(word@),
            ),
            is_plain_keyword(keyword_of(unicode_uppercase(word@))) ==> final(current_flags)@
                == old(current_flags)@.interpreted(
                unicode_uppercase(word@),
                unicode_uppercase(word@),
            ),
    {
        let upper = to_uppercase(word);
        proof {
            if is_plain_keyword(keyword_of(upper@)) {
                lemma_plain_keyword_word(old(current_flags)@, word@, upper@);
            }
        }
        QueruParser::interpret_keyword(current_flags, word, upper.as_str());
    }

    /// Interprets `word` when that can be done: not when it would fill in the
    /// type or initial value of a variable while none has been declared. Then
    /// `false`, and the state is left as it was.
    pub fn try_interpret(current_flags: &mut FileState, word: &str) -> (done: bool)
        ensures
            done == !old(current_flags)@.interpret_fails(unicode_uppercase(word@)),
            done ==> final(current_flags)@ == old(current_flags)@.interpreted(
                word@,
                unicode_uppercase(word@),
            ),
            !done ==> final(current_flags)@ == old(current_flags)@,
    {
        let upper = to_uppercase(word);
        let pending = match classify_keyword(upper.as_str()) {
            Keyword::Semicolon => current_flags.check_var_initial_value,
            Keyword::Other => current_flags.check_var_initial_value
                || current_flags.check_datatype,
            _ => false,
        };
        if pending && current_flags.vars.len() == 0 {
            return false;
        }
        QueruParser::interpret_keyword(current_flags, word, upper.as_str());
        true
    }
}

/// `'1'` for a raised flag, `'0'` for a lowered one.
pub open spec fn bit_char(b: bool) -> char {
    if b {
        '1'
    } else {
        '0'
    }
}

/// `'1'` for a raised flag, `'0'` for a lowered one.
fn flag_char(b: bool) -> (c: char)
    ensures
        c == bit_char(b),
{
    if b {
        '1'
    } else {
        '0'
    }
}

/// The flags of a state shown as a row of bits in brackets, from `line_comment`
/// to `commit`.
pub open spec fn flags_text(s: &FileState) -> Seq<char> {
    seq!['['] + seq![
        bit_char(s.line_comment),
        bit_char(s.block_comment),
        bit_char(s.closing_block_comment),
        bit_char(s.closing_select)
    ] + seq![
        bit_char(s.select),
        bit_char(s.begin),
        bit_char(s.end),
        bit_char(s.in_transaction)
    ] + seq![
        bit_char(s.declare),
        bit_char(s.check_datatype),
        bit_char(s.check_var_initial_value),
        bit_char(s.where_clause)
    ] + seq![
        bit_char(s.where_clause_left_assignment),
        bit_char(s.where_clause_operand),
        bit_char(s.where_clause_right_assignment),
        bit_char(s.commit)
    ] + seq![']']
}

/// Appends four flags as bits.
fn push_bits(res: &mut String, a: bool, b: bool, c: bool, d: bool)
    ensures
        final(res)@ == old(res)@ + seq![bit_char(a), bit_char(b), bit_char(c), bit_char(d)],
{
    push_char(res, flag_char(a));
    push_char(res, flag_char(b));
    push_char(res, flag_char(c));
    push_char(res, flag_char(d));
    assert(res@ =~= old(res)@ + seq![bit_char(a), bit_char(b), bit_char(c), bit_char(d)]);
}

impl FileState {
    /// The flags shown as a row of bits in brackets, from `line_comment` to `commit`.
    pub fn to_string(&self) -> (res: String)
        ensures
            res@ == flags_text(self),
    {
        let mut res = String::new();
        push_char(&mut res, '[');
        push_bits(
            &mut res,
            self.line_comment,
            self.block_comment,
            self.closing_block_comment,
            self.closing_select,
        );
        push_bits(
            &mut res,
            self.select,
            self.begin,
            self.end,
            self.in_transaction,
        );
        push_bits(
            &mut res,
            self.declare,
            self.check_datatype,
            self.check_var_initial_value,
            self.where_clause,
        );
        push_bits(
            &mut res,
            self.where_clause_left_assignment,
            self.where_clause_operand,
            self.where_clause_right_assignment,
            self.commit,
        );
        push_char(&mut res, ']');
        assert(res@ =~= seq!['['] + seq![
            bit_char(self.line_comment),
            bit_char(self.block_comment),
            bit_char(self.closing_block_comment),
            bit_char(self.closing_select)
        ] + seq![
            bit_char(self.select),
            bit_char(self.begin),
            bit_char(self.end),
            bit_char(self.in_transaction)
        ] + seq![
            bit_char(self.declare),
            bit_char(self.check_datatype),
            bit_char(self.check_var_initial_value),
            bit_char(self.where_clause)
        ] + seq![
            bit_char(self.where_clause_left_assignment),
            bit_char(self.where_clause_operand),
            bit_char(self.where_clause_right_assignment),
            bit_char(self.commit)
        ] + seq![']']);
        res
    }
}

} // verus!
