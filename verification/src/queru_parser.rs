//! The parser that carries its flags and its variables together.
use vstd::prelude::*;
use vstd::string::StringExecFns;
use vstd::utf8::is_ascii_chars;

use crate::parsing::{
    classify_keyword, clean_word, keyword_of, lemma_keyword_literals, with_last_initial, with_last_type, Keyword,
    QueruParser as WordInterpreter, VariableModel,
};
use crate::text::{
    ascii_upper,
    seq_has_char, seq_starts_with, str_contains_char, str_starts_with, to_uppercase,
    unicode_uppercase,
};

verus! {

/// The parser: its flags and the variables it has seen declared.
#[derive(Debug, Default)]
pub struct QueruParser {
    pub flags: FileStateflags,
    pub vars: Vec<Variable>,
}

/// A variable seen in a `DECLARE` statement.
#[derive(Debug, Default)]
pub struct Variable {
    pub variable_name: String,
    pub variable_type: String,
    pub initial_value: String,
}

impl View for Variable {
    type V = VariableModel;

    open spec fn view(&self) -> VariableModel {
        VariableModel {
            name: self.variable_name@,
            var_type: self.variable_type@,
            initial_value: self.initial_value@,
        }
    }
}

impl Variable {
    /// A variable with the given name and empty type and initial value.
    pub fn new(name: String) -> (v: Variable)
        ensures
            v@ == (VariableModel {
                name: name@,
                var_type: Seq::<char>::empty(),
                initial_value: Seq::<char>::empty(),
            }),
    {
        Variable { variable_name: name, variable_type: String::new(), initial_value: String::new() }
    }
}

/// The flags of the parser.
#[derive(Debug, Default)]
pub struct FileStateflags {
    pub line_comment: bool,
    pub block_comment: bool,
    pub closing_block_comment: bool,
    pub closing_select: bool,
    pub select: bool,
    pub begin: bool,
    pub end: bool,
    pub in_transaction: bool,
    pub declare: bool,
    pub check_datatype: bool,
    pub check_var_initial_value: bool,
    pub where_clause: bool,
    pub where_clause_left_assignment: bool,
    pub where_clause_operand: bool,
    pub where_clause_right_assignment: bool,
}

/// The mathematical value of a parser: its flags and its variables.
pub struct ParserModel {
    pub flags: FileStateflags,
    pub vars: Seq<VariableModel>,
}

/// The views of a vector of variables.
pub open spec fn parser_vars_view(vars: Seq<Variable>) -> Seq<VariableModel> {
    vars.map_values(|v: Variable| v@)
}

impl View for QueruParser {
    type V = ParserModel;

    open spec fn view(&self) -> ParserModel {
        ParserModel { flags: self.flags, vars: parser_vars_view(self.vars@) }
    }
}

/// The keyword that an upper-cased word is to this parser, which knows no `FROM`,
/// `COMMIT` or `FETCH`.
pub open spec fn parser_keyword_of(up: Seq<char>) -> Keyword {
    match keyword_of(up) {
        Keyword::From | Keyword::Commit | Keyword::Fetch => Keyword::Other,
        k => k,
    }
}

impl FileStateflags {
    pub open spec fn in_comment_spec(self) -> bool {
        self.line_comment || self.block_comment || self.closing_block_comment
    }

    /// Completes the closings that the previous word announced.
    pub open spec fn finalized(self) -> FileStateflags {
        FileStateflags {
            closing_block_comment: false,
            block_comment: self.block_comment && !self.closing_block_comment,
            closing_select: false,
            select: self.select && !self.closing_select,
            ..self
        }
    }

    /// Ends a statement: no declaration or select stays open.
    pub open spec fn statement_closed(self) -> FileStateflags {
        FileStateflags {
            declare: false,
            check_datatype: false,
            check_var_initial_value: false,
            select: false,
            ..self
        }
    }

    /// The flags that the raw word sets.
    pub open spec fn marked(self, word: Seq<char>) -> FileStateflags {
        FileStateflags {
            line_comment: self.line_comment || seq_starts_with(word, "--"@),
            closing_select: self.closing_select || seq_has_char(word, ';'),
            declare: self.declare && !seq_has_char(word, ';'),
            ..self
        }
    }

    /// The flags after a word that is no keyword.
    pub open spec fn after_plain_word(self) -> FileStateflags {
        FileStateflags {
            check_var_initial_value: self.check_datatype,
            check_datatype: self.declare,
            declare: false,
            where_clause: false,
            where_clause_left_assignment: self.where_clause,
            where_clause_operand: if self.where_clause {
                self.where_clause_operand
            } else {
                self.where_clause_left_assignment
            },
            where_clause_right_assignment: if self.where_clause
                || self.where_clause_left_assignment {
                self.where_clause_right_assignment
            } else {
                self.where_clause_operand
            },
            ..self
        }
    }
}

impl ParserModel {
    /// A variable is pending a type or an initial value only when one was declared.
    pub open spec fn wf(self) -> bool {
        (self.flags.check_datatype || self.flags.check_var_initial_value) ==> self.vars.len() > 0
    }

    /// The variables after a word that is no keyword.
    pub open spec fn vars_after_plain_word(self, value: Seq<char>) -> Seq<VariableModel> {
        let with_initial = if self.flags.check_var_initial_value {
            with_last_initial(self.vars, value)
        } else {
            self.vars
        };
        let with_type = if self.flags.check_datatype {
            with_last_type(with_initial, value)
        } else {
            with_initial
        };
        if self.flags.declare {
            with_type.push(
                VariableModel { name: value, var_type: Seq::empty(), initial_value: Seq::empty() },
            )
        } else {
            with_type
        }
    }

    /// What a word does as the keyword `k`, after the raw word has been marked.
    pub open spec fn keyword_applied(self, word: Seq<char>, k: Keyword) -> ParserModel {
        let f = self.flags;
        match k {
            Keyword::LineComment => ParserModel {
                flags: FileStateflags { line_comment: true, closing_select: true, ..f },
                ..self
            },
            Keyword::BlockCommentOpen => ParserModel {
                flags: FileStateflags { block_comment: true, ..f },
                ..self
            },
            Keyword::BlockCommentClose => ParserModel {
                flags: FileStateflags { closing_block_comment: true, ..f },
                ..self
            },
            Keyword::Select => ParserModel {
                flags: FileStateflags {
                    where_clause: false,
                    select: f.select || !f.in_comment_spec(),
                    ..f
                },
                ..self
            },
            Keyword::Semicolon => ParserModel {
                flags: FileStateflags {
                    where_clause: false,
                    closing_select: true,
                    check_var_initial_value: false,
                    ..f
                },
                vars: if f.check_var_initial_value {
                    with_last_initial(self.vars, Seq::empty())
                } else {
                    self.vars
                },
            },
            Keyword::Go => ParserModel {
                flags: FileStateflags {
                    where_clause: false,
                    closing_select: true,
                    ..f
                }.statement_closed(),
                ..self
            },
            Keyword::Begin => ParserModel {
                flags: FileStateflags { begin: true, where_clause: false, ..f },
                ..self
            },
            Keyword::Tran => ParserModel {
                flags: FileStateflags {
                    where_clause: false,
                    begin: false,
                    end: f.end && f.begin,
                    in_transaction: if f.begin {
                        true
                    } else if f.end {
                        false
                    } else {
                        f.in_transaction
                    },
                    ..f
                },
                ..self
            },
            Keyword::End => ParserModel {
                flags: FileStateflags { where_clause: false, end: true, ..f }.statement_closed(),
                ..self
            },
            Keyword::Declare => ParserModel {
                flags: FileStateflags { where_clause: false, select: false, declare: true, ..f },
                ..self
            },
            Keyword::Where => ParserModel {
                flags: FileStateflags { where_clause: true, ..f },
                ..self
            },
            Keyword::Other => ParserModel {
                flags: f.after_plain_word(),
                vars: self.vars_after_plain_word(clean_word(word)),
            },
            _ => self,
        }
    }

    /// The parser after it has read `word`, whose upper case is `up`.
    pub open spec fn flags_set(self, word: Seq<char>, up: Seq<char>) -> ParserModel {
        ParserModel { flags: self.flags.marked(word), ..self }.keyword_applied(
            word,
            parser_keyword_of(up),
        )
    }

    /// Reading the word would take the last variable of an empty list.
    pub open spec fn set_flags_fails(self, up: Seq<char>) -> bool {
        &&& self.vars.len() == 0
        &&& {
            ||| parser_keyword_of(up) == Keyword::Semicolon && self.flags.check_var_initial_value
            ||| parser_keyword_of(up) == Keyword::Other && (self.flags.check_var_initial_value
                || self.flags.check_datatype)
        }
    }
}

/// The trace line that reading a word gives, from the flags before it and its
/// upper case `up`: a word that is no keyword, inside a `WHERE` condition, is
/// named with the place it takes there.
pub open spec fn where_trace(f: FileStateflags, word: Seq<char>, up: Seq<char>) -> Option<
    Seq<char>,
> {
    if parser_keyword_of(up) != Keyword::Other {
        None
    } else {
        plain_where_trace(f, word)
    }
}

/// The trace line of a word that is no keyword, from the flags before it.
pub open spec fn plain_where_trace(f: FileStateflags, word: Seq<char>) -> Option<Seq<char>> {
    if f.where_clause {
        Some("where_clause; "@ + word)
    } else if f.where_clause_left_assignment {
        Some("where_clause_left_assignments; "@ + word)
    } else if f.where_clause_operand {
        Some("where_clause_operand; "@ + word)
    } else if f.where_clause_right_assignment {
        Some("where_clause_right_assignment; "@ + word)
    } else {
        None
    }
}

/// The characters of an optional string.
pub open spec fn trace_view(t: Option<String>) -> Option<Seq<char>> {
    match t {
        Some(s) => Some(s@),
        None => None,
    }
}

/// `label` followed by `word`.
fn labelled(label: &str, word: &str) -> (res: String)
    ensures
        res@ == label@ + word@,
{
    let mut res = String::from_str(label);
    res.append(word);
    res
}

/// Reading a word keeps the parser well formed, so it never takes the last
/// variable of an empty list.
pub proof fn lemma_set_flags_keeps_wf(p: ParserModel, word: Seq<char>, up: Seq<char>)
    requires
        p.wf(),
    ensures
        !p.set_flags_fails(up),
        p.flags_set(word, up).wf(),
        (ParserModel { flags: p.flags.finalized(), ..p }).wf(),
{
}

/// `WHERE`, `OR` and `AND` each open a condition, and act alike: the parser
/// keeps its variables, and its flags are the marked flags with `where_clause`
/// raised, nothing else changed.
pub proof fn lemma_parser_condition_words(p: ParserModel, w: Seq<char>)
    ensures
        p.flags_set(w, "WHERE"@) == (ParserModel {
            flags: FileStateflags { where_clause: true, ..p.flags.marked(w) },
            ..p
        }),
        p.flags_set(w, "OR"@) == p.flags_set(w, "WHERE"@),
        p.flags_set(w, "AND"@) == p.flags_set(w, "WHERE"@),
{
    lemma_keyword_literals();
}

/// A block comment ends at `*/`: outside a line comment, once the closing is
/// completed no comment is open, and a `SELECT` that follows opens a select.
pub proof fn lemma_parser_block_comment_ends(p: ParserModel, w: Seq<char>, next: Seq<char>)
    requires
        !p.flags.line_comment,
        !seq_starts_with(w, "--"@),
        !seq_starts_with(next, "--"@),
    ensures
        !p.flags_set(w, "*/"@).flags.finalized().in_comment_spec(),
        (ParserModel {
            flags: p.flags_set(w, "*/"@).flags.finalized(),
            ..p.flags_set(w, "*/"@)
        }).flags_set(next, "SELECT"@).flags.select,
{
    lemma_keyword_literals();
}

/// A block comment starts at `/*`: unless a closing is still pending, it stays
/// open after the closings are completed, and a `SELECT` inside it leaves the
/// select flag as it was.
pub proof fn lemma_parser_block_comment_starts(p: ParserModel, w: Seq<char>, next: Seq<char>)
    requires
        !p.flags.closing_block_comment,
    ensures
        p.flags_set(w, "/*"@).flags.finalized().in_comment_spec(),
        (ParserModel {
            flags: p.flags_set(w, "/*"@).flags.finalized(),
            ..p.flags_set(w, "/*"@)
        }).flags_set(next, "SELECT"@).flags.select == p.flags_set(w, "/*"@).flags.finalized().select,
{
    lemma_keyword_literals();
}

/// The parser after it has completed the closings of the previous word and
/// read `word`, whose upper case is `up`.
pub open spec fn next_word(p: ParserModel, word: Seq<char>, up: Seq<char>) -> ParserModel {
    (ParserModel { flags: p.flags.finalized(), ..p }).flags_set(word, up)
}

/// A word holding `;` ends the select: once its closings are completed no
/// select is open, whatever the word is and whatever the parser held.
pub proof fn lemma_parser_semicolon_ends_select(p: ParserModel, w: Seq<char>, up: Seq<char>)
    requires
        seq_has_char(w, ';'),
    ensures
        !p.flags_set(w, up).flags.finalized().select,
{
}

/// `GO` and `END` end the statement: after either no select, declaration or
/// condition is open and no variable waits for a type or an initial value; the
/// variables and the transaction are kept.
pub proof fn lemma_parser_statement_end_words(p: ParserModel, w: Seq<char>, up: Seq<char>)
    requires
        up == "GO"@ || up == "END"@,
    ensures
        !p.flags_set(w, up).flags.select,
        !p.flags_set(w, up).flags.declare,
        !p.flags_set(w, up).flags.check_datatype,
        !p.flags_set(w, up).flags.check_var_initial_value,
        !p.flags_set(w, up).flags.where_clause,
        p.flags_set(w, up).vars == p.vars,
        p.flags_set(w, up).flags.in_transaction == p.flags.in_transaction,
{
    lemma_keyword_literals();
}

/// `BEGIN TRAN` (or `BEGIN TRANSACTION`) opens a transaction from any state, and
/// `END TRAN` ends one unless a `BEGIN` is still waiting for its `TRAN`.
pub proof fn lemma_parser_transaction_words(
    p: ParserModel,
    w1: Seq<char>,
    w2: Seq<char>,
    t: Seq<char>,
)
    requires
        t == "TRAN"@ || t == "TRANSACTION"@,
    ensures
        next_word(p.flags_set(w1, "BEGIN"@), w2, t).flags.in_transaction,
        !p.flags.begin ==> !next_word(p.flags_set(w1, "END"@), w2, t).flags.in_transaction,
{
    lemma_keyword_literals();
}

/// `DECLARE name type = value`, words without `;` and outside a pending
/// declaration, adds one variable at the end of the list with that name, type
/// and initial value, each cleaned of `;` and quotes.
pub proof fn lemma_parser_full_declaration(
    p: ParserModel,
    w0: Seq<char>,
    name: Seq<char>,
    un: Seq<char>,
    ty: Seq<char>,
    ut: Seq<char>,
    eq: Seq<char>,
    value: Seq<char>,
    uv: Seq<char>,
)
    requires
        !p.flags.check_datatype,
        !p.flags.check_var_initial_value,
        !seq_has_char(w0, ';'),
        !seq_has_char(name, ';'),
        !seq_has_char(ty, ';'),
        !seq_has_char(eq, ';'),
        parser_keyword_of(un) == Keyword::Other,
        parser_keyword_of(ut) == Keyword::Other,
        parser_keyword_of(uv) == Keyword::Other,
    ensures
        ({
            let p0 = p.flags_set(w0, "DECLARE"@);
            let p1 = next_word(p0, name, un);
            let p2 = next_word(p1, ty, ut);
            let p3 = next_word(p2, eq, "="@);
            let p4 = next_word(p3, value, uv);
            &&& p4.vars == p.vars.push(
                VariableModel {
                    name: clean_word(name),
                    var_type: clean_word(ty),
                    initial_value: clean_word(value),
                },
            )
            &&& !p4.flags.declare && !p4.flags.check_datatype && !p4.flags.check_var_initial_value
        }),
{
    lemma_keyword_literals();
    let p0 = p.flags_set(w0, "DECLARE"@);
    let p1 = next_word(p0, name, un);
    let p2 = next_word(p1, ty, ut);
    let p3 = next_word(p2, eq, "="@);
    let p4 = next_word(p3, value, uv);
    assert(p4.vars =~= p.vars.push(
        VariableModel {
            name: clean_word(name),
            var_type: clean_word(ty),
            initial_value: clean_word(value),
        },
    ));
}

/// This parser knows no `FROM`, `COMMIT` or `FETCH`: it reads each of them as it
/// reads any word that is no keyword.
pub proof fn lemma_parser_unknown_keywords(p: ParserModel, w: Seq<char>, up: Seq<char>)
    requires
        keyword_of(up) == Keyword::Other,
    ensures
        p.flags_set(w, "FROM"@) == p.flags_set(w, up),
        p.flags_set(w, "COMMIT"@) == p.flags_set(w, up),
        p.flags_set(w, "FETCH"@) == p.flags_set(w, up),
{
    lemma_keyword_literals();
}

/// A word that starts with `--` opens a line comment, whatever it is.
pub proof fn lemma_parser_dashes_open_line_comment(p: ParserModel, w: Seq<char>, up: Seq<char>)
    requires
        seq_starts_with(w, "--"@),
    ensures
        p.flags_set(w, up).flags.in_comment_spec(),
{
}

fn set_last_initial_value(vars: &mut Vec<Variable>, value: String)
    requires
        old(vars).len() > 0,
    ensures
        parser_vars_view(final(vars)@) == with_last_initial(parser_vars_view(old(vars)@), value@),
{
    let last = vars.pop().unwrap();
    vars.push(
        Variable {
            variable_name: last.variable_name,
            variable_type: last.variable_type,
            initial_value: value,
        },
    );
    assert(parser_vars_view(vars@) =~= with_last_initial(parser_vars_view(old(vars)@), value@));
}

fn set_last_type(vars: &mut Vec<Variable>, value: String)
    requires
        old(vars).len() > 0,
    ensures
        parser_vars_view(final(vars)@) == with_last_type(parser_vars_view(old(vars)@), value@),
{
    let last = vars.pop().unwrap();
    vars.push(
        Variable {
            variable_name: last.variable_name,
            variable_type: value,
            initial_value: last.initial_value,
        },
    );
    assert(parser_vars_view(vars@) =~= with_last_type(parser_vars_view(old(vars)@), value@));
}

impl QueruParser {
    /// Inside a line comment, a block comment, or the word that closes one.
    pub fn in_comment(&self) -> (res: bool)
        ensures
            res == self.flags.in_comment_spec(),
    {
        self.flags.line_comment || self.flags.block_comment || self.flags.closing_block_comment
    }

    /// The word without its first `;` and its first two `'`.
    pub fn clean_str(string_to_clean: &str) -> (res: String)
        ensures
            res@ == clean_word(string_to_clean@),
    {
        WordInterpreter::clean_str(string_to_clean)
    }

    /// Completes the closings that the previous word announced.
    pub fn finalize_closing_flags(&mut self)
        ensures
            final(self)@ == (ParserModel { flags: old(self).flags.finalized(), ..old(self)@ }),
    {
        let f = &self.flags;
        self.flags = FileStateflags {
            closing_block_comment: false,
            block_comment: f.block_comment && !f.closing_block_comment,
            closing_select: false,
            select: f.select && !f.closing_select,
            ..*f
        };
    }

    /// Ends the current statement.
    pub fn close_statement_flags(&mut self)
        ensures
            final(self)@ == (ParserModel {
                flags: old(self).flags.statement_closed(),
                ..old(self)@
            }),
    {
        let f = &self.flags;
        self.flags = FileStateflags {
            declare: false,
            check_datatype: false,
            check_var_initial_value: false,
            select: false,
            ..*f
        };
    }

    fn mark_word(&mut self, word: &str)
        ensures
            final(self)@ == (ParserModel { flags: old(self).flags.marked(word@), ..old(self)@ }),
    {
        let dashes = str_starts_with(word, "--");
        let semicolon = str_contains_char(word, ';');
        let f = &self.flags;
        self.flags = FileStateflags {
            line_comment: f.line_comment || dashes,
            closing_select: f.closing_select || semicolon,
            declare: f.declare && !semicolon,
            ..*f
        };
    }

    fn apply_plain_word(&mut self, word: &str) -> (trace: Option<String>)
        requires
            old(self)@.wf(),
        ensures
            final(self)@ == old(self)@.keyword_applied(word@, Keyword::Other),
            trace_view(trace) == plain_where_trace(old(self).flags, word@),
    {
        let value = QueruParser::clean_str(word);
        let ghost v = value@;
        let ghost p0 = self@;
        if self.flags.check_var_initial_value {
            set_last_initial_value(&mut self.vars, value.clone());
        }
        assert(parser_vars_view(self.vars@).len() == self.vars@.len());
        if self.flags.check_datatype {
            set_last_type(&mut self.vars, value.clone());
        }
        if self.flags.declare {
            let ghost before = self.vars@;
            self.vars.push(Variable::new(value));
            assert(parser_vars_view(self.vars@) =~= parser_vars_view(before).push(
                VariableModel { name: v, var_type: Seq::empty(), initial_value: Seq::empty() },
            ));
        }
        assert(parser_vars_view(self.vars@) == p0.vars_after_plain_word(v));
        let trace = if self.flags.where_clause {
            Some(labelled("where_clause; ", word))
        } else if self.flags.where_clause_left_assignment {
            Some(labelled("where_clause_left_assignments; ", word))
        } else if self.flags.where_clause_operand {
            Some(labelled("where_clause_operand; ", word))
        } else if self.flags.where_clause_right_assignment {
            Some(labelled("where_clause_right_assignment; ", word))
        } else {
            None
        };
        let f = &self.flags;
        self.flags = FileStateflags {
            check_var_initial_value: f.check_datatype,
            check_datatype: f.declare,
            declare: false,
            where_clause: false,
            where_clause_left_assignment: f.where_clause,
            where_clause_operand: if f.where_clause {
                f.where_clause_operand
            } else {
                f.where_clause_left_assignment
            },
            where_clause_right_assignment: if f.where_clause || f.where_clause_left_assignment {
                f.where_clause_right_assignment
            } else {
                f.where_clause_operand
            },
            ..*f
        };
        trace
    }

    fn apply_semicolon(&mut self, word: &str)
        requires
            old(self).flags.check_var_initial_value ==> old(self).vars.len() > 0,
        ensures
            final(self)@ == old(self)@.keyword_applied(word@, Keyword::Semicolon),
    {
        if self.flags.check_var_initial_value {
            set_last_initial_value(&mut self.vars, String::new());
        }
        let f = &self.flags;
        self.flags = FileStateflags {
            where_clause: false,
            closing_select: true,
            check_var_initial_value: false,
            ..*f
        };
    }

    fn apply_line_comment(&mut self, word: &str)
        ensures
            final(self)@ == old(self)@.keyword_applied(word@, Keyword::LineComment),
    {
        let f = &self.flags;
        self.flags = FileStateflags { line_comment: true, closing_select: true, ..*f };
    }

    fn apply_block_comment_open(&mut self, word: &str)
        ensures
            final(self)@ == old(self)@.keyword_applied(word@, Keyword::BlockCommentOpen),
    {
        let f = &self.flags;
        self.flags = FileStateflags { block_comment: true, ..*f };
    }

    fn apply_block_comment_close(&mut self, word: &str)
        ensures
            final(self)@ == old(self)@.keyword_applied(word@, Keyword::BlockCommentClose),
    {
        let f = &self.flags;
        self.flags = FileStateflags { closing_block_comment: true, ..*f };
    }

    fn apply_select(&mut self, word: &str)
        ensures
            final(self)@ == old(self)@.keyword_applied(word@, Keyword::Select),
    {
        let in_comment = self.in_comment();
        let f = &self.flags;
        self.flags = FileStateflags { where_clause: false, select: f.select || !in_comment, ..*f };
    }

    fn apply_go(&mut self, word: &str)
        ensures
            final(self)@ == old(self)@.keyword_applied(word@, Keyword::Go),
    {
        let f = &self.flags;
        self.flags = FileStateflags {
            where_clause: false,
            closing_select: true,
            declare: false,
            check_datatype: false,
            check_var_initial_value: false,
            select: false,
            ..*f
        };
    }

    fn apply_begin(&mut self, word: &str)
        ensures
            final(self)@ == old(self)@.keyword_applied(word@, Keyword::Begin),
    {
        let f = &self.flags;
        self.flags = FileStateflags { begin: true, where_clause: false, ..*f };
    }

    fn apply_tran(&mut self, word: &str)
        ensures
            final(self)@ == old(self)@.keyword_applied(word@, Keyword::Tran),
    {
        let f = &self.flags;
        self.flags = FileStateflags {
            where_clause: false,
            begin: false,
            end: f.end && f.begin,
            in_transaction: if f.begin {
                true
            } else if f.end {
                false
            } else {
                f.in_transaction
            },
            ..*f
        };
    }

    fn apply_end(&mut self, word: &str)
        ensures
            final(self)@ == old(self)@.keyword_applied(word@, Keyword::End),
    {
        let f = &self.flags;
        self.flags = FileStateflags {
            where_clause: false,
            end: true,
            declare: false,
            check_datatype: false,
            check_var_initial_value: false,
            select: false,
            ..*f
        };
    }

    fn apply_declare(&mut self, word: &str)
        ensures
            final(self)@ == old(self)@.keyword_applied(word@, Keyword::Declare),
    {
        let f = &self.flags;
        self.flags = FileStateflags { where_clause: false, select: false, declare: true, ..*f };
    }

    fn apply_where(&mut self, word: &str)
        ensures
            final(self)@ == old(self)@.keyword_applied(word@, Keyword::Where),
    {
        let f = &self.flags;
        self.flags = FileStateflags { where_clause: true, ..*f };
    }

    /// Reads `word`, given `upper_word`, its upper case: sets the flags of the
    /// keyword that it is, or fills in a declaration and moves along a `WHERE` clause.
    pub fn set_flags_keyword(&mut self, word: &str, upper_word: &str) -> (trace: Option<String>)
        requires
            !old(self)@.set_flags_fails(upper_word@),
        ensures
            final(self)@ == old(self)@.flags_set(word@, upper_word@),
            trace_view(trace) == where_trace(old(self).flags, word@, upper_word@),
    {
        self.mark_word(word);
        let k = match classify_keyword(upper_word) {
            Keyword::From | Keyword::Commit | Keyword::Fetch => Keyword::Other,
            k => k,
        };
        assert(k == parser_keyword_of(upper_word@));
        if let Keyword::Other = k {
            return self.apply_plain_word(word);
        } else if let Keyword::Semicolon = k {
            self.apply_semicolon(word);
        } else {
            match k {
                Keyword::LineComment => self.apply_line_comment(word),
                Keyword::BlockCommentOpen => self.apply_block_comment_open(word),
                Keyword::BlockCommentClose => self.apply_block_comment_close(word),
                Keyword::Select => self.apply_select(word),
                Keyword::Go => self.apply_go(word),
                Keyword::Begin => self.apply_begin(word),
                Keyword::Tran => self.apply_tran(word),
                Keyword::End => self.apply_end(word),
                Keyword::Declare => self.apply_declare(word),
                Keyword::Where => self.apply_where(word),
                _ => {},
            }
        }
        None
    }

    /// Reads one word of a file and sets the flags it calls for; hands back the
    /// trace line for a word inside a `WHERE` condition.
    pub fn set_flags(&mut self, word: &str) -> (trace: Option<String>)
        requires
            !old(self)@.set_flags_fails(unicode_uppercase(word@)),
        ensures
            final(self)@ == old(self)@.flags_set(word@, unicode_uppercase(word@)),
            is_ascii_chars(word@) ==> final(self)@ == old(self)@.flags_set(word@, ascii_upper(word@)),
            trace_view(trace) == where_trace(old(self).flags, word@, unicode_uppercase(word@)),
    {
        let upper = to_uppercase(word);
        self.set_flags_keyword(word, upper.as_str())
    }

    /// Reads `word` when that can be done: not when it would fill in the type or
    /// initial value of a variable while none has been declared. Then `None`,
    /// and the parser is left as it was; else the trace line, as `set_flags` gives it.
    pub fn try_set_flags(&mut self, word: &str) -> (res: Option<Option<String>>)
        ensures
            res is Some == !old(self)@.set_flags_fails(unicode_uppercase(word@)),
            res matches Some(trace) ==> final(self)@ == old(self)@.flags_set(
                word@,
                unicode_uppercase(word@),
            ) && trace_view(trace) == where_trace(old(self).flags, word@, unicode_uppercase(word@)),
            res is None ==> final(self)@ == old(self)@,
    {
        let upper = to_uppercase(word);
        let pending = match classify_keyword(upper.as_str()) {
            Keyword::Semicolon => self.flags.check_var_initial_value,
            Keyword::From | Keyword::Commit | Keyword::Fetch | Keyword::Other => {
                self.flags.check_var_initial_value || self.flags.check_datatype
            },
            _ => false,
        };
        if pending && self.vars.len() == 0 {
            return None;
        }
        Some(self.set_flags_keyword(word, upper.as_str()))
    }
}

} // verus!
