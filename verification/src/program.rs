//! The program's own pipeline: a tokenizer that also counts, and a review that
//! runs the rule objects over the parser's flags.
use vstd::prelude::*;

use crate::linting::Finding;
use crate::parsing::{
    lemma_keyword_literals, lemma_keyword_texts, lemma_rule_words_are_plain, VariableModel,
};
use crate::queru_parser::{
    where_trace, next_word,
    lemma_set_flags_keeps_wf, parser_vars_view, FileStateflags, ParserModel, QueruParser,
};
use crate::sql_rule::SqlRule;
use crate::sql_rules::{LeftOpenTran, NoNoLock, NoSelectInTran, NoSelectStar};
use crate::text::{seq_has_char, seq_starts_with, unicode_uppercase};
use crate::violation::Violation;
use crate::{
    clone_words, count_nonempty, file_tokenize as split_document, findings_at,
    lemma_count_nonempty_take, lemma_deep_view_empty, lemma_deep_view_push, tokenized,
};

verus! {

/// A file cut into lines and words, with the number of line ends, of spaces and
/// of bytes (modulo 256) that it holds.
#[derive(Debug, Default)]
pub struct ParsedSqlFile {
    pub tokenized_data: Vec<Vec<String>>,
    pub lines: u8,
    pub tokens: u8,
    pub characters: u8,
}

/// How many of the bytes are `x`.
pub open spec fn count_byte(bytes: Seq<u8>, x: u8) -> nat
    decreases bytes.len(),
{
    if bytes.len() == 0 {
        0
    } else {
        count_byte(bytes.drop_last(), x) + if bytes.last() == x {
            1nat
        } else {
            0nat
        }
    }
}

/// A file has one line more than it has line ends, so the `lines` counted by
/// `file_tokenize` is the number of lines less one.
pub proof fn lemma_line_count(bytes: Seq<u8>)
    ensures
        tokenized(bytes).len() == count_byte(bytes, 10) + 1,
    decreases bytes.len(),
{
    if bytes.len() > 0 {
        lemma_line_count(bytes.drop_last());
    }
}

/// Counts the bytes equal to `x`, up to 255.
fn count_byte_exec(bytes: &[u8], x: u8) -> (n: u8)
    requires
        count_byte(bytes@, x) <= 255,
    ensures
        n == count_byte(bytes@, x),
{
    let mut n: u8 = 0;
    let mut i: usize = 0;
    assert(bytes@.take(0) =~= Seq::<u8>::empty());
    while i < bytes.len()
        invariant
            i <= bytes@.len(),
            n == count_byte(bytes@.take(i as int), x),
            count_byte(bytes@, x) <= 255,
        decreases bytes@.len() - i,
    {
        assert(bytes@.take(i + 1).drop_last() =~= bytes@.take(i as int));
        proof {
            lemma_count_byte_take(bytes@, x, i + 1);
        }
        if bytes[i] == x {
            n = n + 1;
        }
        i = i + 1;
    }
    assert(bytes@.take(bytes@.len() as int) =~= bytes@);
    n
}

proof fn lemma_count_byte_take(bytes: Seq<u8>, x: u8, j: int)
    requires
        0 <= j <= bytes.len(),
    ensures
        count_byte(bytes.take(j), x) <= count_byte(bytes, x),
    decreases bytes.len(),
{
    if j < bytes.len() {
        assert(bytes.drop_last().take(j) =~= bytes.take(j));
        lemma_count_byte_take(bytes.drop_last(), x, j);
    } else {
        assert(bytes.take(j) =~= bytes);
    }
}

/// Cuts the contents of a file into lines and words, and counts its line ends,
/// spaces and bytes.
pub fn file_tokenize(file_buff: &[u8]) -> (parsed: ParsedSqlFile)
    requires
        count_byte(file_buff@, 10) <= 255,
        count_byte(file_buff@, 32) <= 255,
    ensures
        parsed.tokenized_data.deep_view() == tokenized(file_buff@),
        parsed.lines == count_byte(file_buff@, 10),
        parsed.tokens == count_byte(file_buff@, 32),
        parsed.characters == file_buff@.len() % 256,
{
    let document = split_document(file_buff);
    let lines = count_byte_exec(file_buff, 10);
    let tokens = count_byte_exec(file_buff, 32);
    let characters = (file_buff.len() % 256) as u8;
    ParsedSqlFile { tokenized_data: document.tokenized_data, lines, tokens, characters }
}

/// The messages of the token rules that a word breaks with the given flags, in
/// the order `NoNoLock`, `NoSelectStar`, `NoSelectInTran`.
pub open spec fn rule_messages(f: FileStateflags, w: Seq<char>) -> Seq<Seq<char>> {
    (if f.select && (w == "(NOLOCK)"@ || w == "NOLOCK"@) {
        seq!["Do not use NOLOCK"@]
    } else {
        seq![]
    }) + (if f.select && w == "*"@ {
        seq!["Do not use * in select list, specify columns"@]
    } else {
        seq![]
    }) + (if f.in_transaction && f.select && w == "SELECT"@ {
        seq!["Do not run select statements in transaction"@]
    } else {
        seq![]
    })
}

/// Where a walk over words has got to.
pub struct ParserScan {
    pub parser: ParserModel,
    pub findings: Seq<Finding>,
    pub traces: Seq<Seq<char>>,
}

/// The line, when there is one, as a list of none or one lines.
pub open spec fn lines_of(t: Option<Seq<char>>) -> Seq<Seq<char>> {
    match t {
        Some(line) => seq![line],
        None => seq![],
    }
}

/// The parser before any word: every flag down, no variables.
pub open spec fn initial_parser() -> ParserModel {
    ParserModel {
        flags: FileStateflags {
            line_comment: false,
            block_comment: false,
            closing_block_comment: false,
            closing_select: false,
            select: false,
            begin: false,
            end: false,
            in_transaction: false,
            declare: false,
            check_datatype: false,
            check_var_initial_value: false,
            where_clause: false,
            where_clause_left_assignment: false,
            where_clause_operand: false,
            where_clause_right_assignment: false,
        },
        vars: Seq::<VariableModel>::empty(),
    }
}

/// Walks the words of line `line`: empty words are passed over, every other
/// word completes the closings, sets the flags, and is checked by the token
/// rules; words are counted from 1.
pub open spec fn program_scan_line(
    start: ParserModel,
    words: Seq<Seq<char>>,
    line: int,
    code: Seq<Seq<char>>,
) -> ParserScan
    decreases words.len(),
{
    if words.len() == 0 {
        ParserScan { parser: start, findings: seq![], traces: seq![] }
    } else {
        let prev = program_scan_line(start, words.drop_last(), line, code);
        let w = words.last();
        if w.len() == 0 {
            prev
        } else {
            let f = prev.parser.flags.finalized();
            let p = ParserModel { flags: f, ..prev.parser }.flags_set(w, unicode_uppercase(w));
            ParserScan {
                parser: p,
                traces: prev.traces + lines_of(where_trace(f, w, unicode_uppercase(w))),
                findings: prev.findings + findings_at(
                    rule_messages(p.flags, w),
                    line,
                    count_nonempty(words) as int,
                    code,
                ),
            }
        }
    }
}

/// The parser at the start of a line: no line comment.
pub open spec fn program_line_start(p: ParserModel) -> ParserModel {
    ParserModel { flags: FileStateflags { line_comment: false, ..p.flags }, ..p }
}

/// Walks the first `n` lines of a document; lines are numbered from 1.
pub open spec fn program_scan_lines(doc: Seq<Seq<Seq<char>>>, n: nat) -> ParserScan
    decreases n,
{
    if n == 0 {
        ParserScan { parser: initial_parser(), findings: seq![], traces: seq![] }
    } else {
        let prev = program_scan_lines(doc, (n - 1) as nat);
        let cur = program_scan_line(
            program_line_start(prev.parser),
            doc[n - 1],
            n as int,
            doc[n - 1],
        );
        ParserScan {
            parser: cur.parser,
            findings: prev.findings + cur.findings,
            traces: prev.traces + cur.traces,
        }
    }
}

/// A line end only ends a line comment: each line is walked from the parser in
/// which the previous line ended, with the line comment lowered and every other
/// flag and every variable kept; its findings and traces follow those before it.
pub proof fn lemma_program_line_end_ends_only_line_comment(doc: Seq<Seq<Seq<char>>>, n: nat)
    requires
        n < doc.len(),
    ensures
        ({
            let prev = program_scan_lines(doc, n);
            let cur = program_scan_line(
                ParserModel {
                    flags: FileStateflags { line_comment: false, ..prev.parser.flags },
                    ..prev.parser
                },
                doc[n as int],
                (n + 1) as int,
                doc[n as int],
            );
            program_scan_lines(doc, n + 1) == ParserScan {
                parser: cur.parser,
                findings: prev.findings + cur.findings,
                traces: prev.traces + cur.traces,
            }
        }),
{
}

/// Inside a select the token rules report `*` and `NOLOCK`: after a `SELECT`
/// outside comments, with no closing pending, the word `*` gives exactly the
/// select-star message and `NOLOCK` exactly the NOLOCK message; inside a
/// transaction, `SELECT` itself gives exactly the select-in-transaction message.
pub proof fn lemma_program_select_rules(p: ParserModel, w: Seq<char>)
    requires
        !p.flags.in_comment_spec(),
        !p.flags.closing_select,
        !seq_starts_with(w, "--"@),
        !seq_has_char(w, ';'),
    ensures
        rule_messages(next_word(p.flags_set(w, "SELECT"@), "*"@, "*"@).flags, "*"@) == seq![
            "Do not use * in select list, specify columns"@,
        ],
        rule_messages(
            next_word(p.flags_set(w, "SELECT"@), "NOLOCK"@, "NOLOCK"@).flags,
            "NOLOCK"@,
        ) == seq!["Do not use NOLOCK"@],
        p.flags.in_transaction ==> rule_messages(
            p.flags_set("SELECT"@, "SELECT"@).flags,
            "SELECT"@,
        ) == seq!["Do not run select statements in transaction"@],
{
    lemma_keyword_literals();
    lemma_keyword_texts();
    lemma_rule_words_are_plain();
    reveal(seq_has_char);
    reveal(seq_starts_with);
    let star = "*"@;
    let nolock = "NOLOCK"@;
    let select = "SELECT"@;
    assert(star != "(NOLOCK)"@ && star != nolock && star != select);
    assert(nolock != "(NOLOCK)"@ && nolock != select && nolock != star);
    assert(select != "(NOLOCK)"@ && select != nolock && select != star);
    assert(!seq_has_char(star, ';')) by {
        assert(star[0] == '*');
    }
    assert(!seq_has_char(nolock, ';') && !seq_has_char(select, ';')) by {
        reveal_strlit("NOLOCK");
        reveal_strlit("SELECT");
    }
    assert(!seq_starts_with(nolock, "--"@) && !seq_starts_with(select, "--"@) && !seq_starts_with(
        star,
        "--"@,
    )) by {
        reveal_strlit("NOLOCK");
        reveal_strlit("SELECT");
        reveal_strlit("--");
        assert(nolock.subrange(0, 2)[0] == 'N');
        assert(select.subrange(0, 2)[0] == 'S');
    }
    assert(seq![] + seq!["Do not use * in select list, specify columns"@] + seq![]
        =~= seq!["Do not use * in select list, specify columns"@]);
    assert(seq!["Do not use NOLOCK"@] + seq![] + seq![] =~= seq!["Do not use NOLOCK"@]);
    assert(seq![] + seq![] + seq!["Do not run select statements in transaction"@]
        =~= seq!["Do not run select statements in transaction"@]);
}

/// Every finding of the token rules, in order, then the end-of-file rule's.
pub open spec fn program_review(doc: Seq<Seq<Seq<char>>>) -> Seq<Finding> {
    let all = program_scan_lines(doc, doc.len());
    if all.parser.flags.in_transaction {
        all.findings.push(
            Finding {
                line: 0,
                token_location: 0,
                message: "Transaction left open at end of file"@,
                offending_code: seq![],
            },
        )
    } else {
        all.findings
    }
}

/// The views of a list of violations.
pub open spec fn rule_violations_view(v: Seq<Violation>) -> Seq<Finding> {
    v.map_values(|x: Violation| x@)
}

/// Reads one word and runs the token rules on it.
fn review_word(
    parser: &mut QueruParser,
    violations: &mut Vec<Violation>,
    traces: &mut Vec<String>,
    word: &String,
    line: &Vec<String>,
    line_number: u8,
    token: u8,
)
    requires
        old(parser)@.wf(),
    ensures
        ({
            let p = ParserModel {
                flags: old(parser)@.flags.finalized(),
                ..old(parser)@
            }.flags_set(word@, unicode_uppercase(word@));
            &&& final(parser)@ == p
            &&& p.wf()
            &&& final(traces).deep_view() == old(traces).deep_view() + lines_of(
                where_trace(old(parser)@.flags.finalized(), word@, unicode_uppercase(word@)),
            )
            &&& rule_violations_view(final(violations)@) == rule_violations_view(
                old(violations)@,
            ) + findings_at(
                rule_messages(p.flags, word@),
                line_number as int,
                token as int,
                line.deep_view(),
            )
        }),
{
    parser.finalize_closing_flags();
    proof {
        lemma_set_flags_keeps_wf(old(parser)@, word@, unicode_uppercase(word@));
        lemma_set_flags_keeps_wf(parser@, word@, unicode_uppercase(word@));
    }
    let ghost before_traces = traces.deep_view();
    let trace = parser.set_flags(word.as_str());
    if let Some(t) = trace {
        let ghost old_traces = *traces;
        let ghost tt = t;
        traces.push(t);
        proof {
            lemma_deep_view_push(old_traces, *traces, tt);
        }
    }
    assert(traces.deep_view() =~= before_traces + lines_of(
        where_trace(old(parser)@.flags.finalized(), word@, unicode_uppercase(word@)),
    ));
    let ghost f = parser.flags;
    let ghost base = rule_violations_view(violations@);
    let ghost found = findings_at(
        rule_messages(f, word@),
        line_number as int,
        token as int,
        line.deep_view(),
    );
    let ghost m1 = if f.select && (word@ == "(NOLOCK)"@ || word@ == "NOLOCK"@) {
        seq!["Do not use NOLOCK"@]
    } else {
        seq![]
    };
    let ghost m2 = if f.select && word@ == "*"@ {
        seq!["Do not use * in select list, specify columns"@]
    } else {
        seq![]
    };
    let ghost m3 = if f.in_transaction && f.select && word@ == "SELECT"@ {
        seq!["Do not run select statements in transaction"@]
    } else {
        seq![]
    };
    let ghost code = line.deep_view();
    let rule1 = NoNoLock {};
    if rule1.check(&parser.flags, word.as_str()) {
        let v = rule1.get_violation(line_number, token, clone_words(line));
        violations.push(v);
    }
    assert(rule_violations_view(violations@) =~= base + findings_at(
        m1,
        line_number as int,
        token as int,
        code,
    ));
    let rule2 = NoSelectStar {};
    if rule2.check(&parser.flags, word.as_str()) {
        let v = rule2.get_violation(line_number, token, clone_words(line));
        violations.push(v);
    }
    assert(rule_violations_view(violations@) =~= base + findings_at(
        m1 + m2,
        line_number as int,
        token as int,
        code,
    ));
    let rule3 = NoSelectInTran {};
    if rule3.check(&parser.flags, word.as_str()) {
        let v = rule3.get_violation(line_number, token, clone_words(line));
        violations.push(v);
    }
    assert(m1 + m2 + m3 =~= rule_messages(f, word@));
    assert(rule_violations_view(violations@) =~= base + found);
}

/// Reviews one line, numbered `line_number`.
fn review_line(
    parser: &mut QueruParser,
    violations: &mut Vec<Violation>,
    traces: &mut Vec<String>,
    line: &Vec<String>,
    line_number: u8,
)
    requires
        old(parser)@.wf(),
        count_nonempty(line.deep_view()) <= 255,
    ensures
        ({
            let words = line.deep_view();
            let scan = program_scan_line(
                program_line_start(old(parser)@),
                words,
                line_number as int,
                words,
            );
            &&& final(parser)@ == scan.parser
            &&& final(parser)@.wf()
            &&& rule_violations_view(final(violations)@) == rule_violations_view(
                old(violations)@,
            ) + scan.findings
            &&& final(traces).deep_view() == old(traces).deep_view() + scan.traces
        }),
{
    let ghost words = line.deep_view();
    let ghost trace_base = traces.deep_view();
    let ghost base = rule_violations_view(violations@);
    let f = &parser.flags;
    parser.flags = FileStateflags { line_comment: false, ..*f };
    let ghost start = parser@;
    let m = line.len();
    let mut token_number: u8 = 0;
    let mut j: usize = 0;
    assert(words.take(0) =~= Seq::<Seq<char>>::empty());
    assert(base + program_scan_line(start, words.take(0), line_number as int, words).findings
        =~= base);
    assert(trace_base + program_scan_line(start, words.take(0), line_number as int, words).traces
        =~= trace_base);
    while j < m
        invariant
            words == line.deep_view(),
            start == program_line_start(old(parser)@),
            base == rule_violations_view(old(violations)@),
            trace_base == old(traces).deep_view(),
            traces.deep_view() == trace_base + program_scan_line(
                start,
                words.take(j as int),
                line_number as int,
                words,
            ).traces,
            count_nonempty(words) <= 255,
            m == words.len(),
            j <= m,
            parser@ == program_scan_line(
                start,
                words.take(j as int),
                line_number as int,
                words,
            ).parser,
            parser@.wf(),
            token_number as nat == count_nonempty(words.take(j as int)),
            rule_violations_view(violations@) == base + program_scan_line(
                start,
                words.take(j as int),
                line_number as int,
                words,
            ).findings,
        decreases m - j,
    {
        let word = &line[j];
        proof {
            assert(words.take(j + 1).drop_last() =~= words.take(j as int));
            assert(words.take(j + 1).last() == word@);
        }
        if !word.as_str().is_empty() {
            proof {
                lemma_count_nonempty_take(words, j + 1);
            }
            token_number = token_number + 1;
            review_word(parser, violations, traces, word, line, line_number, token_number);
            assert(rule_violations_view(violations@) =~= base + program_scan_line(
                start,
                words.take(j + 1),
                line_number as int,
                words,
            ).findings);
            assert(traces.deep_view() =~= trace_base + program_scan_line(
                start,
                words.take(j + 1),
                line_number as int,
                words,
            ).traces);
        }
        j = j + 1;
    }
    assert(words.take(m as int) =~= words);
}

/// Reviews a document with the rule objects, and hands back, for showing, the
/// parser as the last word left it and the trace lines of the words inside
/// `WHERE` conditions, in order.
pub fn review_file_with_parser(file_to_review: ParsedSqlFile) -> (res: (
    Vec<Violation>,
    QueruParser,
    Vec<String>,
))
    requires
        file_to_review.tokenized_data@.len() <= 255,
        forall|i: int|
            0 <= i < file_to_review.tokenized_data@.len() ==> #[trigger] count_nonempty(
                file_to_review.tokenized_data.deep_view()[i],
            ) <= 255,
    ensures
        rule_violations_view(res.0@) == program_review(file_to_review.tokenized_data.deep_view()),
        res.1@ == program_scan_lines(
            file_to_review.tokenized_data.deep_view(),
            file_to_review.tokenized_data.deep_view().len(),
        ).parser,
        res.2.deep_view() == program_scan_lines(
            file_to_review.tokenized_data.deep_view(),
            file_to_review.tokenized_data.deep_view().len(),
        ).traces,
{
    let ghost doc = file_to_review.tokenized_data.deep_view();
    let lines = &file_to_review.tokenized_data;
    let n = lines.len();
    let mut violations: Vec<Violation> = Vec::new();
    let mut traces: Vec<String> = Vec::new();
    proof {
        lemma_deep_view_empty(traces);
    }
    let mut parser = QueruParser { flags: FileStateflags::default_flags(), vars: Vec::new() };
    assert(parser_vars_view(parser.vars@) =~= Seq::<VariableModel>::empty());
    assert(parser@ == initial_parser());
    let mut line_number: u8 = 0;
    let mut i: usize = 0;
    assert(rule_violations_view(violations@) =~= Seq::<Finding>::empty());
    while i < n
        invariant
            n == lines@.len(),
            n <= 255,
            doc == lines.deep_view(),
            forall|k: int| 0 <= k < n ==> #[trigger] count_nonempty(doc[k]) <= 255,
            i <= n,
            line_number == i,
            parser@ == program_scan_lines(doc, i as nat).parser,
            parser@.wf(),
            rule_violations_view(violations@) == program_scan_lines(doc, i as nat).findings,
            traces.deep_view() == program_scan_lines(doc, i as nat).traces,
        decreases n - i,
    {
        let line = &lines[i];
        assert(doc[i as int] == line.deep_view());
        line_number = line_number + 1;
        review_line(&mut parser, &mut violations, &mut traces, line, line_number);
        i = i + 1;
    }
    let post = LeftOpenTran {};
    if post.check(&parser.flags, "") {
        let ghost before = violations@;
        let empty: Vec<String> = Vec::new();
        proof {
            lemma_deep_view_empty(empty);
        }
        let v = post.get_violation(0, 0, empty);
        violations.push(v);
        assert(rule_violations_view(violations@) =~= rule_violations_view(before).push(v@));
    }
    (violations, parser, traces)
}

/// Reviews a document with the rule objects: the token rules on every word
/// that is not empty, lines numbered from 1, then the end-of-file rule.
pub fn review_file(file_to_review: ParsedSqlFile) -> (violations: Vec<Violation>)
    requires
        file_to_review.tokenized_data@.len() <= 255,
        forall|i: int|
            0 <= i < file_to_review.tokenized_data@.len() ==> #[trigger] count_nonempty(
                file_to_review.tokenized_data.deep_view()[i],
            ) <= 255,
    ensures
        rule_violations_view(violations@) == program_review(
            file_to_review.tokenized_data.deep_view(),
        ),
{
    let (violations, _parser, _traces) = review_file_with_parser(file_to_review);
    violations
}

impl FileStateflags {
    /// Every flag down.
    pub fn default_flags() -> (f: FileStateflags)
        ensures
            f == initial_parser().flags,
    {
        FileStateflags {
            line_comment: false,
            block_comment: false,
            closing_block_comment: false,
            closing_select: false,
            select: false,
            begin: false,
            end: false,
            in_transaction: false,
            declare: false,
            check_datatype: false,
            check_var_initial_value: false,
            where_clause: false,
            where_clause_left_assignment: false,
            where_clause_operand: false,
            where_clause_right_assignment: false,
        }
    }
}

} // verus!
