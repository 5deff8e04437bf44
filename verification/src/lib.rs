//! A linter for T-SQL files: cuts a file into lines and words, walks the
//! words with a flag-based interpreter, and reports the rules they break.
pub mod file_status_flags;
pub mod linting;
pub mod parsing;
pub mod program;
pub mod queru_parser;
pub mod sql_rule;
pub mod sql_rules;
pub mod text;
pub mod violation;

pub use crate::linting::{Finding, Rules, Violation};
pub use crate::parsing::{FileState, ParsedSqlFile, QueruParser, StateModel, Variable};

use vstd::prelude::*;
use vstd::string::StringExecFns;

use crate::linting::{
    cursor_used, declare_in_tran, function_in_where, msg_cursors, msg_declare_in_tran,
    msg_function_in_where, msg_nolock, msg_qualify_tables, msg_select_in_tran, msg_select_star,
    msg_tran_open, nolock_used, select_in_tran, select_star_used, table_unqualified,
    violations_view,
};
use crate::parsing::lemma_interpret_keeps_wf;
use crate::text::{byte_char, char_of_byte, join_words, push_char, unicode_uppercase};

verus! {

// ----------------------------------------------------------------------------
// Cutting a file into lines and words
// ----------------------------------------------------------------------------
/// The document that a file's bytes make: lines end at byte 10, words end at
/// byte 32 (a space), and every other byte is a character of the current word.
pub open spec fn tokenized(bytes: Seq<u8>) -> Seq<Seq<Seq<char>>>
    decreases bytes.len(),
{
    if bytes.len() == 0 {
        seq![seq![Seq::<char>::empty()]]
    } else {
        let doc = tokenized(bytes.drop_last());
        let b = bytes.last();
        let line = doc.last();
        if b == 10 {
            doc.push(seq![Seq::<char>::empty()])
        } else if b == 32 {
            doc.update(doc.len() - 1, line.push(Seq::<char>::empty()))
        } else {
            doc.update(doc.len() - 1, line.update(line.len() - 1, line.last().push(byte_char(b))))
        }
    }
}

/// A document always has a line, and every line a word.
pub proof fn lemma_tokenized_shape(bytes: Seq<u8>)
    ensures
        tokenized(bytes).len() > 0,
        forall|i: int| 0 <= i < tokenized(bytes).len() ==> #[trigger] tokenized(bytes)[i].len() > 0,
    decreases bytes.len(),
{
    if bytes.len() > 0 {
        lemma_tokenized_shape(bytes.drop_last());
    }
}

/// The text of a document: its lines joined by line ends, each line's words
/// joined by spaces.
pub open spec fn document_text(doc: Seq<Seq<Seq<char>>>) -> Seq<char> {
    join_words(doc.map_values(|line: Seq<Seq<char>>| join_words(line, " "@)), "\n"@)
}

/// The characters that a file's bytes stand for.
pub open spec fn bytes_text(bytes: Seq<u8>) -> Seq<char> {
    bytes.map_values(|b: u8| byte_char(b))
}

/// Everything before the last item of a join: the join of the others and a separator.
pub open spec fn join_prefix(words: Seq<Seq<char>>, sep: Seq<char>) -> Seq<char> {
    if words.len() == 0 {
        Seq::empty()
    } else {
        join_words(words, sep) + sep
    }
}

proof fn lemma_join_last(words: Seq<Seq<char>>, sep: Seq<char>)
    requires
        words.len() > 0,
    ensures
        join_words(words, sep) == join_prefix(words.drop_last(), sep) + words.last(),
{
    if words.len() == 1 {
        assert(join_prefix(words.drop_last(), sep) + words.last() =~= words[0]);
    }
}

/// Cutting a file into lines and words loses nothing: joining each line's
/// words with spaces, and the lines with line ends, gives back the file's text.
pub proof fn lemma_tokenize_roundtrip(bytes: Seq<u8>)
    ensures
        document_text(tokenized(bytes)) == bytes_text(bytes),
    decreases bytes.len(),
{
    reveal_strlit(" ");
    reveal_strlit("\n");
    if bytes.len() == 0 {
        let doc = tokenized(bytes);
        assert(doc.map_values(|line: Seq<Seq<char>>| join_words(line, " "@)) =~= seq![
            Seq::<char>::empty(),
        ]);
        assert(bytes_text(bytes) =~= Seq::<char>::empty());
    } else {
        let prev_bytes = bytes.drop_last();
        lemma_tokenize_roundtrip(prev_bytes);
        lemma_tokenized_shape(prev_bytes);
        let prev = tokenized(prev_bytes);
        let doc = tokenized(bytes);
        let b = bytes.last();
        let f = |line: Seq<Seq<char>>| join_words(line, " "@);
        let lines = prev.map_values(f);
        let new_lines = doc.map_values(f);
        assert(bytes_text(bytes) =~= bytes_text(prev_bytes).push(byte_char(b)));
        lemma_join_last(lines, "\n"@);
        let line = prev.last();
        if b == 10 {
            assert(new_lines =~= lines.push(Seq::<char>::empty()));
            lemma_join_last(new_lines, "\n"@);
            assert(new_lines.drop_last() =~= lines);
            assert(byte_char(b) == '\n');
            assert(document_text(doc) =~= document_text(prev) + "\n"@);
        } else if b == 32 {
            let new_line = line.push(Seq::<char>::empty());
            assert(new_lines =~= lines.update(lines.len() - 1, f(new_line)));
            lemma_join_last(new_lines, "\n"@);
            assert(new_lines.drop_last() =~= lines.drop_last());
            lemma_join_last(new_line, " "@);
            assert(new_line.drop_last() =~= line);
            assert(join_prefix(line, " "@) =~= join_words(line, " "@) + " "@);
            assert(byte_char(b) == ' ');
            assert(document_text(doc) =~= document_text(prev) + " "@);
        } else {
            let word = line.last();
            let new_line = line.update(line.len() - 1, word.push(byte_char(b)));
            assert(new_lines =~= lines.update(lines.len() - 1, f(new_line)));
            lemma_join_last(new_lines, "\n"@);
            assert(new_lines.drop_last() =~= lines.drop_last());
            lemma_join_last(new_line, " "@);
            lemma_join_last(line, " "@);
            assert(new_line.drop_last() =~= line.drop_last());
            assert(document_text(doc) =~= document_text(prev).push(byte_char(b)));
        }
    }
}

/// No word holds a space or a line end.
pub proof fn lemma_words_hold_no_separator(bytes: Seq<u8>)
    ensures
        forall|i: int, j: int, k: int|
            0 <= i < tokenized(bytes).len() && 0 <= j < tokenized(bytes)[i].len() && 0 <= k
                < tokenized(bytes)[i][j].len() ==> #[trigger] tokenized(bytes)[i][j][k] != ' '
                && tokenized(bytes)[i][j][k] != '\n',
    decreases bytes.len(),
{
    if bytes.len() > 0 {
        lemma_words_hold_no_separator(bytes.drop_last());
        lemma_tokenized_shape(bytes.drop_last());
        let b = bytes.last();
        assert(b != 10 && b != 32 ==> byte_char(b) != ' ' && byte_char(b) != '\n');
    }
}

/// Pushing onto a vector pushes the deep view of the item onto its deep view.
pub(crate) proof fn lemma_deep_view_push<T: DeepView>(before: Vec<T>, after: Vec<T>, item: T)
    requires
        after@ == before@.push(item),
    ensures
        after.deep_view() == before.deep_view().push(item.deep_view()),
{
    assert(after.deep_view() =~= before.deep_view().push(item.deep_view()));
}

/// An empty vector has an empty deep view.
pub(crate) proof fn lemma_deep_view_empty<T: DeepView>(v: Vec<T>)
    requires
        v@.len() == 0,
    ensures
        v.deep_view() == Seq::<T::V>::empty(),
{
    assert(v.deep_view() =~= Seq::<T::V>::empty());
}

/// Cuts the contents of a file into lines and the lines into words.
pub fn file_tokenize(file_buff: &[u8]) -> (parsed: ParsedSqlFile)
    ensures
        parsed.tokenized_data.deep_view() == tokenized(file_buff@),
{
    let mut document: Vec<Vec<String>> = Vec::new();
    let mut line: Vec<String> = Vec::new();
    let mut word = String::new();
    let n = file_buff.len();
    let mut i: usize = 0;
    proof {
        lemma_deep_view_empty(document);
        lemma_deep_view_empty(line);
        assert(file_buff@.take(0) =~= Seq::<u8>::empty());
        assert(document.deep_view() + seq![line.deep_view().push(word@)] =~~= tokenized(
            file_buff@.take(0),
        ));
    }
    while i < n
        invariant
            n == file_buff@.len(),
            i <= n,
            document.deep_view() + seq![line.deep_view().push(word@)] == tokenized(
                file_buff@.take(i as int),
            ),
        decreases n - i,
    {
        let c = file_buff[i];
        let ghost gdoc = document.deep_view();
        let ghost gline = line.deep_view();
        let ghost gword = word;
        proof {
            assert(file_buff@.take(i + 1).drop_last() =~= file_buff@.take(i as int));
            assert(file_buff@.take(i + 1).last() == c);
        }
        if c == 32 {
            let ghost old_line = line;
            line.push(word);
            proof {
                lemma_deep_view_push(old_line, line, gword);
            }
            word = String::new();
            assert(document.deep_view() + seq![line.deep_view().push(word@)] =~~= tokenized(
                file_buff@.take(i + 1),
            ));
        } else if c == 10 {
            let ghost old_line = line;
            line.push(word);
            proof {
                lemma_deep_view_push(old_line, line, gword);
            }
            let ghost old_doc = document;
            let ghost full_line = line;
            document.push(line);
            proof {
                lemma_deep_view_push(old_doc, document, full_line);
            }
            line = Vec::new();
            word = String::new();
            proof {
                lemma_deep_view_empty(line);
            }
            assert(document.deep_view() + seq![line.deep_view().push(word@)] =~~= tokenized(
                file_buff@.take(i + 1),
            ));
        } else {
            push_char(&mut word, char_of_byte(c));
            assert(document.deep_view() + seq![line.deep_view().push(word@)] =~~= tokenized(
                file_buff@.take(i + 1),
            ));
        }
        i = i + 1;
    }
    let ghost gword = word;
    let ghost old_line = line;
    line.push(word);
    proof {
        lemma_deep_view_push(old_line, line, gword);
    }
    let ghost old_doc = document;
    let ghost full_line = line;
    document.push(line);
    proof {
        lemma_deep_view_push(old_doc, document, full_line);
        assert(file_buff@.take(n as int) =~= file_buff@);
        assert(document.deep_view() =~~= tokenized(file_buff@));
    }
    ParsedSqlFile { tokenized_data: document }
}

// ----------------------------------------------------------------------------
// Reviewing a file
// ----------------------------------------------------------------------------
/// The message `m` when `broken`, else nothing.
#[verifier::inline]
pub open spec fn message_if(broken: bool, m: Seq<char>) -> Seq<Seq<char>> {
    if broken {
        seq![m]
    } else {
        seq![]
    }
}

/// The messages of the rules that a word breaks, in the order the rules are
/// checked, given the state after the word was interpreted.
pub open spec fn word_messages(s: StateModel, w: Seq<char>) -> Seq<Seq<char>> {
    message_if(cursor_used(s, w), msg_cursors())
        + message_if(table_unqualified(s, w), msg_qualify_tables())
        + message_if(select_star_used(s, w), msg_select_star())
        + message_if(declare_in_tran(s), msg_declare_in_tran())
        + message_if(function_in_where(s, w), msg_function_in_where())
        + message_if(nolock_used(s, w), msg_nolock())
        + message_if(select_in_tran(s, w), msg_select_in_tran())
}

/// The findings for the given messages at one word of one line.
pub open spec fn findings_at(
    messages: Seq<Seq<char>>,
    line: int,
    token: int,
    code: Seq<Seq<char>>,
) -> Seq<Finding> {
    messages.map_values(
        |m: Seq<char>| Finding { line, token_location: token, message: m, offending_code: code },
    )
}

/// The number of words that are not empty.
pub open spec fn count_nonempty(words: Seq<Seq<char>>) -> nat
    decreases words.len(),
{
    if words.len() == 0 {
        0
    } else {
        count_nonempty(words.drop_last()) + if words.last().len() == 0 {
            0nat
        } else {
            1nat
        }
    }
}

/// Where a walk over words has got to: the interpreter's state and what it found.
pub struct Scan {
    pub state: StateModel,
    pub findings: Seq<Finding>,
}

/// Walks the words of line number `line`, whose words are `code`, from `start`:
/// empty words are passed over; every other word completes the previous word's
/// closings, is interpreted, and is checked against every rule; words are
/// counted from 1, empty ones not counted.
pub open spec fn scan_line(
    start: StateModel,
    words: Seq<Seq<char>>,
    line: int,
    code: Seq<Seq<char>>,
) -> Scan
    decreases words.len(),
{
    if words.len() == 0 {
        Scan { state: start, findings: seq![] }
    } else {
        let prev = scan_line(start, words.drop_last(), line, code);
        let w = words.last();
        if w.len() == 0 {
            prev
        } else {
            let s = prev.state.finalized().interpreted(w, unicode_uppercase(w));
            Scan {
                state: s,
                findings: prev.findings + findings_at(
                    word_messages(s, w),
                    line,
                    count_nonempty(words) as int,
                    code,
                ),
            }
        }
    }
}

/// The state at the start of a line: no line comment.
pub open spec fn line_start(s: StateModel) -> StateModel {
    StateModel { line_comment: false, ..s }
}

/// Walks the first `n` lines of a document, numbered from 0.
pub open spec fn scan_lines(doc: Seq<Seq<Seq<char>>>, n: nat) -> Scan
    decreases n,
{
    if n == 0 {
        Scan { state: StateModel::initial(), findings: seq![] }
    } else {
        let prev = scan_lines(doc, (n - 1) as nat);
        let cur = scan_line(line_start(prev.state), doc[n - 1], n - 1, doc[n - 1]);
        Scan { state: cur.state, findings: prev.findings + cur.findings }
    }
}

/// Every finding of a document, in order, and at the end, when the last word
/// leaves a transaction open, the finding that says so.
pub open spec fn review(doc: Seq<Seq<Seq<char>>>) -> Seq<Finding> {
    let all = scan_lines(doc, doc.len());
    if all.state.in_transaction {
        all.findings.push(
            Finding {
                line: 0,
                token_location: 0,
                message: msg_tran_open(),
                offending_code: seq![],
            },
        )
    } else {
        all.findings
    }
}

/// The numbers fit in a byte: no line has more than 255 words that are not
/// empty, and no finding stands on a line past 255.
pub open spec fn review_fits(doc: Seq<Seq<Seq<char>>>) -> bool {
    &&& forall|i: int| 0 <= i < doc.len() ==> #[trigger] count_nonempty(doc[i]) <= 255
    &&& forall|k: int| 0 <= k < review(doc).len() ==> #[trigger] review(doc)[k].line <= 255
}

pub(crate) proof fn lemma_count_nonempty_take(words: Seq<Seq<char>>, j: int)
    requires
        0 <= j <= words.len(),
    ensures
        count_nonempty(words.take(j)) <= count_nonempty(words),
    decreases words.len(),
{
    if j < words.len() {
        assert(words.drop_last().take(j) =~= words.take(j));
        lemma_count_nonempty_take(words.drop_last(), j);
    } else {
        assert(words.take(j) =~= words);
    }
}

proof fn lemma_scan_line_prefix(
    start: StateModel,
    words: Seq<Seq<char>>,
    j: int,
    line: int,
    code: Seq<Seq<char>>,
)
    requires
        0 <= j <= words.len(),
    ensures
        scan_line(start, words.take(j), line, code).findings.is_prefix_of(
            scan_line(start, words, line, code).findings,
        ),
    decreases words.len(),
{
    if j < words.len() {
        assert(words.drop_last().take(j) =~= words.take(j));
        lemma_scan_line_prefix(start, words.drop_last(), j, line, code);
    } else {
        assert(words.take(j) =~= words);
    }
}

proof fn lemma_scan_lines_prefix(doc: Seq<Seq<Seq<char>>>, m: nat, n: nat)
    requires
        m <= n,
    ensures
        scan_lines(doc, m).findings.is_prefix_of(scan_lines(doc, n).findings),
    decreases n,
{
    if m < n {
        lemma_scan_lines_prefix(doc, m, (n - 1) as nat);
    }
}

/// A line end only ends a line comment: each line is walked from the state in
/// which the previous line ended, with the line comment lowered and every other
/// flag (an open select, a pending declaration, a condition) and every variable
/// kept; the findings of the line follow those of the lines before it.
pub proof fn lemma_line_end_ends_only_line_comment(doc: Seq<Seq<Seq<char>>>, n: nat)
    requires
        n < doc.len(),
    ensures
        ({
            let prev = scan_lines(doc, n);
            let cur = scan_line(
                StateModel { line_comment: false, ..prev.state },
                doc[n as int],
                n as int,
                doc[n as int],
            );
            scan_lines(doc, n + 1) == Scan {
                state: cur.state,
                findings: prev.findings + cur.findings,
            }
        }),
{
}

/// Words that are all empty change nothing and find nothing.
pub proof fn lemma_scan_blank_line(
    start: StateModel,
    words: Seq<Seq<char>>,
    line: int,
    code: Seq<Seq<char>>,
)
    requires
        forall|i: int| 0 <= i < words.len() ==> (#[trigger] words[i]).len() == 0,
    ensures
        scan_line(start, words, line, code) == (Scan { state: start, findings: seq![] }),
    decreases words.len(),
{
    if words.len() > 0 {
        lemma_scan_blank_line(start, words.drop_last(), line, code);
    }
}

/// A blank line lowers the line comment and keeps everything else: after it the
/// state is the one before it with no line comment, and it adds no finding.
pub proof fn lemma_blank_line_keeps_state(doc: Seq<Seq<Seq<char>>>, n: nat)
    requires
        n < doc.len(),
        forall|i: int| 0 <= i < doc[n as int].len() ==> (#[trigger] doc[n as int][i]).len() == 0,
    ensures
        scan_lines(doc, n + 1).state == (StateModel {
            line_comment: false,
            ..scan_lines(doc, n).state
        }),
        scan_lines(doc, n + 1).findings == scan_lines(doc, n).findings,
{
    let prev = scan_lines(doc, n);
    lemma_scan_blank_line(line_start(prev.state), doc[n as int], n as int, doc[n as int]);
    assert(prev.findings + seq![] =~= prev.findings);
}

/// The messages of the rules.
pub open spec fn is_rule_message(m: Seq<char>) -> bool {
    ||| m == msg_cursors()
    ||| m == msg_qualify_tables()
    ||| m == msg_select_star()
    ||| m == msg_declare_in_tran()
    ||| m == msg_function_in_where()
    ||| m == msg_nolock()
    ||| m == msg_select_in_tran()
    ||| m == msg_tran_open()
}

/// All the messages of a list are rule messages.
pub open spec fn all_rule_messages(ms: Seq<Seq<char>>) -> bool {
    forall|i: int| 0 <= i < ms.len() ==> is_rule_message(#[trigger] ms[i])
}

proof fn lemma_concat_rule_messages(a: Seq<Seq<char>>, b: Seq<Seq<char>>)
    requires
        all_rule_messages(a),
        all_rule_messages(b),
    ensures
        all_rule_messages(a + b),
{
    assert forall|i: int| 0 <= i < (a + b).len() implies is_rule_message(#[trigger] (a + b)[i]) by {
        if i >= a.len() {
            assert((a + b)[i] == b[i - a.len()]);
        }
    }
}

proof fn lemma_word_messages(s: StateModel, w: Seq<char>)
    ensures
        all_rule_messages(word_messages(s, w)),
{
    let p0 = message_if(cursor_used(s, w), msg_cursors());
    let p1 = message_if(table_unqualified(s, w), msg_qualify_tables());
    let p2 = message_if(select_star_used(s, w), msg_select_star());
    let p3 = message_if(declare_in_tran(s), msg_declare_in_tran());
    let p4 = message_if(function_in_where(s, w), msg_function_in_where());
    let p5 = message_if(nolock_used(s, w), msg_nolock());
    let p6 = message_if(select_in_tran(s, w), msg_select_in_tran());
    lemma_concat_rule_messages(p0, p1);
    lemma_concat_rule_messages(p0 + p1, p2);
    lemma_concat_rule_messages(p0 + p1 + p2, p3);
    lemma_concat_rule_messages(p0 + p1 + p2 + p3, p4);
    lemma_concat_rule_messages(p0 + p1 + p2 + p3 + p4, p5);
    lemma_concat_rule_messages(p0 + p1 + p2 + p3 + p4 + p5, p6);
    assert(p0 + p1 + p2 + p3 + p4 + p5 + p6 == word_messages(s, w));
}

/// Every finding of a line carries that line's number and words, a rule's
/// message, and the number of a word of the line that is not empty.
proof fn lemma_scan_line_place(
    start: StateModel,
    words: Seq<Seq<char>>,
    line: int,
    code: Seq<Seq<char>>,
)
    ensures
        forall|k: int|
            0 <= k < scan_line(start, words, line, code).findings.len() ==> {
                &&& #[trigger] scan_line(start, words, line, code).findings[k].line == line
                &&& scan_line(start, words, line, code).findings[k].offending_code == code
                &&& is_rule_message(scan_line(start, words, line, code).findings[k].message)
                &&& 1 <= scan_line(start, words, line, code).findings[k].token_location
                    <= count_nonempty(words)
            },
    decreases words.len(),
{
    if words.len() > 0 {
        lemma_scan_line_place(start, words.drop_last(), line, code);
        let prev = scan_line(start, words.drop_last(), line, code);
        let w = words.last();
        assert(count_nonempty(words) >= count_nonempty(words.drop_last()));
        if w.len() > 0 {
            let s = prev.state.finalized().interpreted(w, unicode_uppercase(w));
            lemma_word_messages(s, w);
            let extra = findings_at(word_messages(s, w), line, count_nonempty(words) as int, code);
            let all = prev.findings + extra;
            assert forall|k: int| 0 <= k < all.len() implies {
                &&& all[k].line == line
                &&& all[k].offending_code == code
                &&& is_rule_message(all[k].message)
                &&& 1 <= all[k].token_location <= count_nonempty(words)
            } by {
                if k >= prev.findings.len() {
                    assert(all[k] == extra[k - prev.findings.len()]);
                    assert(extra[k - prev.findings.len()].message == word_messages(s, w)[k
                        - prev.findings.len()]);
                    assert(is_rule_message(word_messages(s, w)[k - prev.findings.len()]));
                } else {
                    assert(all[k] == prev.findings[k]);
                    assert(prev.findings[k].line == line);
                }
            }
        }
    }
}

/// The findings of a line come in the order of their words.
proof fn lemma_scan_line_order(
    start: StateModel,
    words: Seq<Seq<char>>,
    line: int,
    code: Seq<Seq<char>>,
)
    ensures
        ({
            let f = scan_line(start, words, line, code).findings;
            forall|k1: int, k2: int|
                0 <= k1 <= k2 < f.len() ==> #[trigger] f[k1].token_location
                    <= #[trigger] f[k2].token_location
        }),
    decreases words.len(),
{
    if words.len() > 0 {
        lemma_scan_line_order(start, words.drop_last(), line, code);
        lemma_scan_line_place(start, words.drop_last(), line, code);
        let prev = scan_line(start, words.drop_last(), line, code);
        let w = words.last();
        if w.len() > 0 {
            let s = prev.state.finalized().interpreted(w, unicode_uppercase(w));
            let t = count_nonempty(words) as int;
            let extra = findings_at(word_messages(s, w), line, t, code);
            let all = prev.findings + extra;
            assert(count_nonempty(words) == count_nonempty(words.drop_last()) + 1);
            assert forall|k1: int, k2: int| 0 <= k1 <= k2 < all.len() implies #[trigger] all[k1].token_location
                <= #[trigger] all[k2].token_location by {
                if k2 >= prev.findings.len() {
                    assert(all[k2] == extra[k2 - prev.findings.len()]);
                    if k1 >= prev.findings.len() {
                        assert(all[k1] == extra[k1 - prev.findings.len()]);
                    } else {
                        assert(all[k1] == prev.findings[k1]);
                        assert(prev.findings[k1].line == line);
                        assert(prev.findings[k1].token_location <= count_nonempty(words.drop_last()));
                    }
                } else {
                    assert(all[k1] == prev.findings[k1]);
                    assert(all[k2] == prev.findings[k2]);
                }
            }
        }
    }
}

/// Every finding of a review stands where a rule was broken: the findings of
/// the words come in the order of their lines, and on one line in the order of
/// their words, each on a line of the document,
/// carrying that line's words and the number of one of its words that is not
/// empty; every finding carries a rule's message.
pub proof fn lemma_review_places(doc: Seq<Seq<Seq<char>>>)
    ensures
        forall|k: int|
            0 <= k < review(doc).len() ==> is_rule_message(#[trigger] review(doc)[k].message),
        ({
            let f = scan_lines(doc, doc.len()).findings;
            &&& f.is_prefix_of(review(doc))
            &&& forall|k: int|
                0 <= k < f.len() ==> {
                    &&& 0 <= #[trigger] f[k].line < doc.len()
                    &&& f[k].offending_code == doc[f[k].line]
                    &&& 1 <= f[k].token_location <= count_nonempty(doc[f[k].line])
                }
            &&& forall|k1: int, k2: int|
                0 <= k1 <= k2 < f.len() ==> #[trigger] f[k1].line <= #[trigger] f[k2].line
            &&& forall|k1: int, k2: int|
                0 <= k1 <= k2 < f.len() && f[k1].line == f[k2].line ==> #[trigger] f[k1].token_location
                    <= #[trigger] f[k2].token_location
        }),
{
    lemma_scan_lines_places(doc, doc.len());
    let f = scan_lines(doc, doc.len()).findings;
    assert forall|k: int| 0 <= k < review(doc).len() implies is_rule_message(
        #[trigger] review(doc)[k].message,
    ) by {
        if k < f.len() {
            assert(review(doc)[k] == f[k]);
            assert(0 <= f[k].line);
        } else {
            assert(review(doc)[k].message == msg_tran_open());
        }
    }
}

proof fn lemma_scan_lines_places(doc: Seq<Seq<Seq<char>>>, n: nat)
    requires
        n <= doc.len(),
    ensures
        ({
            let f = scan_lines(doc, n).findings;
            &&& forall|k: int|
                0 <= k < f.len() ==> {
                    &&& 0 <= #[trigger] f[k].line < n
                    &&& f[k].offending_code == doc[f[k].line]
                    &&& is_rule_message(f[k].message)
                    &&& 1 <= f[k].token_location <= count_nonempty(doc[f[k].line])
                }
            &&& forall|k1: int, k2: int|
                0 <= k1 <= k2 < f.len() ==> #[trigger] f[k1].line <= #[trigger] f[k2].line
            &&& forall|k1: int, k2: int|
                0 <= k1 <= k2 < f.len() && f[k1].line == f[k2].line ==> #[trigger] f[k1].token_location
                    <= #[trigger] f[k2].token_location
        }),
    decreases n,
{
    if n > 0 {
        lemma_scan_lines_places(doc, (n - 1) as nat);
        let prev = scan_lines(doc, (n - 1) as nat);
        let words = doc[n - 1];
        let cur = scan_line(line_start(prev.state), words, n - 1, words);
        lemma_scan_line_place(line_start(prev.state), words, n - 1, words);
        lemma_scan_line_order(line_start(prev.state), words, n - 1, words);
        let f = prev.findings + cur.findings;
        assert forall|k: int| 0 <= k < f.len() implies {
            &&& 0 <= #[trigger] f[k].line < n
            &&& f[k].offending_code == doc[f[k].line]
            &&& is_rule_message(f[k].message)
            &&& 1 <= f[k].token_location <= count_nonempty(doc[f[k].line])
        } by {
            if k >= prev.findings.len() {
                assert(f[k] == cur.findings[k - prev.findings.len()]);
                assert(cur.findings[k - prev.findings.len()].line == n - 1);
            } else {
                assert(f[k] == prev.findings[k]);
                assert(0 <= prev.findings[k].line < n - 1);
            }
        }
        assert forall|k1: int, k2: int| 0 <= k1 <= k2 < f.len() implies #[trigger] f[k1].line
            <= #[trigger] f[k2].line by {
            if k2 >= prev.findings.len() {
                assert(f[k2] == cur.findings[k2 - prev.findings.len()]);
                if k1 >= prev.findings.len() {
                    assert(f[k1] == cur.findings[k1 - prev.findings.len()]);
                } else {
                    assert(f[k1] == prev.findings[k1]);
                }
            } else {
                assert(f[k1] == prev.findings[k1]);
                assert(f[k2] == prev.findings[k2]);
            }
        }
        assert forall|k1: int, k2: int|
            0 <= k1 <= k2 < f.len() && f[k1].line == f[k2].line implies #[trigger] f[k1].token_location
            <= #[trigger] f[k2].token_location by {
            if k2 >= prev.findings.len() {
                assert(f[k2] == cur.findings[k2 - prev.findings.len()]);
                if k1 >= prev.findings.len() {
                    assert(f[k1] == cur.findings[k1 - prev.findings.len()]);
                } else {
                    assert(f[k1] == prev.findings[k1]);
                    assert(cur.findings[k2 - prev.findings.len()].line == n - 1);
                    assert(prev.findings[k1].line < n - 1);
                }
            } else {
                assert(f[k1] == prev.findings[k1]);
                assert(f[k2] == prev.findings[k2]);
            }
        }
    }
}

/// A finding on a line past 255 keeps the document from fitting.
proof fn lemma_finding_past_byte(doc: Seq<Seq<Seq<char>>>, line: nat, j: int)
    requires
        line < doc.len(),
        line > 255,
        0 <= j <= doc[line as int].len(),
        scan_line(
            line_start(scan_lines(doc, line).state),
            doc[line as int].take(j),
            line as int,
            doc[line as int],
        ).findings.len() > 0,
    ensures
        !review_fits(doc),
{
    let words = doc[line as int];
    let start = line_start(scan_lines(doc, line).state);
    let part = scan_line(start, words.take(j), line as int, words).findings;
    let full = scan_line(start, words, line as int, words).findings;
    lemma_scan_line_place(start, words.take(j), line as int, words);
    lemma_scan_line_prefix(start, words, j, line as int, words);
    assert(part[0] == full[0]);
    let upto = scan_lines(doc, line + 1);
    let at = scan_lines(doc, line).findings.len();
    assert(upto.findings[at as int] == full[0]);
    lemma_scan_lines_prefix(doc, line + 1, doc.len());
    let all = scan_lines(doc, doc.len()).findings;
    assert(all[at as int] == full[0]);
    assert(review(doc)[at as int] == all[at as int]);
    assert(review(doc)[at as int].line > 255);
}

/// Copies the words of a line.
pub(crate) fn clone_words(words: &Vec<String>) -> (res: Vec<String>)
    ensures
        res.deep_view() == words.deep_view(),
{
    let mut res: Vec<String> = Vec::new();
    let n = words.len();
    let mut i: usize = 0;
    while i < n
        invariant
            n == words@.len(),
            i <= n,
            res@.len() == i,
            forall|k: int| 0 <= k < i ==> #[trigger] res@[k]@ == words@[k]@,
        decreases n - i,
    {
        res.push(words[i].clone());
        i = i + 1;
    }
    assert(res.deep_view() =~= words.deep_view());
    res
}

/// Pushes a message onto a list of messages.
fn push_message(messages: &mut Vec<String>, m: &str)
    ensures
        final(messages).deep_view() == old(messages).deep_view().push(m@),
{
    let ghost before = *messages;
    let s = String::from_str(m);
    messages.push(s);
    proof {
        lemma_deep_view_push(before, *messages, s);
    }
}

/// The messages of the rules that a word breaks, in the order the rules are checked.
fn word_messages_of(state: &FileState, word: &str) -> (messages: Vec<String>)
    ensures
        messages.deep_view() == word_messages(state@, word@),
{
    let ghost s = state@;
    let ghost w = word@;
    let mut messages: Vec<String> = Vec::new();
    proof {
        lemma_deep_view_empty(messages);
    }
    let ghost before = messages.deep_view();
    if Rules::no_cursors(state, word) {
        push_message(&mut messages, "Do not use CURSORS, prefer while loops with counters");
    }
    assert(messages.deep_view() =~= before + message_if(cursor_used(s, w), msg_cursors()));
    let ghost before = messages.deep_view();
    if Rules::must_qualify_tables(state, word) {
        push_message(&mut messages, "Fully qualify tables");
    }
    assert(messages.deep_view() =~= before + message_if(
        table_unqualified(s, w),
        msg_qualify_tables(),
    ));
    let ghost before = messages.deep_view();
    if Rules::no_select_star(state, word) {
        push_message(&mut messages, "Do not use * in select list, specify columns");
    }
    assert(messages.deep_view() =~= before + message_if(select_star_used(s, w), msg_select_star()));
    let ghost before = messages.deep_view();
    if Rules::no_delcare_in_tran(state, word) {
        push_message(&mut messages, "Do not declare variables in transaction");
    }
    assert(messages.deep_view() =~= before + message_if(declare_in_tran(s), msg_declare_in_tran()));
    let ghost before = messages.deep_view();
    if Rules::no_function_in_where(state, word) {
        push_message(
            &mut messages,
            "Do not use functions in where clauses, cache functions as variables first",
        );
    }
    assert(messages.deep_view() =~= before + message_if(
        function_in_where(s, w),
        msg_function_in_where(),
    ));
    let ghost before = messages.deep_view();
    if Rules::no_nolock(state, word) {
        push_message(&mut messages, "Do not use NOLOCK");
    }
    assert(messages.deep_view() =~= before + message_if(nolock_used(s, w), msg_nolock()));
    let ghost before = messages.deep_view();
    if Rules::no_select_in_tran(state, word) {
        push_message(&mut messages, "Do not run select statements in transaction");
    }
    assert(messages.deep_view() =~= before + message_if(
        select_in_tran(s, w),
        msg_select_in_tran(),
    ));
    assert(messages.deep_view() =~= word_messages(state@, word@));
    messages
}

/// Reviews one word, the `token`-th that is not empty on line `line_number`:
/// completes the previous word's closings, interprets the word, and pushes a
/// violation for every rule it breaks. `false` when it breaks one on a line
/// past 255, whose number a violation cannot hold.
fn review_word(
    state: &mut FileState,
    violations: &mut Vec<Violation>,
    word: &String,
    line: &Vec<String>,
    line_number: usize,
    token: u8,
) -> (ok: bool)
    requires
        old(state)@.wf(),
    ensures
        ({
            let s = old(state)@.finalized().interpreted(word@, unicode_uppercase(word@));
            if ok {
                &&& final(state)@ == s
                &&& s.wf()
                &&& violations_view(final(violations)@) == violations_view(old(violations)@)
                    + findings_at(
                    word_messages(s, word@),
                    line_number as int,
                    token as int,
                    line.deep_view(),
                )
            } else {
                line_number > 255 && word_messages(s, word@).len() > 0
            }
        }),
{
    FileState::finalize_closing_flags(state);
    proof {
        lemma_interpret_keeps_wf(old(state)@, word@, unicode_uppercase(word@));
        lemma_interpret_keeps_wf(state@, word@, unicode_uppercase(word@));
    }
    QueruParser::interpret(state, word.as_str());
    let messages = word_messages_of(state, word.as_str());
    if messages.len() > 0 && line_number > 255 {
        return false;
    }
    let ghost found = findings_at(
        word_messages(state@, word@),
        line_number as int,
        token as int,
        line.deep_view(),
    );
    let k_total = messages.len();
    let mut k: usize = 0;
    let ghost base = violations_view(violations@);
    assert(found.take(0) =~= Seq::<Finding>::empty());
    assert(base + found.take(0) =~= base);
    while k < k_total
        invariant
            k <= k_total,
            k_total == messages@.len(),
            messages.deep_view() == word_messages(state@, word@),
            found == findings_at(
                word_messages(state@, word@),
                line_number as int,
                token as int,
                line.deep_view(),
            ),
            k_total > 0 ==> line_number <= 255,
            violations_view(violations@) == base + found.take(k as int),
        decreases k_total - k,
    {
        let ghost before = violations@;
        let v = Violation::new(line_number as u8, token, clone_words(line), messages[k].clone());
        violations.push(v);
        proof {
            assert(messages.deep_view()[k as int] == messages@[k as int]@);
            assert(violations_view(violations@) =~= violations_view(before).push(v@));
            assert(found.take(k + 1) =~= found.take(k as int).push(found[k as int]));
        }
        k = k + 1;
    }
    assert(found.take(k_total as int) =~= found);
    true
}

/// Reviews one line, starting with no line comment. `false` when the line has
/// more than 255 words that are not empty, or breaks a rule past line 255.
fn review_line(
    state: &mut FileState,
    violations: &mut Vec<Violation>,
    line: &Vec<String>,
    line_number: usize,
) -> (ok: bool)
    requires
        old(state)@.wf(),
    ensures
        ({
            let words = line.deep_view();
            let scan = scan_line(line_start(old(state)@), words, line_number as int, words);
            if ok {
                &&& final(state)@ == scan.state
                &&& final(state)@.wf()
                &&& violations_view(final(violations)@) == violations_view(old(violations)@)
                    + scan.findings
                &&& count_nonempty(words) <= 255
            } else {
                count_nonempty(words) > 255 || (line_number > 255 && scan.findings.len() > 0)
            }
        }),
{
    let ghost words = line.deep_view();
    let ghost base = violations_view(violations@);
    FileState::clear_line_comment(state);
    let ghost start = state@;
    assert(start == line_start(old(state)@));
    let m = line.len();
    let mut token_number: u8 = 0;
    let mut j: usize = 0;
    assert(words.take(0) =~= Seq::<Seq<char>>::empty());
    assert(base + scan_line(start, words.take(0), line_number as int, words).findings =~= base);
    while j < m
        invariant
            words == line.deep_view(),
            start == line_start(old(state)@),
            base == violations_view(old(violations)@),
            m == words.len(),
            j <= m,
            state@ == scan_line(start, words.take(j as int), line_number as int, words).state,
            state@.wf(),
            token_number as nat == count_nonempty(words.take(j as int)),
            violations_view(violations@) == base + scan_line(
                start,
                words.take(j as int),
                line_number as int,
                words,
            ).findings,
        decreases m - j,
    {
        let word = &line[j];
        proof {
            assert(words.take(j + 1).drop_last() =~= words.take(j as int));
            assert(words.take(j + 1).last() == word@);
        }
        if !word.as_str().is_empty() {
            if token_number == 255 {
                proof {
                    lemma_count_nonempty_take(words, j + 1);
                }
                return false;
            }
            token_number = token_number + 1;
            let ghost prev = violations_view(violations@);
            let ghost before = state@;
            if !review_word(state, violations, word, line, line_number, token_number) {
                proof {
                    let s = before.finalized().interpreted(word@, unicode_uppercase(word@));
                    let extra = findings_at(
                        word_messages(s, word@),
                        line_number as int,
                        token_number as int,
                        words,
                    );
                    assert(extra.len() > 0);
                    assert(scan_line(start, words.take(j + 1), line_number as int, words).findings
                        == scan_line(start, words.take(j as int), line_number as int, words).findings
                        + extra);
                    lemma_scan_line_prefix(start, words, j + 1, line_number as int, words);
                }
                return false;
            }
            assert(violations_view(violations@) =~= base + scan_line(
                start,
                words.take(j + 1),
                line_number as int,
                words,
            ).findings);
        }
        j = j + 1;
    }
    assert(words.take(m as int) =~= words);
    true
}

/// Reviews a document, or says that its numbers do not fit in a byte: then
/// `None`, where `review_file` would stop on a line or word number past 255.
pub fn try_review_file(file_to_review: ParsedSqlFile) -> (res: Option<Vec<Violation>>)
    ensures
        res is None <==> !review_fits(file_to_review.tokenized_data.deep_view()),
        res matches Some(v) ==> violations_view(v@) == review(
            file_to_review.tokenized_data.deep_view(),
        ),
{
    let ghost doc = file_to_review.tokenized_data.deep_view();
    let lines = &file_to_review.tokenized_data;
    let n = lines.len();
    let mut violations: Vec<Violation> = Vec::new();
    let mut state = FileState::new();
    let mut line_number: usize = 0;
    assert(violations_view(violations@) =~= Seq::<Finding>::empty());
    while line_number < n
        invariant
            n == lines@.len(),
            doc == lines.deep_view(),
            doc == file_to_review.tokenized_data.deep_view(),
            line_number <= n,
            state@ == scan_lines(doc, line_number as nat).state,
            state@.wf(),
            violations_view(violations@) == scan_lines(doc, line_number as nat).findings,
            forall|i: int| 0 <= i < line_number ==> #[trigger] count_nonempty(doc[i]) <= 255,
        decreases n - line_number,
    {
        let line = &lines[line_number];
        assert(doc[line_number as int] == line.deep_view());
        if !review_line(&mut state, &mut violations, line, line_number) {
            proof {
                if count_nonempty(doc[line_number as int]) <= 255 {
                    assert(doc[line_number as int].take(doc[line_number as int].len() as int)
                        =~= doc[line_number as int]);
                    lemma_finding_past_byte(
                        doc,
                        line_number as nat,
                        doc[line_number as int].len() as int,
                    );
                } else {
                    assert(!(count_nonempty(doc[line_number as int]) <= 255));
                }
                assert(!review_fits(doc));
            }
            return None;
        }
        line_number = line_number + 1;
    }
    if Rules::left_tran_open(&state, "") {
        let ghost before = violations@;
        let v = Violation::new(
            0,
            0,
            Vec::new(),
            String::from_str("Transaction left open at end of file"),
        );
        violations.push(v);
        proof {
            assert(v@.offending_code =~= Seq::<Seq<char>>::empty());
            assert(violations_view(violations@) =~= violations_view(before).push(v@));
        }
    }
    assert(violations_view(violations@) == review(doc));
    assert forall|k: int| 0 <= k < review(doc).len() implies #[trigger] review(doc)[k].line
        <= 255 by {
        assert(review(doc)[k] == violations@[k]@);
    }
    Some(violations)
}

/// Reviews a document: walks every word of every line and reports each rule
/// broken, and at the end a transaction left open.
pub fn review_file(file_to_review: ParsedSqlFile) -> (violations: Vec<Violation>)
    requires
        review_fits(file_to_review.tokenized_data.deep_view()),
    ensures
        violations_view(violations@) == review(file_to_review.tokenized_data.deep_view()),
{
    match try_review_file(file_to_review) {
        Some(v) => v,
        None => {
            assert(false);
            Vec::new()
        },
    }
}

} // verus!
