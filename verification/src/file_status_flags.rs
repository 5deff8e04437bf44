//! The first, smaller set of flags: comments and selects only.
use vstd::prelude::*;
use vstd::utf8::is_ascii_chars;

use crate::parsing::{classify_keyword, keyword_of, lemma_keyword_literals, Keyword};
use crate::text::{
    ascii_upper,
    seq_has_char, seq_starts_with, str_contains_char, str_starts_with, to_uppercase,
    unicode_uppercase,
};

verus! {

/// Whether the reader is in a comment or a select.
#[derive(Debug, Default)]
pub struct FileStatusFlags {
    pub line_comment: bool,
    pub block_comment: bool,
    pub closing_block_comment: bool,
    pub closing_select: bool,
    pub select: bool,
}

impl FileStatusFlags {
    pub open spec fn in_comment_spec(self) -> bool {
        self.line_comment || self.block_comment || self.closing_block_comment
    }

    /// Completes the closings that the previous word announced.
    pub open spec fn finalized(self) -> FileStatusFlags {
        FileStatusFlags {
            closing_block_comment: false,
            block_comment: self.block_comment && !self.closing_block_comment,
            closing_select: false,
            select: self.select && !self.closing_select,
            ..self
        }
    }

    /// The flags after reading `word`, whose upper case is `up`: a leading `--`
    /// opens a line comment and a `;` closes the select, then the keywords
    /// `--`, `/*`, `*/`, `SELECT` (outside a comment), `;` and `GO` act.
    pub open spec fn flags_set(self, word: Seq<char>, up: Seq<char>) -> FileStatusFlags {
        let m = FileStatusFlags {
            line_comment: self.line_comment || seq_starts_with(word, "--"@),
            closing_select: self.closing_select || seq_has_char(word, ';'),
            ..self
        };
        match keyword_of(up) {
            Keyword::LineComment => FileStatusFlags {
                line_comment: true,
                closing_select: true,
                ..m
            },
            Keyword::BlockCommentOpen => FileStatusFlags { block_comment: true, ..m },
            Keyword::BlockCommentClose => FileStatusFlags { closing_block_comment: true, ..m },
            Keyword::Select => FileStatusFlags { select: m.select || !m.in_comment_spec(), ..m },
            Keyword::Semicolon | Keyword::Go => FileStatusFlags { closing_select: true, ..m },
            _ => m,
        }
    }

    /// Inside a line comment, a block comment, or the word that closes one.
    pub fn in_comment(&self) -> (res: bool)
        ensures
            res == self.in_comment_spec(),
    {
        self.line_comment || self.block_comment || self.closing_block_comment
    }

    /// Completes the closings that the previous word announced.
    pub fn finalize_closing_flags(&mut self)
        ensures
            *final(self) == old(self).finalized(),
    {
        *self = FileStatusFlags {
            closing_block_comment: false,
            block_comment: self.block_comment && !self.closing_block_comment,
            closing_select: false,
            select: self.select && !self.closing_select,
            ..*self
        };
    }

    /// Reads `word`, given `upper_word`, its upper case, and sets the flags it calls for.
    pub fn set_flags_keyword(&mut self, word: &str, upper_word: &str)
        ensures
            *final(self) == old(self).flags_set(word@, upper_word@),
    {
        let dashes = str_starts_with(word, "--");
        let semicolon = str_contains_char(word, ';');
        *self = FileStatusFlags {
            line_comment: self.line_comment || dashes,
            closing_select: self.closing_select || semicolon,
            ..*self
        };
        let in_comment = self.in_comment();
        let next = match classify_keyword(upper_word) {
            Keyword::LineComment => FileStatusFlags {
                line_comment: true,
                closing_select: true,
                ..*self
            },
            Keyword::BlockCommentOpen => FileStatusFlags { block_comment: true, ..*self },
            Keyword::BlockCommentClose => FileStatusFlags { closing_block_comment: true, ..*self },
            Keyword::Select => FileStatusFlags { select: self.select || !in_comment, ..*self },
            Keyword::Semicolon | Keyword::Go => FileStatusFlags { closing_select: true, ..*self },
            _ => FileStatusFlags { ..*self },
        };
        *self = next;
    }

    /// Reads one word of a file and sets the flags it calls for.
    pub fn set_flags(&mut self, word: &str)
        ensures
            *final(self) == old(self).flags_set(word@, unicode_uppercase(word@)),
            is_ascii_chars(word@) ==> *final(self) == old(self).flags_set(word@, ascii_upper(word@)),
    {
        let upper = to_uppercase(word);
        self.set_flags_keyword(word, upper.as_str());
    }
}

/// A block comment ends at `*/`: outside a line comment, once the closing is
/// completed no comment is open, and a `SELECT` that follows opens a select.
pub proof fn lemma_status_block_comment_ends(
    f: FileStatusFlags,
    w: Seq<char>,
    next: Seq<char>,
)
    requires
        !f.line_comment,
        !seq_starts_with(w, "--"@),
        !seq_starts_with(next, "--"@),
    ensures
        !f.flags_set(w, "*/"@).finalized().in_comment_spec(),
        f.flags_set(w, "*/"@).finalized().flags_set(next, "SELECT"@).select,
{
    lemma_keyword_literals();
}

/// A block comment starts at `/*`: unless a closing is still pending, it stays
/// open after the closings are completed, and a `SELECT` inside it leaves the
/// select flag as it was.
pub proof fn lemma_status_block_comment_starts(
    f: FileStatusFlags,
    w: Seq<char>,
    next: Seq<char>,
)
    requires
        !f.closing_block_comment,
    ensures
        f.flags_set(w, "/*"@).finalized().in_comment_spec(),
        f.flags_set(w, "/*"@).finalized().flags_set(next, "SELECT"@).select == f.flags_set(
            w,
            "/*"@,
        ).finalized().select,
{
    lemma_keyword_literals();
}

/// A word that starts with `--`, or the word `--`, opens a line comment; a word
/// holding `;`, the word `;`, `GO` and `--` end the select once their closings
/// are completed.
pub proof fn lemma_status_select_enders(f: FileStatusFlags, w: Seq<char>, up: Seq<char>)
    ensures
        (seq_starts_with(w, "--"@) || up == "--"@) ==> f.flags_set(w, up).line_comment,
        (seq_has_char(w, ';') || up == ";"@ || up == "GO"@ || up == "--"@) ==> !f.flags_set(
            w,
            up,
        ).finalized().select,
{
    lemma_keyword_literals();
}

} // verus!
