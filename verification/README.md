# sql_parser

A linter for T-SQL files, verified with Verus.

A file's bytes are cut into lines (at byte 10) and words (at byte 32). A
flag-based interpreter walks the words: it tracks comments, selects, `FROM`
clauses, `WHERE` conditions, transactions and `DECLARE` statements. After each
word the rules are checked, and every rule broken is reported with its line,
its word number and the words of its line.

Layout:

- `src/lib.rs`: cutting a file into lines and words, and reviewing a whole file;
  the laws of both.
- `src/parsing.rs`: the interpreter's state (`FileState`), its mathematical model
  and how one word changes it.
- `src/linting.rs`: the rules (`Rules`) and the violations they report.
- `src/queru_parser.rs`, `src/sql_rule.rs`, `src/sql_rules.rs`, `src/violation.rs`,
  `src/program.rs`: the command line's own pipeline, with a parser that carries
  its flags and variables and with rules as objects.
- `src/file_status_flags.rs`: the smaller set of flags for comments and selects.
- `src/text.rs`: character-level helpers, each specified over `Seq<char>`.
- `app/main.rs`: the command line; it reads the files and prints what it finds.
