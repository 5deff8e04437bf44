use sql_parser::file_status_flags::FileStatusFlags;
use sql_parser::linting::{Rules, Violation};
use sql_parser::parsing::{FileState, ParsedSqlFile, QueruParser, Variable};
use sql_parser::program;
use sql_parser::queru_parser;
use sql_parser::sql_rule::SqlRule;
use sql_parser::sql_rules::{LeftOpenTran, NoNoLock, NoSelectInTran, NoSelectStar};
use sql_parser::{file_tokenize, review_file, try_review_file};

fn words(line: &[&str]) -> Vec<String> {
    line.iter().map(|w| w.to_string()).collect()
}

fn lint(sql: &str) -> Vec<Violation> {
    review_file(file_tokenize(sql.as_bytes()))
}

fn interpret_all(state: &mut FileState, text: &str) {
    for w in text.split(' ') {
        if !w.is_empty() {
            FileState::finalize_closing_flags(state);
            QueruParser::interpret(state, w);
        }
    }
}

#[test]
fn tokenize_splits_lines_and_words() {
    let parsed = file_tokenize(b"SELECT a\nFROM t");
    assert_eq!(parsed.tokenized_data, vec![words(&["SELECT", "a"]), words(&["FROM", "t"])]);
}

#[test]
fn tokenize_keeps_empty_words_and_lines() {
    let parsed = file_tokenize(b"a  b\n");
    assert_eq!(parsed.tokenized_data, vec![words(&["a", "", "b"]), words(&[""])]);
    let empty = file_tokenize(b"");
    assert_eq!(empty.tokenized_data, vec![words(&[""])]);
}

#[test]
fn tokenize_reads_each_byte_as_a_character() {
    let parsed = file_tokenize(&[0x63, 0x61, 0x66, 0xE9]);
    assert_eq!(parsed.tokenized_data, vec![words(&["caf\u{e9}"])]);
}

#[test]
fn tokenize_roundtrip_on_example() {
    let text = "BEGIN TRAN\nSELECT  * FROM dbo.T\n\nCOMMIT TRAN\n";
    let parsed = file_tokenize(text.as_bytes());
    let joined: Vec<String> = parsed.tokenized_data.iter().map(|l| l.join(" ")).collect();
    assert_eq!(joined.join("\n"), text);
}

#[test]
fn clean_str_removes_one_semicolon_and_two_quotes() {
    assert_eq!(QueruParser::clean_str("'a;b;'c'").as_str(), "ab;c'");
    assert_eq!(QueruParser::clean_str("plain").as_str(), "plain");
}

#[test]
fn interpret_reads_keywords_in_any_case() {
    let mut state = FileState::new();
    QueruParser::interpret(&mut state, "select");
    assert!(state.select);
    QueruParser::interpret(&mut state, "from");
    assert!(state.from);
}

#[test]
fn interpret_keyword_uses_given_upper_case() {
    let mut state = FileState::new();
    QueruParser::interpret_keyword(&mut state, "whatever", "BEGIN");
    assert!(state.begin);
    QueruParser::interpret_keyword(&mut state, "whatever", "TRAN");
    assert!(state.in_transaction);
    assert!(!state.begin);
}

#[test]
fn interpret_records_declared_variables() {
    let mut state = FileState::new();
    interpret_all(&mut state, "DECLARE @total int = 5;");
    assert_eq!(state.vars.len(), 1);
    assert_eq!(state.vars[0].variable_name.as_str(), "@total");
    assert_eq!(state.vars[0].variable_type.as_str(), "int");
    assert_eq!(state.vars[0].initial_value.as_str(), "5");
    interpret_all(&mut state, "DECLARE @name varchar 'bob'");
    assert_eq!(state.vars.len(), 2);
    assert_eq!(state.vars[1].initial_value.as_str(), "bob");
}

#[test]
fn interpret_semicolon_leaves_initial_value_empty() {
    let mut state = FileState::new();
    interpret_all(&mut state, "DECLARE @y int ;");
    assert_eq!(state.vars.len(), 1);
    assert_eq!(state.vars[0].variable_type.as_str(), "int");
    assert_eq!(state.vars[0].initial_value.as_str(), "");
    assert!(!state.check_var_initial_value);
}

#[test]
fn interpret_tracks_transactions() {
    let mut state = FileState::new();
    interpret_all(&mut state, "BEGIN TRANSACTION");
    assert!(state.in_transaction);
    interpret_all(&mut state, "COMMIT TRAN");
    assert!(!state.in_transaction);
    assert!(!state.commit);
}

#[test]
fn interpret_walks_where_clause() {
    let mut state = FileState::new();
    interpret_all(&mut state, "WHERE a");
    assert!(state.where_clause_left_assignment);
    interpret_all(&mut state, ">");
    assert!(state.where_clause_operand);
    interpret_all(&mut state, "b");
    assert!(state.where_clause_right_assignment);
    interpret_all(&mut state, "c");
    assert!(!state.where_clause_right_assignment);
}

#[test]
fn interpret_ignores_select_in_comment() {
    let mut state = FileState::new();
    interpret_all(&mut state, "/* SELECT");
    assert!(state.block_comment);
    assert!(!state.select);
}

#[test]
fn finalize_and_close_statement() {
    let mut state = FileState::new();
    state.closing_block_comment = true;
    state.block_comment = true;
    state.closing_select = true;
    state.select = true;
    state.from_table = true;
    FileState::finalize_closing_flags(&mut state);
    assert!(!state.block_comment && !state.closing_block_comment);
    assert!(!state.select && !state.closing_select && !state.from_table);
    state.declare = true;
    state.select = true;
    FileState::close_statement_flags(&mut state);
    assert!(!state.declare && !state.select && !state.check_datatype);
    assert!(FileState::in_comment(&FileState::default()) == false);
}

#[test]
fn file_state_shows_flags_as_bits() {
    let mut state = FileState::new();
    assert_eq!(state.to_string().as_str(), "[0000000000000000]");
    state.line_comment = true;
    state.commit = true;
    assert_eq!(state.to_string().as_str(), "[1000000000000001]");
}

#[test]
fn violation_shows_line_token_message_and_code() {
    let v = Violation::new(3, 12, words(&["SELECT", "*"]), "Do not use NOLOCK".to_string());
    assert_eq!(v.to_string().as_str(), "Line 3, Token 12: Do not use NOLOCK\n\"SELECT *\"");
    let q = Violation::new(255, 0, words(&["say", "\"hi\""]), "m".to_string());
    assert_eq!(q.to_string().as_str(), "Line 255, Token 0: m\n\"say \\\"hi\\\"\"");
}

#[test]
fn rules_check_flags_and_word() {
    let mut state = FileState::new();
    assert!(!Rules::no_select_star(&state, "*"));
    state.select = true;
    assert!(Rules::no_select_star(&state, "*"));
    assert!(Rules::no_nolock(&state, "(nolock)"));
    assert!(Rules::no_nolock(&state, "NOLOCK"));
    assert!(!Rules::no_nolock(&state, "LOCK"));
    assert!(!Rules::no_select_in_tran(&state, "select"));
    state.in_transaction = true;
    assert!(Rules::no_select_in_tran(&state, "select"));
    assert!(Rules::left_tran_open(&state, ""));
    assert!(!Rules::no_delcare_in_tran(&state, "x"));
    state.declare = true;
    assert!(Rules::no_delcare_in_tran(&state, "x"));
    assert!(!Rules::no_function_in_where(&state, "f()"));
    state.where_clause_operand = true;
    assert!(Rules::no_function_in_where(&state, "f()"));
    assert!(!Rules::no_function_in_where(&state, "f"));
    assert!(Rules::no_cursors(&state, "cursor"));
    state.from_table = true;
    assert!(Rules::must_qualify_tables(&state, "Orders"));
    assert!(!Rules::must_qualify_tables(&state, "dbo.Orders"));
    let v = Rules {}.left_tran_open_violation(0, 0, Vec::new());
    assert_eq!(v.violation_string.as_str(), "Transaction left open at end of file");
}

#[test]
fn review_numbers_lines_from_zero_and_skips_empty_words() {
    let violations = lint("-- header\nSELECT  * FROM dbo.T");
    assert_eq!(violations.len(), 1);
    assert_eq!(violations[0].line, 1);
    assert_eq!(violations[0].token_location, 2);
    assert_eq!(violations[0].offending_code, words(&["SELECT", "", "*", "FROM", "dbo.T"]));
}

#[test]
fn review_reports_in_order_and_open_transaction_last() {
    let violations = lint("BEGIN TRAN\nSELECT * FROM Orders");
    let found: Vec<(u8, u8, &str)> = violations
        .iter()
        .map(|v| (v.line, v.token_location, v.violation_string.as_str()))
        .collect();
    assert_eq!(
        found,
        vec![
            (1, 1, "Do not run select statements in transaction"),
            (1, 2, "Do not use * in select list, specify columns"),
            (1, 4, "Fully qualify tables"),
            (0, 0, "Transaction left open at end of file"),
        ]
    );
    assert!(violations[3].offending_code.is_empty());
}

#[test]
fn review_ignores_comments() {
    assert_eq!(lint("-- SELECT *").len(), 0);
    assert_eq!(lint("/* SELECT * */").len(), 0);
}

#[test]
fn try_review_refuses_too_many_words() {
    let line = vec!["x"; 256].join(" ");
    assert!(try_review_file(file_tokenize(line.as_bytes())).is_none());
    let fits = vec!["x"; 255].join(" ");
    assert_eq!(try_review_file(file_tokenize(fits.as_bytes())).map(|v| v.len()), Some(0));
}

#[test]
fn try_review_refuses_finding_past_line_255() {
    let mut text = "\n".repeat(256);
    text.push_str("SELECT *");
    assert!(try_review_file(file_tokenize(text.as_bytes())).is_none());
    let mut quiet = "\n".repeat(300);
    quiet.push_str("x");
    assert_eq!(try_review_file(file_tokenize(quiet.as_bytes())).map(|v| v.len()), Some(0));
}

#[test]
fn parsed_file_and_variable_defaults() {
    let p = ParsedSqlFile::default();
    assert!(p.tokenized_data.is_empty());
    let v = Variable::new("@a".to_string());
    assert_eq!(v.variable_name.as_str(), "@a");
    assert!(v.variable_type.is_empty() && v.initial_value.is_empty());
}

#[test]
fn program_tokenize_counts() {
    let parsed = program::file_tokenize(b"SELECT a\nFROM t\n");
    assert_eq!(parsed.lines, 2);
    assert_eq!(parsed.tokens, 2);
    assert_eq!(parsed.characters, 16);
    assert_eq!(parsed.tokenized_data.len(), 3);
}

#[test]
fn program_review_runs_rule_objects() {
    let v = program::review_file(program::file_tokenize(b"BEGIN TRAN\nSELECT * FROM t WITH (NOLOCK)"));
    let found: Vec<(u8, u8, &str)> =
        v.iter().map(|x| (x.line, x.token_location, x.violation_string.as_str())).collect();
    assert_eq!(
        found,
        vec![
            (2, 1, "Do not run select statements in transaction"),
            (2, 2, "Do not use * in select list, specify columns"),
            (2, 6, "Do not use NOLOCK"),
            (0, 0, "Transaction left open at end of file"),
        ]
    );
    let lower = program::review_file(program::file_tokenize(b"select x with (nolock)"));
    assert_eq!(lower.len(), 0);
}

#[test]
fn rule_objects_check_and_report() {
    let mut flags = queru_parser::FileStateflags::default();
    assert!(!NoSelectStar {}.check(&flags, "*"));
    flags.select = true;
    assert!(NoSelectStar {}.check(&flags, "*"));
    assert!(NoNoLock {}.check(&flags, "(NOLOCK)"));
    assert!(!NoNoLock {}.check(&flags, "(nolock)"));
    flags.in_transaction = true;
    assert!(NoSelectInTran {}.check(&flags, "SELECT"));
    assert!(LeftOpenTran {}.check(&flags, ""));
    let v = NoNoLock {}.get_violation(4, 5, words(&["a"]));
    assert_eq!((v.line, v.token_location), (4, 5));
    assert_eq!(v.violation_string.as_str(), "Do not use NOLOCK");
    assert_eq!(v.to_string().as_str(), "Line 4, Token 5: Do not use NOLOCK\n\"a\"");
}

#[test]
fn queru_parser_sets_flags() {
    let mut p = queru_parser::QueruParser::default();
    for w in ["BEGIN", "tran", "DECLARE", "@v", "int", "'7';"] {
        p.finalize_closing_flags();
        p.set_flags(w);
    }
    assert!(p.flags.in_transaction);
    assert_eq!(p.vars.len(), 1);
    assert_eq!(p.vars[0].initial_value.as_str(), "7");
    p.set_flags("END");
    p.set_flags("TRAN");
    assert!(!p.flags.in_transaction);
    assert!(!p.in_comment());
    p.set_flags("FROM");
    assert!(!p.flags.where_clause);
    p.close_statement_flags();
    assert!(!p.flags.select);
    assert_eq!(queru_parser::QueruParser::clean_str("a;").as_str(), "a");
    let v = queru_parser::Variable::new("@w".to_string());
    assert_eq!(v.variable_name.as_str(), "@w");
}

#[test]
fn file_status_flags_set_flags() {
    let mut f = FileStatusFlags::default();
    f.set_flags("select");
    assert!(f.select);
    f.set_flags("a;");
    assert!(f.closing_select);
    f.finalize_closing_flags();
    assert!(!f.select && !f.closing_select);
    f.set_flags("--comment");
    assert!(f.in_comment());
    f.set_flags("SELECT");
    assert!(!f.select);
}

#[test]
fn try_interpret_refuses_value_without_variable() {
    let mut state = FileState::new();
    state.check_datatype = true;
    assert!(!QueruParser::try_interpret(&mut state, "int"));
    assert!(state.check_datatype && state.vars.is_empty());
    assert!(QueruParser::try_interpret(&mut state, "go"));
    assert!(!state.check_datatype);
    let mut p = queru_parser::QueruParser::default();
    p.flags.check_var_initial_value = true;
    assert!(p.try_set_flags(";").is_none());
    assert!(p.flags.check_var_initial_value);
    assert_eq!(p.try_set_flags("END"), Some(None));
    assert!(!p.flags.check_var_initial_value);
}

#[test]
fn finalize_twice_is_finalize_once() {
    let mut state = FileState::new();
    state.closing_select = true;
    state.select = true;
    state.block_comment = true;
    FileState::finalize_closing_flags(&mut state);
    let once = state.to_string();
    FileState::finalize_closing_flags(&mut state);
    assert_eq!(state.to_string(), once);
    FileState::close_statement_flags(&mut state);
    let closed = state.to_string();
    FileState::close_statement_flags(&mut state);
    assert_eq!(state.to_string(), closed);
}

#[test]
fn words_hold_no_separator() {
    let parsed = file_tokenize(b" a  b\n\nc d \n");
    for line in &parsed.tokenized_data {
        for w in line {
            assert!(!w.contains(' ') && !w.contains('\n'));
        }
    }
    assert_eq!(parsed.tokenized_data.len(), 4);
}

#[test]
fn keywords_match_in_any_case() {
    for w in ["begin", "Begin", "BEGIN"] {
        let mut a = FileState::new();
        let mut b = FileState::new();
        QueruParser::interpret(&mut a, w);
        QueruParser::interpret(&mut b, &w.to_uppercase());
        assert_eq!(a.to_string(), b.to_string());
        assert!(a.begin);
    }
    let mut f = FileStatusFlags::default();
    f.set_flags("SeLeCt");
    assert!(f.select);
}

#[test]
fn cursor_in_comment_is_not_reported() {
    assert_eq!(lint("-- DECLARE c CURSOR FOR x").len(), 0);
    assert_eq!(lint("DECLARE c cursor FOR x").len(), 1);
}

#[test]
fn program_review_hands_back_parser() {
    let (v, parser, traces) =
        program::review_file_with_parser(program::file_tokenize(b"BEGIN TRAN\nDECLARE @a int = 1;"));
    assert!(traces.is_empty());
    assert_eq!(v.len(), 1);
    assert!(parser.flags.in_transaction);
    assert_eq!(parser.vars.len(), 1);
    assert_eq!(parser.vars[0].variable_name.as_str(), "@a");
    assert_eq!(parser.vars[0].initial_value.as_str(), "1");
}

#[test]
fn set_flags_traces_where_condition() {
    let mut p = queru_parser::QueruParser::default();
    assert_eq!(p.set_flags("WHERE"), None);
    assert_eq!(p.set_flags("a").as_deref(), Some("where_clause; a"));
    assert_eq!(p.set_flags(">").as_deref(), Some("where_clause_left_assignments; >"));
    assert_eq!(p.set_flags("=").as_deref(), None);
    assert_eq!(p.set_flags("b").as_deref(), Some("where_clause_operand; b"));
    assert_eq!(p.set_flags("c").as_deref(), Some("where_clause_right_assignment; c"));
    assert_eq!(p.set_flags("d"), None);
    let (_, _, traces) =
        program::review_file_with_parser(program::file_tokenize(b"SELECT x FROM t\nwhere y > 1"));
    assert_eq!(
        traces,
        vec![
            "where_clause; y".to_string(),
            "where_clause_left_assignments; >".to_string(),
            "where_clause_operand; 1".to_string(),
        ]
    );
}

#[test]
fn keywords_match_beyond_ascii() {
    let mut a = FileState::new();
    let mut b = FileState::new();
    QueruParser::interpret(&mut a, "\u{17f}elect");
    QueruParser::interpret(&mut b, "SELECT");
    assert_eq!(a.to_string(), b.to_string());
    assert!(a.select);
}
