use sql_parser::{file_tokenize, review_file, Violation};

fn lint(sql: &str) -> Vec<Violation> {
    let parsed = file_tokenize(sql.as_bytes());
    review_file(parsed)
}

#[test]
fn no_select_star() {
    let violations = lint("SELECT * FROM dbo.Orders;");
    println!("{:#?}", violations);
    assert!(violations.len() == 1);
    assert!(violations[0].violation_string == "Do not use * in select list, specify columns")
}

#[test]
fn no_open_trans_at_end_of_file() {
    let violations = lint("BEGIN TRAN\nUPDATE dbo.Orders SET total = 1");
    println!("{:#?}", violations);
    assert!(violations.len() == 1);
    assert!(violations[0].violation_string == "Transaction left open at end of file")
}

#[test]
fn no_nolock() {
    let violations = lint("SELECT id FROM dbo.Orders WITH (NOLOCK)");
    println!("{:#?}", violations);
    assert!(violations.len() == 1);
    assert!(violations[0].violation_string == "Do not use NOLOCK")
}

#[test]
fn no_select_in_tran() {
    let violations = lint("BEGIN TRAN\nSELECT id FROM dbo.Orders\nCOMMIT TRAN");
    println!("{:#?}", violations);
    assert!(violations.len() == 1);
    assert!(violations[0].violation_string == "Do not run select statements in transaction")
}

#[test]
fn no_funcs_in_where_clause() {
    let violations = lint("SELECT id FROM dbo.Orders WHERE created > GetDate()");
    println!("{:#?}", violations);
    assert!(violations.len() == 1);
    assert!(
        violations[0].violation_string
            == "Do not use functions in where clauses, cache functions as variables first"
    )
}

#[test]
fn no_declare_in_tran() {
    let violations = lint("BEGIN TRAN\nDECLARE @x int = 0;\nCOMMIT TRAN");
    println!("{:#?}", violations);
    assert!(violations.len() == 1);
    assert!(violations[0].violation_string == "Do not declare variables in transaction")
}

#[test]
fn no_cursors() {
    let violations = lint("DECLARE c CURSOR FOR SELECT id FROM dbo.Orders");
    println!("{:#?}", violations);
    assert!(violations.len() == 1);
    assert!(
        violations[0].violation_string
            == "Do not use CURSORS, prefer while loops with counters"
    );
}

#[test]
fn must_qualify_tables() {
    let violations = lint("SELECT id FROM Orders");
    println!("{:#?}", violations);
    assert!(violations.len() == 1);
    assert!(violations[0].violation_string == "Fully qualify tables");
}
