use circuit_dsl::error::ErrorEntry;
use circuit_dsl::error::ErrorKind;
use circuit_dsl::statement::Statement;
use circuit_dsl::statement_divider::get_statements;
use circuit_dsl::tokenizer::tokenize;

fn divide(src: &str) -> (Vec<Statement>, Vec<ErrorEntry>) {
    let mut errs: Vec<ErrorEntry> = Vec::new();
    let tokens = tokenize(src, &mut errs);
    assert_eq!(errs.len(), 0);
    let statements = get_statements(&tokens, &mut errs);
    (statements, errs)
}

fn stmt_texts(s: &Statement) -> Vec<String> {
    s.tokens.iter().map(|t| t.value.clone()).collect()
}

#[test]
fn semicolons_split_top_level_statements() {
    let (stmts, errs) = divide("a b; c;");
    assert_eq!(errs.len(), 0);
    assert_eq!(stmts.len(), 2);
    assert_eq!(stmt_texts(&stmts[0]), vec!["a", "b"]);
    assert_eq!(stmt_texts(&stmts[1]), vec!["c"]);
}

#[test]
fn braces_build_substatements() {
    let (stmts, errs) = divide("outer { x; y; } after;");
    assert_eq!(errs.len(), 0);
    assert_eq!(stmts.len(), 2);
    assert_eq!(stmt_texts(&stmts[0]), vec!["outer"]);
    assert_eq!(stmts[0].substatements.len(), 2);
    assert_eq!(stmt_texts(&stmts[0].substatements[0]), vec!["x"]);
    assert_eq!(stmt_texts(&stmts[0].substatements[1]), vec!["y"]);
    assert_eq!(stmt_texts(&stmts[1]), vec!["after"]);
}

#[test]
fn nested_braces_nest_substatements() {
    let (stmts, errs) = divide("a { b { c; } }");
    assert_eq!(errs.len(), 0);
    assert_eq!(stmts.len(), 1);
    assert_eq!(stmts[0].substatements.len(), 1);
    assert_eq!(stmt_texts(&stmts[0].substatements[0]), vec!["b"]);
    assert_eq!(stmts[0].substatements[0].substatements.len(), 1);
    assert_eq!(stmt_texts(&stmts[0].substatements[0].substatements[0]), vec!["c"]);
}

#[test]
fn empty_brace_body_is_dropped() {
    let (stmts, errs) = divide("a { }");
    assert_eq!(errs.len(), 0);
    assert_eq!(stmts.len(), 1);
    assert_eq!(stmts[0].substatements.len(), 0);
}

#[test]
fn comments_are_diverted_from_statement_tokens() {
    let (stmts, errs) = divide("a // note\nb;");
    assert_eq!(errs.len(), 0);
    assert_eq!(stmts.len(), 1);
    assert_eq!(stmt_texts(&stmts[0]), vec!["a", "b"]);
    assert_eq!(stmts[0].comments.len(), 1);
    assert_eq!(stmts[0].comments[0].value, "// note ");
}

#[test]
fn missing_final_separator_is_reported() {
    let (stmts, errs) = divide("a b");
    assert_eq!(errs.len(), 1);
    assert!(matches!(errs[0].kind, ErrorKind::UnfinishedCommand));
    assert_eq!(stmts.len(), 1);
    assert_eq!(stmt_texts(&stmts[0]), vec!["a", "b"]);
}

#[test]
fn each_unmatched_closing_brace_is_reported_once() {
    let (_, errs) = divide("} a; } b;");
    assert_eq!(errs.len(), 2);
    assert!(matches!(errs[0].kind, ErrorKind::OpenClosedBrackets));
    assert!(matches!(errs[1].kind, ErrorKind::OpenClosedBrackets));
}

#[test]
fn balanced_braces_report_nothing() {
    let (_, errs) = divide("a { b; { c; } } d;");
    assert_eq!(errs.len(), 0);
}
