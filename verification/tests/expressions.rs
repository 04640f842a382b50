use circuit_dsl::error::ErrorEntry;
use circuit_dsl::error::ErrorKind;
use circuit_dsl::expression::Expression;
use circuit_dsl::expression::get_expression;
use circuit_dsl::expression::node_to_str;
use circuit_dsl::tokenizer::tokenize;

fn parse(src: &str) -> (Option<Expression>, Vec<ErrorEntry>) {
    let mut errs: Vec<ErrorEntry> = Vec::new();
    let tokens = tokenize(src, &mut errs);
    assert_eq!(errs.len(), 0);
    let expr = get_expression(&tokens, &mut errs);
    (expr, errs)
}

fn tree(src: &str) -> String {
    let (expr, errs) = parse(src);
    assert_eq!(errs.len(), 0);
    node_to_str(expr.unwrap().root.as_ref().unwrap())
}

#[test]
fn multiplication_binds_tighter_than_addition() {
    assert_eq!(tree("1 + 2 * 3"), "+[1 *[2 3]]");
}

#[test]
fn parentheses_override_precedence() {
    assert_eq!(tree("(1 + 2) * 3"), "*[+[1 2] 3]");
}

#[test]
fn leading_minus_is_a_unary_operator() {
    assert_eq!(tree("-x + 1"), "+[-[x] 1]");
}

#[test]
fn function_call_arguments_split_at_top_level_commas() {
    assert_eq!(tree("f(a, b+1)"), "f[a +[b 1]]");
}

#[test]
fn nested_call_keeps_inner_commas_together() {
    assert_eq!(tree("g(h(a, b), c)"), "g[h[a b] c]");
}

#[test]
fn comparison_binds_loosest() {
    assert_eq!(tree("a + 1 == b * 2"), "==[+[a 1] *[b 2]]");
}

#[test]
fn a_bare_literal_collapses_to_a_leaf() {
    assert_eq!(tree("42"), "42");
}

#[test]
fn a_bare_name_collapses_to_a_leaf() {
    assert_eq!(tree("x"), "x");
}

#[test]
fn empty_token_range_parses_to_nothing() {
    let (expr, errs) = parse("");
    assert!(expr.is_none());
    assert_eq!(errs.len(), 0);
}

#[test]
fn undefined_unary_operator_is_reported() {
    let (_, errs) = parse("*x");
    assert!(errs.iter().any(|e| matches!(e.kind, ErrorKind::UndefinedUnaryOperator)));
}

#[test]
fn misplaced_operand_is_reported_and_the_zero_literal_stands_in() {
    let (expr, errs) = parse("a b");
    assert_eq!(node_to_str(expr.unwrap().root.as_ref().unwrap()), "0");
    assert_eq!(errs.len(), 1);
    assert!(matches!(errs[0].kind, ErrorKind::ExpectedNumVar));
    assert_eq!(errs[0].args, vec!["b"]);
}

#[test]
fn misplaced_operator_is_reported() {
    let (expr, errs) = parse("a + + b");
    assert_eq!(node_to_str(expr.unwrap().root.as_ref().unwrap()), "0");
    assert!(errs.iter().any(|e| matches!(e.kind, ErrorKind::ExpectedBinaryOperator)));
}

#[test]
fn trailing_operator_is_a_violation() {
    let (expr, errs) = parse("a +");
    assert_eq!(node_to_str(expr.unwrap().root.as_ref().unwrap()), "0");
    assert_eq!(errs.len(), 1);
    assert!(matches!(errs[0].kind, ErrorKind::ExpressionLastSymbol));
}

#[test]
fn dangling_unary_operator_is_reported() {
    let (_, errs) = parse("f(-)");
    assert!(errs.iter().any(|e| matches!(e.kind, ErrorKind::NoVarAfterUnary)));
}

#[test]
fn same_tier_operators_split_at_the_first_occurrence() {
    assert_eq!(tree("a - b - c"), "-[a -[b c]]");
    assert_eq!(tree("a / b / c"), "/[a /[b c]]");
}

#[test]
fn expression_keeps_its_source_tokens() {
    let (expr, _) = parse("1 + 2");
    let expr = expr.unwrap();
    let texts: Vec<String> = expr.tokens.iter().map(|t| t.value.clone()).collect();
    assert_eq!(texts, vec!["1", "+", "2"]);
}

#[test]
fn call_without_arguments_has_no_operands() {
    assert_eq!(tree("f()"), "f[]");
}

#[test]
fn plain_parentheses_do_not_become_a_call() {
    assert_eq!(tree("(x)"), "x");
}

#[test]
fn a_misplaced_parenthesized_span_is_reported() {
    let (expr, errs) = parse("f(a)(b)");
    assert_eq!(node_to_str(expr.unwrap().root.as_ref().unwrap()), "0");
    assert_eq!(errs.len(), 1);
    assert!(matches!(errs[0].kind, ErrorKind::ExpectedNumVar));
    assert_eq!(errs[0].args, vec!["b"]);
}

#[test]
fn an_unmatched_closing_paren_at_the_end_is_reported() {
    let (expr, errs) = parse("1 )");
    assert_eq!(node_to_str(expr.unwrap().root.as_ref().unwrap()), "1");
    assert_eq!(errs.len(), 1);
    assert!(matches!(errs[0].kind, ErrorKind::OpenClosedBrackets));
    assert_eq!(errs[0].position.line_position, 2);
}

#[test]
fn only_the_empty_slice_parses_to_nothing() {
    let (expr, _) = parse("1 2");
    assert!(expr.is_some());
    let (expr, _) = parse("");
    assert!(expr.is_none());
}
