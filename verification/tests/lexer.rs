use circuit_dsl::error::ErrorEntry;
use circuit_dsl::error::ErrorKind;
use circuit_dsl::token::Token;
use circuit_dsl::token::TokenType;
use circuit_dsl::tokenizer::tokenize;

fn lex(src: &str) -> (Vec<Token>, Vec<ErrorEntry>) {
    let mut errs: Vec<ErrorEntry> = Vec::new();
    let tokens = tokenize(src, &mut errs);
    (tokens, errs)
}

fn texts(tokens: &[Token]) -> Vec<String> {
    tokens.iter().map(|t| t.value.clone()).collect()
}

#[test]
fn empty_input_has_no_tokens_and_no_errors() {
    let (tokens, errs) = lex("");
    assert_eq!(tokens.len(), 0);
    assert_eq!(errs.len(), 0);
}

#[test]
fn words_numbers_and_symbols() {
    let (tokens, errs) = lex("abc 42 ;");
    assert_eq!(errs.len(), 0);
    assert_eq!(texts(&tokens), vec!["abc", "42", ";"]);
    assert!(matches!(tokens[0].token_type, TokenType::Word));
    assert!(matches!(tokens[1].token_type, TokenType::Number));
    assert!(matches!(tokens[2].token_type, TokenType::Symbol));
}

#[test]
fn positions_are_zero_based_line_and_column() {
    let (tokens, _) = lex("a\n bb");
    assert_eq!(tokens[0].position.line, 0);
    assert_eq!(tokens[0].position.line_position, 0);
    assert_eq!(tokens[1].position.line, 1);
    assert_eq!(tokens[1].position.line_position, 1);
}

#[test]
fn combined_operators_win_over_single_symbols() {
    let (tokens, errs) = lex("a>=b => c == d != e <= f");
    assert_eq!(errs.len(), 0);
    assert_eq!(texts(&tokens), vec!["a", ">=", "b", "=>", "c", "==", "d", "!=", "e", "<=", "f"]);
}

#[test]
fn line_comment_runs_to_end_of_line() {
    let (tokens, errs) = lex("// hi\nx");
    assert_eq!(errs.len(), 0);
    assert_eq!(tokens.len(), 2);
    assert!(matches!(tokens[0].token_type, TokenType::Comment));
    assert_eq!(tokens[0].value, "// hi ");
    assert_eq!(tokens[1].value, "x");
}

#[test]
fn block_comment_spans_lines_and_following_token_is_kept() {
    let (tokens, errs) = lex("/* a\nb */x");
    assert_eq!(errs.len(), 0);
    assert_eq!(tokens.len(), 2);
    assert!(matches!(tokens[0].token_type, TokenType::Comment));
    assert_eq!(tokens[0].value, "/* a b */");
    assert_eq!(tokens[1].value, "x");
}

#[test]
fn unterminated_block_comment_takes_the_rest() {
    let (tokens, errs) = lex("/* open\nnever closed");
    assert_eq!(errs.len(), 0);
    assert_eq!(tokens.len(), 1);
    assert_eq!(tokens[0].value, "/* open never closed ");
}

#[test]
fn number_with_signed_exponent_is_one_token() {
    let (tokens, errs) = lex("1.5E+3 2e-7 4+5");
    assert_eq!(errs.len(), 0);
    assert_eq!(texts(&tokens), vec!["1.5E+3", "2e-7", "4", "+", "5"]);
    assert!(matches!(tokens[0].token_type, TokenType::Number));
    assert!(matches!(tokens[1].token_type, TokenType::Number));
}

#[test]
fn word_backs_off_a_trailing_dot() {
    let (tokens, _) = lex("abc. d");
    assert_eq!(texts(&tokens), vec!["abc", ".", "d"]);
    assert!(matches!(tokens[1].token_type, TokenType::Undefined));
}

#[test]
fn word_keeps_an_inner_dot() {
    let (tokens, errs) = lex("a.b");
    assert_eq!(errs.len(), 0);
    assert_eq!(texts(&tokens), vec!["a.b"]);
}

#[test]
fn unicode_letters_are_word_characters() {
    let (tokens, errs) = lex("héllo");
    assert_eq!(errs.len(), 0);
    assert_eq!(texts(&tokens), vec!["héllo"]);
    assert!(matches!(tokens[0].token_type, TokenType::Word));
}

#[test]
fn undefined_character_yields_one_token_and_one_error() {
    let (tokens, errs) = lex("a @ b");
    assert_eq!(texts(&tokens), vec!["a", "@", "b"]);
    assert!(matches!(tokens[1].token_type, TokenType::Undefined));
    assert_eq!(errs.len(), 1);
    assert!(matches!(errs[0].kind, ErrorKind::UndefinedSymbol));
    assert_eq!(errs[0].args, vec!["@"]);
}

#[test]
fn carriage_returns_are_ignored_silently() {
    let (tokens, errs) = lex("a\r\nb");
    assert_eq!(errs.len(), 0);
    assert_eq!(texts(&tokens), vec!["a", "b"]);
}

#[test]
fn round_trip_concatenation_reproduces_kept_content() {
    let src = "x = 1+2; // note";
    let (tokens, errs) = lex(src);
    assert_eq!(errs.len(), 0);
    let joined: String = tokens.iter().map(|t| t.value.as_str()).collect::<Vec<_>>().join("");
    assert_eq!(joined, "x=1+2;// note ");
}

#[test]
fn diagnostics_point_at_the_offending_character() {
    let (_, errs) = lex("a\n@");
    assert_eq!(errs.len(), 1);
    assert_eq!(errs[0].position.line, 1);
    assert_eq!(errs[0].position.line_position, 0);
}
