use circuit_dsl::error::ErrorEntry;
use circuit_dsl::error::ErrorKind;
use circuit_dsl::error::apply_file_name;
use circuit_dsl::position::Position;
use circuit_dsl::keywords::is_keyword;
use circuit_dsl::text::decimal_text;
use circuit_dsl::text::replace_all;
use circuit_dsl::text::str_eq;

#[test]
fn error_kinds_carry_codes_and_templates() {
    let info = ErrorKind::UndefinedSymbol.info();
    assert_eq!(info.code, "STX001");
    assert_eq!(info.message, "Undefined symbol: '~1~'. ");
    let info = ErrorKind::NoVarAfterUnary.info();
    assert_eq!(info.code, "STX017");
}

#[test]
fn render_substitutes_arguments_positionally() {
    let position = Position { line: 2, line_position: 5 };
    let entry = ErrorEntry::new(
        ErrorKind::UnexpectedSymbol,
        &position,
        vec![String::from("("), String::from("[")],
    );
    assert_eq!(entry.render_message(), "Expected '(', found '['. ");
}

#[test]
fn render_keeps_a_template_without_arguments() {
    let position = Position { line: 0, line_position: 0 };
    let entry = ErrorEntry::new(ErrorKind::UnfinishedCommand, &position, Vec::new());
    assert_eq!(entry.render_message(), "Unfinished command. Missing separator. ");
}

#[test]
fn apply_file_name_labels_without_mutating() {
    let position = Position { line: 1, line_position: 2 };
    let errs = vec![ErrorEntry::new(ErrorKind::UndefinedSymbol, &position, vec![String::from("@")])];
    let labeled = apply_file_name(&errs, &String::from("input.ckt"));
    assert_eq!(labeled.len(), 1);
    assert_eq!(labeled[0].file_name, "input.ckt");
    assert_eq!(labeled[0].args, vec!["@"]);
    assert_eq!(errs[0].file_name, "");
}

#[test]
fn positions_render_one_based() {
    let position = Position { line: 0, line_position: 0 };
    assert_eq!(position.to_text(), "(1, 1)");
    let position = Position { line: 41, line_position: 8 };
    assert_eq!(position.to_text(), "(42, 9)");
}

#[test]
fn decimal_renders_all_digits() {
    assert_eq!(decimal_text(0), "0");
    assert_eq!(decimal_text(1234567890), "1234567890");
}

#[test]
fn replace_all_replaces_every_occurrence_left_to_right() {
    assert_eq!(replace_all("~1~ and ~1~", "~1~", "x"), "x and x");
    assert_eq!(replace_all("aaa", "aa", "b"), "ba");
    assert_eq!(replace_all("abc", "z", "y"), "abc");
}

#[test]
fn str_eq_compares_by_characters() {
    assert!(str_eq("circuit", "circuit"));
    assert!(!str_eq("circuit", "circuits"));
    assert!(!str_eq("a", "b"));
}

#[test]
fn the_reserved_word_set_is_closed() {
    assert!(is_keyword("import"));
    assert!(is_keyword("package"));
    assert!(is_keyword("circuit"));
    assert!(is_keyword("element"));
    assert!(is_keyword("function"));
    assert!(!is_keyword(""));
    assert!(!is_keyword("Circuit"));
    assert!(!is_keyword("resistor"));
}
