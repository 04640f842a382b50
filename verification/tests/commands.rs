use circuit_dsl::commands::Command;
use circuit_dsl::commands::RecognizerKind;
use circuit_dsl::commands::get_commands;
use circuit_dsl::error::ErrorEntry;
use circuit_dsl::error::ErrorKind;
use circuit_dsl::expression::node_to_str;
use circuit_dsl::statement_divider::get_statements;
use circuit_dsl::tokenizer::tokenize;

fn run(src: &str) -> (Vec<Command>, Vec<ErrorEntry>) {
    let mut errs: Vec<ErrorEntry> = Vec::new();
    let tokens = tokenize(src, &mut errs);
    let statements = get_statements(&tokens, &mut errs);
    assert_eq!(errs.len(), 0);
    let recognizers = vec![
        RecognizerKind::Circle,
        RecognizerKind::Element,
        RecognizerKind::Package,
        RecognizerKind::Import,
        RecognizerKind::Function,
    ];
    let mut cmd_errs: Vec<ErrorEntry> = Vec::new();
    let commands = get_commands(&statements, &recognizers, &mut cmd_errs);
    (commands, cmd_errs)
}

#[test]
fn package_and_circuit_end_to_end() {
    let (commands, errs) = run("package p; circuit C(x) { e [1,2] = R(x); }");
    assert_eq!(errs.len(), 0);
    assert_eq!(commands.len(), 2);
    match &commands[0] {
        Command::Package(c) => assert_eq!(c.name, "p"),
        _ => panic!("expected a package command"),
    }
    match &commands[1] {
        Command::Circle(c) => {
            assert_eq!(c.name, "C");
            assert_eq!(c.param_names, vec!["x"]);
            assert_eq!(c.element_entries.len(), 1);
            let entry = &c.element_entries[0];
            assert_eq!(entry.entry_name, "e");
            assert_eq!(entry.element_name, "R");
            assert_eq!(entry.nodes, vec!["1", "2"]);
            assert_eq!(entry.param_expressions.len(), 1);
            let root = entry.param_expressions[0].root.as_ref().unwrap();
            assert_eq!(node_to_str(root), "x");
        },
        _ => panic!("expected a circuit command"),
    }
}

#[test]
fn circuit_without_parens_is_flagged_but_still_produced() {
    let (commands, errs) = run("circuit C { }");
    assert!(errs.iter().any(|e| matches!(e.kind, ErrorKind::WrongCommandSemantic)));
    assert_eq!(commands.len(), 1);
    match &commands[0] {
        Command::Circle(c) => {
            assert_eq!(c.name, "");
            assert_eq!(c.param_names.len(), 0);
            assert_eq!(c.element_entries.len(), 0);
        },
        _ => panic!("expected a circuit command"),
    }
}

#[test]
fn import_names_its_package() {
    let (commands, errs) = run("import other;");
    assert_eq!(errs.len(), 0);
    assert_eq!(commands.len(), 1);
    match &commands[0] {
        Command::Import(c) => assert_eq!(c.package_name, "other"),
        _ => panic!("expected an import command"),
    }
}

#[test]
fn element_collects_nodes_parameters_and_entries() {
    let (commands, errs) = run("element [a, b] Res(r) { w [a] = R(r+1); }");
    assert_eq!(errs.len(), 0);
    assert_eq!(commands.len(), 1);
    match &commands[0] {
        Command::Element(c) => {
            assert_eq!(c.name, "Res");
            assert_eq!(c.nodes, vec!["a", "b"]);
            assert_eq!(c.param_names, vec!["r"]);
            assert_eq!(c.element_entries.len(), 1);
            let entry = &c.element_entries[0];
            assert_eq!(entry.entry_name, "w");
            assert_eq!(entry.nodes, vec!["a"]);
            let root = entry.param_expressions[0].root.as_ref().unwrap();
            assert_eq!(node_to_str(root), "+[r 1]");
        },
        _ => panic!("expected an element command"),
    }
}

#[test]
fn function_builds_its_body_expression() {
    let (commands, errs) = run("function f(a, b) => a + b * 2;");
    assert_eq!(errs.len(), 0);
    assert_eq!(commands.len(), 1);
    match &commands[0] {
        Command::Function(c) => {
            assert_eq!(c.name, "f");
            assert_eq!(c.param_names, vec!["a", "b"]);
            let root = c.expression.root.as_ref().unwrap();
            assert_eq!(node_to_str(root), "+[a *[b 2]]");
        },
        _ => panic!("expected a function command"),
    }
}

#[test]
fn unclaimed_statement_is_reported_with_its_text() {
    let (commands, errs) = run("foo bar;");
    assert_eq!(commands.len(), 0);
    assert_eq!(errs.len(), 1);
    assert!(matches!(errs[0].kind, ErrorKind::UndefinedStatement));
    assert_eq!(errs[0].args, vec!["foobar"]);
}

#[test]
fn reserved_word_as_package_name_is_flagged() {
    let (_, errs) = run("package circuit;");
    assert_eq!(errs.len(), 1);
    assert!(matches!(errs[0].kind, ErrorKind::NameKeyword));
    assert_eq!(errs[0].args, vec!["circuit"]);
}

#[test]
fn number_as_package_name_is_flagged() {
    let (_, errs) = run("package 5;");
    assert_eq!(errs.len(), 1);
    assert!(matches!(errs[0].kind, ErrorKind::InvalidName));
}

#[test]
fn package_with_a_block_is_flagged() {
    let (_, errs) = run("package p { q; }");
    assert!(errs.iter().any(|e| matches!(e.kind, ErrorKind::AreSubstatements)));
}

#[test]
fn circuit_without_a_block_is_flagged() {
    let (_, errs) = run("circuit C();");
    assert!(errs.iter().any(|e| matches!(e.kind, ErrorKind::NoSubstatements)));
}

#[test]
fn entry_without_closing_bracket_is_flagged() {
    let (_, errs) = run("circuit C() { w [a = R(1); }");
    assert!(errs.iter().any(|e| matches!(e.kind, ErrorKind::SymbolNotFound)));
}

#[test]
fn wrong_parenthesis_symbol_is_flagged() {
    let (_, errs) = run("circuit C ]x[ { e [1] = R(2); }");
    assert!(errs.iter().any(|e| matches!(e.kind, ErrorKind::UnexpectedSymbol)));
}

#[test]
fn entry_nodes_allow_numbers_but_circuit_parameters_do_not() {
    let (commands, _) = run("circuit C(1, x) { e [1, n] = R(2); }");
    match &commands[0] {
        Command::Circle(c) => {
            assert_eq!(c.param_names, vec!["x"]);
            assert_eq!(c.element_entries[0].nodes, vec!["1", "n"]);
        },
        _ => panic!("expected a circuit command"),
    }
}

#[test]
fn statement_of_only_a_block_is_unclaimed_with_empty_text() {
    let (commands, errs) = run("{ x; }");
    assert_eq!(commands.len(), 0);
    assert!(errs.iter().any(
        |e| matches!(e.kind, ErrorKind::UndefinedStatement) && e.args == vec![""],
    ));
}

#[test]
fn element_entries_survive_sibling_failures() {
    let (commands, errs) = run("circuit C() { bad stuff; w [1] = R(2); }");
    assert!(errs.iter().any(|e| matches!(e.kind, ErrorKind::UndefinedStatement)));
    match &commands[0] {
        Command::Circle(c) => {
            assert_eq!(c.element_entries.len(), 1);
            assert_eq!(c.element_entries[0].entry_name, "w");
        },
        _ => panic!("expected a circuit command"),
    }
}

#[test]
fn function_without_closing_paren_gets_the_zero_body() {
    let (commands, errs) = run("function f => 1;");
    assert!(errs.iter().any(|e| matches!(e.kind, ErrorKind::SymbolNotFound)));
    match &commands[0] {
        Command::Function(c) => {
            assert_eq!(c.name, "f");
            assert_eq!(node_to_str(c.expression.root.as_ref().unwrap()), "0");
        },
        _ => panic!("expected a function command"),
    }
}

#[test]
fn function_with_an_empty_body_gets_the_zero_body() {
    let (commands, errs) = run("function f() => ;");
    assert_eq!(errs.len(), 0);
    match &commands[0] {
        Command::Function(c) => {
            assert_eq!(node_to_str(c.expression.root.as_ref().unwrap()), "0");
        },
        _ => panic!("expected a function command"),
    }
}

#[test]
fn reserved_word_as_circuit_name_is_flagged() {
    let (commands, errs) = run("circuit package (x) { e [1] = R(2); }");
    assert_eq!(errs.len(), 1);
    assert!(matches!(errs[0].kind, ErrorKind::NameKeyword));
    assert_eq!(errs[0].args, vec!["package"]);
    match &commands[0] {
        Command::Circle(c) => assert_eq!(c.name, "package"),
        _ => panic!("expected a circuit command"),
    }
}
