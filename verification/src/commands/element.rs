//! The `element` recognizer: claims statements whose first token is the
//! keyword `element` and validates the shape
//! `element [nodes] Name(args) { ... }`, recursing into the substatements
//! for element entries.

use vstd::prelude::*;
use vstd::string::StringExecFns;
use crate::statement::Statement;
use crate::statement::StatementModel;
use crate::statement::clone_statement;
use crate::error::ErrorEntry;
use crate::error::ErrorKind;
use crate::error::ErrorModel;
use crate::error::spec_new_entry;
use crate::token::TokenType;
use crate::text::str_eq;
use crate::keywords::is_keyword;
use crate::keywords::spec_is_keyword;
use crate::commands::command::Command;
use crate::commands::command::CommandModel;
use crate::commands::command::CommandRecognizer;
use crate::commands::command::ElementCommand;
use crate::commands::command::ElementModel;
use crate::commands::command::RecognizerKind;
use crate::commands::helper::is_first_token_specific_word;
use crate::commands::helper::spec_is_first_token_specific_word;
use crate::commands::helper::find_token;
use crate::commands::helper::spec_find_token;
use crate::commands::helper::lemma_find_token;
use crate::commands::helper::get_args;
use crate::commands::helper::spec_get_args;
use crate::commands::helper::get_commands;
use crate::commands::helper::spec_get_commands;
use crate::commands::circle::filter_entries;
use crate::commands::circle::spec_filter_entries;

verus! {

/// The header fields of an `element` statement: the name, the node list, the
/// parameter list and the index of the `]`, beside the header's diagnostics
/// in the order they are raised.
pub open spec fn spec_element_header(stmt: StatementModel) -> (
    Seq<char>,
    Seq<Seq<char>>,
    Seq<Seq<char>>,
    int,
    Seq<ErrorModel>,
) {
    let init = stmt.tokens[0];
    let start_token = stmt.tokens[1];
    let e1: Seq<ErrorModel> = if !(start_token.kind == TokenType::Symbol && start_token.text
        == "["@) {
        seq![
            spec_new_entry(
                ErrorKind::UnexpectedSymbol,
                start_token.position,
                seq!["["@, start_token.text],
            ),
        ]
    } else {
        Seq::empty()
    };
    let found = spec_find_token(stmt.tokens, "]"@, TokenType::Symbol);
    let end: int = match found {
        Some(i) => i,
        None => 0,
    };
    let e2: Seq<ErrorModel> = if found is None {
        seq![spec_new_entry(ErrorKind::SymbolNotFound, start_token.position, seq!["]"@])]
    } else {
        Seq::empty()
    };
    let nodes = spec_get_args(stmt.tokens, 2, end, false);
    let e3: Seq<ErrorModel> = if end > stmt.tokens.len() - 3 {
        seq![
            spec_new_entry(
                ErrorKind::WrongCommandSemantic,
                init.position,
                seq!["element [node1, node2, ...] ElementName(arg1, arg2, ...) { ... } "@],
            ),
        ]
    } else {
        Seq::empty()
    };
    let name: Seq<char> = if end + 1 < stmt.tokens.len() && stmt.tokens[end + 1].kind
        == TokenType::Word {
        stmt.tokens[end + 1].text
    } else {
        Seq::empty()
    };
    let e4: Seq<ErrorModel> = if end + 1 < stmt.tokens.len() {
        let nt = stmt.tokens[end + 1];
        if nt.kind == TokenType::Word {
            if spec_is_keyword(nt.text) {
                seq![spec_new_entry(ErrorKind::NameKeyword, nt.position, seq![nt.text])]
            } else {
                Seq::empty()
            }
        } else {
            seq![spec_new_entry(ErrorKind::InvalidName, nt.position, seq![nt.text])]
        }
    } else {
        Seq::empty()
    };
    let e5: Seq<ErrorModel> = if end + 2 < stmt.tokens.len() {
        let opened = stmt.tokens[end + 2];
        if !(opened.kind == TokenType::Symbol && opened.text == "("@) {
            seq![
                spec_new_entry(
                    ErrorKind::UnexpectedSymbol,
                    opened.position,
                    seq!["("@, opened.text],
                ),
            ]
        } else {
            Seq::empty()
        }
    } else {
        Seq::empty()
    };
    let closed = stmt.tokens.last();
    let e6: Seq<ErrorModel> = if !(closed.kind == TokenType::Symbol && closed.text == ")"@) {
        seq![
            spec_new_entry(
                ErrorKind::UnexpectedSymbol,
                closed.position,
                seq![")"@, closed.text],
            ),
        ]
    } else {
        Seq::empty()
    };
    let params = spec_get_args(stmt.tokens, end + 3, stmt.tokens.len() - 1, false);
    (name, nodes, params, end, e1 + e2 + e3 + e4 + e5 + e6)
}

/// Validates an `element` statement's header and extracts its fields.
#[verifier::rlimit(100)]
fn element_header(statement: &Statement, errs_acc: &mut Vec<ErrorEntry>) -> (r: (
    String,
    Vec<String>,
    Vec<String>,
    usize,
))
    requires
        statement.model().tokens.len() >= 6,
    ensures
        ({
            let h = spec_element_header(statement.model());
            &&& r.0@ == h.0
            &&& r.1.deep_view() == h.1
            &&& r.2.deep_view() == h.2
            &&& r.3 as int == h.3
            &&& final(errs_acc).deep_view() == old(errs_acc).deep_view() + h.4
        }),
{
    let ghost stmt = statement.model();
    let tokens = &statement.tokens;
    let init_position = tokens[0].position;
    let ghost a0 = errs_acc.deep_view();
    let start_token = &tokens[1];
    if !(start_token.token_type == TokenType::Symbol && str_eq(start_token.value.as_str(), "[")) {
        let mut args: Vec<String> = Vec::new();
        args.push(String::from_str("["));
        args.push(start_token.value.clone());
        proof {
            assert(args.deep_view() =~= seq!["["@, stmt.tokens[1].text]);
        }
        errs_acc.push(ErrorEntry::new(ErrorKind::UnexpectedSymbol, &start_token.position, args));
    }
    let ghost a1 = errs_acc.deep_view();
    proof {
        lemma_find_token(stmt.tokens, "]"@, TokenType::Symbol, 0);
    }
    let mut end: usize = 0;
    match find_token(tokens, "]", TokenType::Symbol) {
        Some(i) => {
            end = i;
        },
        None => {
            let mut args: Vec<String> = Vec::new();
            args.push(String::from_str("]"));
            proof {
                assert(args.deep_view() =~= seq!["]"@]);
            }
            errs_acc.push(
                ErrorEntry::new(ErrorKind::SymbolNotFound, &start_token.position, args),
            );
        },
    }
    let ghost a2 = errs_acc.deep_view();
    let nodes = get_args(tokens, 2, end, false);
    if end > tokens.len() - 3 {
        let mut args: Vec<String> = Vec::new();
        args.push(
            String::from_str("element [node1, node2, ...] ElementName(arg1, arg2, ...) { ... } "),
        );
        proof {
            assert(args.deep_view() =~= seq![
                "element [node1, node2, ...] ElementName(arg1, arg2, ...) { ... } "@,
            ]);
        }
        errs_acc.push(ErrorEntry::new(ErrorKind::WrongCommandSemantic, &init_position, args));
    }
    let ghost a3 = errs_acc.deep_view();
    let mut name = String::new();
    if end < tokens.len() - 1 {
        let name_token = &tokens[end + 1];
        if name_token.token_type == TokenType::Word {
            name = name_token.value.clone();
            if is_keyword(name.as_str()) {
                let mut args: Vec<String> = Vec::new();
                args.push(name.clone());
                proof {
                    assert(args.deep_view() =~= seq![stmt.tokens[end + 1].text]);
                }
                errs_acc.push(ErrorEntry::new(ErrorKind::NameKeyword, &name_token.position, args));
            }
        } else {
            let mut args: Vec<String> = Vec::new();
            args.push(name_token.value.clone());
            proof {
                assert(args.deep_view() =~= seq![stmt.tokens[end + 1].text]);
            }
            errs_acc.push(ErrorEntry::new(ErrorKind::InvalidName, &name_token.position, args));
        }
    }
    let ghost a4 = errs_acc.deep_view();
    if end < tokens.len() - 2 {
        let opened = &tokens[end + 2];
        if !(opened.token_type == TokenType::Symbol && str_eq(opened.value.as_str(), "(")) {
            let mut args: Vec<String> = Vec::new();
            args.push(String::from_str("("));
            args.push(opened.value.clone());
            proof {
                assert(args.deep_view() =~= seq!["("@, stmt.tokens[end + 2].text]);
            }
            errs_acc.push(ErrorEntry::new(ErrorKind::UnexpectedSymbol, &opened.position, args));
        }
    }
    let ghost a5 = errs_acc.deep_view();
    let closed = &tokens[tokens.len() - 1];
    if !(closed.token_type == TokenType::Symbol && str_eq(closed.value.as_str(), ")")) {
        let mut args: Vec<String> = Vec::new();
        args.push(String::from_str(")"));
        args.push(closed.value.clone());
        proof {
            assert(stmt.tokens.last() == stmt.tokens[stmt.tokens.len() - 1]);
            assert(args.deep_view() =~= seq![")"@, stmt.tokens.last().text]);
        }
        errs_acc.push(ErrorEntry::new(ErrorKind::UnexpectedSymbol, &closed.position, args));
    }
    let start = if end <= tokens.len() - 3 {
        end + 3
    } else {
        tokens.len()
    };
    let params = get_args(tokens, start, tokens.len() - 1, false);
    proof {
        if start != end + 3 {
            assert(spec_get_args(stmt.tokens, start as int, stmt.tokens.len() - 1, false)
                == spec_get_args(stmt.tokens, end + 3, stmt.tokens.len() - 1, false));
        }
        assert(errs_acc.deep_view() =~= a0 + spec_element_header(stmt).4);
    }
    (name, nodes, params, end)
}

/// The command and diagnostics of the `element` recognizer: a claim demands
/// `element [nodes] Name(args) { ... }` with an unreserved word as the name
/// and a substatement block, whose entries are recognized by the
/// element-entry recognizer alone; every violation is reported and the
/// best-effort command carries whatever fields could be read.
pub open spec fn spec_recognize_element(stmt: StatementModel) -> (CommandModel, Seq<ErrorModel>)
    decreases stmt, 0nat, 0int,
{
    if !spec_is_first_token_specific_word(stmt.tokens, "element"@) {
        (CommandModel::Unclaimed, Seq::empty())
    } else {
        let init = stmt.tokens[0];
        if stmt.tokens.len() < 6 {
            (
                CommandModel::Element(
                    ElementModel {
                        name: Seq::empty(),
                        param_names: Seq::empty(),
                        nodes: Seq::empty(),
                        element_entries: Seq::empty(),
                        statement: stmt,
                    },
                ),
                seq![
                    spec_new_entry(
                        ErrorKind::WrongCommandSemantic,
                        init.position,
                        seq!["element [node1, node2, ...] ElementName(arg1, arg2, ...) { ... } "@],
                    ),
                ],
            )
        } else {
            let h = spec_element_header(stmt);
            let e7: Seq<ErrorModel> = if stmt.substatements.len() == 0 {
                seq![spec_new_entry(ErrorKind::NoSubstatements, init.position, Seq::empty())]
            } else {
                Seq::empty()
            };
            let gc = spec_get_commands(stmt.substatements, seq![RecognizerKind::ElementEntry]);
            let entries = spec_filter_entries(gc.0, 0);
            (
                CommandModel::Element(
                    ElementModel {
                        name: h.0,
                        param_names: h.2,
                        nodes: h.1,
                        element_entries: entries,
                        statement: stmt,
                    },
                ),
                h.4 + e7 + gc.1,
            )
        }
    }
}

/// Recognizes an `element` definition.
#[verifier::rlimit(100)]
pub fn recognize_element(statement: &Statement, errs_acc: &mut Vec<ErrorEntry>) -> (c: Command)
    ensures
        c.model() == spec_recognize_element(statement.model()).0,
        final(errs_acc).deep_view() == old(errs_acc).deep_view() + spec_recognize_element(
            statement.model(),
        ).1,
    decreases *statement, 0nat, 0int,
{
    let ghost stmt = statement.model();
    let tokens = &statement.tokens;
    if !is_first_token_specific_word(tokens, "element") {
        proof {
            assert(errs_acc.deep_view() + Seq::<ErrorModel>::empty() =~= errs_acc.deep_view());
        }
        return Command::Unclaimed;
    }
    let init_position = tokens[0].position;
    if tokens.len() < 6 {
        let mut args: Vec<String> = Vec::new();
        args.push(
            String::from_str("element [node1, node2, ...] ElementName(arg1, arg2, ...) { ... } "),
        );
        proof {
            assert(args.deep_view() =~= seq![
                "element [node1, node2, ...] ElementName(arg1, arg2, ...) { ... } "@,
            ]);
        }
        errs_acc.push(ErrorEntry::new(ErrorKind::WrongCommandSemantic, &init_position, args));
        let c = Command::Element(
            ElementCommand {
                name: String::new(),
                nodes: Vec::new(),
                param_names: Vec::new(),
                element_entries: Vec::new(),
                statement: clone_statement(statement),
            },
        );
        proof {
            assert(c.model() =~~= spec_recognize_element(stmt).0);
        }
        return c;
    }
    let ghost a0 = errs_acc.deep_view();
    let (name, nodes, params, _end) = element_header(statement, errs_acc);
    let ghost a1 = errs_acc.deep_view();
    if statement.substatements.len() == 0 {
        let args: Vec<String> = Vec::new();
        proof {
            assert(args.deep_view() =~= Seq::<Seq<char>>::empty());
        }
        errs_acc.push(ErrorEntry::new(ErrorKind::NoSubstatements, &init_position, args));
    }
    let ghost a2 = errs_acc.deep_view();
    let mut recognizers: Vec<RecognizerKind> = Vec::new();
    recognizers.push(RecognizerKind::ElementEntry);
    proof {
        assert(recognizers@ =~= seq![RecognizerKind::ElementEntry]);
    }
    let cmd_entries = get_commands(&statement.substatements, &recognizers, errs_acc);
    let element_entries = filter_entries(&cmd_entries);
    let c = Command::Element(
        ElementCommand {
            name,
            nodes,
            param_names: params,
            element_entries,
            statement: clone_statement(statement),
        },
    );
    proof {
        let h = spec_element_header(stmt);
        let e7: Seq<ErrorModel> = if stmt.substatements.len() == 0 {
            seq![
                spec_new_entry(
                    ErrorKind::NoSubstatements,
                    stmt.tokens[0].position,
                    Seq::empty(),
                ),
            ]
        } else {
            Seq::empty()
        };
        let gc = spec_get_commands(stmt.substatements, seq![RecognizerKind::ElementEntry]);
        assert(spec_recognize_element(stmt).1 == h.4 + e7 + gc.1);
        assert(a2 =~= a1 + e7);
        assert(errs_acc.deep_view() =~= a2 + gc.1);
        assert(errs_acc.deep_view() =~= a0 + spec_recognize_element(stmt).1);
        assert(c.model() == spec_recognize_element(stmt).0);
    }
    c
}

/// Recognizes `element` definitions.
pub struct ElementCommandRecognizer {}

impl CommandRecognizer for ElementCommandRecognizer {
    open spec fn spec_from_statement(&self, stmt: StatementModel) -> (CommandModel, Seq<ErrorModel>) {
        spec_recognize_element(stmt)
    }

    fn from_statement(&self, statement: &Statement, errs_acc: &mut Vec<ErrorEntry>) -> (c: Command) {
        recognize_element(statement, errs_acc)
    }
}

} // verus!
