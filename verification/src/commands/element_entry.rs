//! The element-entry recognizer: claims statements holding a top-level `=`
//! symbol and validates the shape
//! `entryName [nodes] = ElementName(expressions);`.

use vstd::prelude::*;
use vstd::string::StringExecFns;
use crate::statement::Statement;
use crate::statement::StatementModel;
use crate::statement::clone_statement;
use crate::error::ErrorEntry;
use crate::error::ErrorKind;
use crate::error::ErrorModel;
use crate::error::spec_new_entry;
use crate::token::TokenModel;
use crate::token::TokenType;
use crate::keywords::is_keyword;
use crate::keywords::spec_is_keyword;
use crate::expression::Expression;
use crate::expression::ExpressionModel;
use crate::expression::expressions_model;
use crate::expression::get_expression;
use crate::expression::spec_get_expression;
use crate::text::str_eq;
use crate::commands::command::Command;
use crate::commands::command::CommandModel;
use crate::commands::command::CommandRecognizer;
use crate::commands::command::ElementEntryCommand;
use crate::commands::command::ElementEntryModel;
use crate::commands::helper::find_token;
use crate::commands::helper::spec_find_token;
use crate::commands::helper::lemma_find_token;
use crate::commands::helper::get_args;
use crate::commands::helper::spec_get_args;
use crate::commands::helper::get_expressions_tokens;
use crate::commands::helper::spec_get_expressions_tokens;

verus! {

/// The trees of the comma-separated expression spans `groups[k..]`, a span
/// that parses to nothing being skipped, with the diagnostics in span order.
pub open spec fn spec_parse_groups(groups: Seq<Seq<TokenModel>>, k: int) -> (
    Seq<ExpressionModel>,
    Seq<ErrorModel>,
)
    decreases groups.len() - k,
{
    if !(0 <= k < groups.len()) {
        (Seq::empty(), Seq::empty())
    } else {
        let g = spec_get_expression(groups[k]);
        let rest = spec_parse_groups(groups, k + 1);
        match g.0 {
            Some(x) => (seq![x] + rest.0, g.1 + rest.1),
            None => (rest.0, g.1 + rest.1),
        }
    }
}

/// The header fields of an element entry: the entry name, the element name,
/// the node list and the index of the `]`, beside the header's diagnostics
/// in the order they are raised.
pub open spec fn spec_entry_header(stmt: StatementModel) -> (
    Seq<char>,
    Seq<char>,
    Seq<Seq<char>>,
    int,
    Seq<ErrorModel>,
) {
    let init = stmt.tokens[0];
    let e1: Seq<ErrorModel> = if init.kind != TokenType::Word {
        seq![spec_new_entry(ErrorKind::InvalidName, init.position, seq!["["@, init.text])]
    } else {
        Seq::empty()
    };
    let entry_name = init.text;
    let start_token = stmt.tokens[1];
    let e2: Seq<ErrorModel> = if !(start_token.kind == TokenType::Symbol && start_token.text
        == "["@) {
        seq![
            spec_new_entry(
                ErrorKind::UnexpectedSymbol,
                start_token.position,
                seq!["["@, start_token.text],
            ),
        ]
    } else {
        Seq::empty()
    };
    let found = spec_find_token(stmt.tokens, "]"@, TokenType::Symbol);
    let end: int = match found {
        Some(i) => i,
        None => 0,
    };
    let e3: Seq<ErrorModel> = if found is None {
        seq![spec_new_entry(ErrorKind::SymbolNotFound, start_token.position, seq!["]"@])]
    } else {
        Seq::empty()
    };
    let nodes = spec_get_args(stmt.tokens, 2, end, true);
    let e4: Seq<ErrorModel> = if end > stmt.tokens.len() - 4 {
        seq![
            spec_new_entry(
                ErrorKind::WrongCommandSemantic,
                init.position,
                seq!["elemName [node1, node2, ...] = ElementName(arg1, arg2, ...); "@],
            ),
        ]
    } else {
        Seq::empty()
    };
    let element_name: Seq<char> = if end + 2 < stmt.tokens.len() && stmt.tokens[end + 2].kind
        == TokenType::Word {
        stmt.tokens[end + 2].text
    } else {
        Seq::empty()
    };
    let e5: Seq<ErrorModel> = if end + 2 < stmt.tokens.len() {
        let nt = stmt.tokens[end + 2];
        if nt.kind == TokenType::Word {
            if spec_is_keyword(nt.text) {
                seq![spec_new_entry(ErrorKind::NameKeyword, nt.position, seq![nt.text])]
            } else {
                Seq::empty()
            }
        } else {
            seq![spec_new_entry(ErrorKind::InvalidName, nt.position, seq![nt.text])]
        }
    } else {
        Seq::empty()
    };
    let e6: Seq<ErrorModel> = if end + 3 < stmt.tokens.len() {
        let opened = stmt.tokens[end + 3];
        if !(opened.kind == TokenType::Symbol && opened.text == "("@) {
            seq![
                spec_new_entry(
                    ErrorKind::UnexpectedSymbol,
                    opened.position,
                    seq!["("@, opened.text],
                ),
            ]
        } else {
            Seq::empty()
        }
    } else {
        Seq::empty()
    };
    let closed = stmt.tokens.last();
    let e7: Seq<ErrorModel> = if !(closed.kind == TokenType::Symbol && closed.text == ")"@) {
        seq![
            spec_new_entry(
                ErrorKind::UnexpectedSymbol,
                closed.position,
                seq![")"@, closed.text],
            ),
        ]
    } else {
        Seq::empty()
    };
    (entry_name, element_name, nodes, end, e1 + e2 + e3 + e4 + e5 + e6 + e7)
}

/// Validates an element entry's header and extracts its fields.
#[verifier::rlimit(100)]
fn entry_header(statement: &Statement, errs_acc: &mut Vec<ErrorEntry>) -> (r: (
    String,
    String,
    Vec<String>,
    usize,
))
    requires
        statement.model().tokens.len() >= 7,
    ensures
        ({
            let h = spec_entry_header(statement.model());
            &&& r.0@ == h.0
            &&& r.1@ == h.1
            &&& r.2.deep_view() == h.2
            &&& r.3 as int == h.3
            &&& final(errs_acc).deep_view() == old(errs_acc).deep_view() + h.4
        }),
{
    let ghost stmt = statement.model();
    let tokens = &statement.tokens;
    let init_position = tokens[0].position;
    let ghost a0 = errs_acc.deep_view();
    let entry_name_token = &tokens[0];
    if entry_name_token.token_type != TokenType::Word {
        let mut args: Vec<String> = Vec::new();
        args.push(String::from_str("["));
        args.push(entry_name_token.value.clone());
        proof {
            assert(args.deep_view() =~= seq!["["@, stmt.tokens[0].text]);
        }
        errs_acc.push(ErrorEntry::new(ErrorKind::InvalidName, &entry_name_token.position, args));
    }
    let ghost a1 = errs_acc.deep_view();
    let entry_name = entry_name_token.value.clone();
    let start_token = &tokens[1];
    if !(start_token.token_type == TokenType::Symbol && str_eq(start_token.value.as_str(), "[")) {
        let mut args: Vec<String> = Vec::new();
        args.push(String::from_str("["));
        args.push(start_token.value.clone());
        proof {
            assert(args.deep_view() =~= seq!["["@, stmt.tokens[1].text]);
        }
        errs_acc.push(ErrorEntry::new(ErrorKind::UnexpectedSymbol, &start_token.position, args));
    }
    let ghost a2 = errs_acc.deep_view();
    proof {
        lemma_find_token(stmt.tokens, "]"@, TokenType::Symbol, 0);
    }
    let mut end: usize = 0;
    match find_token(tokens, "]", TokenType::Symbol) {
        Some(i) => {
            end = i;
        },
        None => {
            let mut args: Vec<String> = Vec::new();
            args.push(String::from_str("]"));
            proof {
                assert(args.deep_view() =~= seq!["]"@]);
            }
            errs_acc.push(
                ErrorEntry::new(ErrorKind::SymbolNotFound, &start_token.position, args),
            );
        },
    }
    let ghost a3 = errs_acc.deep_view();
    let nodes = get_args(tokens, 2, end, true);
    if end > tokens.len() - 4 {
        let mut args: Vec<String> = Vec::new();
        args.push(String::from_str("elemName [node1, node2, ...] = ElementName(arg1, arg2, ...); "));
        proof {
            assert(args.deep_view() =~= seq![
                "elemName [node1, node2, ...] = ElementName(arg1, arg2, ...); "@,
            ]);
        }
        errs_acc.push(ErrorEntry::new(ErrorKind::WrongCommandSemantic, &init_position, args));
    }
    let ghost a4 = errs_acc.deep_view();
    let mut element_name = String::new();
    if end < tokens.len() - 2 {
        let name_token = &tokens[end + 2];
        if name_token.token_type == TokenType::Word {
            element_name = name_token.value.clone();
            if is_keyword(element_name.as_str()) {
                let mut args: Vec<String> = Vec::new();
                args.push(element_name.clone());
                proof {
                    assert(args.deep_view() =~= seq![stmt.tokens[end + 2].text]);
                }
                errs_acc.push(ErrorEntry::new(ErrorKind::NameKeyword, &name_token.position, args));
            }
        } else {
            let mut args: Vec<String> = Vec::new();
            args.push(name_token.value.clone());
            proof {
                assert(args.deep_view() =~= seq![stmt.tokens[end + 2].text]);
            }
            errs_acc.push(ErrorEntry::new(ErrorKind::InvalidName, &name_token.position, args));
        }
    }
    let ghost a5 = errs_acc.deep_view();
    if end < tokens.len() - 3 {
        let opened = &tokens[end + 3];
        if !(opened.token_type == TokenType::Symbol && str_eq(opened.value.as_str(), "(")) {
            let mut args: Vec<String> = Vec::new();
            args.push(String::from_str("("));
            args.push(opened.value.clone());
            proof {
                assert(args.deep_view() =~= seq!["("@, stmt.tokens[end + 3].text]);
            }
            errs_acc.push(ErrorEntry::new(ErrorKind::UnexpectedSymbol, &opened.position, args));
        }
    }
    let ghost a6 = errs_acc.deep_view();
    let closed = &tokens[tokens.len() - 1];
    if !(closed.token_type == TokenType::Symbol && str_eq(closed.value.as_str(), ")")) {
        let mut args: Vec<String> = Vec::new();
        args.push(String::from_str(")"));
        args.push(closed.value.clone());
        proof {
            assert(stmt.tokens.last() == stmt.tokens[stmt.tokens.len() - 1]);
            assert(args.deep_view() =~= seq![")"@, stmt.tokens.last().text]);
        }
        errs_acc.push(ErrorEntry::new(ErrorKind::UnexpectedSymbol, &closed.position, args));
    }
    proof {
        assert(errs_acc.deep_view() =~= a0 + spec_entry_header(stmt).4);
    }
    (entry_name, element_name, nodes, end)
}

/// The command and diagnostics of the element-entry recognizer: a claim
/// demands `entryName [nodes] = ElementName(expressions);` with a word as
/// the entry name, an unreserved word as the element name, and
/// comma-separated parameter expressions; every violation is reported and
/// the best-effort command carries whatever fields could be read.
pub open spec fn spec_recognize_element_entry(stmt: StatementModel) -> (CommandModel, Seq<ErrorModel>) {
    if spec_find_token(stmt.tokens, "="@, TokenType::Symbol) is None {
        (CommandModel::Unclaimed, Seq::empty())
    } else {
        let init = stmt.tokens[0];
        if stmt.tokens.len() < 7 {
            (
                CommandModel::ElementEntry(
                    ElementEntryModel {
                        entry_name: Seq::empty(),
                        element_name: Seq::empty(),
                        nodes: Seq::empty(),
                        param_expressions: Seq::empty(),
                        statement: stmt,
                    },
                ),
                seq![
                    spec_new_entry(
                        ErrorKind::WrongCommandSemantic,
                        init.position,
                        seq!["elemName [node1, node2, ...] = ElementName(arg1, arg2, ...); "@],
                    ),
                ],
            )
        } else {
            let h = spec_entry_header(stmt);
            let groups = spec_get_expressions_tokens(stmt.tokens, h.3 + 4, stmt.tokens.len() - 1);
            let parsed = spec_parse_groups(groups, 0);
            (
                CommandModel::ElementEntry(
                    ElementEntryModel {
                        entry_name: h.0,
                        element_name: h.1,
                        nodes: h.2,
                        param_expressions: parsed.0,
                        statement: stmt,
                    },
                ),
                h.4 + parsed.1,
            )
        }
    }
}

/// Recognizes an element instantiation.
#[verifier::rlimit(100)]
pub fn recognize_element_entry(statement: &Statement, errs_acc: &mut Vec<ErrorEntry>) -> (c: Command)
    ensures
        c.model() == spec_recognize_element_entry(statement.model()).0,
        final(errs_acc).deep_view() == old(errs_acc).deep_view() + spec_recognize_element_entry(
            statement.model(),
        ).1,
{
    let ghost stmt = statement.model();
    let tokens = &statement.tokens;
    proof {
        lemma_find_token(stmt.tokens, "="@, TokenType::Symbol, 0);
    }
    match find_token(tokens, "=", TokenType::Symbol) {
        Some(_) => {},
        None => {
            proof {
                assert(errs_acc.deep_view() + Seq::<ErrorModel>::empty() =~= errs_acc.deep_view());
            }
            return Command::Unclaimed;
        },
    }
    let init_position = tokens[0].position;
    if tokens.len() < 7 {
        let mut args: Vec<String> = Vec::new();
        args.push(String::from_str("elemName [node1, node2, ...] = ElementName(arg1, arg2, ...); "));
        proof {
            assert(args.deep_view() =~= seq![
                "elemName [node1, node2, ...] = ElementName(arg1, arg2, ...); "@,
            ]);
        }
        errs_acc.push(ErrorEntry::new(ErrorKind::WrongCommandSemantic, &init_position, args));
        let c = Command::ElementEntry(
            ElementEntryCommand {
                entry_name: String::new(),
                element_name: String::new(),
                nodes: Vec::new(),
                param_expressions: Vec::new(),
                statement: clone_statement(statement),
            },
        );
        proof {
            assert(c.model() =~~= spec_recognize_element_entry(stmt).0);
        }
        return c;
    }
    let ghost a0 = errs_acc.deep_view();
    let (entry_name, element_name, nodes, end) = entry_header(statement, errs_acc);
    let ghost a1 = errs_acc.deep_view();
    let start = if end <= tokens.len() - 4 {
        end + 4
    } else {
        tokens.len()
    };
    let param_expressions_tokens = get_expressions_tokens(tokens, start, tokens.len() - 1);
    proof {
        if start != end + 4 {
            assert(spec_get_expressions_tokens(stmt.tokens, start as int, stmt.tokens.len() - 1)
                == spec_get_expressions_tokens(stmt.tokens, end + 4, stmt.tokens.len() - 1));
        }
    }
    let ghost groups = spec_get_expressions_tokens(stmt.tokens, end + 4, stmt.tokens.len() - 1);
    let mut param_expressions: Vec<Expression> = Vec::new();
    let mut k: usize = 0;
    proof {
        assert(expressions_model(param_expressions@) =~= Seq::<ExpressionModel>::empty());
        assert(expressions_model(param_expressions@) + spec_parse_groups(groups, 0).0
            =~= spec_parse_groups(groups, 0).0);
    }
    while k < param_expressions_tokens.len()
        invariant
            k <= param_expressions_tokens.len(),
            groups == param_expressions_tokens.deep_view(),
            spec_parse_groups(groups, 0).0 =~= expressions_model(param_expressions@)
                + spec_parse_groups(groups, k as int).0,
            a1 + spec_parse_groups(groups, 0).1 =~= errs_acc.deep_view() + spec_parse_groups(
                groups,
                k as int,
            ).1,
        decreases param_expressions_tokens.len() - k,
    {
        let ghost exprs0 = expressions_model(param_expressions@);
        let op_expr = get_expression(&param_expressions_tokens[k], errs_acc);
        match op_expr {
            Some(expr) => {
                param_expressions.push(expr);
                proof {
                    assert(expressions_model(param_expressions@) =~= exprs0.push(
                        spec_get_expression(groups[k as int]).0->Some_0,
                    ));
                }
            },
            None => {},
        }
        k = k + 1;
    }
    let c = Command::ElementEntry(
        ElementEntryCommand {
            entry_name,
            element_name,
            nodes,
            param_expressions,
            statement: clone_statement(statement),
        },
    );
    proof {
        let h = spec_entry_header(stmt);
        let parsed = spec_parse_groups(groups, 0);
        assert(spec_recognize_element_entry(stmt).1 == h.4 + parsed.1);
        assert(errs_acc.deep_view() =~= a1 + parsed.1);
        assert(errs_acc.deep_view() =~= a0 + spec_recognize_element_entry(stmt).1);
        assert(c.model() == spec_recognize_element_entry(stmt).0);
    }
    c
}

/// Recognizes element instantiations.
pub struct ElementEntryCommandRecognizer {}

impl CommandRecognizer for ElementEntryCommandRecognizer {
    open spec fn spec_from_statement(&self, stmt: StatementModel) -> (CommandModel, Seq<ErrorModel>) {
        spec_recognize_element_entry(stmt)
    }

    fn from_statement(&self, statement: &Statement, errs_acc: &mut Vec<ErrorEntry>) -> (c: Command) {
        recognize_element_entry(statement, errs_acc)
    }
}

} // verus!
