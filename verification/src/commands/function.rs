//! The `function` recognizer: claims statements whose first token is the
//! keyword `function` and validates the shape
//! `function Name(args) => expression;`.

use vstd::prelude::*;
use vstd::string::StringExecFns;
use crate::position::Position;
use crate::statement::Statement;
use crate::statement::StatementModel;
use crate::statement::clone_statement;
use crate::error::ErrorEntry;
use crate::error::ErrorKind;
use crate::error::ErrorModel;
use crate::error::spec_new_entry;
use crate::token::Token;
use crate::token::TokenModel;
use crate::token::TokenType;
use crate::token::tokens_slice;
use crate::keywords::is_keyword;
use crate::keywords::spec_is_keyword;
use crate::expression::Expression;
use crate::expression::ExpressionModel;
use crate::expression::Node;
use crate::expression::NodeModel;
use crate::expression::get_expression;
use crate::expression::spec_get_expression;
use crate::commands::command::Command;
use crate::commands::command::CommandModel;
use crate::commands::command::CommandRecognizer;
use crate::commands::command::FunctionCommand;
use crate::commands::command::FunctionModel;
use crate::commands::helper::is_first_token_specific_word;
use crate::commands::helper::spec_is_first_token_specific_word;
use crate::commands::helper::find_token;
use crate::commands::helper::spec_find_token;
use crate::commands::helper::lemma_find_token;
use crate::commands::helper::get_args;
use crate::commands::helper::spec_get_args;

verus! {

/// The placeholder expression standing in where no body could be read: the
/// zero literal.
pub open spec fn spec_null_expression() -> ExpressionModel {
    ExpressionModel {
        tokens: seq![
            TokenModel {
                position: Position { line: 0, line_position: 0 },
                text: "0"@,
                kind: TokenType::Number,
            },
        ],
        root: Some(NodeModel::Number("0"@)),
    }
}

/// Builds the placeholder expression.
fn null_expression() -> (r: Expression)
    ensures
        r.model() == spec_null_expression(),
{
    let mut tokens: Vec<Token> = Vec::new();
    tokens.push(
        Token {
            token_type: TokenType::Number,
            value: String::from_str("0"),
            position: Position { line: 0, line_position: 0 },
        },
    );
    let r = Expression { tokens, root: Some(Node::Number(String::from_str("0"))) };
    proof {
        assert(r.model().tokens =~= spec_null_expression().tokens);
    }
    r
}

/// The command and diagnostics of the `function` recognizer: a claim demands
/// `function Name(args) => expression;` with an unreserved word as the name
/// and no substatement block; every violation is reported and the
/// best-effort command carries whatever fields could be read, the zero
/// literal standing in for an unreadable body.
pub open spec fn spec_recognize_function(stmt: StatementModel) -> (CommandModel, Seq<ErrorModel>) {
    if !spec_is_first_token_specific_word(stmt.tokens, "function"@) {
        (CommandModel::Unclaimed, Seq::empty())
    } else {
        let init = stmt.tokens[0];
        if stmt.tokens.len() < 4 {
            (
                CommandModel::Function(
                    FunctionModel {
                        name: Seq::empty(),
                        param_names: Seq::empty(),
                        statement: stmt,
                        expression: spec_null_expression(),
                    },
                ),
                seq![
                    spec_new_entry(
                        ErrorKind::WrongCommandSemantic,
                        init.position,
                        seq!["function FunctionName(arg1, arg2, ...) => arg1 + arg2; "@],
                    ),
                ],
            )
        } else {
            let nt = stmt.tokens[1];
            let name: Seq<char> = if nt.kind == TokenType::Word {
                nt.text
            } else {
                Seq::empty()
            };
            let e1: Seq<ErrorModel> = if nt.kind == TokenType::Word {
                if spec_is_keyword(nt.text) {
                    seq![spec_new_entry(ErrorKind::NameKeyword, nt.position, seq![nt.text])]
                } else {
                    Seq::empty()
                }
            } else {
                seq![spec_new_entry(ErrorKind::InvalidName, nt.position, seq![nt.text])]
            };
            match spec_find_token(stmt.tokens, ")"@, TokenType::Symbol) {
                None => (
                    CommandModel::Function(
                        FunctionModel {
                            name,
                            param_names: Seq::empty(),
                            statement: stmt,
                            expression: spec_null_expression(),
                        },
                    ),
                    e1 + seq![
                        spec_new_entry(ErrorKind::SymbolNotFound, init.position, seq![")"@]),
                    ],
                ),
                Some(end) => {
                    if end == 0 {
                        (
                            CommandModel::Function(
                                FunctionModel {
                                    name,
                                    param_names: Seq::empty(),
                                    statement: stmt,
                                    expression: spec_null_expression(),
                                },
                            ),
                            e1,
                        )
                    } else {
                        let opened = stmt.tokens[2];
                        let e2: Seq<ErrorModel> = if !(opened.kind == TokenType::Symbol
                            && opened.text == "("@) {
                            seq![
                                spec_new_entry(
                                    ErrorKind::UnexpectedSymbol,
                                    opened.position,
                                    seq!["("@, opened.text],
                                ),
                            ]
                        } else {
                            Seq::empty()
                        };
                        let params = spec_get_args(stmt.tokens, 3, end, false);
                        let e3: Seq<ErrorModel> = if stmt.substatements.len() != 0 {
                            seq![
                                spec_new_entry(
                                    ErrorKind::AreSubstatements,
                                    init.position,
                                    Seq::empty(),
                                ),
                            ]
                        } else {
                            Seq::empty()
                        };
                        if end + 1 < stmt.tokens.len() {
                            let rocket = stmt.tokens[end + 1];
                            let e4: Seq<ErrorModel> = if !(rocket.kind == TokenType::Symbol
                                && rocket.text == "=>"@) {
                                seq![
                                    spec_new_entry(
                                        ErrorKind::UnexpectedSymbol,
                                        rocket.position,
                                        seq!["=>"@, rocket.text],
                                    ),
                                ]
                            } else {
                                Seq::empty()
                            };
                            let g = spec_get_expression(stmt.tokens.skip(end + 2));
                            let expression = match g.0 {
                                Some(x) => x,
                                None => spec_null_expression(),
                            };
                            (
                                CommandModel::Function(
                                    FunctionModel {
                                        name,
                                        param_names: params,
                                        statement: stmt,
                                        expression,
                                    },
                                ),
                                e1 + e2 + e3 + e4 + g.1,
                            )
                        } else {
                            (
                                CommandModel::Function(
                                    FunctionModel {
                                        name,
                                        param_names: params,
                                        statement: stmt,
                                        expression: spec_null_expression(),
                                    },
                                ),
                                e1 + e2 + e3 + seq![
                                    spec_new_entry(
                                        ErrorKind::SymbolNotFound,
                                        init.position,
                                        seq!["=>"@],
                                    ),
                                ],
                            )
                        }
                    }
                },
            }
        }
    }
}

/// Recognizes a `function` definition.
#[verifier::rlimit(100)]
pub fn recognize_function(statement: &Statement, errs_acc: &mut Vec<ErrorEntry>) -> (c: Command)
    ensures
        c.model() == spec_recognize_function(statement.model()).0,
        final(errs_acc).deep_view() == old(errs_acc).deep_view() + spec_recognize_function(
            statement.model(),
        ).1,
{
    let ghost stmt = statement.model();
    let tokens = &statement.tokens;
    if !is_first_token_specific_word(tokens, "function") {
        proof {
            assert(errs_acc.deep_view() + Seq::<ErrorModel>::empty() =~= errs_acc.deep_view());
        }
        return Command::Unclaimed;
    }
    let init_position = tokens[0].position;
    if tokens.len() < 4 {
        let mut args: Vec<String> = Vec::new();
        args.push(String::from_str("function FunctionName(arg1, arg2, ...) => arg1 + arg2; "));
        proof {
            assert(args.deep_view() =~= seq![
                "function FunctionName(arg1, arg2, ...) => arg1 + arg2; "@,
            ]);
        }
        errs_acc.push(ErrorEntry::new(ErrorKind::WrongCommandSemantic, &init_position, args));
        let c = Command::Function(
            FunctionCommand {
                name: String::new(),
                param_names: Vec::new(),
                statement: clone_statement(statement),
                expression: null_expression(),
            },
        );
        proof {
            assert(c.model() =~~= spec_recognize_function(stmt).0);
        }
        return c;
    }
    let name_token = &tokens[1];
    let mut name = String::new();
    if name_token.token_type == TokenType::Word {
        name = name_token.value.clone();
        if is_keyword(name.as_str()) {
            let mut args: Vec<String> = Vec::new();
            args.push(name.clone());
            proof {
                assert(args.deep_view() =~= seq![stmt.tokens[1].text]);
            }
            errs_acc.push(ErrorEntry::new(ErrorKind::NameKeyword, &name_token.position, args));
        }
    } else {
        let mut args: Vec<String> = Vec::new();
        args.push(name_token.value.clone());
        proof {
            assert(args.deep_view() =~= seq![stmt.tokens[1].text]);
        }
        errs_acc.push(ErrorEntry::new(ErrorKind::InvalidName, &name_token.position, args));
    }
    let found = find_token(tokens, ")", TokenType::Symbol);
    proof {
        lemma_find_token(stmt.tokens, ")"@, TokenType::Symbol, 0);
    }
    let end: usize = match found {
        Some(i) => i,
        None => {
            let mut args: Vec<String> = Vec::new();
            args.push(String::from_str(")"));
            proof {
                assert(args.deep_view() =~= seq![")"@]);
            }
            errs_acc.push(ErrorEntry::new(ErrorKind::SymbolNotFound, &init_position, args));
            let c = Command::Function(
                FunctionCommand {
                    name,
                    param_names: Vec::new(),
                    statement: clone_statement(statement),
                    expression: null_expression(),
                },
            );
            proof {
                assert(c.model() =~~= spec_recognize_function(stmt).0);
            }
            return c;
        },
    };
    if end == 0 {
        let c = Command::Function(
            FunctionCommand {
                name,
                param_names: Vec::new(),
                statement: clone_statement(statement),
                expression: null_expression(),
            },
        );
        proof {
            assert(c.model() =~~= spec_recognize_function(stmt).0);
        }
        return c;
    }
    let opened = &tokens[2];
    if !(opened.token_type == TokenType::Symbol && crate::text::str_eq(opened.value.as_str(), "(")) {
        let mut args: Vec<String> = Vec::new();
        args.push(String::from_str("("));
        args.push(opened.value.clone());
        proof {
            assert(args.deep_view() =~= seq!["("@, stmt.tokens[2].text]);
        }
        errs_acc.push(ErrorEntry::new(ErrorKind::UnexpectedSymbol, &opened.position, args));
    }
    let params = get_args(tokens, 3, end, false);
    if statement.substatements.len() != 0 {
        let args: Vec<String> = Vec::new();
        proof {
            assert(args.deep_view() =~= Seq::<Seq<char>>::empty());
        }
        errs_acc.push(ErrorEntry::new(ErrorKind::AreSubstatements, &init_position, args));
    }
    if end + 1 < tokens.len() {
        let rocket = &tokens[end + 1];
        if !(rocket.token_type == TokenType::Symbol && crate::text::str_eq(
            rocket.value.as_str(),
            "=>",
        )) {
            let mut args: Vec<String> = Vec::new();
            args.push(String::from_str("=>"));
            args.push(rocket.value.clone());
            proof {
                assert(args.deep_view() =~= seq!["=>"@, stmt.tokens[end + 1].text]);
            }
            errs_acc.push(ErrorEntry::new(ErrorKind::UnexpectedSymbol, &rocket.position, args));
        }
        let expr_tokens = tokens_slice(tokens, end + 2, tokens.len());
        proof {
            assert(expr_tokens.deep_view() =~= stmt.tokens.skip(end + 2));
        }
        let expression = match get_expression(&expr_tokens, errs_acc) {
            Some(x) => x,
            None => null_expression(),
        };
        let c = Command::Function(
            FunctionCommand {
                name,
                param_names: params,
                statement: clone_statement(statement),
                expression,
            },
        );
        proof {
            assert(c.model() =~~= spec_recognize_function(stmt).0);
            assert(errs_acc.deep_view() =~= old(errs_acc).deep_view() + spec_recognize_function(
                stmt,
            ).1);
        }
        c
    } else {
        let mut args: Vec<String> = Vec::new();
        args.push(String::from_str("=>"));
        proof {
            assert(args.deep_view() =~= seq!["=>"@]);
        }
        errs_acc.push(ErrorEntry::new(ErrorKind::SymbolNotFound, &init_position, args));
        let c = Command::Function(
            FunctionCommand {
                name,
                param_names: params,
                statement: clone_statement(statement),
                expression: null_expression(),
            },
        );
        proof {
            assert(c.model() =~~= spec_recognize_function(stmt).0);
            assert(errs_acc.deep_view() =~= old(errs_acc).deep_view() + spec_recognize_function(
                stmt,
            ).1);
        }
        c
    }
}

/// Recognizes `function` definitions.
pub struct FunctionCommandRecognizer {}

impl CommandRecognizer for FunctionCommandRecognizer {
    open spec fn spec_from_statement(&self, stmt: StatementModel) -> (CommandModel, Seq<ErrorModel>) {
        spec_recognize_function(stmt)
    }

    fn from_statement(&self, statement: &Statement, errs_acc: &mut Vec<ErrorEntry>) -> (c: Command) {
        recognize_function(statement, errs_acc)
    }
}

} // verus!
