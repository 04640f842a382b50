//! The `circuit` recognizer: claims statements whose first token is the
//! keyword `circuit` and validates the shape `circuit Name(args) { ... }`,
//! recursing into the substatements for element entries.

use vstd::prelude::*;
use vstd::string::StringExecFns;
use crate::statement::Statement;
use crate::statement::StatementModel;
use crate::statement::clone_statement;
use crate::error::ErrorEntry;
use crate::error::ErrorKind;
use crate::error::ErrorModel;
use crate::error::spec_new_entry;
use crate::token::TokenType;
use crate::text::str_eq;
use crate::keywords::is_keyword;
use crate::keywords::spec_is_keyword;
use crate::commands::command::Command;
use crate::commands::command::CommandModel;
use crate::commands::command::CommandRecognizer;
use crate::commands::command::CircleCommand;
use crate::commands::command::CircleModel;
use crate::commands::command::ElementEntryCommand;
use crate::commands::command::ElementEntryModel;
use crate::commands::command::RecognizerKind;
use crate::commands::command::commands_model;
use crate::commands::command::entries_model;
use crate::commands::helper::is_first_token_specific_word;
use crate::commands::helper::spec_is_first_token_specific_word;
use crate::commands::helper::get_args;
use crate::commands::helper::spec_get_args;
use crate::commands::helper::get_commands;
use crate::commands::helper::spec_get_commands;

verus! {

/// The element entries among recognized commands, in order; anything else
/// was already reported by the dispatcher and is dropped.
pub open spec fn spec_filter_entries(cmds: Seq<CommandModel>, k: int) -> Seq<ElementEntryModel>
    decreases cmds.len() - k,
{
    if !(0 <= k < cmds.len()) {
        Seq::empty()
    } else {
        match cmds[k] {
            CommandModel::ElementEntry(m) => seq![m] + spec_filter_entries(cmds, k + 1),
            _ => spec_filter_entries(cmds, k + 1),
        }
    }
}

/// Collects the element entries among recognized commands.
pub fn filter_entries(cmds: &Vec<Command>) -> (r: Vec<ElementEntryCommand>)
    ensures
        entries_model(r@) == spec_filter_entries(commands_model(cmds@), 0),
{
    let ghost all = commands_model(cmds@);
    let mut out: Vec<ElementEntryCommand> = Vec::new();
    let mut k: usize = 0;
    proof {
        assert(entries_model(out@) =~= Seq::<ElementEntryModel>::empty());
        assert(entries_model(out@) + spec_filter_entries(all, 0) =~= spec_filter_entries(all, 0));
    }
    while k < cmds.len()
        invariant
            k <= cmds.len(),
            all == commands_model(cmds@),
            spec_filter_entries(all, 0) =~= entries_model(out@) + spec_filter_entries(
                all,
                k as int,
            ),
        decreases cmds.len() - k,
    {
        let ghost out0 = entries_model(out@);
        match &cmds[k] {
            Command::ElementEntry(c) => {
                out.push(c.clone());
                proof {
                    assert(entries_model(out@) =~= out0.push(all[k as int]->ElementEntry_0));
                }
            },
            _ => {},
        }
        k = k + 1;
    }
    out
}

/// The command and diagnostics of the `circuit` recognizer: a claim demands
/// `circuit Name(args) { ... }` with an unreserved word as the name and a
/// substatement block, whose entries are recognized by the element-entry
/// recognizer alone; every violation is reported and the best-effort command
/// carries whatever fields could be read.
pub open spec fn spec_recognize_circle(stmt: StatementModel) -> (CommandModel, Seq<ErrorModel>)
    decreases stmt, 0nat, 0int,
{
    if !spec_is_first_token_specific_word(stmt.tokens, "circuit"@) {
        (CommandModel::Unclaimed, Seq::empty())
    } else {
        let init = stmt.tokens[0];
        if stmt.tokens.len() < 4 {
            (
                CommandModel::Circle(
                    CircleModel {
                        name: Seq::empty(),
                        param_names: Seq::empty(),
                        statement: stmt,
                        element_entries: Seq::empty(),
                    },
                ),
                seq![
                    spec_new_entry(
                        ErrorKind::WrongCommandSemantic,
                        init.position,
                        seq!["circuit <CIRCLE_NAME>(<ARGS_LIST>) { ... } "@],
                    ),
                ],
            )
        } else {
            let nt = stmt.tokens[1];
            let name: Seq<char> = if nt.kind == TokenType::Word {
                nt.text
            } else {
                Seq::empty()
            };
            let e1: Seq<ErrorModel> = if nt.kind == TokenType::Word {
                if spec_is_keyword(nt.text) {
                    seq![spec_new_entry(ErrorKind::NameKeyword, nt.position, seq![nt.text])]
                } else {
                    Seq::empty()
                }
            } else {
                seq![spec_new_entry(ErrorKind::InvalidName, nt.position, seq![nt.text])]
            };
            let opened = stmt.tokens[2];
            let e2: Seq<ErrorModel> = if !(opened.kind == TokenType::Symbol && opened.text
                == "("@) {
                seq![
                    spec_new_entry(
                        ErrorKind::UnexpectedSymbol,
                        opened.position,
                        seq!["("@, opened.text],
                    ),
                ]
            } else {
                Seq::empty()
            };
            let closed = stmt.tokens.last();
            let e3: Seq<ErrorModel> = if !(closed.kind == TokenType::Symbol && closed.text
                == ")"@) {
                seq![
                    spec_new_entry(
                        ErrorKind::UnexpectedSymbol,
                        closed.position,
                        seq![")"@, closed.text],
                    ),
                ]
            } else {
                Seq::empty()
            };
            let params = spec_get_args(stmt.tokens, 3, stmt.tokens.len() - 1, false);
            let e4: Seq<ErrorModel> = if stmt.substatements.len() == 0 {
                seq![spec_new_entry(ErrorKind::NoSubstatements, init.position, Seq::empty())]
            } else {
                Seq::empty()
            };
            let gc = spec_get_commands(stmt.substatements, seq![RecognizerKind::ElementEntry]);
            let entries = spec_filter_entries(gc.0, 0);
            (
                CommandModel::Circle(
                    CircleModel { name, param_names: params, statement: stmt, element_entries: entries },
                ),
                e1 + e2 + e3 + e4 + gc.1,
            )
        }
    }
}

/// Recognizes a `circuit` definition.
#[verifier::rlimit(100)]
pub fn recognize_circle(statement: &Statement, errs_acc: &mut Vec<ErrorEntry>) -> (c: Command)
    ensures
        c.model() == spec_recognize_circle(statement.model()).0,
        final(errs_acc).deep_view() == old(errs_acc).deep_view() + spec_recognize_circle(
            statement.model(),
        ).1,
    decreases *statement, 0nat, 0int,
{
    let ghost stmt = statement.model();
    let tokens = &statement.tokens;
    if !is_first_token_specific_word(tokens, "circuit") {
        proof {
            assert(errs_acc.deep_view() + Seq::<ErrorModel>::empty() =~= errs_acc.deep_view());
        }
        return Command::Unclaimed;
    }
    let init_position = tokens[0].position;
    if tokens.len() < 4 {
        let mut args: Vec<String> = Vec::new();
        args.push(String::from_str("circuit <CIRCLE_NAME>(<ARGS_LIST>) { ... } "));
        proof {
            assert(args.deep_view() =~= seq!["circuit <CIRCLE_NAME>(<ARGS_LIST>) { ... } "@]);
        }
        errs_acc.push(ErrorEntry::new(ErrorKind::WrongCommandSemantic, &init_position, args));
        return Command::Circle(
            CircleCommand {
                name: String::new(),
                param_names: Vec::new(),
                element_entries: Vec::new(),
                statement: clone_statement(statement),
            },
        );
    }
    let name_token = &tokens[1];
    let mut name = String::new();
    if name_token.token_type == TokenType::Word {
        name = name_token.value.clone();
        if is_keyword(name.as_str()) {
            let mut args: Vec<String> = Vec::new();
            args.push(name.clone());
            proof {
                assert(args.deep_view() =~= seq![stmt.tokens[1].text]);
            }
            errs_acc.push(ErrorEntry::new(ErrorKind::NameKeyword, &name_token.position, args));
        }
    } else {
        let mut args: Vec<String> = Vec::new();
        args.push(name_token.value.clone());
        proof {
            assert(args.deep_view() =~= seq![stmt.tokens[1].text]);
        }
        errs_acc.push(ErrorEntry::new(ErrorKind::InvalidName, &name_token.position, args));
    }
    let opened = &tokens[2];
    if !(opened.token_type == TokenType::Symbol && str_eq(opened.value.as_str(), "(")) {
        let mut args: Vec<String> = Vec::new();
        args.push(String::from_str("("));
        args.push(opened.value.clone());
        proof {
            assert(args.deep_view() =~= seq!["("@, stmt.tokens[2].text]);
        }
        errs_acc.push(ErrorEntry::new(ErrorKind::UnexpectedSymbol, &opened.position, args));
    }
    let closed = &tokens[tokens.len() - 1];
    if !(closed.token_type == TokenType::Symbol && str_eq(closed.value.as_str(), ")")) {
        let mut args: Vec<String> = Vec::new();
        args.push(String::from_str(")"));
        args.push(closed.value.clone());
        proof {
            assert(stmt.tokens.last() == stmt.tokens[stmt.tokens.len() - 1]);
            assert(args.deep_view() =~= seq![")"@, stmt.tokens.last().text]);
        }
        errs_acc.push(ErrorEntry::new(ErrorKind::UnexpectedSymbol, &closed.position, args));
    }
    let params = get_args(tokens, 3, tokens.len() - 1, false);
    if statement.substatements.len() == 0 {
        let args: Vec<String> = Vec::new();
        proof {
            assert(args.deep_view() =~= Seq::<Seq<char>>::empty());
        }
        errs_acc.push(ErrorEntry::new(ErrorKind::NoSubstatements, &init_position, args));
    }
    let mut recognizers: Vec<RecognizerKind> = Vec::new();
    recognizers.push(RecognizerKind::ElementEntry);
    proof {
        assert(recognizers@ =~= seq![RecognizerKind::ElementEntry]);
    }
    let cmd_entries = get_commands(&statement.substatements, &recognizers, errs_acc);
    let element_entries = filter_entries(&cmd_entries);
    let c = Command::Circle(
        CircleCommand {
            name,
            param_names: params,
            element_entries,
            statement: clone_statement(statement),
        },
    );
    proof {
        assert(c.model() =~~= spec_recognize_circle(stmt).0);
        assert(errs_acc.deep_view() =~= old(errs_acc).deep_view() + spec_recognize_circle(stmt).1);
    }
    c
}

/// Recognizes `circuit` definitions.
pub struct CircleCommandRecognizer {}

impl CommandRecognizer for CircleCommandRecognizer {
    open spec fn spec_from_statement(&self, stmt: StatementModel) -> (CommandModel, Seq<ErrorModel>) {
        spec_recognize_circle(stmt)
    }

    fn from_statement(&self, statement: &Statement, errs_acc: &mut Vec<ErrorEntry>) -> (c: Command) {
        recognize_circle(statement, errs_acc)
    }
}

} // verus!
