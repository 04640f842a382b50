//! The `import` recognizer: claims statements whose first token is the
//! keyword `import` and validates the shape `import packageName;`.

use vstd::prelude::*;
use vstd::string::StringExecFns;
use crate::statement::Statement;
use crate::statement::StatementModel;
use crate::statement::clone_statement;
use crate::error::ErrorEntry;
use crate::error::ErrorKind;
use crate::error::ErrorModel;
use crate::error::spec_new_entry;
use crate::token::TokenType;
use crate::keywords::is_keyword;
use crate::keywords::spec_is_keyword;
use crate::commands::command::Command;
use crate::commands::command::CommandModel;
use crate::commands::command::CommandRecognizer;
use crate::commands::command::ImportCommand;
use crate::commands::command::ImportModel;
use crate::commands::helper::is_first_token_specific_word;
use crate::commands::helper::spec_is_first_token_specific_word;

verus! {

/// The command and diagnostics of the `import` recognizer: a claim demands
/// exactly `import name;`, no substatement block, and an unreserved word as
/// the name; every violation is reported and the best-effort command still
/// carries whatever name could be read.
pub open spec fn spec_recognize_import(stmt: StatementModel) -> (CommandModel, Seq<ErrorModel>) {
    if !spec_is_first_token_specific_word(stmt.tokens, "import"@) {
        (CommandModel::Unclaimed, Seq::empty())
    } else {
        let init = stmt.tokens[0];
        let e1: Seq<ErrorModel> = if stmt.tokens.len() != 2 {
            seq![
                spec_new_entry(
                    ErrorKind::WrongCommandSemantic,
                    init.position,
                    seq!["import packageName; "@],
                ),
            ]
        } else {
            Seq::empty()
        };
        let e2: Seq<ErrorModel> = if stmt.substatements.len() > 0 {
            seq![spec_new_entry(ErrorKind::AreSubstatements, init.position, Seq::empty())]
        } else {
            Seq::empty()
        };
        let name: Seq<char> = if stmt.tokens.len() > 1 && stmt.tokens[1].kind == TokenType::Word {
            stmt.tokens[1].text
        } else {
            Seq::empty()
        };
        let e3: Seq<ErrorModel> = if stmt.tokens.len() > 1 {
            if stmt.tokens[1].kind == TokenType::Word {
                if spec_is_keyword(stmt.tokens[1].text) {
                    seq![
                        spec_new_entry(
                            ErrorKind::NameKeyword,
                            init.position,
                            seq![stmt.tokens[1].text],
                        ),
                    ]
                } else {
                    Seq::empty()
                }
            } else {
                seq![
                    spec_new_entry(
                        ErrorKind::InvalidName,
                        init.position,
                        seq![Seq::<char>::empty()],
                    ),
                ]
            }
        } else {
            Seq::empty()
        };
        (CommandModel::Import(ImportModel { statement: stmt, package_name: name }), e1 + e2 + e3)
    }
}

/// Recognizes an `import` declaration.
pub fn recognize_import(statement: &Statement, errs_acc: &mut Vec<ErrorEntry>) -> (c: Command)
    ensures
        c.model() == spec_recognize_import(statement.model()).0,
        final(errs_acc).deep_view() == old(errs_acc).deep_view() + spec_recognize_import(
            statement.model(),
        ).1,
{
    let ghost stmt = statement.model();
    let tokens = &statement.tokens;
    if !is_first_token_specific_word(tokens, "import") {
        proof {
            assert(errs_acc.deep_view() + Seq::<ErrorModel>::empty() =~= errs_acc.deep_view());
        }
        return Command::Unclaimed;
    }
    let init_position = tokens[0].position;
    if tokens.len() != 2 {
        let mut args: Vec<String> = Vec::new();
        args.push(String::from_str("import packageName; "));
        proof {
            assert(args.deep_view() =~= seq!["import packageName; "@]);
        }
        errs_acc.push(ErrorEntry::new(ErrorKind::WrongCommandSemantic, &init_position, args));
    }
    if statement.substatements.len() > 0 {
        let args: Vec<String> = Vec::new();
        proof {
            assert(args.deep_view() =~= Seq::<Seq<char>>::empty());
        }
        errs_acc.push(ErrorEntry::new(ErrorKind::AreSubstatements, &init_position, args));
    }
    let mut name = String::new();
    if tokens.len() > 1 {
        let name_token = &tokens[1];
        if name_token.token_type == TokenType::Word {
            name = name_token.value.clone();
            if is_keyword(name.as_str()) {
                let mut args: Vec<String> = Vec::new();
                args.push(name.clone());
                proof {
                    assert(args.deep_view() =~= seq![stmt.tokens[1].text]);
                }
                errs_acc.push(ErrorEntry::new(ErrorKind::NameKeyword, &init_position, args));
            }
        } else {
            let mut args: Vec<String> = Vec::new();
            args.push(name.clone());
            proof {
                assert(args.deep_view() =~= seq![Seq::<char>::empty()]);
            }
            errs_acc.push(ErrorEntry::new(ErrorKind::InvalidName, &init_position, args));
        }
    }
    let c = Command::Import(ImportCommand { package_name: name, statement: clone_statement(statement) });
    proof {
        assert(errs_acc.deep_view() =~= old(errs_acc).deep_view() + spec_recognize_import(
            stmt,
        ).1);
    }
    c
}

/// Recognizes `import` declarations.
pub struct ImportCommandRecognizer {}

impl CommandRecognizer for ImportCommandRecognizer {
    open spec fn spec_from_statement(&self, stmt: StatementModel) -> (CommandModel, Seq<ErrorModel>) {
        spec_recognize_import(stmt)
    }

    fn from_statement(&self, statement: &Statement, errs_acc: &mut Vec<ErrorEntry>) -> (c: Command) {
        recognize_import(statement, errs_acc)
    }
}

} // verus!
