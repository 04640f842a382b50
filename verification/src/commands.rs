//! Command recognition: each recognizer either claims a statement, producing
//! a typed command and its diagnostics, or declines; a generic dispatcher
//! tries an ordered list of recognizers per statement.

pub mod command;
pub mod helper;
pub mod package;
pub mod import;
pub mod circle;
pub mod element;
pub mod element_entry;
pub mod function;

pub use command::Command;
pub use command::CommandModel;
pub use command::CommandRecognizer;
pub use command::RecognizerKind;
pub use helper::is_first_token_specific_word;
pub use helper::find_token;
pub use helper::variant_eq;
pub use helper::get_args;
pub use helper::get_expressions_tokens;
pub use helper::get_commands;
pub use command::PackageCommand;
pub use package::PackageCommandRecognizer;
pub use command::ImportCommand;
pub use import::ImportCommandRecognizer;
pub use command::CircleCommand;
pub use circle::CircleCommandRecognizer;
pub use command::ElementCommand;
pub use element::ElementCommandRecognizer;
pub use command::ElementEntryCommand;
pub use element_entry::ElementEntryCommandRecognizer;
pub use command::FunctionCommand;
pub use function::FunctionCommandRecognizer;
