//! Front end for a small circuit-description language.
//!
//! Source text runs through four cooperating stages: a lexer that turns
//! characters into positioned tokens, a statement divider that recovers a
//! nested statement tree from braces and semicolons, per-construct command
//! recognizers that turn statements into typed commands, and an expression
//! parser that builds precedence-correct expression trees. Every stage
//! accumulates position-tagged diagnostics instead of stopping at the first
//! problem, and always returns a best-effort result beside its errors.

pub mod text;
pub mod position;
pub mod token;
pub mod statement;
pub mod error;
pub mod keywords;
pub mod recognizers;
pub mod tokenizer;
pub mod statement_divider;
pub mod expression;
pub mod commands;

pub use position::Position;
pub use token::CodeChar;
pub use token::Token;
pub use token::TokenModel;
pub use token::TokenType;
pub use statement::Statement;
pub use statement::StatementModel;
pub use error::Error;
pub use error::ErrorEntry;
pub use error::ErrorKind;
pub use error::ErrorModel;
pub use error::apply_file_name;
pub use keywords::is_keyword;
