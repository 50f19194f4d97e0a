//! A grammar-driven configuration parser for an embedded real-time
//! application description: a target device, an `init` and an `idle`
//! routine, a map of statically allocated resources, and a map of tasks.
//!
//! The input is a stream of lexical tokens (identifiers, punctuation,
//! literals, and delimited groups) already produced by an external
//! tokenizer; the output is a validated abstract syntax tree, or a
//! structured error carrying a chain of context notes.

pub mod ast;
pub mod error;
pub mod grammar;
pub mod laws;
pub mod parse;
pub mod token;

pub use token::Delim;
pub use token::Lit;
pub use token::LitView;
pub use token::Token;
pub use token::TokenView;
pub use token::copy_token;
pub use ast::App;
pub use ast::Fragment;
pub use ast::Idents;
pub use ast::Idle;
pub use ast::Init;
pub use ast::Static;
pub use ast::Statics;
pub use ast::Task;
pub use ast::Tasks;
pub use error::Context;
pub use error::Error;
pub use error::ErrorKind;
pub use parse::app;
