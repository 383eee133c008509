//! The ICU template grammar: abstract syntax nodes and the parser.

pub mod ast;
pub mod grammar;
pub mod parse;

pub use parse::parse;
pub use parse::ParseError;
