//! A zero-setup command line argument tokenizer.
//!
//! [`parse_arguments`] classifies a sequence of raw tokens into operands,
//! flags and key/value attributes without any pre-declared schema.

pub mod args;
pub mod laws;
pub mod model;
pub mod parser;
mod scanner;

pub use args::Argument;
pub use args::Error;
pub use parser::parse_arguments;
