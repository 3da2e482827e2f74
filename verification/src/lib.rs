//! A parser for a human-friendly, RON-like data notation.
//!
//! The crate turns source text into a parse tree with exact source spans and,
//! when the text is malformed, into a nested explanation of what was expected
//! and where.

pub use self::error::Error;
pub use self::location::Location;
pub use self::value::Value;

pub mod ast;
pub mod error;
pub mod location;
pub mod print_opt;
pub mod utf8_parser;
pub mod util;
pub mod value;
