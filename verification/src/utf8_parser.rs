use vstd::prelude::*;

pub use self::error::{ErrorTree, InputParseError};
use self::error::InputParseErr;
use self::input::Input;
use self::ok::IOk;

/// Basic parsers which receive `Input`
pub mod basic;
/// What holds of blanks and comments between tokens
pub mod blanks;
/// The categories of characters that the grammar tells apart
pub mod char_categories;
/// Parser combinators which take one or more parsers and modify / combine them
pub mod combinators;
/// RON container parsers
pub mod containers;
/// Parser error collection
pub mod error;
/// Error trees as text for a reader
pub mod error_fmt;
/// What holds of every parse
pub mod facts;
/// `Input` abstraction to slice the input that is being parsed and keep track of the line + column
pub mod input;
/// From a cursor to the line and the column where it stands
pub mod locate;
/// What a parser that succeeded hands back
pub mod ok;
/// RON primitive parsers
pub mod primitive;
/// IR for parsing which will then be converted to the AST
pub mod pt;
/// Parsers for arbitrary RON expression & top-level RON
pub mod ron;
/// Facts about UTF-8 text that slicing at character boundaries rests on
pub mod text;
/// From the parse tree to the tree that the caller gets
pub mod to_ast;
/// Utility functions for parsing
pub mod util;

verus! {

/// What a parser gives: what it read and what is left, or how it failed.
pub type IResultLookahead<'a, O> = Result<IOk<'a, O>, InputParseErr<'a>>;

/// What turning a recognized span into a value gives.
pub type OutputResult<'a, O> = Result<O, InputParseErr<'a>>;

/// What `ast_from_str` gives for a source text: the document that `ron`
/// reads, with lines and columns in the place of cursors; or the error of
/// the failure of `ron`, which points at the furthest place that the parse
/// reached.
pub open spec fn ast_result<'a>(
    input: &'a str,
    res: Result<crate::ast::Ron<'a>, crate::error::Error>,
) -> bool {
    exists|r: Result<pt::Ron<'a>, InputParseError<'a>>| #[trigger]
        ron::ron_result(input, r) && match r {
            Ok(doc) => res matches Ok(a) && to_ast::ron_to(doc, a),
            Err(e) => res matches Err(err) && e.wf() && err.tells(e) && err.points_into(e),
        }
}

/// Reads a whole document from a source text. Every error names a place
/// in the text.
pub fn ast_from_str<'a>(input: &'a str) -> (res: Result<crate::ast::Ron<'a>, crate::error::Error>)
    ensures
        ast_result(input, res),
        res matches Err(err) ==> err.context is Some,
{
    let r = ron::ron(input);
    let ghost g = r;
    assert(ron::ron_result(input, g));
    match r {
        Ok(doc) => Ok(doc.to_ast()),
        Err(e) => Err(crate::error::Error::from_tree(&e)),
    }
}

} // verus!
