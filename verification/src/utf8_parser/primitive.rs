use vstd::prelude::*;
use crate::utf8_parser::basic::{one_of_tags, one_of_tags_rel};
use crate::utf8_parser::combinators::{context, context_rel, sound, Rel};
use crate::utf8_parser::input::Input;
use crate::utf8_parser::IResultLookahead;

pub use self::ident::ident;
pub use self::number::{decimal, signed_integer, unsigned_integer};
pub use self::raw_str::parse_raw_string as raw_str;
pub use self::str::unescaped_str;
pub use self::string::parse_string as escaped_string;

pub mod ident;
pub mod number;
pub mod raw_str;
pub mod str;
pub mod string;

verus! {

/// What `bool` does: it reads `true` or `false`.
pub open spec fn bool_rel<'a>() -> Rel<'a, bool> {
    context_rel("bool", one_of_tags_rel(&["true", "false"], &[true, false]))
}

/// Reads a boolean.
pub fn bool<'a>(input: Input<'a>) -> (res: IResultLookahead<'a, bool>)
    requires
        input.wf(),
    ensures
        bool_rel()(input, res),
        sound(input, res),
{
    let word = |c: Input<'a>| -> (r: IResultLookahead<'a, bool>)
        requires
            c.wf(),
        ensures
            one_of_tags_rel(&["true", "false"], &[true, false])(c, r),
            sound(c, r),
        { one_of_tags(&["true", "false"], &[true, false], c) };
    context("bool", word, input)
}

} // verus!
