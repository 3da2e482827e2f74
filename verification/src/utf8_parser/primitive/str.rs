//! Strings without escapes, which are read without a copy.

use vstd::prelude::*;
use crate::utf8_parser::basic::{tag, tag_rel};
use crate::utf8_parser::char_categories::decides;
use crate::utf8_parser::combinators;
use crate::utf8_parser::combinators::{
    delimited, delimited_rel, fn_ens, lemma_take_while_wider, map_rel, sound, take_while,
    take_while_rel, Rel,
};
use crate::utf8_parser::input::Input;
use crate::utf8_parser::IResultLookahead;

verus! {

/// A character that stands for itself in a string.
pub open spec fn plain_char(c: char) -> bool {
    c != '"' && c != '\\'
}

/// Does `c` stand for itself in a string?
pub fn is_plain_char(c: char) -> (res: bool)
    ensures
        res == plain_char(c),
{
    c != '"' && c != '\\'
}

/// The run of characters at the start that stand for themselves.
pub open spec fn plain_run_rel<'a>() -> Rel<'a, Input<'a>> {
    take_while_rel(decides(|c: char| plain_char(c)))
}

/// Reads the characters up to the next `"` or `\`.
pub fn plain_run<'a>(input: Input<'a>) -> (res: IResultLookahead<'a, Input<'a>>)
    requires
        input.wf(),
    ensures
        plain_run_rel()(input, res),
        sound(input, res),
        res matches Ok(ok) && ok.parsed.wf(),
{
    let res = take_while(is_plain_char, input);
    proof {
        lemma_take_while_wider(fn_ens(&is_plain_char), decides(|c: char| plain_char(c)), input, res);
    }
    res
}

/// The text that a part of the source holds.
pub open spec fn as_text<'a>() -> spec_fn(Input<'a>, &'a str) -> bool {
    |m: Input<'a>, out: &'a str| out@ == m.text()
}

fn text_of<'a>(input: Input<'a>) -> (res: &'a str)
    requires
        input.wf(),
    ensures
        as_text()(input, res),
{
    input.fragment()
}

/// What `inner_str` does: it reads the characters up to the next `"` or
/// `\`.
pub open spec fn inner_str_rel<'a>() -> Rel<'a, &'a str> {
    map_rel(plain_run_rel(), as_text())
}

/// Reads the characters up to the next `"` or `\` and gives them as text.
pub fn inner_str<'a>(input: Input<'a>) -> (res: IResultLookahead<'a, &'a str>)
    requires
        input.wf(),
    ensures
        inner_str_rel()(input, res),
        sound(input, res),
{
    combinators::map(plain_run, text_of, input)
}

/// The quote that opens and closes a string.
pub open spec fn quote_rel<'a>() -> Rel<'a, Input<'a>> {
    tag_rel("\"")
}

fn quote<'a>(input: Input<'a>) -> (res: IResultLookahead<'a, Input<'a>>)
    requires
        input.wf(),
    ensures
        quote_rel()(input, res),
        sound(input, res),
{
    tag("\"", input)
}

/// What `unescaped_str` does: it reads a string between quotes that holds
/// no escape, and gives what stands between the quotes.
pub open spec fn unescaped_str_rel<'a>() -> Rel<'a, &'a str> {
    delimited_rel(quote_rel(), inner_str_rel(), quote_rel())
}

/// Reads a string between quotes that holds no escape.
pub fn unescaped_str<'a>(input: Input<'a>) -> (res: IResultLookahead<'a, &'a str>)
    requires
        input.wf(),
    ensures
        unescaped_str_rel()(input, res),
        sound(input, res),
{
    let res = delimited(quote, inner_str, quote, input);
    proof {
        combinators::lemma_delimited_wider(
            combinators::ens(&quote),
            quote_rel(),
            combinators::ens(&inner_str),
            inner_str_rel(),
            combinators::ens(&quote),
            quote_rel(),
            input,
            res,
        );
    }
    res
}

} // verus!
