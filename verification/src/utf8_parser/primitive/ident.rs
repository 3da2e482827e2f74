//! Names: plain identifiers, and raw identifiers after `r#`.

use vstd::prelude::*;
use crate::utf8_parser::basic::{tag, tag_rel};
use crate::utf8_parser::char_categories::{
    decides, ident_first, ident_other, ident_raw, is_ident_first_char, is_ident_other_char,
    is_ident_raw_char,
};
use crate::utf8_parser::combinators;
use crate::utf8_parser::combinators::{
    advancing, alt2, alt2_rel, context, context_rel, fn_ens, lemma_take1_if_wider,
    lemma_take_while1_wider, lemma_take_while_wider, lookahead, lookahead_rel, map_rel, preceded,
    preceded_rel, recognize, recognize_rel, sound, take1_if, take1_if_rel, take_while,
    take_while1, take_while1_rel, take_while_rel, Rel,
};
use crate::utf8_parser::error::Expectation;
use crate::utf8_parser::input::Input;
use crate::utf8_parser::pt::Ident;
use crate::utf8_parser::IResultLookahead;

verus! {

/// What `ident_first_char` does: it reads a letter or `_`.
pub open spec fn ident_first_char_rel<'a>() -> Rel<'a, Input<'a>> {
    take1_if_rel(
        decides(|c: char| ident_first(c)),
        Expectation::OneOfExpectations(&[Expectation::Alpha, Expectation::Char('_')]),
    )
}

/// Reads the first character of an identifier.
pub fn ident_first_char<'a>(input: Input<'a>) -> (res: IResultLookahead<'a, Input<'a>>)
    requires
        input.wf(),
    ensures
        ident_first_char_rel()(input, res),
        sound(input, res),
        advancing(input, res),
{
    let res = take1_if(
        is_ident_first_char,
        Expectation::OneOfExpectations(&[Expectation::Alpha, Expectation::Char('_')]),
        input,
    );
    proof {
        lemma_take1_if_wider(
            fn_ens(&is_ident_first_char),
            decides(|c: char| ident_first(c)),
            Expectation::OneOfExpectations(&[Expectation::Alpha, Expectation::Char('_')]),
            input,
            res,
        );
    }
    res
}

/// The characters of a raw identifier, one at least.
pub open spec fn raw_chars_rel<'a>() -> Rel<'a, Input<'a>> {
    take_while1_rel(decides(|c: char| ident_raw(c)), Expectation::AlphaNumeric)
}

fn raw_chars<'a>(input: Input<'a>) -> (res: IResultLookahead<'a, Input<'a>>)
    requires
        input.wf(),
    ensures
        raw_chars_rel()(input, res),
        sound(input, res),
        advancing(input, res),
        res matches Ok(ok) ==> ok.parsed.wf(),
{
    let res = take_while1(is_ident_raw_char, Expectation::AlphaNumeric, input);
    proof {
        lemma_take_while1_wider(
            fn_ens(&is_ident_raw_char),
            decides(|c: char| ident_raw(c)),
            Expectation::AlphaNumeric,
            input,
            res,
        );
    }
    res
}

/// The mark of a raw identifier; without it the failure is recoverable.
pub open spec fn raw_mark_rel<'a>() -> Rel<'a, Input<'a>> {
    lookahead_rel(tag_rel("r#"))
}

fn raw_mark<'a>(input: Input<'a>) -> (res: IResultLookahead<'a, Input<'a>>)
    requires
        input.wf(),
    ensures
        raw_mark_rel()(input, res),
        sound(input, res),
{
    let mark = |d: Input<'a>| -> (r2: IResultLookahead<'a, Input<'a>>)
        requires
            d.wf(),
        ensures
            tag_rel("r#")(d, r2),
            sound(d, r2),
        { tag("r#", d) };
    lookahead(mark, input)
}

/// What `raw_ident_inner` does: it reads `r#` and the characters of a raw
/// identifier, which are its value.
pub open spec fn raw_ident_inner_rel<'a>() -> Rel<'a, Input<'a>> {
    preceded_rel(raw_mark_rel(), raw_chars_rel())
}

/// Reads a raw identifier and gives what stands behind `r#`.
pub fn raw_ident_inner<'a>(input: Input<'a>) -> (res: IResultLookahead<'a, Input<'a>>)
    requires
        input.wf(),
    ensures
        raw_ident_inner_rel()(input, res),
        sound(input, res),
        advancing(input, res),
        res matches Ok(ok) ==> ok.parsed.wf(),
{
    preceded(raw_mark, raw_chars, input)
}

/// The characters that may follow the first one of an identifier.
pub open spec fn ident_rest_rel<'a>() -> Rel<'a, Input<'a>> {
    take_while_rel(decides(|c: char| ident_other(c)))
}

fn ident_rest<'a>(input: Input<'a>) -> (res: IResultLookahead<'a, Input<'a>>)
    requires
        input.wf(),
    ensures
        ident_rest_rel()(input, res),
        sound(input, res),
{
    let res = take_while(is_ident_other_char, input);
    proof {
        lemma_take_while_wider(
            fn_ens(&is_ident_other_char),
            decides(|c: char| ident_other(c)),
            input,
            res,
        );
    }
    res
}

/// What `ident_inner` does: it reads a letter or `_` and the letters,
/// digits and `_` that follow, and gives all of them.
pub open spec fn ident_inner_rel<'a>() -> Rel<'a, Input<'a>> {
    recognize_rel(preceded_rel(ident_first_char_rel(), ident_rest_rel()))
}

/// Reads a plain identifier.
pub fn ident_inner<'a>(input: Input<'a>) -> (res: IResultLookahead<'a, Input<'a>>)
    requires
        input.wf(),
    ensures
        ident_inner_rel()(input, res),
        sound(input, res),
        advancing(input, res),
        res matches Ok(ok) ==> ok.parsed.wf(),
{
    let whole = |c: Input<'a>| -> (r: IResultLookahead<'a, Input<'a>>)
        requires
            c.wf(),
        ensures
            preceded_rel(ident_first_char_rel(), ident_rest_rel())(c, r),
            sound(c, r),
            advancing(c, r),
        { preceded(ident_first_char, ident_rest, c) };
    recognize(whole, input)
}

/// The name that a part of the source spells.
pub open spec fn as_ident<'a>() -> spec_fn(Input<'a>, Ident<'a>) -> bool {
    |m: Input<'a>, out: Ident<'a>| out.0@ == m.text()
}

/// The name that a part of the source spells.
pub fn ast_ident_from_input<'a>(input: Input<'a>) -> (res: Ident<'a>)
    requires
        input.wf(),
    ensures
        as_ident()(input, res),
{
    Ident::from_str(input.fragment())
}

/// What `ident` does: it reads a raw identifier, or else a plain one.
pub open spec fn ident_rel<'a>() -> Rel<'a, Ident<'a>> {
    context_rel("ident", map_rel(alt2_rel(raw_ident_inner_rel(), ident_inner_rel()), as_ident()))
}

/// Reads a name.
pub fn ident<'a>(input: Input<'a>) -> (res: IResultLookahead<'a, Ident<'a>>)
    requires
        input.wf(),
    ensures
        ident_rel()(input, res),
        sound(input, res),
        advancing(input, res),
{
    let named = |c: Input<'a>| -> (r: IResultLookahead<'a, Ident<'a>>)
        requires
            c.wf(),
        ensures
            map_rel(alt2_rel(raw_ident_inner_rel(), ident_inner_rel()), as_ident())(c, r),
            sound(c, r),
            advancing(c, r),
        {
            let either = |d: Input<'a>| -> (r2: IResultLookahead<'a, Input<'a>>)
                requires
                    d.wf(),
                ensures
                    alt2_rel(raw_ident_inner_rel(), ident_inner_rel())(d, r2),
                    sound(d, r2),
                    advancing(d, r2),
                    r2 matches Ok(ok) ==> ok.parsed.wf(),
                { alt2(raw_ident_inner, ident_inner, d) };
            combinators::map(either, ast_ident_from_input, c)
        };
    context("ident", named, input)
}

} // verus!
