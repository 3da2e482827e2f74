//! Raw strings: `r`, some `#`, a quote, any text, a quote and as many `#`.

use vstd::prelude::*;
use crate::utf8_parser::basic::{one_char, one_char_rel, repeat_char, repeat_char_rel};
use crate::utf8_parser::combinators;
use crate::utf8_parser::combinators::{
    advancing, context, context_rel, cut, cut_rel, delimited, delimited_rel, failed, lemma_delimited_wider,
    lemma_many0_rel_wider, lookahead, lookahead_rel, many0, many0_rel, map_rel, pair, pair_rel,
    sound, take_until, take_until_rel, lemma_until_wider, Rel,
};
use crate::utf8_parser::error::deeper_error;
use crate::utf8_parser::input::Input;
use crate::utf8_parser::ok::IOk;
use crate::utf8_parser::IResultLookahead;

verus! {

/// One `#`; without it the failure is recoverable.
pub open spec fn hash_rel<'a>() -> Rel<'a, char> {
    lookahead_rel(one_char_rel('#'))
}

fn hash<'a>(input: Input<'a>) -> (res: IResultLookahead<'a, char>)
    requires
        input.wf(),
    ensures
        hash_rel()(input, res),
        sound(input, res),
        advancing(input, res),
{
    let one = |d: Input<'a>| -> (r2: IResultLookahead<'a, char>)
        requires
            d.wf(),
        ensures
            one_char_rel('#')(d, r2),
            sound(d, r2),
            advancing(d, r2),
        { one_char('#', d) };
    lookahead(one, input)
}

/// The `#` that follow one another.
pub open spec fn hashes_rel<'a>() -> Rel<'a, Vec<char>> {
    many0_rel(hash_rel())
}

fn hashes<'a>(input: Input<'a>) -> (res: IResultLookahead<'a, Vec<char>>)
    requires
        input.wf(),
    ensures
        hashes_rel()(input, res),
        sound(input, res),
{
    let res = many0(hash, input);
    proof {
        lemma_many0_rel_wider(combinators::ens(&hash), hash_rel(), input, res);
    }
    res
}

fn letter_r<'a>(input: Input<'a>) -> (res: IResultLookahead<'a, char>)
    requires
        input.wf(),
    ensures
        one_char_rel('r')(input, res),
        sound(input, res),
{
    one_char('r', input)
}

fn quote<'a>(input: Input<'a>) -> (res: IResultLookahead<'a, char>)
    requires
        input.wf(),
    ensures
        one_char_rel('"')(input, res),
        sound(input, res),
        advancing(input, res),
{
    one_char('"', input)
}

/// How many there are.
pub open spec fn as_count() -> spec_fn(Vec<char>, usize) -> bool {
    |v: Vec<char>, out: usize| out == v@.len()
}

/// What `raw_string_start` does: it reads `r`, the `#` that follow and a
/// quote, and gives the number of `#`.
pub open spec fn raw_string_start_rel<'a>() -> Rel<'a, usize> {
    map_rel(delimited_rel(one_char_rel('r'), hashes_rel(), one_char_rel('"')), as_count())
}

/// Reads the start of a raw string and gives the number of its `#`.
pub fn raw_string_start<'a>(input: Input<'a>) -> (res: IResultLookahead<'a, usize>)
    requires
        input.wf(),
    ensures
        raw_string_start_rel()(input, res),
        sound(input, res),
{
    let opening = |c: Input<'a>| -> (r: IResultLookahead<'a, Vec<char>>)
        requires
            c.wf(),
        ensures
            delimited_rel(one_char_rel('r'), hashes_rel(), one_char_rel('"'))(c, r),
            sound(c, r),
        {
            let r = delimited(letter_r, hashes, quote, c);
            proof {
                lemma_delimited_wider(
                    combinators::ens(&letter_r),
                    one_char_rel('r'),
                    combinators::ens(&hashes),
                    hashes_rel(),
                    combinators::ens(&quote),
                    one_char_rel('"'),
                    c,
                    r,
                );
            }
            r
        };
    let count = |v: Vec<char>| -> (out: usize)
        ensures
            as_count()(v, out),
        { v.len() };
    combinators::map(opening, count, input)
}

/// The end of a raw string that began with `num` `#`: a quote and `num`
/// `#`. Without it the failure is recoverable.
pub open spec fn raw_string_end_rel<'a>(num: usize) -> Rel<'a, (char, Input<'a>)> {
    lookahead_rel(pair_rel(one_char_rel('"'), repeat_char_rel('#', num)))
}

fn raw_string_end<'a>(num: usize, input: Input<'a>) -> (res: IResultLookahead<
    'a,
    (char, Input<'a>),
>)
    requires
        input.wf(),
    ensures
        raw_string_end_rel(num)(input, res),
        sound(input, res),
{
    let both = |c: Input<'a>| -> (r: IResultLookahead<'a, (char, Input<'a>)>)
        requires
            c.wf(),
        ensures
            pair_rel(one_char_rel('"'), repeat_char_rel('#', num))(c, r),
            sound(c, r),
        {
            let marks = |d: Input<'a>| -> (r2: IResultLookahead<'a, Input<'a>>)
                requires
                    d.wf(),
                ensures
                    repeat_char_rel('#', num)(d, r2),
                    sound(d, r2),
                { repeat_char('#', num, d) };
            pair(quote, marks, c)
        };
    lookahead(both, input)
}

/// The text of a raw string that began with `num` `#`, and its end: all
/// characters up to the first place where the end stands. A string without
/// end is a fatal failure.
pub open spec fn raw_string_body_rel<'a>(num: usize) -> Rel<'a, Input<'a>> {
    cut_rel(take_until_rel(raw_string_end_rel(num)))
}

fn raw_string_body<'a>(num: usize, input: Input<'a>) -> (res: IResultLookahead<'a, Input<'a>>)
    requires
        input.wf(),
    ensures
        raw_string_body_rel(num)(input, res),
        sound(input, res),
        res matches Ok(ok) ==> ok.parsed.wf(),
{
    let search = |c: Input<'a>| -> (r: IResultLookahead<'a, Input<'a>>)
        requires
            c.wf(),
        ensures
            take_until_rel(raw_string_end_rel(num))(c, r),
            sound(c, r),
            r matches Ok(ok) ==> ok.parsed.wf(),
        {
            let end = |d: Input<'a>| -> (r2: IResultLookahead<'a, (char, Input<'a>)>)
                requires
                    d.wf(),
                ensures
                    raw_string_end_rel(num)(d, r2),
                    sound(d, r2),
                { raw_string_end(num, d) };
            let r = take_until(end, c);
            proof {
                lemma_until_wider(combinators::ens(&end), raw_string_end_rel(num), c, 0, r);
            }
            r
        };
    cut(search, input)
}

/// What `raw_string_inner` does: it reads the start of a raw string, which
/// says how many `#` end it, then the text and the end. Its value is the
/// text. Without the start the failure is recoverable.
pub open spec fn raw_string_inner_rel<'a>() -> Rel<'a, &'a str> {
    |input: Input<'a>, res: IResultLookahead<'a, &'a str>|
        exists|r1: IResultLookahead<'a, usize>| #[trigger]
            lookahead_rel(raw_string_start_rel())(input, r1) && match r1 {
                Err(e) => failed(res, e),
                Ok(ok1) => exists|r2: IResultLookahead<'a, Input<'a>>| #[trigger]
                    raw_string_body_rel(ok1.parsed)(ok1.remaining, r2) && match r2 {
                        Err(e) => failed(res, e),
                        Ok(ok2) => {
                            &&& res matches Ok(k)
                            &&& k.remaining == ok2.remaining
                            &&& k.parsed@ == ok2.parsed.text()
                            &&& k.discarded_error == deeper_error(
                                ok1.discarded_error,
                                ok2.discarded_error,
                            )
                        },
                    },
            }
}

/// Reads a raw string and gives its text.
pub fn raw_string_inner<'a>(input: Input<'a>) -> (res: IResultLookahead<'a, &'a str>)
    requires
        input.wf(),
    ensures
        raw_string_inner_rel()(input, res),
        sound(input, res),
{
    let r1 = lookahead(raw_string_start, input);
    let ghost g1 = r1;
    proof {
        combinators::lemma_lookahead_wider(
            combinators::ens(&raw_string_start),
            raw_string_start_rel(),
            input,
            g1,
        );
    }
    let ok = match r1 {
        Ok(ok) => ok,
        Err(e) => {
            return Err(e);
        },
    };
    let num = ok.parsed;
    let r2 = raw_string_body(num, ok.remaining);
    let ghost g2 = r2;
    match r2 {
        Err(e) => Err(e),
        Ok(ok2) => {
            let IOk { remaining, parsed, discarded_error } = ok2.prepend_err(ok.discarded_error);
            Ok(IOk { remaining, parsed: parsed.fragment(), discarded_error })
        },
    }
}

/// What `parse_raw_string` does.
pub open spec fn parse_raw_string_rel<'a>() -> Rel<'a, &'a str> {
    context_rel("raw string", raw_string_inner_rel())
}

/// Reads a raw string.
pub fn parse_raw_string<'a>(input: Input<'a>) -> (res: IResultLookahead<'a, &'a str>)
    requires
        input.wf(),
    ensures
        parse_raw_string_rel()(input, res),
        sound(input, res),
{
    context("raw string", raw_string_inner, input)
}

} // verus!
