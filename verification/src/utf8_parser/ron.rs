//! Parsers for arbitrary RON expression & top-level RON

use vstd::prelude::*;
use crate::utf8_parser::basic::{
    one_char, one_char_rel, one_of_chars, one_of_chars_rel, one_of_tags, one_of_tags_rel, tag,
    tag_rel,
};
use crate::utf8_parser::combinators;
use crate::utf8_parser::combinators::{
    advancing, alt2, alt2_rel, base_failure, comma_list1, comma_list1_rel, context, context_final,
    context_final_rel, context_rel, cut, cut_rel, delimited, delimited_rel, ens, failed,
    lemma_comma_list1_wider, lemma_delimited_wider, lemma_lookahead_wider,
    lemma_many0_rel_wider, lemma_spanned_wider, lemma_ws_wider, lookahead, lookahead_rel, many0,
    many0_rel, map_rel, pair, pair_rel, preceded, preceded_rel, sound, spanned, spanned_rel, ws,
    ws_rel, Rel,
};
use crate::utf8_parser::error::{ErrorTree, Expectation, InputParseErr, InputParseError};
use crate::utf8_parser::containers::{
    list_at, list_within, rmap_at, rmap_within, tagged_at, tagged_within, tuple_at,
    tuple_within, untagged_struct_at, untagged_struct_within,
};
use crate::utf8_parser::input::Input;
use crate::utf8_parser::primitive::bool_rel;
use crate::utf8_parser::primitive::ident::{ident_first_char, ident_first_char_rel};
use crate::utf8_parser::primitive::number::{
    decimal, decimal_rel, signed_integer, signed_integer_rel, unsigned_integer,
    unsigned_integer_rel,
};
use crate::utf8_parser::primitive::raw_str::{
    parse_raw_string, parse_raw_string_rel, raw_string_start, raw_string_start_rel,
};
use crate::utf8_parser::primitive::str::{unescaped_str, unescaped_str_rel};
use crate::utf8_parser::primitive::string::{parse_string, parse_string_rel};
use crate::utf8_parser::text::lemma_ascii_len;
use crate::utf8_parser::pt::{
    Attribute, Decimal, Expr, Extension, Integer, List, RMap, Ron, SignedInteger, Spanned,
    Struct, Tagged, Tuple, UnsignedInteger,
};
use crate::utf8_parser::IResultLookahead;

verus! {

/// What an expression can be, told by how it begins.
#[derive(Clone, Copy, Debug, PartialEq, Eq, Structural)]
pub enum ExprClass {
    StructTuple,
    RMap,
    StrString,
    List,
    Bool,
    /// Signed or Decimal
    SignedDec,
    Dec,
    /// Unsigned or Decimal
    UnsignedDec,
    LeadingIdent,
}

/// The class of a raw string.
pub open spec fn as_string_class() -> spec_fn(usize, ExprClass) -> bool {
    |n: usize, out: ExprClass| out == ExprClass::StrString
}

/// The class of what begins with a name.
pub open spec fn as_ident_class<'a>() -> spec_fn(Input<'a>, ExprClass) -> bool {
    |m: Input<'a>, out: ExprClass| out == ExprClass::LeadingIdent
}

/// The class that the first character tells, where it is no letter.
pub open spec fn class_by_char_rel<'a>() -> Rel<'a, ExprClass> {
    lookahead_rel(
        one_of_chars_rel(
            "({\"[tf+-.0123456789",
            &[
                ExprClass::StructTuple,
                ExprClass::RMap,
                ExprClass::StrString,
                ExprClass::List,
                ExprClass::Bool,
                ExprClass::Bool,
                ExprClass::SignedDec,
                ExprClass::SignedDec,
                ExprClass::Dec,
                ExprClass::UnsignedDec,
                ExprClass::UnsignedDec,
                ExprClass::UnsignedDec,
                ExprClass::UnsignedDec,
                ExprClass::UnsignedDec,
                ExprClass::UnsignedDec,
                ExprClass::UnsignedDec,
                ExprClass::UnsignedDec,
                ExprClass::UnsignedDec,
                ExprClass::UnsignedDec,
            ],
        ),
    )
}

/// The class of what begins with a letter: a raw string where its start
/// stands there, and else what begins with a name.
pub open spec fn class_by_letter_rel<'a>() -> Rel<'a, ExprClass> {
    alt2_rel(
        map_rel(lookahead_rel(raw_string_start_rel()), as_string_class()),
        map_rel(ident_first_char_rel(), as_ident_class()),
    )
}

/// What `ExprClass::parse` does: it tells the class of the expression that
/// begins at the input. What it reads is of no use: the expression is read
/// from the same place again.
pub open spec fn class_rel<'a>() -> Rel<'a, ExprClass> {
    alt2_rel(class_by_char_rel(), class_by_letter_rel())
}

/// A struct, as an expression.
pub open spec fn as_struct_expr<'a>() -> spec_fn(Struct<'a>, Expr<'a>) -> bool {
    |x: Struct<'a>, out: Expr<'a>| out == Expr::Struct(x)
}

/// A tuple, as an expression.
pub open spec fn as_tuple_expr<'a>() -> spec_fn(Tuple<'a>, Expr<'a>) -> bool {
    |x: Tuple<'a>, out: Expr<'a>| out == Expr::Tuple(x)
}

/// A map, as an expression.
pub open spec fn as_map_expr<'a>() -> spec_fn(RMap<'a>, Expr<'a>) -> bool {
    |x: RMap<'a>, out: Expr<'a>| out == Expr::RMap(x)
}

/// A list, as an expression.
pub open spec fn as_list_expr<'a>() -> spec_fn(List<'a>, Expr<'a>) -> bool {
    |x: List<'a>, out: Expr<'a>| out == Expr::List(x)
}

/// A tagged expression, as an expression.
pub open spec fn as_tagged_expr<'a>() -> spec_fn(Tagged<'a>, Expr<'a>) -> bool {
    |x: Tagged<'a>, out: Expr<'a>| out == Expr::Tagged(x)
}

/// A boolean, as an expression.
pub open spec fn as_bool_expr<'a>() -> spec_fn(bool, Expr<'a>) -> bool {
    |x: bool, out: Expr<'a>| out == Expr::<'a>::Bool(x)
}

/// A string that was read without a copy, as an expression.
pub open spec fn as_str_expr<'a>() -> spec_fn(&'a str, Expr<'a>) -> bool {
    |x: &'a str, out: Expr<'a>| out == Expr::<'a>::Str(x)
}

/// A string that was read into a text of its own, as an expression.
pub open spec fn as_string_expr<'a>() -> spec_fn(String, Expr<'a>) -> bool {
    |x: String, out: Expr<'a>| out == Expr::<'a>::String(x)
}

/// A decimal, as an expression.
pub open spec fn as_decimal_expr<'a>() -> spec_fn(Decimal, Expr<'a>) -> bool {
    |x: Decimal, out: Expr<'a>| out == Expr::<'a>::Decimal(x)
}

/// An integer with a sign, as an expression.
pub open spec fn as_signed_expr<'a>() -> spec_fn(SignedInteger, Expr<'a>) -> bool {
    |x: SignedInteger, out: Expr<'a>| out == Expr::<'a>::Integer(Integer::Signed(x))
}

/// An integer without a sign, as an expression.
pub open spec fn as_unsigned_expr<'a>() -> spec_fn(UnsignedInteger, Expr<'a>) -> bool {
    |x: UnsignedInteger, out: Expr<'a>| out == Expr::<'a>::Integer(Integer::Unsigned(x))
}

/// A struct or else a tuple; once the parenthesis is seen, what is neither
/// is a fatal failure.
pub open spec fn struct_or_tuple_rel<'a>(bound: nat, depth: nat) -> Rel<'a, Expr<'a>>
    decreases bound, 14int,
{
    cut_rel(
        alt2_rel(
            map_rel(untagged_struct_at(bound, depth), as_struct_expr()),
            map_rel(tuple_at(bound, depth), as_tuple_expr()),
        ),
    )
}

/// A string of one of the three kinds: a raw string, a string without
/// escapes, or a string with escapes.
pub open spec fn any_string_rel<'a>() -> Rel<'a, Expr<'a>> {
    alt2_rel(
        map_rel(lookahead_rel(parse_raw_string_rel()), as_str_expr()),
        alt2_rel(
            map_rel(lookahead_rel(unescaped_str_rel()), as_str_expr()),
            map_rel(parse_string_rel(), as_string_expr()),
        ),
    )
}

/// A decimal, or else an integer with a sign.
pub open spec fn signed_number_rel<'a>() -> Rel<'a, Expr<'a>> {
    alt2_rel(
        map_rel(decimal_rel(), as_decimal_expr()),
        map_rel(signed_integer_rel(), as_signed_expr()),
    )
}

/// A decimal, or else an integer without a sign.
pub open spec fn unsigned_number_rel<'a>() -> Rel<'a, Expr<'a>> {
    alt2_rel(
        map_rel(decimal_rel(), as_decimal_expr()),
        map_rel(unsigned_integer_rel(), as_unsigned_expr()),
    )
}

/// The parser of the expressions of a class, on inputs of no more than
/// `bound` bytes.
pub open spec fn class_parser_rel<'a>(class: ExprClass, bound: nat, depth: nat) -> Rel<
    'a,
    Expr<'a>,
>
    decreases bound, 15int,
{
    match class {
        ExprClass::StructTuple => struct_or_tuple_rel(bound, depth),
        ExprClass::RMap => map_rel(rmap_at(bound, depth), as_map_expr()),
        ExprClass::StrString => any_string_rel(),
        ExprClass::List => map_rel(list_at(bound, depth), as_list_expr()),
        ExprClass::Bool => map_rel(bool_rel(), as_bool_expr()),
        ExprClass::SignedDec => signed_number_rel(),
        ExprClass::Dec => map_rel(decimal_rel(), as_decimal_expr()),
        ExprClass::UnsignedDec => unsigned_number_rel(),
        ExprClass::LeadingIdent => map_rel(tagged_at(bound, depth), as_tagged_expr()),
    }
}

/// How many expressions may stand inside one another.
pub const MAX_DEPTH: usize = 128;

/// What `expr_inner` does: it tells the class of the expression and runs
/// the parser of that class on the same input. The expression may hold
/// expressions `depth - 1` levels deep; with `depth` at 0 it fails fatally:
/// the input is nested too deeply.
pub open spec fn expr_inner_parses<'a>(
    input: Input<'a>,
    depth: nat,
    res: IResultLookahead<'a, Expr<'a>>,
) -> bool
    decreases input.size(), 16int,
{
    if depth == 0 {
        res == base_failure::<Expr<'a>>(input, Expectation::Nesting)
    } else {
        exists|class: IResultLookahead<'a, ExprClass>| #[trigger]
            class_rel()(input, class) && match class {
                Err(e) => failed(res, e),
                Ok(ok) => class_parser_rel(ok.parsed, input.size(), (depth - 1) as nat)(
                    input,
                    res,
                ),
            }
    }
}

/// What `expr_inner` does, on inputs of no more than `bound` bytes.
pub open spec fn expr_inner_at<'a>(bound: nat, depth: nat) -> Rel<'a, Expr<'a>>
    decreases bound, 17int,
{
    |c: Input<'a>, r: IResultLookahead<'a, Expr<'a>>|
        c.size() <= bound && expr_inner_parses(c, depth, r)
}

/// What `expr` does: it reads one expression of the kind that its beginning
/// tells. Every failure is fatal, and its tree is labelled "expression" at
/// the place where the expression should have begun, with no label added
/// after that one. The expression may hold expressions `depth - 1` levels
/// deep.
pub open spec fn expr_parses<'a>(
    input: Input<'a>,
    depth: nat,
    res: IResultLookahead<'a, Expr<'a>>,
) -> bool
    decreases input.size(), 18int,
{
    cut_rel(context_final_rel("expression", true, expr_inner_at(input.size(), depth)))(input, res)
}

/// What `expr` does: it reads an expression that holds expressions no more
/// than `MAX_DEPTH` levels deep.
pub open spec fn expr_rel<'a>() -> Rel<'a, Expr<'a>> {
    |input: Input<'a>, res: IResultLookahead<'a, Expr<'a>>|
        expr_parses(input, MAX_DEPTH as nat, res)
}

fn class_by_char<'a>(input: Input<'a>) -> (res: IResultLookahead<'a, ExprClass>)
    requires
        input.wf(),
    ensures
        class_by_char_rel()(input, res),
        sound(input, res),
{
    let first = |c: Input<'a>| -> (r: IResultLookahead<'a, ExprClass>)
        requires
            c.wf(),
        ensures
            one_of_chars_rel(
                "({\"[tf+-.0123456789",
                &[
                    ExprClass::StructTuple,
                    ExprClass::RMap,
                    ExprClass::StrString,
                    ExprClass::List,
                    ExprClass::Bool,
                    ExprClass::Bool,
                    ExprClass::SignedDec,
                    ExprClass::SignedDec,
                    ExprClass::Dec,
                    ExprClass::UnsignedDec,
                    ExprClass::UnsignedDec,
                    ExprClass::UnsignedDec,
                    ExprClass::UnsignedDec,
                    ExprClass::UnsignedDec,
                    ExprClass::UnsignedDec,
                    ExprClass::UnsignedDec,
                    ExprClass::UnsignedDec,
                    ExprClass::UnsignedDec,
                    ExprClass::UnsignedDec,
                ],
            )(c, r),
            sound(c, r),
        {
            proof {
                reveal_strlit("({\"[tf+-.0123456789");
                lemma_ascii_len("({\"[tf+-.0123456789"@);
            }
            one_of_chars(
                "({\"[tf+-.0123456789",
                &[
                    ExprClass::StructTuple,
                    ExprClass::RMap,
                    ExprClass::StrString,
                    ExprClass::List,
                    ExprClass::Bool,
                    ExprClass::Bool,
                    ExprClass::SignedDec,
                    ExprClass::SignedDec,
                    ExprClass::Dec,
                    ExprClass::UnsignedDec,
                    ExprClass::UnsignedDec,
                    ExprClass::UnsignedDec,
                    ExprClass::UnsignedDec,
                    ExprClass::UnsignedDec,
                    ExprClass::UnsignedDec,
                    ExprClass::UnsignedDec,
                    ExprClass::UnsignedDec,
                    ExprClass::UnsignedDec,
                    ExprClass::UnsignedDec,
                ],
                c,
            )
        };
    lookahead(first, input)
}

fn class_by_letter<'a>(input: Input<'a>) -> (res: IResultLookahead<'a, ExprClass>)
    requires
        input.wf(),
    ensures
        class_by_letter_rel()(input, res),
        sound(input, res),
{
    let raw = |c: Input<'a>| -> (r: IResultLookahead<'a, ExprClass>)
        requires
            c.wf(),
        ensures
            map_rel(lookahead_rel(raw_string_start_rel()), as_string_class())(c, r),
            sound(c, r),
        {
            let start = |d: Input<'a>| -> (r2: IResultLookahead<'a, usize>)
                requires
                    d.wf(),
                ensures
                    lookahead_rel(raw_string_start_rel())(d, r2),
                    sound(d, r2),
                {
                    let r2 = lookahead(raw_string_start, d);
                    proof {
                        lemma_lookahead_wider(
                            ens(&raw_string_start),
                            raw_string_start_rel(),
                            d,
                            r2,
                        );
                    }
                    r2
                };
            let wrap = |n: usize| -> (out: ExprClass)
                ensures
                    as_string_class()(n, out),
                { ExprClass::StrString };
            combinators::map(start, wrap, c)
        };
    let name = |c: Input<'a>| -> (r: IResultLookahead<'a, ExprClass>)
        requires
            c.wf(),
        ensures
            map_rel(ident_first_char_rel(), as_ident_class())(c, r),
            sound(c, r),
        {
            let wrap = |m: Input<'a>| -> (out: ExprClass)
                ensures
                    as_ident_class()(m, out),
                { ExprClass::LeadingIdent };
            combinators::map(ident_first_char, wrap, c)
        };
    alt2(raw, name, input)
}

impl ExprClass {
    /// Tells the class of the expression that begins at the input.
    pub fn parse<'a>(input: Input<'a>) -> (res: IResultLookahead<'a, ExprClass>)
        requires
            input.wf(),
        ensures
            class_rel()(input, res),
            sound(input, res),
    {
        alt2(class_by_char, class_by_letter, input)
    }
}

fn struct_or_tuple<'a>(input: Input<'a>, depth: usize) -> (res: IResultLookahead<'a, Expr<'a>>)
    requires
        input.wf(),
    ensures
        struct_or_tuple_rel(input.size(), depth as nat)(input, res),
        sound(input, res),
    decreases input.size(), 12int,
{
    let ghost n = input.size();
    let ghost k = depth as nat;
    let as_struct = |c: Input<'a>| -> (r: IResultLookahead<'a, Expr<'a>>)
        requires
            c == input,
        ensures
            map_rel(untagged_struct_at(n, k), as_struct_expr())(c, r),
            sound(c, r),
        {
            let body = |d: Input<'a>| -> (r2: IResultLookahead<'a, Struct<'a>>)
                requires
                    d == input,
                ensures
                    untagged_struct_at(n, k)(d, r2),
                    sound(d, r2),
                { untagged_struct_within(d, depth) };
            let wrap = |x: Struct<'a>| -> (out: Expr<'a>)
                ensures
                    as_struct_expr()(x, out),
                { Expr::Struct(x) };
            combinators::map(body, wrap, c)
        };
    let as_tuple = |c: Input<'a>| -> (r: IResultLookahead<'a, Expr<'a>>)
        requires
            c == input,
        ensures
            map_rel(tuple_at(n, k), as_tuple_expr())(c, r),
            sound(c, r),
        {
            let body = |d: Input<'a>| -> (r2: IResultLookahead<'a, Tuple<'a>>)
                requires
                    d == input,
                ensures
                    tuple_at(n, k)(d, r2),
                    sound(d, r2),
                { tuple_within(d, depth) };
            let wrap = |x: Tuple<'a>| -> (out: Expr<'a>)
                ensures
                    as_tuple_expr()(x, out),
                { Expr::Tuple(x) };
            combinators::map(body, wrap, c)
        };
    let either = |c: Input<'a>| -> (r: IResultLookahead<'a, Expr<'a>>)
        requires
            c == input,
        ensures
            alt2_rel(
                map_rel(untagged_struct_at(n, k), as_struct_expr()),
                map_rel(tuple_at(n, k), as_tuple_expr()),
            )(c, r),
            sound(c, r),
        { alt2(as_struct, as_tuple, c) };
    cut(either, input)
}

fn map_expr<'a>(input: Input<'a>, depth: usize) -> (res: IResultLookahead<'a, Expr<'a>>)
    requires
        input.wf(),
    ensures
        map_rel(rmap_at(input.size(), depth as nat), as_map_expr())(input, res),
        sound(input, res),
    decreases input.size(), 12int,
{
    let ghost n = input.size();
    let ghost k = depth as nat;
    let body = |d: Input<'a>| -> (r2: IResultLookahead<'a, RMap<'a>>)
        requires
            d == input,
        ensures
            rmap_at(n, k)(d, r2),
            sound(d, r2),
        { rmap_within(d, depth) };
    let wrap = |x: RMap<'a>| -> (out: Expr<'a>)
        ensures
            as_map_expr()(x, out),
        { Expr::RMap(x) };
    combinators::map(body, wrap, input)
}

fn list_expr<'a>(input: Input<'a>, depth: usize) -> (res: IResultLookahead<'a, Expr<'a>>)
    requires
        input.wf(),
    ensures
        map_rel(list_at(input.size(), depth as nat), as_list_expr())(input, res),
        sound(input, res),
    decreases input.size(), 12int,
{
    let ghost n = input.size();
    let ghost k = depth as nat;
    let body = |d: Input<'a>| -> (r2: IResultLookahead<'a, List<'a>>)
        requires
            d == input,
        ensures
            list_at(n, k)(d, r2),
            sound(d, r2),
        { list_within(d, depth) };
    let wrap = |x: List<'a>| -> (out: Expr<'a>)
        ensures
            as_list_expr()(x, out),
        { Expr::List(x) };
    combinators::map(body, wrap, input)
}

fn tagged_expr<'a>(input: Input<'a>, depth: usize) -> (res: IResultLookahead<'a, Expr<'a>>)
    requires
        input.wf(),
    ensures
        map_rel(tagged_at(input.size(), depth as nat), as_tagged_expr())(input, res),
        sound(input, res),
    decreases input.size(), 12int,
{
    let ghost n = input.size();
    let ghost k = depth as nat;
    let body = |d: Input<'a>| -> (r2: IResultLookahead<'a, Tagged<'a>>)
        requires
            d == input,
        ensures
            tagged_at(n, k)(d, r2),
            sound(d, r2),
        { tagged_within(d, depth) };
    let wrap = |x: Tagged<'a>| -> (out: Expr<'a>)
        ensures
            as_tagged_expr()(x, out),
        { Expr::Tagged(x) };
    combinators::map(body, wrap, input)
}

fn bool_expr<'a>(input: Input<'a>) -> (res: IResultLookahead<'a, Expr<'a>>)
    requires
        input.wf(),
    ensures
        map_rel(bool_rel(), as_bool_expr())(input, res),
        sound(input, res),
{
    let wrap = |x: bool| -> (out: Expr<'a>)
        ensures
            as_bool_expr()(x, out),
        { Expr::Bool(x) };
    combinators::map(crate::utf8_parser::primitive::bool, wrap, input)
}

fn decimal_expr<'a>(input: Input<'a>) -> (res: IResultLookahead<'a, Expr<'a>>)
    requires
        input.wf(),
    ensures
        map_rel(decimal_rel(), as_decimal_expr())(input, res),
        sound(input, res),
{
    let wrap = |x: Decimal| -> (out: Expr<'a>)
        ensures
            as_decimal_expr()(x, out),
        { Expr::Decimal(x) };
    combinators::map(decimal, wrap, input)
}

fn signed_expr<'a>(input: Input<'a>) -> (res: IResultLookahead<'a, Expr<'a>>)
    requires
        input.wf(),
    ensures
        map_rel(signed_integer_rel(), as_signed_expr())(input, res),
        sound(input, res),
{
    let wrap = |x: SignedInteger| -> (out: Expr<'a>)
        ensures
            as_signed_expr()(x, out),
        { Expr::Integer(Integer::Signed(x)) };
    combinators::map(signed_integer, wrap, input)
}

fn unsigned_expr<'a>(input: Input<'a>) -> (res: IResultLookahead<'a, Expr<'a>>)
    requires
        input.wf(),
    ensures
        map_rel(unsigned_integer_rel(), as_unsigned_expr())(input, res),
        sound(input, res),
{
    let wrap = |x: UnsignedInteger| -> (out: Expr<'a>)
        ensures
            as_unsigned_expr()(x, out),
        { Expr::Integer(Integer::Unsigned(x)) };
    combinators::map(unsigned_integer, wrap, input)
}

fn signed_number<'a>(input: Input<'a>) -> (res: IResultLookahead<'a, Expr<'a>>)
    requires
        input.wf(),
    ensures
        signed_number_rel()(input, res),
        sound(input, res),
{
    alt2(decimal_expr, signed_expr, input)
}

fn unsigned_number<'a>(input: Input<'a>) -> (res: IResultLookahead<'a, Expr<'a>>)
    requires
        input.wf(),
    ensures
        unsigned_number_rel()(input, res),
        sound(input, res),
{
    alt2(decimal_expr, unsigned_expr, input)
}

fn raw_string_expr<'a>(input: Input<'a>) -> (res: IResultLookahead<'a, Expr<'a>>)
    requires
        input.wf(),
    ensures
        map_rel(lookahead_rel(parse_raw_string_rel()), as_str_expr())(input, res),
        sound(input, res),
{
    let looked = |d: Input<'a>| -> (r2: IResultLookahead<'a, &'a str>)
        requires
            d.wf(),
        ensures
            lookahead_rel(parse_raw_string_rel())(d, r2),
            sound(d, r2),
        {
            let r2 = lookahead(parse_raw_string, d);
            proof {
                lemma_lookahead_wider(ens(&parse_raw_string), parse_raw_string_rel(), d, r2);
            }
            r2
        };
    let wrap = |x: &'a str| -> (out: Expr<'a>)
        ensures
            as_str_expr()(x, out),
        { Expr::Str(x) };
    combinators::map(looked, wrap, input)
}

fn plain_string_expr<'a>(input: Input<'a>) -> (res: IResultLookahead<'a, Expr<'a>>)
    requires
        input.wf(),
    ensures
        map_rel(lookahead_rel(unescaped_str_rel()), as_str_expr())(input, res),
        sound(input, res),
{
    let looked = |d: Input<'a>| -> (r2: IResultLookahead<'a, &'a str>)
        requires
            d.wf(),
        ensures
            lookahead_rel(unescaped_str_rel())(d, r2),
            sound(d, r2),
        {
            let r2 = lookahead(unescaped_str, d);
            proof {
                lemma_lookahead_wider(ens(&unescaped_str), unescaped_str_rel(), d, r2);
            }
            r2
        };
    let wrap = |x: &'a str| -> (out: Expr<'a>)
        ensures
            as_str_expr()(x, out),
        { Expr::Str(x) };
    combinators::map(looked, wrap, input)
}

fn escaped_string_expr<'a>(input: Input<'a>) -> (res: IResultLookahead<'a, Expr<'a>>)
    requires
        input.wf(),
    ensures
        map_rel(parse_string_rel(), as_string_expr())(input, res),
        sound(input, res),
{
    let wrap = |x: String| -> (out: Expr<'a>)
        ensures
            as_string_expr()(x, out),
        { Expr::String(x) };
    combinators::map(parse_string, wrap, input)
}

fn any_string<'a>(input: Input<'a>) -> (res: IResultLookahead<'a, Expr<'a>>)
    requires
        input.wf(),
    ensures
        any_string_rel()(input, res),
        sound(input, res),
{
    let quoted = |c: Input<'a>| -> (r: IResultLookahead<'a, Expr<'a>>)
        requires
            c.wf(),
        ensures
            alt2_rel(
                map_rel(lookahead_rel(unescaped_str_rel()), as_str_expr()),
                map_rel(parse_string_rel(), as_string_expr()),
            )(c, r),
            sound(c, r),
        { alt2(plain_string_expr, escaped_string_expr, c) };
    alt2(raw_string_expr, quoted, input)
}

/// Reads an expression, without the label.
fn expr_inner<'a>(input: Input<'a>, depth: usize) -> (res: IResultLookahead<'a, Expr<'a>>)
    requires
        input.wf(),
    ensures
        expr_inner_parses(input, depth as nat, res),
        sound(input, res),
    decreases input.size(), 16int,
{
    if depth == 0 {
        return Err(InputParseErr::fatal(ErrorTree::expected(input, Expectation::Nesting)));
    }
    let depth = depth - 1;
    // Copy input and discard its offset ("peek")
    let class = ExprClass::parse(input);
    let expr_class = match class {
        Ok(ok) => ok.parsed,
        Err(e) => {
            return Err(e);
        },
    };
    // We could just directly try parsing all of these variants without determining an expr class
    // beforehand. However, for error collection & possibly performance reasons this seems to be
    // the better solution right now.
    match expr_class {
        ExprClass::StructTuple => struct_or_tuple(input, depth),
        ExprClass::RMap => map_expr(input, depth),
        ExprClass::StrString => any_string(input),
        ExprClass::List => list_expr(input, depth),
        ExprClass::Bool => bool_expr(input),
        ExprClass::SignedDec => signed_number(input),
        ExprClass::Dec => decimal_expr(input),
        ExprClass::UnsignedDec => unsigned_number(input),
        ExprClass::LeadingIdent => tagged_expr(input, depth),
    }
}

/// Reads an expression that may hold expressions `depth - 1` levels deep.
pub fn expr_within<'a>(input: Input<'a>, depth: usize) -> (res: IResultLookahead<'a, Expr<'a>>)
    requires
        input.wf(),
    ensures
        expr_parses(input, depth as nat, res),
        sound(input, res),
    decreases input.size(), 18int,
{
    let ghost n = input.size();
    let ghost k = depth as nat;
    let labelled = |c: Input<'a>| -> (r: IResultLookahead<'a, Expr<'a>>)
        requires
            c == input,
        ensures
            context_final_rel("expression", true, expr_inner_at(n, k))(c, r),
            sound(c, r),
        {
            let inner = |d: Input<'a>| -> (r2: IResultLookahead<'a, Expr<'a>>)
                requires
                    d == input,
                ensures
                    expr_inner_at(n, k)(d, r2),
                    sound(d, r2),
                { expr_inner(d, depth) };
            context_final("expression", true, inner, c)
        };
    cut(labelled, input)
}

/// Reads an expression. Expressions may stand inside one another
/// `MAX_DEPTH` levels deep; an input that is nested more deeply is a fatal
/// failure.
pub fn expr<'a>(input: Input<'a>) -> (res: IResultLookahead<'a, Expr<'a>>)
    requires
        input.wf(),
    ensures
        expr_parses(input, MAX_DEPTH as nat, res),
        expr_rel()(input, res),
        sound(input, res),
{
    expr_within(input, MAX_DEPTH)
}

/// What `extension_name` does: it reads the name of an extension.
pub open spec fn extension_name_rel<'a>() -> Rel<'a, Extension> {
    one_of_tags_rel(
        &["unwrap_newtypes", "implicit_some"],
        &[Extension::UnwrapNewtypes, Extension::ImplicitSome],
    )
}

/// Reads the name of an extension.
pub fn extension_name<'a>(input: Input<'a>) -> (res: IResultLookahead<'a, Extension>)
    requires
        input.wf(),
    ensures
        extension_name_rel()(input, res),
        sound(input, res),
{
    one_of_tags(
        &["unwrap_newtypes", "implicit_some"],
        &[Extension::UnwrapNewtypes, Extension::ImplicitSome],
        input,
    )
}

/// What `extension` does: where a name begins, it reads the name of an
/// extension, and a name that is none is a fatal failure; where no name
/// begins, the failure is recoverable.
pub open spec fn extension_rel<'a>() -> Rel<'a, Extension> {
    |input: Input<'a>, res: IResultLookahead<'a, Extension>|
        exists|peek: IResultLookahead<'a, Input<'a>>| #[trigger]
            lookahead_rel(ident_first_char_rel())(input, peek) && match peek {
                Err(e) => failed(res, e),
                Ok(_) => extension_name_rel()(input, res),
            }
}

/// Reads the name of an extension, where a name begins.
pub fn extension<'a>(input: Input<'a>) -> (res: IResultLookahead<'a, Extension>)
    requires
        input.wf(),
    ensures
        extension_rel()(input, res),
        sound(input, res),
{
    let peek = lookahead(ident_first_char, input);
    proof {
        lemma_lookahead_wider(ens(&ident_first_char), ident_first_char_rel(), input, peek);
    }
    match peek {
        Err(e) => Err(e),
        Ok(_) => extension_name(input),
    }
}

/// The character `c` between blanks.
pub open spec fn token_rel<'a>(c: char) -> Rel<'a, char> {
    ws_rel(one_char_rel(c))
}

fn token<'a>(c: char, input: Input<'a>) -> (res: IResultLookahead<'a, char>)
    requires
        input.wf(),
    ensures
        token_rel(c)(input, res),
        sound(input, res),
{
    let one = |d: Input<'a>| -> (r2: IResultLookahead<'a, char>)
        requires
            d.wf(),
        ensures
            one_char_rel(c)(d, r2),
            sound(d, r2),
        { one_char(c, d) };
    let res = ws(&one, input);
    proof {
        lemma_ws_wider(ens(&&one), one_char_rel(c), input, res);
    }
    res
}

/// `enable` and the parenthesis behind it.
pub open spec fn enable_start_rel<'a>() -> Rel<'a, char> {
    preceded_rel(tag_rel("enable"), token_rel('('))
}

fn enable_start<'a>(input: Input<'a>) -> (res: IResultLookahead<'a, char>)
    requires
        input.wf(),
    ensures
        enable_start_rel()(input, res),
        sound(input, res),
{
    let word = |d: Input<'a>| -> (r2: IResultLookahead<'a, Input<'a>>)
        requires
            d.wf(),
        ensures
            tag_rel("enable")(d, r2),
            sound(d, r2),
        { tag("enable", d) };
    let paren = |d: Input<'a>| -> (r2: IResultLookahead<'a, char>)
        requires
            d.wf(),
        ensures
            token_rel('(')(d, r2),
            sound(d, r2),
        { token('(', d) };
    preceded(word, paren, input)
}

/// Makes an attribute of the extensions that it switches on.
pub open spec fn as_enable<'a>() -> spec_fn(
    Spanned<'a, Vec<Spanned<'a, Extension>>>,
    Attribute<'a>,
) -> bool {
    |list: Spanned<'a, Vec<Spanned<'a, Extension>>>, out: Attribute<'a>|
        out == Attribute::Enable(list)
}

/// The names of the extensions, with commas between them and, if one
/// likes, behind them.
pub open spec fn extensions_rel<'a>() -> Rel<'a, Attribute<'a>> {
    map_rel(spanned_rel(comma_list1_rel(extension_rel())), as_enable())
}

fn extensions<'a>(input: Input<'a>) -> (res: IResultLookahead<'a, Attribute<'a>>)
    requires
        input.wf(),
    ensures
        extensions_rel()(input, res),
        sound(input, res),
{
    let names = |c: Input<'a>| -> (r: IResultLookahead<'a, Spanned<'a, Vec<Spanned<'a, Extension>>>>)
        requires
            c.wf(),
        ensures
            spanned_rel(comma_list1_rel(extension_rel()))(c, r),
            sound(c, r),
        {
            let list = |d: Input<'a>| -> (r2: IResultLookahead<'a, Vec<Spanned<'a, Extension>>>)
                requires
                    d.wf(),
                ensures
                    comma_list1_rel(extension_rel())(d, r2),
                    sound(d, r2),
                {
                    let r2 = comma_list1(extension, d);
                    proof {
                        lemma_comma_list1_wider(ens(&extension), extension_rel(), d, r2);
                    }
                    r2
                };
            let r = spanned(&list, c);
            proof {
                lemma_spanned_wider(ens(&&list), comma_list1_rel(extension_rel()), c, r);
            }
            r
        };
    let wrap = |list: Spanned<'a, Vec<Spanned<'a, Extension>>>| -> (out: Attribute<'a>)
        ensures
            as_enable()(list, out),
        { Attribute::Enable(list) };
    combinators::map(names, wrap, input)
}

fn paren_close<'a>(input: Input<'a>) -> (res: IResultLookahead<'a, char>)
    requires
        input.wf(),
    ensures
        one_char_rel(')')(input, res),
        sound(input, res),
{
    one_char(')', input)
}

fn bracket_close<'a>(input: Input<'a>) -> (res: IResultLookahead<'a, char>)
    requires
        input.wf(),
    ensures
        one_char_rel(']')(input, res),
        sound(input, res),
{
    one_char(']', input)
}

/// What `attribute_enable` does: it reads `enable`, and in parentheses the
/// names of one or more extensions.
pub open spec fn attribute_enable_rel<'a>() -> Rel<'a, Attribute<'a>> {
    delimited_rel(enable_start_rel(), extensions_rel(), one_char_rel(')'))
}

/// Reads `enable(...)`, the declaration inside an attribute.
pub fn attribute_enable<'a>(input: Input<'a>) -> (res: IResultLookahead<'a, Attribute<'a>>)
    requires
        input.wf(),
    ensures
        attribute_enable_rel()(input, res),
        sound(input, res),
{
    let res = delimited(enable_start, extensions, paren_close, input);
    proof {
        lemma_delimited_wider(
            ens(&enable_start),
            enable_start_rel(),
            ens(&extensions),
            extensions_rel(),
            ens(&paren_close),
            one_char_rel(')'),
            input,
            res,
        );
    }
    res
}

/// The `#` that begins an attribute; without it the failure is recoverable.
pub open spec fn hash_mark_rel<'a>() -> Rel<'a, char> {
    lookahead_rel(one_char_rel('#'))
}

fn hash_mark<'a>(input: Input<'a>) -> (res: IResultLookahead<'a, char>)
    requires
        input.wf(),
    ensures
        hash_mark_rel()(input, res),
        sound(input, res),
        advancing(input, res),
{
    let one = |d: Input<'a>| -> (r2: IResultLookahead<'a, char>)
        requires
            d.wf(),
        ensures
            one_char_rel('#')(d, r2),
            sound(d, r2),
            advancing(d, r2),
        { one_char('#', d) };
    lookahead(one, input)
}

/// `#` and `!`.
pub open spec fn attribute_marks_rel<'a>() -> Rel<'a, char> {
    preceded_rel(hash_mark_rel(), token_rel('!'))
}

fn attribute_marks<'a>(input: Input<'a>) -> (res: IResultLookahead<'a, char>)
    requires
        input.wf(),
    ensures
        attribute_marks_rel()(input, res),
        sound(input, res),
        advancing(input, res),
{
    let bang = |d: Input<'a>| -> (r2: IResultLookahead<'a, char>)
        requires
            d.wf(),
        ensures
            token_rel('!')(d, r2),
            sound(d, r2),
        { token('!', d) };
    preceded(hash_mark, bang, input)
}

/// `#`, `!` and `[`.
pub open spec fn attribute_start_rel<'a>() -> Rel<'a, char> {
    preceded_rel(attribute_marks_rel(), token_rel('['))
}

fn attribute_start<'a>(input: Input<'a>) -> (res: IResultLookahead<'a, char>)
    requires
        input.wf(),
    ensures
        attribute_start_rel()(input, res),
        sound(input, res),
        advancing(input, res),
{
    let bracket = |d: Input<'a>| -> (r2: IResultLookahead<'a, char>)
        requires
            d.wf(),
        ensures
            token_rel('[')(d, r2),
            sound(d, r2),
        { token('[', d) };
    preceded(attribute_marks, bracket, input)
}

/// The declaration inside the brackets of an attribute, between blanks.
pub open spec fn attribute_body_rel<'a>() -> Rel<'a, Attribute<'a>> {
    ws_rel(attribute_enable_rel())
}

fn attribute_body<'a>(input: Input<'a>) -> (res: IResultLookahead<'a, Attribute<'a>>)
    requires
        input.wf(),
    ensures
        attribute_body_rel()(input, res),
        sound(input, res),
{
    let res = ws(attribute_enable, input);
    proof {
        lemma_ws_wider(ens(&attribute_enable), attribute_enable_rel(), input, res);
    }
    res
}

/// What `attribute` does: it reads `#![enable(...)]`, with blanks where one
/// likes.
pub open spec fn attribute_rel<'a>() -> Rel<'a, Attribute<'a>> {
    context_rel(
        "attribute",
        delimited_rel(attribute_start_rel(), attribute_body_rel(), one_char_rel(']')),
    )
}

/// Reads an attribute.
pub fn attribute<'a>(input: Input<'a>) -> (res: IResultLookahead<'a, Attribute<'a>>)
    requires
        input.wf(),
    ensures
        attribute_rel()(input, res),
        sound(input, res),
        advancing(input, res),
{
    let whole = |c: Input<'a>| -> (r: IResultLookahead<'a, Attribute<'a>>)
        requires
            c.wf(),
        ensures
            delimited_rel(attribute_start_rel(), attribute_body_rel(), one_char_rel(']'))(c, r),
            sound(c, r),
            advancing(c, r),
        {
            let r = delimited(attribute_start, attribute_body, bracket_close, c);
            proof {
                lemma_delimited_wider(
                    ens(&attribute_start),
                    attribute_start_rel(),
                    ens(&attribute_body),
                    attribute_body_rel(),
                    ens(&bracket_close),
                    one_char_rel(']'),
                    c,
                    r,
                );
            }
            r
        };
    context("attribute", whole, input)
}

/// The attributes at the head of a document.
pub open spec fn attributes_rel<'a>() -> Rel<'a, Vec<Spanned<'a, Attribute<'a>>>> {
    many0_rel(spanned_rel(attribute_rel()))
}

fn attributes<'a>(input: Input<'a>) -> (res: IResultLookahead<'a, Vec<Spanned<'a, Attribute<'a>>>>)
    requires
        input.wf(),
    ensures
        attributes_rel()(input, res),
        sound(input, res),
{
    let one = |c: Input<'a>| -> (r: IResultLookahead<'a, Spanned<'a, Attribute<'a>>>)
        requires
            c.wf(),
        ensures
            spanned_rel(attribute_rel())(c, r),
            sound(c, r),
            advancing(c, r),
        {
            let r = spanned(attribute, c);
            proof {
                lemma_spanned_wider(ens(&attribute), attribute_rel(), c, r);
            }
            r
        };
    let res = many0(&one, input);
    proof {
        lemma_many0_rel_wider(ens(&&one), spanned_rel(attribute_rel()), input, res);
    }
    res
}

/// The one expression of a document, between blanks.
pub open spec fn document_expr_rel<'a>() -> Rel<'a, Spanned<'a, Expr<'a>>> {
    spanned_rel(expr_rel())
}

fn document_expr<'a>(input: Input<'a>) -> (res: IResultLookahead<'a, Spanned<'a, Expr<'a>>>)
    requires
        input.wf(),
    ensures
        document_expr_rel()(input, res),
        sound(input, res),
{
    let res = spanned(expr, input);
    proof {
        lemma_spanned_wider(ens(&expr), expr_rel(), input, res);
    }
    res
}

/// Makes a document of its attributes and its expression.
pub open spec fn as_ron<'a>() -> spec_fn(
    (Vec<Spanned<'a, Attribute<'a>>>, Spanned<'a, Expr<'a>>),
    Ron<'a>,
) -> bool {
    |p: (Vec<Spanned<'a, Attribute<'a>>>, Spanned<'a, Expr<'a>>), out: Ron<'a>|
        out.attributes == p.0 && out.expr == p.1
}

/// What `ron_inner` does: it reads the attributes and the expression of a
/// document.
pub open spec fn ron_inner_rel<'a>() -> Rel<'a, Ron<'a>> {
    map_rel(pair_rel(attributes_rel(), document_expr_rel()), as_ron())
}

/// Reads the attributes and the expression of a document.
pub fn ron_inner<'a>(input: Input<'a>) -> (res: IResultLookahead<'a, Ron<'a>>)
    requires
        input.wf(),
    ensures
        ron_inner_rel()(input, res),
        sound(input, res),
{
    let both = |c: Input<'a>| -> (r: IResultLookahead<
        'a,
        (Vec<Spanned<'a, Attribute<'a>>>, Spanned<'a, Expr<'a>>),
    >)
        requires
            c.wf(),
        ensures
            pair_rel(attributes_rel(), document_expr_rel())(c, r),
            sound(c, r),
        { pair(attributes, document_expr, c) };
    let wrap = |p: (Vec<Spanned<'a, Attribute<'a>>>, Spanned<'a, Expr<'a>>)| -> (out: Ron<'a>)
        ensures
            as_ron()(p, out),
        { Ron { attributes: p.0, expr: p.1 } };
    combinators::map(both, wrap, input)
}

/// What `ron` gives for a source text: the document that `ron_inner` reads
/// from its start, where that leaves nothing unread. Where something is
/// left, the failure says that the end of the input was expected there. A
/// failure of `ron_inner`, of either severity, is handed on as its tree.
pub open spec fn ron_result<'a>(input: &'a str, res: Result<Ron<'a>, InputParseError<'a>>) -> bool {
    exists|r: IResultLookahead<'a, Ron<'a>>| #[trigger]
        ron_inner_rel()(Input::whole(input), r) && match r {
            Ok(ok) => if ok.remaining.size() == 0 {
                res matches Ok(doc) && doc == ok.parsed
            } else {
                res matches Err(e) && e == ErrorTree::expected_at(ok.remaining, Expectation::Eof)
            },
            Err(e) => res matches Err(t) && t == e.tree(),
        }
}

/// Reads a whole document. The whole text has to be read: what is left
/// behind the expression is a failure. The tree of a failure names a place.
pub fn ron<'a>(input: &'a str) -> (res: Result<Ron<'a>, InputParseError<'a>>)
    ensures
        ron_result(input, res),
        res matches Err(e) ==> e.wf(),
{
    let input = Input::new(input);
    match ron_inner(input) {
        Ok(ok) => {
            if ok.remaining.is_empty() {
                Ok(ok.parsed)
            } else {
                Err(ErrorTree::expected(ok.remaining, Expectation::Eof))
            }
        },
        Err(InputParseErr::Fatal(e)) => Err(e),
        Err(InputParseErr::Recoverable(e)) => Err(e),
    }
}

} // verus!
