//! The parsers of what holds other expressions: structs, maps, lists,
//! tuples and tagged expressions.
//!
//! These parsers and the parser of expressions call one another. What each
//! of them does is a relation between input and result; where one of them
//! stands for a part of another, it is taken on inputs that are no longer,
//! or on shorter ones.

use vstd::prelude::*;
use crate::utf8_parser::basic::{nothing, nothing_rel, one_char, one_char_rel};
use crate::utf8_parser::combinators;
use crate::utf8_parser::combinators::{
    advancing, alt2, alt2_rel, block, block_rel, comma_list0, comma_list0_rel, comma_list1,
    comma_list1_rel, context, context_rel, cut, cut_rel, ens, failed, lemma_block_wider,
    lemma_comma_list0_wider, lemma_comma_list1_wider, lemma_lookahead_wider,
    lemma_spanned_wider, lemma_ws_wider, lookahead, lookahead_rel,
    map_rel, pair, pair_rel, sound, spanned, spanned_rel, terminated, terminated_rel, ws, ws_rel,
    Rel,
};
use crate::utf8_parser::input::Input;
use crate::utf8_parser::primitive::ident::{ident, ident_rel};
use crate::utf8_parser::pt::{
    Expr, Ident, KeyValue, List, RMap, Spanned, Struct, Tagged, Tuple, Untagged,
};
use crate::utf8_parser::ron::{expr_parses, expr_within, MAX_DEPTH};
use crate::utf8_parser::IResultLookahead;

verus! {

/// What `expr` does, on inputs of fewer than `bound` bytes.
pub open spec fn expr_below<'a>(bound: nat, depth: nat) -> Rel<'a, Expr<'a>>
    decreases bound, 0int,
{
    |c: Input<'a>, r: IResultLookahead<'a, Expr<'a>>| c.size() < bound && expr_parses(c, depth, r)
}

/// What `expr` does, on inputs of no more than `bound` bytes.
pub open spec fn expr_at<'a>(bound: nat, depth: nat) -> Rel<'a, Expr<'a>>
    decreases bound, 19int,
{
    |c: Input<'a>, r: IResultLookahead<'a, Expr<'a>>| c.size() <= bound && expr_parses(c, depth, r)
}

/// What `ident_val_pair` does, on inputs of fewer than `bound` bytes.
pub open spec fn ident_val_pair_below<'a>(bound: nat, depth: nat) -> Rel<'a, KeyValue<'a, Ident<'a>>>
    decreases bound, 0int,
{
    |c: Input<'a>, r: IResultLookahead<'a, KeyValue<'a, Ident<'a>>>|
        c.size() < bound && ident_val_pair_parses(c, depth, r)
}

/// What `key_val_pair` does, on inputs of fewer than `bound` bytes.
pub open spec fn key_val_pair_below<'a>(bound: nat, depth: nat) -> Rel<'a, KeyValue<'a, Expr<'a>>>
    decreases bound, 0int,
{
    |c: Input<'a>, r: IResultLookahead<'a, KeyValue<'a, Expr<'a>>>|
        c.size() < bound && key_val_pair_parses(c, depth, r)
}

/// What `untagged_struct` does, on inputs of no more than `bound` bytes.
pub open spec fn untagged_struct_at<'a>(bound: nat, depth: nat) -> Rel<'a, Struct<'a>>
    decreases bound, 7int,
{
    |c: Input<'a>, r: IResultLookahead<'a, Struct<'a>>|
        c.size() <= bound && untagged_struct_parses(c, depth, r)
}

/// What `tuple` does, on inputs of no more than `bound` bytes.
pub open spec fn tuple_at<'a>(bound: nat, depth: nat) -> Rel<'a, Tuple<'a>>
    decreases bound, 7int,
{
    |c: Input<'a>, r: IResultLookahead<'a, Tuple<'a>>| c.size() <= bound && tuple_parses(c, depth, r)
}

/// What `rmap` does, on inputs of no more than `bound` bytes.
pub open spec fn rmap_at<'a>(bound: nat, depth: nat) -> Rel<'a, RMap<'a>>
    decreases bound, 7int,
{
    |c: Input<'a>, r: IResultLookahead<'a, RMap<'a>>| c.size() <= bound && rmap_parses(c, depth, r)
}

/// What `list` does, on inputs of no more than `bound` bytes.
pub open spec fn list_at<'a>(bound: nat, depth: nat) -> Rel<'a, List<'a>>
    decreases bound, 7int,
{
    |c: Input<'a>, r: IResultLookahead<'a, List<'a>>| c.size() <= bound && list_parses(c, depth, r)
}

/// What `tagged` does, on inputs of no more than `bound` bytes.
pub open spec fn tagged_at<'a>(bound: nat, depth: nat) -> Rel<'a, Tagged<'a>>
    decreases bound, 7int,
{
    |c: Input<'a>, r: IResultLookahead<'a, Tagged<'a>>| c.size() <= bound && tagged_parses(c, depth, r)
}

/// Makes a key and a value of a pair.
pub open spec fn as_key_value<'a, K>() -> spec_fn(
    (Spanned<'a, K>, Spanned<'a, Expr<'a>>),
    KeyValue<'a, K>,
) -> bool {
    |p: (Spanned<'a, K>, Spanned<'a, Expr<'a>>), out: KeyValue<'a, K>|
        out.key == p.0 && out.value == p.1
}

/// A name and the colon behind it; without them the failure is
/// recoverable.
pub open spec fn field_name_rel<'a>() -> Rel<'a, Spanned<'a, Ident<'a>>> {
    lookahead_rel(terminated_rel(spanned_rel(ident_rel()), one_char_rel(':')))
}

/// What `ident_val_pair` does: it reads a name, a colon and an expression.
pub open spec fn ident_val_pair_parses<'a>(
    input: Input<'a>,
    depth: nat,
    res: IResultLookahead<'a, KeyValue<'a, Ident<'a>>>,
) -> bool
    decreases input.size(), 4int,
{
    map_rel(pair_rel(field_name_rel(), spanned_rel(expr_below(input.size(), depth))), as_key_value())(
        input,
        res,
    )
}

/// Makes a struct of its fields.
pub open spec fn as_struct<'a>() -> spec_fn(
    Vec<Spanned<'a, KeyValue<'a, Ident<'a>>>>,
    Struct<'a>,
) -> bool {
    |fields: Vec<Spanned<'a, KeyValue<'a, Ident<'a>>>>, out: Struct<'a>| out.fields == fields
}

/// What `untagged_struct` does: it reads `(`, one or more fields with
/// commas between them and, if one likes, behind them, and `)`.
pub open spec fn untagged_struct_parses<'a>(
    input: Input<'a>,
    depth: nat,
    res: IResultLookahead<'a, Struct<'a>>,
) -> bool
    decreases input.size(), 6int,
{
    map_rel(
        context_rel(
            "struct",
            block_rel('(', ws_rel(comma_list1_rel(ident_val_pair_below(input.size(), depth))), ')'),
        ),
        as_struct(),
    )(input, res)
}

/// The key of an entry and the colon behind it, which has to follow.
pub open spec fn entry_key_parses<'a>(
    input: Input<'a>,
    depth: nat,
    res: IResultLookahead<'a, Spanned<'a, Expr<'a>>>,
) -> bool
    decreases input.size(), 20int,
{
    terminated_rel(lookahead_rel(spanned_rel(expr_at(input.size(), depth))), cut_rel(one_char_rel(':')))(
        input,
        res,
    )
}

/// What reading the key of an entry does, on inputs of no more than `bound`
/// bytes.
pub open spec fn entry_key_at<'a>(bound: nat, depth: nat) -> Rel<'a, Spanned<'a, Expr<'a>>>
    decreases bound, 21int,
{
    |c: Input<'a>, r: IResultLookahead<'a, Spanned<'a, Expr<'a>>>|
        c.size() <= bound && entry_key_parses(c, depth, r)
}

/// What `key_val_pair` does: it reads an expression, a colon and an
/// expression.
pub open spec fn key_val_pair_parses<'a>(
    input: Input<'a>,
    depth: nat,
    res: IResultLookahead<'a, KeyValue<'a, Expr<'a>>>,
) -> bool
    decreases input.size(), 22int,
{
    map_rel(
        pair_rel(entry_key_at(input.size(), depth), spanned_rel(expr_at(input.size(), depth))),
        as_key_value(),
    )(input, res)
}

/// Makes a map of its entries.
pub open spec fn as_map<'a>() -> spec_fn(
    Vec<Spanned<'a, KeyValue<'a, Expr<'a>>>>,
    RMap<'a>,
) -> bool {
    |entries: Vec<Spanned<'a, KeyValue<'a, Expr<'a>>>>, out: RMap<'a>| out.entries == entries
}

/// What `rmap` does: it reads `{`, entries with commas between them and, if
/// one likes, behind them, and `}`.
pub open spec fn rmap_parses<'a>(input: Input<'a>,
    depth: nat, res: IResultLookahead<'a, RMap<'a>>) -> bool
    decreases input.size(), 6int,
{
    map_rel(
        context_rel(
            "map",
            block_rel('{', ws_rel(comma_list0_rel(key_val_pair_below(input.size(), depth))), '}'),
        ),
        as_map(),
    )(input, res)
}

/// Makes a list of its elements.
pub open spec fn as_list<'a>() -> spec_fn(Vec<Spanned<'a, Expr<'a>>>, List<'a>) -> bool {
    |elements: Vec<Spanned<'a, Expr<'a>>>, out: List<'a>| out.elements == elements
}

/// What `list` does: it reads `[`, expressions with commas between them
/// and, if one likes, behind them, and `]`.
pub open spec fn list_parses<'a>(input: Input<'a>,
    depth: nat, res: IResultLookahead<'a, List<'a>>) -> bool
    decreases input.size(), 6int,
{
    context_rel(
        "list",
        block_rel(
            '[',
            map_rel(ws_rel(comma_list0_rel(lookahead_rel(expr_below(input.size(), depth)))), as_list()),
            ']',
        ),
    )(input, res)
}

/// Makes a tuple of its elements.
pub open spec fn as_tuple<'a>() -> spec_fn(Vec<Spanned<'a, Expr<'a>>>, Tuple<'a>) -> bool {
    |elements: Vec<Spanned<'a, Expr<'a>>>, out: Tuple<'a>| out.elements == elements
}

/// What `tuple` does: it reads `(`, expressions with commas between them
/// and, if one likes, behind them, and `)`.
pub open spec fn tuple_parses<'a>(input: Input<'a>,
    depth: nat, res: IResultLookahead<'a, Tuple<'a>>) -> bool
    decreases input.size(), 6int,
{
    context_rel(
        "tuple",
        map_rel(
            block_rel('(', comma_list0_rel(lookahead_rel(expr_below(input.size(), depth))), ')'),
            as_tuple(),
        ),
    )(input, res)
}

/// The body of a struct, as what follows a tag.
pub open spec fn as_untagged_struct<'a>() -> spec_fn(Struct<'a>, Untagged<'a>) -> bool {
    |s: Struct<'a>, out: Untagged<'a>| out == Untagged::Struct(s)
}

/// The body of a tuple, as what follows a tag.
pub open spec fn as_untagged_tuple<'a>() -> spec_fn(Tuple<'a>, Untagged<'a>) -> bool {
    |t: Tuple<'a>, out: Untagged<'a>| out == Untagged::Tuple(t)
}

/// Nothing, as what follows a tag.
pub open spec fn as_untagged_unit<'a>() -> spec_fn(Input<'a>, Untagged<'a>) -> bool {
    |m: Input<'a>, out: Untagged<'a>| out == Untagged::<'a>::Unit
}

/// The body in parentheses behind a tag: that of a struct, or else that of
/// a tuple. Once the parenthesis is seen, a body that is neither is a fatal
/// failure; without the parenthesis the failure is recoverable.
pub open spec fn paren_body_parses<'a>(
    input: Input<'a>,
    depth: nat,
    res: IResultLookahead<'a, Untagged<'a>>,
) -> bool
    decreases input.size(), 8int,
{
    exists|peek: IResultLookahead<'a, char>| #[trigger]
        lookahead_rel(one_char_rel('('))(input, peek) && match peek {
            Err(e) => failed(res, e),
            Ok(_) => cut_rel(
                alt2_rel(
                    map_rel(untagged_struct_at(input.size(), depth), as_untagged_struct()),
                    map_rel(tuple_at(input.size(), depth), as_untagged_tuple()),
                ),
            )(input, res),
        }
}

/// What reading a body in parentheses does, on inputs of no more than
/// `bound` bytes.
pub open spec fn paren_body_at<'a>(bound: nat, depth: nat) -> Rel<'a, Untagged<'a>>
    decreases bound, 9int,
{
    |c: Input<'a>, r: IResultLookahead<'a, Untagged<'a>>|
        c.size() <= bound && paren_body_parses(c, depth, r)
}

/// What follows a tag: a body in parentheses, or nothing.
pub open spec fn untagged_parses<'a>(
    input: Input<'a>,
    depth: nat,
    res: IResultLookahead<'a, Untagged<'a>>,
) -> bool
    decreases input.size(), 10int,
{
    alt2_rel(paren_body_at(input.size(), depth), map_rel(nothing_rel(), as_untagged_unit()))(input, res)
}

/// What stands behind a tag, on inputs of fewer than `bound` bytes.
pub open spec fn untagged_below<'a>(bound: nat, depth: nat) -> Rel<'a, Untagged<'a>>
    decreases bound, 0int,
{
    |c: Input<'a>, r: IResultLookahead<'a, Untagged<'a>>|
        c.size() < bound && untagged_parses(c, depth, r)
}

/// Makes a tagged expression of a name and what follows it.
pub open spec fn as_tagged<'a>() -> spec_fn(
    (Spanned<'a, Ident<'a>>, Spanned<'a, Untagged<'a>>),
    Tagged<'a>,
) -> bool {
    |p: (Spanned<'a, Ident<'a>>, Spanned<'a, Untagged<'a>>), out: Tagged<'a>|
        out.ident == p.0 && out.untagged == p.1
}

/// What `tagged` does: it reads a name and what follows it: the body of a
/// struct, the body of a tuple, or nothing.
pub open spec fn tagged_parses<'a>(input: Input<'a>,
    depth: nat, res: IResultLookahead<'a, Tagged<'a>>) -> bool
    decreases input.size(), 6int,
{
    context_rel(
        "tagged expr",
        map_rel(
            pair_rel(spanned_rel(ident_rel()), spanned_rel(untagged_below(input.size(), depth))),
            as_tagged(),
        ),
    )(input, res)
}

/// Reads a name and the colon behind it.
fn field_name<'a>(input: Input<'a>) -> (res: IResultLookahead<'a, Spanned<'a, Ident<'a>>>)
    requires
        input.wf(),
    ensures
        field_name_rel()(input, res),
        sound(input, res),
        advancing(input, res),
{
    let name = |c: Input<'a>| -> (r: IResultLookahead<'a, Spanned<'a, Ident<'a>>>)
        requires
            c.wf(),
        ensures
            spanned_rel(ident_rel())(c, r),
            sound(c, r),
        {
            let r = spanned(ident, c);
            proof {
                lemma_spanned_wider(ens(&ident), ident_rel(), c, r);
            }
            r
        };
    let colon = |c: Input<'a>| -> (r: IResultLookahead<'a, char>)
        requires
            c.wf(),
        ensures
            one_char_rel(':')(c, r),
            sound(c, r),
            advancing(c, r),
        { one_char(':', c) };
    let both = |c: Input<'a>| -> (r: IResultLookahead<'a, Spanned<'a, Ident<'a>>>)
        requires
            c.wf(),
        ensures
            terminated_rel(spanned_rel(ident_rel()), one_char_rel(':'))(c, r),
            sound(c, r),
            advancing(c, r),
        { terminated(name, colon, c) };
    lookahead(both, input)
}

/// Reads a field of a struct, whose expression may hold expressions `depth`
/// levels deep.
pub fn ident_val_pair_within<'a>(input: Input<'a>, depth: usize) -> (res: IResultLookahead<
    'a,
    KeyValue<'a, Ident<'a>>,
>)
    requires
        input.wf(),
    ensures
        ident_val_pair_parses(input, depth as nat, res),
        sound(input, res),
    decreases input.size(), 4int,
{
    let ghost n = input.size();
    let ghost k = depth as nat;
    let value = |c: Input<'a>| -> (r: IResultLookahead<'a, Spanned<'a, Expr<'a>>>)
        requires
            c.is_inside(input),
        ensures
            spanned_rel(expr_below(n, k))(c, r),
            sound(c, r),
        {
            let sub = |d: Input<'a>| -> (r2: IResultLookahead<'a, Expr<'a>>)
                requires
                    d.is_inside(input),
                ensures
                    expr_below(n, k)(d, r2),
                    sound(d, r2),
                { expr_within(d, depth) };
            let r = spanned(&sub, c);
            proof {
                lemma_spanned_wider(ens(&&sub), expr_below(n, k), c, r);
            }
            r
        };
    let both = |c: Input<'a>| -> (r: IResultLookahead<
        'a,
        (Spanned<'a, Ident<'a>>, Spanned<'a, Expr<'a>>),
    >)
        requires
            c == input,
        ensures
            pair_rel(field_name_rel(), spanned_rel(expr_below(n, k)))(c, r),
            sound(c, r),
        { pair(field_name, value, c) };
    let wrap = |p: (Spanned<'a, Ident<'a>>, Spanned<'a, Expr<'a>>)| -> (out: KeyValue<
        'a,
        Ident<'a>,
    >)
        ensures
            as_key_value()(p, out),
        { KeyValue { key: p.0, value: p.1 } };
    combinators::map(both, wrap, input)
}

/// Reads the body of a struct, whose expressions may hold expressions
/// `depth` levels deep.
pub fn untagged_struct_within<'a>(input: Input<'a>, depth: usize) -> (res: IResultLookahead<'a, Struct<'a>>)
    requires
        input.wf(),
    ensures
        untagged_struct_parses(input, depth as nat, res),
        sound(input, res),
    decreases input.size(), 6int,
{
    let ghost n = input.size();
    let ghost k = depth as nat;
    let field = |c: Input<'a>| -> (r: IResultLookahead<'a, KeyValue<'a, Ident<'a>>>)
        requires
            c.is_inside(input),
        ensures
            ident_val_pair_below(n, k)(c, r),
            sound(c, r),
        { ident_val_pair_within(c, depth) };
    let fields = |c: Input<'a>| -> (r: IResultLookahead<
        'a,
        Vec<Spanned<'a, KeyValue<'a, Ident<'a>>>>,
    >)
        requires
            c.is_inside(input),
        ensures
            ws_rel(comma_list1_rel(ident_val_pair_below(n, k)))(c, r),
            sound(c, r),
        {
            let list = |d: Input<'a>| -> (r2: IResultLookahead<
                'a,
                Vec<Spanned<'a, KeyValue<'a, Ident<'a>>>>,
            >)
                requires
                    d.is_inside(input),
                ensures
                    comma_list1_rel(ident_val_pair_below(n, k))(d, r2),
                    sound(d, r2),
                {
                    let r2 = comma_list1(&field, d);
                    proof {
                        lemma_comma_list1_wider(ens(&&field), ident_val_pair_below(n, k), d, r2);
                    }
                    r2
                };
            let r = ws(&list, c);
            proof {
                lemma_ws_wider(ens(&&list), comma_list1_rel(ident_val_pair_below(n, k)), c, r);
            }
            r
        };
    let blocked = |c: Input<'a>| -> (r: IResultLookahead<
        'a,
        Vec<Spanned<'a, KeyValue<'a, Ident<'a>>>>,
    >)
        requires
            c == input,
        ensures
            block_rel('(', ws_rel(comma_list1_rel(ident_val_pair_below(n, k))), ')')(c, r),
            sound(c, r),
        {
            proof {
                if c.text().len() > 0 {
                    c.lemma_inside_after_first();
                }
            }
            let r = block('(', &fields, ')', c);
            proof {
                lemma_block_wider(
                    '(',
                    ens(&&fields),
                    ws_rel(comma_list1_rel(ident_val_pair_below(n, k))),
                    ')',
                    c,
                    r,
                );
            }
            r
        };
    let labelled = |c: Input<'a>| -> (r: IResultLookahead<
        'a,
        Vec<Spanned<'a, KeyValue<'a, Ident<'a>>>>,
    >)
        requires
            c == input,
        ensures
            context_rel(
                "struct",
                block_rel('(', ws_rel(comma_list1_rel(ident_val_pair_below(n, k))), ')'),
            )(c, r),
            sound(c, r),
        { context("struct", blocked, c) };
    let wrap = |fields: Vec<Spanned<'a, KeyValue<'a, Ident<'a>>>>| -> (out: Struct<'a>)
        ensures
            as_struct()(fields, out),
        { Struct { fields } };
    combinators::map(labelled, wrap, input)
}

/// Reads the key of an entry of a map and the colon behind it.
fn entry_key_within<'a>(input: Input<'a>, depth: usize) -> (res: IResultLookahead<'a, Spanned<'a, Expr<'a>>>)
    requires
        input.wf(),
    ensures
        entry_key_parses(input, depth as nat, res),
        sound(input, res),
    decreases input.size(), 20int,
{
    let ghost n = input.size();
    let ghost k = depth as nat;
    let key = |c: Input<'a>| -> (r: IResultLookahead<'a, Expr<'a>>)
        requires
            c.is_rest_of(input),
        ensures
            expr_at(n, k)(c, r),
            sound(c, r),
        { expr_within(c, depth) };
    let looked = |c: Input<'a>| -> (r: IResultLookahead<'a, Spanned<'a, Expr<'a>>>)
        requires
            c == input,
        ensures
            lookahead_rel(spanned_rel(expr_at(n, k)))(c, r),
            sound(c, r),
        {
            let spanned_key = |d: Input<'a>| -> (r2: IResultLookahead<'a, Spanned<'a, Expr<'a>>>)
                requires
                    d == input,
                ensures
                    spanned_rel(expr_at(n, k))(d, r2),
                    sound(d, r2),
                {
                    let r2 = spanned(&key, d);
                    proof {
                        lemma_spanned_wider(ens(&&key), expr_at(n, k), d, r2);
                    }
                    r2
                };
            lookahead(spanned_key, c)
        };
    let colon = |c: Input<'a>| -> (r: IResultLookahead<'a, char>)
        requires
            c.wf(),
        ensures
            cut_rel(one_char_rel(':'))(c, r),
            sound(c, r),
        {
            let one = |d: Input<'a>| -> (r2: IResultLookahead<'a, char>)
                requires
                    d.wf(),
                ensures
                    one_char_rel(':')(d, r2),
                    sound(d, r2),
                { one_char(':', d) };
            cut(one, c)
        };
    terminated(looked, colon, input)
}

/// Reads an entry of a map, whose expressions may hold expressions `depth`
/// levels deep.
pub fn key_val_pair_within<'a>(input: Input<'a>, depth: usize) -> (res: IResultLookahead<'a, KeyValue<'a, Expr<'a>>>)
    requires
        input.wf(),
    ensures
        key_val_pair_parses(input, depth as nat, res),
        sound(input, res),
    decreases input.size(), 22int,
{
    let ghost n = input.size();
    let ghost k = depth as nat;
    let key = |c: Input<'a>| -> (r: IResultLookahead<'a, Spanned<'a, Expr<'a>>>)
        requires
            c == input,
        ensures
            entry_key_at(n, k)(c, r),
            sound(c, r),
        { entry_key_within(c, depth) };
    let value = |c: Input<'a>| -> (r: IResultLookahead<'a, Spanned<'a, Expr<'a>>>)
        requires
            c.is_rest_of(input),
        ensures
            spanned_rel(expr_at(n, k))(c, r),
            sound(c, r),
        {
            let sub = |d: Input<'a>| -> (r2: IResultLookahead<'a, Expr<'a>>)
                requires
                    d.is_rest_of(input),
                ensures
                    expr_at(n, k)(d, r2),
                    sound(d, r2),
                { expr_within(d, depth) };
            let r = spanned(&sub, c);
            proof {
                lemma_spanned_wider(ens(&&sub), expr_at(n, k), c, r);
            }
            r
        };
    let both = |c: Input<'a>| -> (r: IResultLookahead<
        'a,
        (Spanned<'a, Expr<'a>>, Spanned<'a, Expr<'a>>),
    >)
        requires
            c == input,
        ensures
            pair_rel(entry_key_at(n, k), spanned_rel(expr_at(n, k)))(c, r),
            sound(c, r),
        { pair(key, value, c) };
    let wrap = |p: (Spanned<'a, Expr<'a>>, Spanned<'a, Expr<'a>>)| -> (out: KeyValue<
        'a,
        Expr<'a>,
    >)
        ensures
            as_key_value()(p, out),
        { KeyValue { key: p.0, value: p.1 } };
    combinators::map(both, wrap, input)
}

/// Reads a map, whose expressions may hold expressions `depth` levels deep.
pub fn rmap_within<'a>(input: Input<'a>, depth: usize) -> (res: IResultLookahead<'a, RMap<'a>>)
    requires
        input.wf(),
    ensures
        rmap_parses(input, depth as nat, res),
        sound(input, res),
    decreases input.size(), 6int,
{
    let ghost n = input.size();
    let ghost k = depth as nat;
    let entry = |c: Input<'a>| -> (r: IResultLookahead<'a, KeyValue<'a, Expr<'a>>>)
        requires
            c.is_inside(input),
        ensures
            key_val_pair_below(n, k)(c, r),
            sound(c, r),
        { key_val_pair_within(c, depth) };
    let entries = |c: Input<'a>| -> (r: IResultLookahead<
        'a,
        Vec<Spanned<'a, KeyValue<'a, Expr<'a>>>>,
    >)
        requires
            c.is_inside(input),
        ensures
            ws_rel(comma_list0_rel(key_val_pair_below(n, k)))(c, r),
            sound(c, r),
        {
            let list = |d: Input<'a>| -> (r2: IResultLookahead<
                'a,
                Vec<Spanned<'a, KeyValue<'a, Expr<'a>>>>,
            >)
                requires
                    d.is_inside(input),
                ensures
                    comma_list0_rel(key_val_pair_below(n, k))(d, r2),
                    sound(d, r2),
                {
                    let r2 = comma_list0(&entry, d);
                    proof {
                        lemma_comma_list0_wider(ens(&&entry), key_val_pair_below(n, k), d, r2);
                    }
                    r2
                };
            let r = ws(&list, c);
            proof {
                lemma_ws_wider(ens(&&list), comma_list0_rel(key_val_pair_below(n, k)), c, r);
            }
            r
        };
    let blocked = |c: Input<'a>| -> (r: IResultLookahead<
        'a,
        Vec<Spanned<'a, KeyValue<'a, Expr<'a>>>>,
    >)
        requires
            c == input,
        ensures
            block_rel('{', ws_rel(comma_list0_rel(key_val_pair_below(n, k))), '}')(c, r),
            sound(c, r),
        {
            proof {
                if c.text().len() > 0 {
                    c.lemma_inside_after_first();
                }
            }
            let r = block('{', &entries, '}', c);
            proof {
                lemma_block_wider(
                    '{',
                    ens(&&entries),
                    ws_rel(comma_list0_rel(key_val_pair_below(n, k))),
                    '}',
                    c,
                    r,
                );
            }
            r
        };
    let labelled = |c: Input<'a>| -> (r: IResultLookahead<
        'a,
        Vec<Spanned<'a, KeyValue<'a, Expr<'a>>>>,
    >)
        requires
            c == input,
        ensures
            context_rel(
                "map",
                block_rel('{', ws_rel(comma_list0_rel(key_val_pair_below(n, k))), '}'),
            )(c, r),
            sound(c, r),
        { context("map", blocked, c) };
    let wrap = |entries: Vec<Spanned<'a, KeyValue<'a, Expr<'a>>>>| -> (out: RMap<'a>)
        ensures
            as_map()(entries, out),
        { RMap { entries } };
    combinators::map(labelled, wrap, input)
}

/// Reads a list, whose expressions may hold expressions `depth` levels
/// deep.
pub fn list_within<'a>(input: Input<'a>, depth: usize) -> (res: IResultLookahead<'a, List<'a>>)
    requires
        input.wf(),
    ensures
        list_parses(input, depth as nat, res),
        sound(input, res),
    decreases input.size(), 6int,
{
    let ghost n = input.size();
    let ghost k = depth as nat;
    let element = |c: Input<'a>| -> (r: IResultLookahead<'a, Expr<'a>>)
        requires
            c.is_inside(input),
        ensures
            lookahead_rel(expr_below(n, k))(c, r),
            sound(c, r),
        {
            let sub = |d: Input<'a>| -> (r2: IResultLookahead<'a, Expr<'a>>)
                requires
                    d.is_inside(input),
                ensures
                    expr_below(n, k)(d, r2),
                    sound(d, r2),
                { expr_within(d, depth) };
            lookahead(sub, c)
        };
    let listed = |c: Input<'a>| -> (r: IResultLookahead<'a, List<'a>>)
        requires
            c.is_inside(input),
        ensures
            map_rel(ws_rel(comma_list0_rel(lookahead_rel(expr_below(n, k)))), as_list())(c, r),
            sound(c, r),
        {
            let elements = |d: Input<'a>| -> (r2: IResultLookahead<'a, Vec<Spanned<'a, Expr<'a>>>>)
                requires
                    d.is_inside(input),
                ensures
                    ws_rel(comma_list0_rel(lookahead_rel(expr_below(n, k))))(d, r2),
                    sound(d, r2),
                {
                    let list = |e: Input<'a>| -> (r3: IResultLookahead<
                        'a,
                        Vec<Spanned<'a, Expr<'a>>>,
                    >)
                        requires
                            e.is_inside(input),
                        ensures
                            comma_list0_rel(lookahead_rel(expr_below(n, k)))(e, r3),
                            sound(e, r3),
                        {
                            let r3 = comma_list0(&element, e);
                            proof {
                                lemma_comma_list0_wider(
                                    ens(&&element),
                                    lookahead_rel(expr_below(n, k)),
                                    e,
                                    r3,
                                );
                            }
                            r3
                        };
                    let r2 = ws(&list, d);
                    proof {
                        lemma_ws_wider(
                            ens(&&list),
                            comma_list0_rel(lookahead_rel(expr_below(n, k))),
                            d,
                            r2,
                        );
                    }
                    r2
                };
            let wrap = |elements: Vec<Spanned<'a, Expr<'a>>>| -> (out: List<'a>)
                ensures
                    as_list()(elements, out),
                { List { elements } };
            combinators::map(elements, wrap, c)
        };
    let blocked = |c: Input<'a>| -> (r: IResultLookahead<'a, List<'a>>)
        requires
            c == input,
        ensures
            block_rel(
                '[',
                map_rel(ws_rel(comma_list0_rel(lookahead_rel(expr_below(n, k)))), as_list()),
                ']',
            )(c, r),
            sound(c, r),
        {
            proof {
                if c.text().len() > 0 {
                    c.lemma_inside_after_first();
                }
            }
            let r = block('[', &listed, ']', c);
            proof {
                lemma_block_wider(
                    '[',
                    ens(&&listed),
                    map_rel(ws_rel(comma_list0_rel(lookahead_rel(expr_below(n, k)))), as_list()),
                    ']',
                    c,
                    r,
                );
            }
            r
        };
    context("list", blocked, input)
}

/// Reads a tuple, whose expressions may hold expressions `depth` levels
/// deep.
pub fn tuple_within<'a>(input: Input<'a>, depth: usize) -> (res: IResultLookahead<'a, Tuple<'a>>)
    requires
        input.wf(),
    ensures
        tuple_parses(input, depth as nat, res),
        sound(input, res),
    decreases input.size(), 6int,
{
    let ghost n = input.size();
    let ghost k = depth as nat;
    let element = |c: Input<'a>| -> (r: IResultLookahead<'a, Expr<'a>>)
        requires
            c.is_inside(input),
        ensures
            lookahead_rel(expr_below(n, k))(c, r),
            sound(c, r),
        {
            let sub = |d: Input<'a>| -> (r2: IResultLookahead<'a, Expr<'a>>)
                requires
                    d.is_inside(input),
                ensures
                    expr_below(n, k)(d, r2),
                    sound(d, r2),
                { expr_within(d, depth) };
            lookahead(sub, c)
        };
    let elements = |c: Input<'a>| -> (r: IResultLookahead<'a, Vec<Spanned<'a, Expr<'a>>>>)
        requires
            c.is_inside(input),
        ensures
            comma_list0_rel(lookahead_rel(expr_below(n, k)))(c, r),
            sound(c, r),
        {
            let r = comma_list0(&element, c);
            proof {
                lemma_comma_list0_wider(ens(&&element), lookahead_rel(expr_below(n, k)), c, r);
            }
            r
        };
    let tupled = |c: Input<'a>| -> (r: IResultLookahead<'a, Tuple<'a>>)
        requires
            c == input,
        ensures
            map_rel(
                block_rel('(', comma_list0_rel(lookahead_rel(expr_below(n, k))), ')'),
                as_tuple(),
            )(c, r),
            sound(c, r),
        {
            let blocked = |d: Input<'a>| -> (r2: IResultLookahead<'a, Vec<Spanned<'a, Expr<'a>>>>)
                requires
                    d == input,
                ensures
                    block_rel('(', comma_list0_rel(lookahead_rel(expr_below(n, k))), ')')(d, r2),
                    sound(d, r2),
                {
                    proof {
                        if d.text().len() > 0 {
                            d.lemma_inside_after_first();
                        }
                    }
                    let r2 = block('(', &elements, ')', d);
                    proof {
                        lemma_block_wider(
                            '(',
                            ens(&&elements),
                            comma_list0_rel(lookahead_rel(expr_below(n, k))),
                            ')',
                            d,
                            r2,
                        );
                    }
                    r2
                };
            let wrap = |elements: Vec<Spanned<'a, Expr<'a>>>| -> (out: Tuple<'a>)
                ensures
                    as_tuple()(elements, out),
                { Tuple { elements } };
            combinators::map(blocked, wrap, c)
        };
    context("tuple", tupled, input)
}

/// Reads the body in parentheses behind a tag.
fn paren_body_within<'a>(input: Input<'a>, depth: usize) -> (res: IResultLookahead<'a, Untagged<'a>>)
    requires
        input.wf(),
    ensures
        paren_body_parses(input, depth as nat, res),
        sound(input, res),
    decreases input.size(), 8int,
{
    let ghost n = input.size();
    let ghost k = depth as nat;
    let paren = |d: Input<'a>| -> (r2: IResultLookahead<'a, char>)
        requires
            d.wf(),
        ensures
            one_char_rel('(')(d, r2),
            sound(d, r2),
        { one_char('(', d) };
    let peek = lookahead(&paren, input);
    proof {
        lemma_lookahead_wider(ens(&&paren), one_char_rel('('), input, peek);
    }
    match peek {
        Err(e) => {
            return Err(e);
        },
        Ok(_) => {},
    }
    let as_struct_body = |c: Input<'a>| -> (r: IResultLookahead<'a, Untagged<'a>>)
        requires
            c == input,
        ensures
            map_rel(untagged_struct_at(n, k), as_untagged_struct())(c, r),
            sound(c, r),
        {
            let body = |d: Input<'a>| -> (r2: IResultLookahead<'a, Struct<'a>>)
                requires
                    d == input,
                ensures
                    untagged_struct_at(n, k)(d, r2),
                    sound(d, r2),
                { untagged_struct_within(d, depth) };
            let wrap = |s: Struct<'a>| -> (out: Untagged<'a>)
                ensures
                    as_untagged_struct()(s, out),
                { Untagged::Struct(s) };
            combinators::map(body, wrap, c)
        };
    let as_tuple_body = |c: Input<'a>| -> (r: IResultLookahead<'a, Untagged<'a>>)
        requires
            c == input,
        ensures
            map_rel(tuple_at(n, k), as_untagged_tuple())(c, r),
            sound(c, r),
        {
            let body = |d: Input<'a>| -> (r2: IResultLookahead<'a, Tuple<'a>>)
                requires
                    d == input,
                ensures
                    tuple_at(n, k)(d, r2),
                    sound(d, r2),
                { tuple_within(d, depth) };
            let wrap = |t: Tuple<'a>| -> (out: Untagged<'a>)
                ensures
                    as_untagged_tuple()(t, out),
                { Untagged::Tuple(t) };
            combinators::map(body, wrap, c)
        };
    let either = |c: Input<'a>| -> (r: IResultLookahead<'a, Untagged<'a>>)
        requires
            c == input,
        ensures
            alt2_rel(
                map_rel(untagged_struct_at(n, k), as_untagged_struct()),
                map_rel(tuple_at(n, k), as_untagged_tuple()),
            )(c, r),
            sound(c, r),
        { alt2(as_struct_body, as_tuple_body, c) };
    cut(either, input)
}

/// Reads what follows a tag.
fn untagged_within<'a>(input: Input<'a>, depth: usize) -> (res: IResultLookahead<'a, Untagged<'a>>)
    requires
        input.wf(),
    ensures
        untagged_parses(input, depth as nat, res),
        sound(input, res),
    decreases input.size(), 10int,
{
    let ghost n = input.size();
    let ghost k = depth as nat;
    let body = |c: Input<'a>| -> (r: IResultLookahead<'a, Untagged<'a>>)
        requires
            c == input,
        ensures
            paren_body_at(n, k)(c, r),
            sound(c, r),
        { paren_body_within(c, depth) };
    let unit = |c: Input<'a>| -> (r: IResultLookahead<'a, Untagged<'a>>)
        requires
            c.wf(),
        ensures
            map_rel(nothing_rel(), as_untagged_unit())(c, r),
            sound(c, r),
        {
            let wrap = |m: Input<'a>| -> (out: Untagged<'a>)
                ensures
                    as_untagged_unit()(m, out),
                { Untagged::Unit };
            combinators::map(nothing, wrap, c)
        };
    alt2(body, unit, input)
}

/// Reads a tagged expression, whose expressions may hold expressions
/// `depth` levels deep.
pub fn tagged_within<'a>(input: Input<'a>, depth: usize) -> (res: IResultLookahead<'a, Tagged<'a>>)
    requires
        input.wf(),
    ensures
        tagged_parses(input, depth as nat, res),
        sound(input, res),
    decreases input.size(), 6int,
{
    let ghost n = input.size();
    let ghost k = depth as nat;
    let name = |c: Input<'a>| -> (r: IResultLookahead<'a, Spanned<'a, Ident<'a>>>)
        requires
            c == input,
        ensures
            spanned_rel(ident_rel())(c, r),
            sound(c, r),
            advancing(c, r),
        {
            let r = spanned(ident, c);
            proof {
                lemma_spanned_wider(ens(&ident), ident_rel(), c, r);
            }
            r
        };
    let body = |c: Input<'a>| -> (r: IResultLookahead<'a, Spanned<'a, Untagged<'a>>>)
        requires
            c.is_inside(input),
        ensures
            spanned_rel(untagged_below(n, k))(c, r),
            sound(c, r),
        {
            let sub = |d: Input<'a>| -> (r2: IResultLookahead<'a, Untagged<'a>>)
                requires
                    d.is_inside(input),
                ensures
                    untagged_below(n, k)(d, r2),
                    sound(d, r2),
                { untagged_within(d, depth) };
            let r = spanned(&sub, c);
            proof {
                lemma_spanned_wider(ens(&&sub), untagged_below(n, k), c, r);
            }
            r
        };
    let tagged_value = |c: Input<'a>| -> (r: IResultLookahead<'a, Tagged<'a>>)
        requires
            c == input,
        ensures
            map_rel(
                pair_rel(spanned_rel(ident_rel()), spanned_rel(untagged_below(n, k))),
                as_tagged(),
            )(c, r),
            sound(c, r),
        {
            let both = |d: Input<'a>| -> (r2: IResultLookahead<
                'a,
                (Spanned<'a, Ident<'a>>, Spanned<'a, Untagged<'a>>),
            >)
                requires
                    d == input,
                ensures
                    pair_rel(spanned_rel(ident_rel()), spanned_rel(untagged_below(n, k)))(d, r2),
                    sound(d, r2),
                { pair(&name, &body, d) };
            let wrap = |p: (Spanned<'a, Ident<'a>>, Spanned<'a, Untagged<'a>>)| -> (out: Tagged<
                'a,
            >)
                ensures
                    as_tagged()(p, out),
                { Tagged { ident: p.0, untagged: p.1 } };
            combinators::map(both, wrap, c)
        };
    context("tagged expr", tagged_value, input)
}

/// Reads a field of a struct: a name, a colon and an expression.
pub fn ident_val_pair<'a>(input: Input<'a>) -> (res: IResultLookahead<
    'a,
    KeyValue<'a, Ident<'a>>,
>)
    requires
        input.wf(),
    ensures
        ident_val_pair_parses(input, MAX_DEPTH as nat, res),
        sound(input, res),
{
    ident_val_pair_within(input, MAX_DEPTH)
}

/// Reads the body of a struct.
pub fn untagged_struct<'a>(input: Input<'a>) -> (res: IResultLookahead<'a, Struct<'a>>)
    requires
        input.wf(),
    ensures
        untagged_struct_parses(input, MAX_DEPTH as nat, res),
        sound(input, res),
{
    untagged_struct_within(input, MAX_DEPTH)
}

/// Reads an entry of a map: an expression, a colon and an expression.
pub fn key_val_pair<'a>(input: Input<'a>) -> (res: IResultLookahead<'a, KeyValue<'a, Expr<'a>>>)
    requires
        input.wf(),
    ensures
        key_val_pair_parses(input, MAX_DEPTH as nat, res),
        sound(input, res),
{
    key_val_pair_within(input, MAX_DEPTH)
}

/// Reads a map.
pub fn rmap<'a>(input: Input<'a>) -> (res: IResultLookahead<'a, RMap<'a>>)
    requires
        input.wf(),
    ensures
        rmap_parses(input, MAX_DEPTH as nat, res),
        sound(input, res),
{
    rmap_within(input, MAX_DEPTH)
}

/// Reads a list.
pub fn list<'a>(input: Input<'a>) -> (res: IResultLookahead<'a, List<'a>>)
    requires
        input.wf(),
    ensures
        list_parses(input, MAX_DEPTH as nat, res),
        sound(input, res),
{
    list_within(input, MAX_DEPTH)
}

/// Reads a tuple.
pub fn tuple<'a>(input: Input<'a>) -> (res: IResultLookahead<'a, Tuple<'a>>)
    requires
        input.wf(),
    ensures
        tuple_parses(input, MAX_DEPTH as nat, res),
        sound(input, res),
{
    tuple_within(input, MAX_DEPTH)
}

/// Reads a tagged expression.
pub fn tagged<'a>(input: Input<'a>) -> (res: IResultLookahead<'a, Tagged<'a>>)
    requires
        input.wf(),
    ensures
        tagged_parses(input, MAX_DEPTH as nat, res),
        sound(input, res),
{
    tagged_within(input, MAX_DEPTH)
}

} // verus!
