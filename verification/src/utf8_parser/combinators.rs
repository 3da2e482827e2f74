//! Parser combinators: functions that take one or more parsers and the input,
//! and run them in some order.
//!
//! What a parser does is written down as a relation between its input and
//! its result. Each combinator has such a relation, built from the relations
//! of the parsers it is given, and the contract of the combinator says that
//! input and result stand in it.

use vstd::prelude::*;
use crate::utf8_parser::basic::{
    multispacews0, multispacews0_rel, one_char, one_char_rel, one_char_result,
};
use crate::utf8_parser::error::{
    deeper_error, BaseErrorKind, ErrorTree, Expectation, InputParseErr, InputParseError,
};
use crate::utf8_parser::pt::Spanned;
use crate::utf8_parser::input::Input;
use crate::utf8_parser::ok::IOk;
use crate::utf8_parser::text::{byte_len, len_utf8, lemma_take_step};
use crate::utf8_parser::{IResultLookahead, OutputResult};

verus! {

/// What a parser does: which results it may give on which input.
pub type Rel<'a, O> = spec_fn(Input<'a>, IResultLookahead<'a, O>) -> bool;

/// What a function on characters does: which answers it may give.
pub type CharRel = spec_fn(char, bool) -> bool;

/// The trees of the result name a place: that of the failure, and that of
/// the failure that a success set aside.
pub open spec fn tidy<'a, O>(res: IResultLookahead<'a, O>) -> bool {
    match res {
        Ok(ok) => ok.discarded_error matches Some(e) ==> e.wf(),
        Err(e) => e.tree().wf(),
    }
}

/// On success the rest is a well-formed cursor into the same source, at the
/// place of the input or further on; and the trees of the result name a
/// place.
pub open spec fn sound<'a, O>(input: Input<'a>, res: IResultLookahead<'a, O>) -> bool {
    &&& res matches Ok(ok) ==> ok.remaining.is_rest_of(input)
    &&& tidy(res)
}

/// On success the rest lies strictly further on than the input.
pub open spec fn advancing<'a, O>(input: Input<'a>, res: IResultLookahead<'a, O>) -> bool {
    res matches Ok(ok) ==> ok.remaining.offset > input.offset
}

/// What the parser `f` does, as its contract says it.
pub open spec fn ens<'a, O, F: Fn(Input<'a>) -> IResultLookahead<'a, O>>(f: &F) -> Rel<'a, O> {
    |input: Input<'a>, res: IResultLookahead<'a, O>| call_ensures(*f, (input,), res)
}

/// What the function `f` gives for which argument, as its contract says it.
pub open spec fn fn_ens<A, B, F: Fn(A) -> B>(f: &F) -> spec_fn(A, B) -> bool {
    |a: A, b: B| call_ensures(*f, (a,), b)
}

/// What the function `f` of no argument gives, as its contract says it.
pub open spec fn init_ens<R, F: Fn() -> R>(f: &F) -> spec_fn((), R) -> bool {
    |unit: (), r: R| call_ensures(*f, (), r)
}

/// What the function `f` of two arguments gives for which pair, as its
/// contract says it.
pub open spec fn fold_ens<A, B, R, F: Fn(A, B) -> R>(f: &F) -> spec_fn((A, B), R) -> bool {
    |x: (A, B), r: R| call_ensures(*f, x, r)
}

/// `f` can be run on `c`, and its results there are sound.
pub open spec fn runs_on<'a, O, F: Fn(Input<'a>) -> IResultLookahead<'a, O>>(
    f: &F,
    c: Input<'a>,
) -> bool {
    &&& call_requires(*f, (c,))
    &&& forall|r: IResultLookahead<'a, O>| #[trigger] call_ensures(*f, (c,), r) ==> sound(c, r)
}

/// `g` can be run wherever `f`, run on `input`, leaves off.
pub open spec fn runs_after<'a, A, B, F, G>(g: &G, f: &F, input: Input<'a>) -> bool where
    F: Fn(Input<'a>) -> IResultLookahead<'a, A>,
    G: Fn(Input<'a>) -> IResultLookahead<'a, B>,
 {
    forall|ok: IOk<'a, A>| #[trigger]
        call_ensures(*f, (input,), Ok::<IOk<'a, A>, InputParseErr<'a>>(ok)) ==> runs_on(
            g,
            ok.remaining,
        )
}

/// `f` can be run on `input` and on whatever is left of it, and its results
/// are sound.
pub open spec fn parser_on<'a, O, F: Fn(Input<'a>) -> IResultLookahead<'a, O>>(
    f: &F,
    input: Input<'a>,
) -> bool {
    &&& forall|c: Input<'a>| c.is_rest_of(input) ==> #[trigger] call_requires(*f, (c,))
    &&& forall|c: Input<'a>, r: IResultLookahead<'a, O>|
        c.is_rest_of(input) && #[trigger] call_ensures(*f, (c,), r) ==> sound(c, r)
}

/// `f` never succeeds without reading something, on `input` or on whatever
/// is left of it.
pub open spec fn consuming_on<'a, O, F: Fn(Input<'a>) -> IResultLookahead<'a, O>>(
    f: &F,
    input: Input<'a>,
) -> bool {
    forall|c: Input<'a>, r: IResultLookahead<'a, O>|
        c.is_rest_of(input) && #[trigger] call_ensures(*f, (c,), r) ==> advancing(c, r)
}

/// The failure `e`, as the result of a parser of another type.
pub open spec fn failed<'a, O>(res: IResultLookahead<'a, O>, e: InputParseErr<'a>) -> bool {
    res matches Err(e2) && e2 == e
}

/// Runs `a`, then `b` on what `a` left; fails as the first of them that
/// fails. What both parsed is joined by `join`.
pub open spec fn then_rel<'a, A, B, C>(a: Rel<'a, A>, b: Rel<'a, B>, join: spec_fn(A, B) -> C)
    -> Rel<'a, C> {
    |input: Input<'a>, res: IResultLookahead<'a, C>|
        exists|r1: IResultLookahead<'a, A>| #[trigger]
            a(input, r1) && match r1 {
                Err(e) => failed(res, e),
                Ok(ok1) => exists|r2: IResultLookahead<'a, B>| #[trigger]
                    b(ok1.remaining, r2) && match r2 {
                        Err(e) => failed(res, e),
                        Ok(ok2) => res == Ok::<IOk<'a, C>, InputParseErr<'a>>(
                            IOk {
                                remaining: ok2.remaining,
                                parsed: join(ok1.parsed, ok2.parsed),
                                discarded_error: deeper_error(
                                    ok1.discarded_error,
                                    ok2.discarded_error,
                                ),
                            },
                        ),
                    },
            }
}

/// `a`, then `b`: both values.
pub open spec fn pair_rel<'a, A, B>(a: Rel<'a, A>, b: Rel<'a, B>) -> Rel<'a, (A, B)> {
    then_rel(a, b, |x: A, y: B| (x, y))
}

/// `a`, then `b`: the value of `b`.
pub open spec fn preceded_rel<'a, A, B>(a: Rel<'a, A>, b: Rel<'a, B>) -> Rel<'a, B> {
    then_rel(a, b, |x: A, y: B| y)
}

/// `a`, then `b`: the value of `a`.
pub open spec fn terminated_rel<'a, A, B>(a: Rel<'a, A>, b: Rel<'a, B>) -> Rel<'a, A> {
    then_rel(a, b, |x: A, y: B| x)
}

/// `a`, `b`, `c` in turn: the value of `b`.
pub open spec fn delimited_rel<'a, A, B, C>(a: Rel<'a, A>, b: Rel<'a, B>, c: Rel<'a, C>) -> Rel<
    'a,
    B,
> {
    terminated_rel(preceded_rel(a, b), c)
}

/// Runs `a` and gives, in place of its value, the part of the input that it
/// read.
pub open spec fn recognize_rel<'a, A>(a: Rel<'a, A>) -> Rel<'a, Input<'a>> {
    |input: Input<'a>, res: IResultLookahead<'a, Input<'a>>|
        exists|r1: IResultLookahead<'a, A>| #[trigger]
            a(input, r1) && match r1 {
                Err(e) => failed(res, e),
                Ok(ok) => res == Ok::<IOk<'a, Input<'a>>, InputParseErr<'a>>(
                    IOk {
                        remaining: ok.remaining,
                        parsed: input.prefix(ok.remaining.offset - input.offset),
                        discarded_error: ok.discarded_error,
                    },
                ),
            }
}

/// A fatal failure made recoverable; everything else as it is.
pub open spec fn lookahead_result<'a, A>(r: IResultLookahead<'a, A>) -> IResultLookahead<'a, A> {
    match r {
        Err(e) => Err(InputParseErr::Recoverable(e.tree())),
        Ok(ok) => Ok(ok),
    }
}

/// A recoverable failure made fatal; everything else as it is.
pub open spec fn cut_result<'a, A>(r: IResultLookahead<'a, A>) -> IResultLookahead<'a, A> {
    match r {
        Err(e) => Err(InputParseErr::Fatal(e.tree())),
        Ok(ok) => Ok(ok),
    }
}

/// Runs `a`; if it fails fatally, the failure is made recoverable.
pub open spec fn lookahead_rel<'a, A>(a: Rel<'a, A>) -> Rel<'a, A> {
    |input: Input<'a>, res: IResultLookahead<'a, A>|
        exists|r1: IResultLookahead<'a, A>| #[trigger] a(input, r1) && res == lookahead_result(r1)
}

/// Runs `a`; if it fails at all, the failure is made fatal.
pub open spec fn cut_rel<'a, A>(a: Rel<'a, A>) -> Rel<'a, A> {
    |input: Input<'a>, res: IResultLookahead<'a, A>|
        exists|r1: IResultLookahead<'a, A>| #[trigger] a(input, r1) && res == cut_result(r1)
}

/// `res` is the failure of severity `fatal` whose tree joins `first` and
/// `second` as alternatives.
pub open spec fn failed_both<'a, A>(
    res: IResultLookahead<'a, A>,
    fatal: bool,
    first: InputParseError<'a>,
    second: InputParseError<'a>,
) -> bool {
    &&& res matches Err(e)
    &&& (e is Fatal) == fatal
    &&& e.tree() matches ErrorTree::Alt(v)
    &&& v@ == ErrorTree::alt_items(first, second)
}

/// Runs `a`. If it fails recoverably, runs `b` on the same input; if `b`
/// fails too, the failure holds both trees as alternatives, and is fatal if
/// that of `b` was. A success, and a fatal failure of `a`, are handed on as
/// they are.
pub open spec fn alt2_rel<'a, A>(a: Rel<'a, A>, b: Rel<'a, A>) -> Rel<'a, A> {
    |input: Input<'a>, res: IResultLookahead<'a, A>|
        exists|r1: IResultLookahead<'a, A>| #[trigger]
            a(input, r1) && match r1 {
                Err(InputParseErr::Recoverable(first)) => exists|r2: IResultLookahead<'a, A>|
                 #[trigger]
                    b(input, r2) && match r2 {
                        Err(InputParseErr::Recoverable(second)) => failed_both(
                            res,
                            false,
                            first,
                            second,
                        ),
                        Err(InputParseErr::Fatal(second)) => failed_both(
                            res,
                            true,
                            first,
                            second,
                        ),
                        Ok(_) => res == r2,
                    },
                _ => res == r1,
            }
}

/// Runs `a`; a recoverable failure becomes a success without a value that
/// has read nothing, and the failure is set aside in it.
pub open spec fn opt_rel<'a, A>(a: Rel<'a, A>) -> Rel<'a, Option<A>> {
    |input: Input<'a>, res: IResultLookahead<'a, Option<A>>|
        exists|r1: IResultLookahead<'a, A>| #[trigger]
            a(input, r1) && match r1 {
                Ok(ok) => res == Ok::<IOk<'a, Option<A>>, InputParseErr<'a>>(
                    IOk {
                        remaining: ok.remaining,
                        parsed: Some(ok.parsed),
                        discarded_error: ok.discarded_error,
                    },
                ),
                Err(InputParseErr::Recoverable(e)) => res == Ok::<
                    IOk<'a, Option<A>>,
                    InputParseErr<'a>,
                >(IOk { remaining: input, parsed: None, discarded_error: Some(e) }),
                Err(InputParseErr::Fatal(e)) => failed(res, InputParseErr::Fatal(e)),
            }
}

/// `res` is the failure `e` with the label `ctx` at `input` added to its
/// tree.
pub open spec fn failed_in_context<'a, A>(
    res: IResultLookahead<'a, A>,
    input: Input<'a>,
    ctx: &'static str,
    is_final: bool,
    e: InputParseErr<'a>,
) -> bool {
    &&& res matches Err(e2)
    &&& (e2 is Fatal) == (e is Fatal)
    &&& ErrorTree::with_context(input, ctx, is_final, e.tree(), e2.tree())
}

/// Runs `a`; a failure, of either severity, gets the label `ctx` at the
/// place where `a` started. With `is_final` the tree takes no label after
/// this one.
pub open spec fn context_final_rel<'a, A>(ctx: &'static str, is_final: bool, a: Rel<'a, A>) -> Rel<
    'a,
    A,
> {
    |input: Input<'a>, res: IResultLookahead<'a, A>|
        exists|r1: IResultLookahead<'a, A>| #[trigger]
            a(input, r1) && match r1 {
                Ok(ok) => res == r1,
                Err(e) => failed_in_context(res, input, ctx, is_final, e),
            }
}

/// Runs `a`; a failure gets the label `ctx`.
pub open spec fn context_rel<'a, A>(ctx: &'static str, a: Rel<'a, A>) -> Rel<'a, A> {
    context_final_rel(ctx, false, a)
}

/// Runs `a` and changes its value as `m` says.
pub open spec fn map_rel<'a, A, B>(a: Rel<'a, A>, m: spec_fn(A, B) -> bool) -> Rel<'a, B> {
    |input: Input<'a>, res: IResultLookahead<'a, B>|
        exists|r1: IResultLookahead<'a, A>| #[trigger]
            a(input, r1) && match r1 {
                Err(e) => failed(res, e),
                Ok(ok) => {
                    &&& res matches Ok(k)
                    &&& k.remaining == ok.remaining
                    &&& k.discarded_error == ok.discarded_error
                    &&& m(ok.parsed, k.parsed)
                },
            }
}

/// Runs `a` and changes its value as `m` says, or fails as `m` says.
pub open spec fn map_res_rel<'a, A, B>(a: Rel<'a, A>, m: spec_fn(A, OutputResult<'a, B>) -> bool)
    -> Rel<'a, B> {
    |input: Input<'a>, res: IResultLookahead<'a, B>|
        exists|r1: IResultLookahead<'a, A>| #[trigger]
            a(input, r1) && match r1 {
                Err(e) => failed(res, e),
                Ok(ok) => exists|out: OutputResult<'a, B>| #[trigger]
                    m(ok.parsed, out) && match out {
                        Err(e) => failed(res, e),
                        Ok(p) => res == Ok::<IOk<'a, B>, InputParseErr<'a>>(
                            IOk {
                                remaining: ok.remaining,
                                parsed: p,
                                discarded_error: ok.discarded_error,
                            },
                        ),
                    },
            }
}

/// Runs `first`, then `second` on what is left, and gives both values.
pub fn pair<'a, O1, O2, F, G>(first: F, second: G, input: Input<'a>) -> (res: IResultLookahead<
    'a,
    (O1, O2),
>) where
    F: Fn(Input<'a>) -> IResultLookahead<'a, O1>,
    G: Fn(Input<'a>) -> IResultLookahead<'a, O2>,

    requires
        input.wf(),
        runs_on(&first, input),
        runs_after(&second, &first, input),
    ensures
        pair_rel(ens(&first), ens(&second))(input, res),
        sound(input, res),
{
    let r1 = first(input);
    let ghost g1 = r1;
    assert(ens(&first)(input, g1));
    match r1 {
        Err(e) => Err(e),
        Ok(ok1) => {
            let r2 = second(ok1.remaining);
            let ghost g2 = r2;
            assert(ens(&second)(ok1.remaining, g2));
            match r2 {
                Err(e) => Err(e),
                Ok(ok2) => {
                    let IOk { remaining, parsed, discarded_error } = ok2.prepend_err(
                        ok1.discarded_error,
                    );
                    Ok(IOk { remaining, parsed: (ok1.parsed, parsed), discarded_error })
                },
            }
        },
    }
}

/// Runs `first`, then `second` on what is left, and gives the value of `second`.
pub fn preceded<'a, O, OI, F, G>(first: F, second: G, input: Input<'a>) -> (res: IResultLookahead<
    'a,
    O,
>) where
    F: Fn(Input<'a>) -> IResultLookahead<'a, OI>,
    G: Fn(Input<'a>) -> IResultLookahead<'a, O>,

    requires
        input.wf(),
        runs_on(&first, input),
        runs_after(&second, &first, input),
    ensures
        preceded_rel(ens(&first), ens(&second))(input, res),
        sound(input, res),
{
    let r1 = first(input);
    let ghost g1 = r1;
    assert(ens(&first)(input, g1));
    match r1 {
        Err(e) => Err(e),
        Ok(ok1) => {
            let r2 = second(ok1.remaining);
            let ghost g2 = r2;
            assert(ens(&second)(ok1.remaining, g2));
            match r2 {
                Err(e) => Err(e),
                Ok(ok2) => Ok(ok2.prepend_err(ok1.discarded_error)),
            }
        },
    }
}

/// Runs `first`, then `second` on what is left, and gives the value of `first`.
pub fn terminated<'a, O, OI, F, G>(first: F, second: G, input: Input<'a>) -> (res:
    IResultLookahead<'a, O>) where
    F: Fn(Input<'a>) -> IResultLookahead<'a, O>,
    G: Fn(Input<'a>) -> IResultLookahead<'a, OI>,

    requires
        input.wf(),
        runs_on(&first, input),
        runs_after(&second, &first, input),
    ensures
        terminated_rel(ens(&first), ens(&second))(input, res),
        sound(input, res),
{
    let r1 = first(input);
    let ghost g1 = r1;
    assert(ens(&first)(input, g1));
    match r1 {
        Err(e) => Err(e),
        Ok(ok1) => {
            let IOk { remaining, discarded_error, parsed } = ok1;
            let r2 = second(remaining);
            let ghost g2 = r2;
            assert(ens(&second)(remaining, g2));
            match r2 {
                Err(e) => Err(e),
                Ok(ok2) => Ok(ok2.prepend_err(discarded_error).replace(parsed)),
            }
        },
    }
}

/// Runs the three parsers in turn and gives the value of the second.
pub fn delimited<'a, O, OI1, OI2, F, G, H>(first: F, second: G, third: H, input: Input<'a>) -> (res:
    IResultLookahead<'a, O>) where
    F: Fn(Input<'a>) -> IResultLookahead<'a, OI1>,
    G: Fn(Input<'a>) -> IResultLookahead<'a, O>,
    H: Fn(Input<'a>) -> IResultLookahead<'a, OI2>,

    requires
        input.wf(),
        runs_on(&first, input),
        runs_after(&second, &first, input),
        parser_on(&third, input),
    ensures
        delimited_rel(ens(&first), ens(&second), ens(&third))(input, res),
        sound(input, res),
{
    let inner = |c: Input<'a>| -> (r: IResultLookahead<'a, O>)
        requires
            c == input,
        ensures
            preceded_rel(ens(&first), ens(&second))(c, r),
            sound(c, r),
        { preceded(&first, &second, c) };
    terminated(inner, third, input)
}

/// Runs `parser` and gives the part of the input that it read.
pub fn recognize<'a, O, F>(parser: F, input: Input<'a>) -> (res: IResultLookahead<'a, Input<'a>>)
    where F: Fn(Input<'a>) -> IResultLookahead<'a, O>
    requires
        input.wf(),
        runs_on(&parser, input),
    ensures
        recognize_rel(ens(&parser))(input, res),
        sound(input, res),
        res matches Ok(ok) ==> ok.parsed.wf(),
{
    let r1 = parser(input);
    let ghost g1 = r1;
    assert(ens(&parser)(input, g1));
    match r1 {
        Err(e) => Err(e),
        Ok(ok) => {
            let read = input.slice(0, input.offset_to(&ok.remaining));
            Ok(IOk { remaining: ok.remaining, parsed: read, discarded_error: ok.discarded_error })
        },
    }
}

/// Runs `parser` and makes a fatal failure recoverable: the parser only
/// probes, and another branch may still be tried. What the parser read stays
/// read.
pub fn lookahead<'a, O, F>(parser: F, input: Input<'a>) -> (res: IResultLookahead<'a, O>) where
    F: Fn(Input<'a>) -> IResultLookahead<'a, O>,

    requires
        input.wf(),
        runs_on(&parser, input),
    ensures
        lookahead_rel(ens(&parser))(input, res),
        sound(input, res),
{
    let r1 = parser(input);
    let ghost g1 = r1;
    assert(ens(&parser)(input, g1));
    match r1 {
        Err(InputParseErr::Recoverable(e)) => Err(InputParseErr::recoverable(e)),
        Err(InputParseErr::Fatal(e)) => Err(InputParseErr::recoverable(e)),
        Ok(x) => Ok(x),
    }
}

/// Runs `parser` and makes a recoverable failure fatal: the branch is
/// committed to.
pub fn cut<'a, O, F>(parser: F, input: Input<'a>) -> (res: IResultLookahead<'a, O>) where
    F: Fn(Input<'a>) -> IResultLookahead<'a, O>,

    requires
        input.wf(),
        runs_on(&parser, input),
    ensures
        cut_rel(ens(&parser))(input, res),
        sound(input, res),
{
    let r1 = parser(input);
    let ghost g1 = r1;
    assert(ens(&parser)(input, g1));
    match r1 {
        Err(InputParseErr::Recoverable(e)) => Err(InputParseErr::fatal(e)),
        Err(InputParseErr::Fatal(e)) => Err(InputParseErr::fatal(e)),
        Ok(x) => Ok(x),
    }
}

/// Runs `f`, and where it fails recoverably runs `g` on the same input.
/// Where both fail, the failure holds both trees as alternatives.
pub fn alt2<'a, O, F, G>(f: F, g: G, input: Input<'a>) -> (res: IResultLookahead<'a, O>) where
    F: Fn(Input<'a>) -> IResultLookahead<'a, O>,
    G: Fn(Input<'a>) -> IResultLookahead<'a, O>,

    requires
        input.wf(),
        runs_on(&f, input),
        runs_on(&g, input),
    ensures
        alt2_rel(ens(&f), ens(&g))(input, res),
        sound(input, res),
{
    let r1 = f(input);
    let ghost g1 = r1;
    assert(ens(&f)(input, g1));
    match r1 {
        Err(InputParseErr::Recoverable(first)) => {
            let r2 = g(input);
            let ghost g2 = r2;
            assert(ens(&g)(input, g2));
            match r2 {
                Err(InputParseErr::Recoverable(second)) => Err(
                    InputParseErr::recoverable(ErrorTree::alt(first, second)),
                ),
                Err(InputParseErr::Fatal(second)) => Err(
                    InputParseErr::fatal(ErrorTree::alt(first, second)),
                ),
                Ok(ok) => Ok(ok),
            }
        },
        Err(InputParseErr::Fatal(e)) => Err(InputParseErr::Fatal(e)),
        Ok(ok) => Ok(ok),
    }
}

/// Converts recoverable errors into `None`
pub fn opt<'a, O, F>(f: F, input: Input<'a>) -> (res: IResultLookahead<'a, Option<O>>) where
    F: Fn(Input<'a>) -> IResultLookahead<'a, O>,

    requires
        input.wf(),
        runs_on(&f, input),
    ensures
        opt_rel(ens(&f))(input, res),
        sound(input, res),
{
    let r1 = f(input);
    let ghost g1 = r1;
    assert(ens(&f)(input, g1));
    match r1 {
        Ok(ok) => {
            let IOk { remaining, parsed, discarded_error } = ok;
            Ok(IOk { remaining, parsed: Some(parsed), discarded_error })
        },
        Err(InputParseErr::Recoverable(e)) => Ok(
            IOk { remaining: input, parsed: None, discarded_error: Some(e) },
        ),
        Err(InputParseErr::Fatal(e)) => Err(InputParseErr::Fatal(e)),
    }
}

/// Runs `f` and labels its failure with `label` at the input.
pub fn context<'a, O, F>(label: &'static str, f: F, input: Input<'a>) -> (res: IResultLookahead<
    'a,
    O,
>) where F: Fn(Input<'a>) -> IResultLookahead<'a, O>
    requires
        input.wf(),
        runs_on(&f, input),
    ensures
        context_rel(label, ens(&f))(input, res),
        sound(input, res),
{
    context_final(label, false, f, input)
}

/// Runs `f` and labels its failure with `label` at the input; with
/// `is_final` the tree takes no label after this one.
pub fn context_final<'a, O, F>(
    label: &'static str,
    is_final: bool,
    f: F,
    input: Input<'a>,
) -> (res: IResultLookahead<'a, O>) where F: Fn(Input<'a>) -> IResultLookahead<'a, O>
    requires
        input.wf(),
        runs_on(&f, input),
    ensures
        context_final_rel(label, is_final, ens(&f))(input, res),
        sound(input, res),
{
    let r1 = f(input);
    let ghost g1 = r1;
    assert(ens(&f)(input, g1));
    match r1 {
        Ok(o) => Ok(o),
        Err(InputParseErr::Recoverable(e)) => Err(
            InputParseErr::recoverable(ErrorTree::add_context(input, label, is_final, e)),
        ),
        Err(InputParseErr::Fatal(e)) => Err(
            InputParseErr::fatal(ErrorTree::add_context(input, label, is_final, e)),
        ),
    }
}

/// Runs `parser` and changes its value with `convert`.
pub fn map<'a, O, O2, F, M>(parser: F, convert: M, input: Input<'a>) -> (res: IResultLookahead<'a, O2>)
    where F: Fn(Input<'a>) -> IResultLookahead<'a, O>, M: Fn(O) -> O2
    requires
        input.wf(),
        runs_on(&parser, input),
        forall|ok: IOk<'a, O>| #[trigger]
            call_ensures(parser, (input,), Ok::<IOk<'a, O>, InputParseErr<'a>>(ok))
                ==> call_requires(convert, (ok.parsed,)),
    ensures
        map_rel(ens(&parser), fn_ens(&convert))(input, res),
        sound(input, res),
{
    let r1 = parser(input);
    let ghost g1 = r1;
    assert(ens(&parser)(input, g1));
    match r1 {
        Err(e) => Err(e),
        Ok(ok) => {
            let IOk { remaining, parsed, discarded_error } = ok;
            Ok(IOk { remaining, parsed: convert(parsed), discarded_error })
        },
    }
}

/// Runs `parser` and changes its value with `convert`, which may fail.
pub fn map_res<'a, O, O2, F, M>(parser: F, convert: M, input: Input<'a>) -> (res: IResultLookahead<
    'a,
    O2,
>) where F: Fn(Input<'a>) -> IResultLookahead<'a, O>, M: Fn(O) -> OutputResult<'a, O2>
    requires
        input.wf(),
        runs_on(&parser, input),
        forall|ok: IOk<'a, O>| #[trigger]
            call_ensures(parser, (input,), Ok::<IOk<'a, O>, InputParseErr<'a>>(ok))
                ==> call_requires(convert, (ok.parsed,)),
        forall|p: O, e: InputParseErr<'a>| #[trigger]
            call_ensures(convert, (p,), Err::<O2, InputParseErr<'a>>(e)) ==> e.tree().wf(),
    ensures
        map_res_rel(ens(&parser), fn_ens(&convert))(input, res),
        sound(input, res),
{
    let r1 = parser(input);
    let ghost g1 = r1;
    assert(ens(&parser)(input, g1));
    match r1 {
        Err(e) => Err(e),
        Ok(ok) => {
            let IOk { remaining, parsed, discarded_error } = ok;
            let ghost p0 = parsed;
            let out = convert(parsed);
            let ghost gout = out;
            assert(fn_ens(&convert)(p0, gout));
            match out {
                Err(e) => Err(e),
                Ok(p) => Ok(IOk { remaining, parsed: p, discarded_error }),
            }
        },
    }
}

/// The failure of a parser that expected `expectation` at `location`.
pub open spec fn base_failure<'a, O>(location: Input<'a>, expectation: Expectation)
    -> IResultLookahead<'a, O> {
    Err(
        InputParseErr::Fatal(
            ErrorTree::Base { location, kind: BaseErrorKind::Expected(expectation) },
        ),
    )
}

/// The success that has read the first `k` characters of the input and
/// hands them on as its value.
pub open spec fn read_chars<'a>(input: Input<'a>, k: int) -> IResultLookahead<'a, Input<'a>> {
    Ok(IOk { remaining: input.skip_chars(k), parsed: input.take_chars(k), discarded_error: None })
}

/// `p` accepts the first `k` characters of `text`, `k` is no more than
/// `limit`, and `p` refuses the character after them, if there is one and
/// the limit allows one more.
pub open spec fn bounded_run(p: CharRel, text: Seq<char>, k: int, limit: Option<usize>) -> bool {
    &&& 0 <= k <= text.len()
    &&& (limit matches Some(n) ==> k <= n)
    &&& forall|j: int| 0 <= j < k ==> p(#[trigger] text[j], true)
    &&& (k < text.len() && (limit matches Some(n) ==> k < n) ==> p(text[k], false))
}

/// `p` accepts the first `k` characters of `text` and refuses the one after
/// them, if there is one.
pub open spec fn run_of(p: CharRel, text: Seq<char>, k: int) -> bool {
    bounded_run(p, text, k, None)
}

/// Reads the longest run of characters at the start that `p` accepts. It
/// never fails.
pub open spec fn take_while_rel<'a>(p: CharRel) -> Rel<'a, Input<'a>> {
    |input: Input<'a>, res: IResultLookahead<'a, Input<'a>>|
        exists|k: int| #[trigger] run_of(p, input.text(), k) && res == read_chars(input, k)
}

/// Reads the longest run of characters at the start that `p` accepts, and
/// fails with `expectation`, at the input, if there is no such character.
pub open spec fn take_while1_rel<'a>(p: CharRel, expectation: Expectation) -> Rel<'a, Input<'a>> {
    |input: Input<'a>, res: IResultLookahead<'a, Input<'a>>|
        exists|k: int| #[trigger]
            run_of(p, input.text(), k) && res == (if k == 0 {
                base_failure(input.take_chars(0), expectation)
            } else {
                read_chars(input, k)
            })
}

/// Reads the longest run of characters at the start that `p` accepts, but no
/// more than `n`. Fails with `expectation`, at the end of the run, if the
/// run has fewer than `m` bytes.
pub open spec fn take_while_m_n_rel<'a>(m: usize, n: usize, p: CharRel, expectation: Expectation)
    -> Rel<'a, Input<'a>> {
    |input: Input<'a>, res: IResultLookahead<'a, Input<'a>>|
        exists|k: int| #[trigger]
            bounded_run(p, input.text(), k, Some(n)) && res == (if byte_len(input.text().take(k))
                < m {
                base_failure(
                    input.take_chars(k).advance(byte_len(input.text().take(k)) as int),
                    expectation,
                )
            } else {
                read_chars(input, k)
            })
}

/// Reads one character if `p` accepts it, and fails with `expectation`, at
/// the input, if `p` refuses it or there is none.
pub open spec fn take1_if_rel<'a>(p: CharRel, expectation: Expectation) -> Rel<'a, Input<'a>> {
    |input: Input<'a>, res: IResultLookahead<'a, Input<'a>>|
        if input.text().len() > 0 {
            exists|b: bool| #[trigger]
                p(input.text()[0], b) && res == (if b {
                    read_chars(input, 1)
                } else {
                    base_failure(input, expectation)
                })
        } else {
            res == base_failure::<Input<'a>>(input, expectation)
        }
}

/// `a` is run from `cur` on as long as it succeeds, and `acc` holds the
/// values read before `cur`. The first recoverable failure ends the run:
/// the result holds all values, has read up to there, and sets the failure
/// aside. A fatal failure is the result.
pub open spec fn many0_steps<'a, O>(
    a: Rel<'a, O>,
    cur: Input<'a>,
    acc: Seq<O>,
    res: IResultLookahead<'a, Vec<O>>,
) -> bool
    decreases cur.size(),
{
    exists|r: IResultLookahead<'a, O>| #[trigger]
        a(cur, r) && match r {
            Err(InputParseErr::Recoverable(e)) => {
                &&& res matches Ok(k)
                &&& k.remaining == cur
                &&& k.parsed@ == acc
                &&& k.discarded_error == Some(e)
            },
            Err(InputParseErr::Fatal(e)) => failed(res, InputParseErr::Fatal(e)),
            Ok(ok) => ok.remaining.size() < cur.size() && many0_steps(
                a,
                ok.remaining,
                acc.push(ok.parsed),
                res,
            ),
        }
}

/// Runs `a` until it fails recoverably and gives the values in order.
pub open spec fn many0_rel<'a, O>(a: Rel<'a, O>) -> Rel<'a, Vec<O>> {
    |input: Input<'a>, res: IResultLookahead<'a, Vec<O>>|
        many0_steps(a, input, Seq::<O>::empty(), res)
}

/// `a` is run from `cur` on as long as it succeeds, and `acc` is what `g`
/// made of the values read before `cur`.
pub open spec fn fold_steps<'a, O, R>(
    a: Rel<'a, O>,
    g: spec_fn((R, O), R) -> bool,
    cur: Input<'a>,
    acc: R,
    res: IResultLookahead<'a, R>,
) -> bool
    decreases cur.size(),
{
    exists|r: IResultLookahead<'a, O>| #[trigger]
        a(cur, r) && match r {
            Err(InputParseErr::Recoverable(e)) => res == Ok::<IOk<'a, R>, InputParseErr<'a>>(
                IOk { remaining: cur, parsed: acc, discarded_error: Some(e) },
            ),
            Err(InputParseErr::Fatal(e)) => failed(res, InputParseErr::Fatal(e)),
            Ok(ok) => ok.remaining.size() < cur.size() && exists|next: R| #[trigger]
                g((acc, ok.parsed), next) && fold_steps(a, g, ok.remaining, next, res),
        }
}

/// Runs `a` until it fails recoverably and folds the values with `g`,
/// starting from what `init` gives.
pub open spec fn fold_many0_rel<'a, O, R>(
    a: Rel<'a, O>,
    init: spec_fn((), R) -> bool,
    g: spec_fn((R, O), R) -> bool,
) -> Rel<'a, R> {
    |input: Input<'a>, res: IResultLookahead<'a, R>|
        exists|first: R| #[trigger] init((), first) && fold_steps(a, g, input, first, res)
}

/// `a` is tried after `k` characters of the input, then after `k + 1`, and
/// so on. Where it succeeds first, the characters before that place are the
/// value and the rest is what `a` left. A fatal failure, and the failure at
/// the end of the input, is the result.
pub open spec fn until_steps<'a, O>(
    a: Rel<'a, O>,
    input: Input<'a>,
    k: int,
    res: IResultLookahead<'a, Input<'a>>,
) -> bool
    decreases input.text().len() - k,
{
    exists|r: IResultLookahead<'a, O>| #[trigger]
        a(input.skip_chars(k), r) && match r {
            Ok(ok) => res == Ok::<IOk<'a, Input<'a>>, InputParseErr<'a>>(
                IOk {
                    remaining: ok.remaining,
                    parsed: input.take_chars(k),
                    discarded_error: ok.discarded_error,
                },
            ),
            Err(InputParseErr::Fatal(e)) => failed(res, InputParseErr::Fatal(e)),
            Err(InputParseErr::Recoverable(e)) => if 0 <= k < input.text().len() {
                until_steps(a, input, k + 1, res)
            } else {
                failed(res, InputParseErr::Recoverable(e))
            },
        }
}

/// Reads characters up to the first place where `a` succeeds, and then what
/// `a` reads there.
pub open spec fn take_until_rel<'a, O>(a: Rel<'a, O>) -> Rel<'a, Input<'a>> {
    |input: Input<'a>, res: IResultLookahead<'a, Input<'a>>| until_steps(a, input, 0, res)
}

/// A run of `many0` under a relation is a run under every wider relation.
pub proof fn lemma_many0_wider<'a, O>(
    a: Rel<'a, O>,
    b: Rel<'a, O>,
    cur: Input<'a>,
    acc: Seq<O>,
    res: IResultLookahead<'a, Vec<O>>,
)
    requires
        many0_steps(a, cur, acc, res),
        forall|c: Input<'a>, r: IResultLookahead<'a, O>|
            c.size() <= cur.size() && #[trigger] a(c, r) ==> b(c, r),
    ensures
        many0_steps(b, cur, acc, res),
    decreases cur.size(),
{
    let r = choose|r: IResultLookahead<'a, O>| #[trigger]
        a(cur, r) && match r {
            Err(InputParseErr::Recoverable(e)) => {
                &&& res matches Ok(k)
                &&& k.remaining == cur
                &&& k.parsed@ == acc
                &&& k.discarded_error == Some(e)
            },
            Err(InputParseErr::Fatal(e)) => failed(res, InputParseErr::Fatal(e)),
            Ok(ok) => ok.remaining.size() < cur.size() && many0_steps(
                a,
                ok.remaining,
                acc.push(ok.parsed),
                res,
            ),
        };
    assert(b(cur, r));
    if let Ok(ok) = r {
        lemma_many0_wider(a, b, ok.remaining, acc.push(ok.parsed), res);
    }
}

/// A run of `fold_many0` under a relation is a run under every wider
/// relation.
pub proof fn lemma_fold_wider<'a, O, R>(
    a: Rel<'a, O>,
    b: Rel<'a, O>,
    g: spec_fn((R, O), R) -> bool,
    h: spec_fn((R, O), R) -> bool,
    cur: Input<'a>,
    acc: R,
    res: IResultLookahead<'a, R>,
)
    requires
        fold_steps(a, g, cur, acc, res),
        forall|c: Input<'a>, r: IResultLookahead<'a, O>|
            c.size() <= cur.size() && #[trigger] a(c, r) ==> b(c, r),
        forall|x: (R, O), y: R| #[trigger] g(x, y) ==> h(x, y),
    ensures
        fold_steps(b, h, cur, acc, res),
    decreases cur.size(),
{
    let r = choose|r: IResultLookahead<'a, O>| #[trigger]
        a(cur, r) && match r {
            Err(InputParseErr::Recoverable(e)) => res == Ok::<IOk<'a, R>, InputParseErr<'a>>(
                IOk { remaining: cur, parsed: acc, discarded_error: Some(e) },
            ),
            Err(InputParseErr::Fatal(e)) => failed(res, InputParseErr::Fatal(e)),
            Ok(ok) => ok.remaining.size() < cur.size() && exists|next: R| #[trigger]
                g((acc, ok.parsed), next) && fold_steps(a, g, ok.remaining, next, res),
        };
    assert(b(cur, r));
    if let Ok(ok) = r {
        let next = choose|next: R| #[trigger]
            g((acc, ok.parsed), next) && fold_steps(a, g, ok.remaining, next, res);
        assert(h((acc, ok.parsed), next));
        lemma_fold_wider(a, b, g, h, ok.remaining, next, res);
    }
}

/// A search of `take_until` under a relation is a search under every wider
/// relation.
pub proof fn lemma_until_wider<'a, O>(
    a: Rel<'a, O>,
    b: Rel<'a, O>,
    input: Input<'a>,
    k: int,
    res: IResultLookahead<'a, Input<'a>>,
)
    requires
        until_steps(a, input, k, res),
        forall|c: Input<'a>, r: IResultLookahead<'a, O>| #[trigger] a(c, r) ==> b(c, r),
    ensures
        until_steps(b, input, k, res),
    decreases input.text().len() - k,
{
    let r = choose|r: IResultLookahead<'a, O>| #[trigger]
        a(input.skip_chars(k), r) && match r {
            Ok(ok) => res == Ok::<IOk<'a, Input<'a>>, InputParseErr<'a>>(
                IOk {
                    remaining: ok.remaining,
                    parsed: input.take_chars(k),
                    discarded_error: ok.discarded_error,
                },
            ),
            Err(InputParseErr::Fatal(e)) => failed(res, InputParseErr::Fatal(e)),
            Err(InputParseErr::Recoverable(e)) => if 0 <= k < input.text().len() {
                until_steps(a, input, k + 1, res)
            } else {
                failed(res, InputParseErr::Recoverable(e))
            },
        };
    assert(b(input.skip_chars(k), r));
    if r is Err && r->Err_0 is Recoverable && 0 <= k < input.text().len() {
        lemma_until_wider(a, b, input, k + 1, res);
    }
}

/// A run under a test on characters is a run under every test that allows
/// every answer of the first.
pub proof fn lemma_run_wider(p: CharRel, q: CharRel, text: Seq<char>, k: int, limit: Option<usize>)
    requires
        bounded_run(p, text, k, limit),
        forall|c: char, b: bool| #[trigger] p(c, b) ==> q(c, b),
    ensures
        bounded_run(q, text, k, limit),
{
    assert forall|j: int| 0 <= j < k implies q(#[trigger] text[j], true) by {
        assert(p(text[j], true));
    }
}

/// What `take_while` does under a test it does under every wider test.
pub proof fn lemma_take_while_wider<'a>(
    p: CharRel,
    q: CharRel,
    input: Input<'a>,
    res: IResultLookahead<'a, Input<'a>>,
)
    requires
        take_while_rel(p)(input, res),
        forall|c: char, b: bool| #[trigger] p(c, b) ==> q(c, b),
    ensures
        take_while_rel(q)(input, res),
{
    let k = choose|k: int| #[trigger] run_of(p, input.text(), k) && res == read_chars(input, k);
    lemma_run_wider(p, q, input.text(), k, None);
    assert(run_of(q, input.text(), k));
}

/// What `take_while1` does under a test it does under every wider test.
pub proof fn lemma_take_while1_wider<'a>(
    p: CharRel,
    q: CharRel,
    expectation: Expectation,
    input: Input<'a>,
    res: IResultLookahead<'a, Input<'a>>,
)
    requires
        take_while1_rel(p, expectation)(input, res),
        forall|c: char, b: bool| #[trigger] p(c, b) ==> q(c, b),
    ensures
        take_while1_rel(q, expectation)(input, res),
{
    let k = choose|k: int| #[trigger]
        run_of(p, input.text(), k) && res == (if k == 0 {
            base_failure(input.take_chars(0), expectation)
        } else {
            read_chars(input, k)
        });
    lemma_run_wider(p, q, input.text(), k, None);
    assert(run_of(q, input.text(), k));
}

/// What `take_while_m_n` does under a test it does under every wider test.
pub proof fn lemma_take_while_m_n_wider<'a>(
    m: usize,
    n: usize,
    p: CharRel,
    q: CharRel,
    expectation: Expectation,
    input: Input<'a>,
    res: IResultLookahead<'a, Input<'a>>,
)
    requires
        take_while_m_n_rel(m, n, p, expectation)(input, res),
        forall|c: char, b: bool| #[trigger] p(c, b) ==> q(c, b),
    ensures
        take_while_m_n_rel(m, n, q, expectation)(input, res),
{
    let k = choose|k: int| #[trigger]
        bounded_run(p, input.text(), k, Some(n)) && res == (if byte_len(input.text().take(k))
            < m {
            base_failure(
                input.take_chars(k).advance(byte_len(input.text().take(k)) as int),
                expectation,
            )
        } else {
            read_chars(input, k)
        });
    lemma_run_wider(p, q, input.text(), k, Some(n));
    assert(bounded_run(q, input.text(), k, Some(n)));
}

/// What `take1_if` does under a test it does under every wider test.
pub proof fn lemma_take1_if_wider<'a>(
    p: CharRel,
    q: CharRel,
    expectation: Expectation,
    input: Input<'a>,
    res: IResultLookahead<'a, Input<'a>>,
)
    requires
        take1_if_rel(p, expectation)(input, res),
        forall|c: char, b: bool| #[trigger] p(c, b) ==> q(c, b),
    ensures
        take1_if_rel(q, expectation)(input, res),
{
    if input.text().len() > 0 {
        let b = choose|b: bool| #[trigger]
            p(input.text()[0], b) && res == (if b {
                read_chars(input, 1)
            } else {
                base_failure(input, expectation)
            });
        assert(q(input.text()[0], b));
    }
}

/// Steps over the characters at the start of `input` that `condition`
/// accepts, `limit` of them at most, and gives the cursor behind them and
/// their number.
pub(crate) fn read_while<'a, F: Fn(char) -> bool>(
    condition: &F,
    input: Input<'a>,
    limit: Option<usize>,
) -> (res: (Input<'a>, usize, Ghost<int>))
    requires
        input.wf(),
        forall|c: char| call_requires(*condition, (c,)),
    ensures
        bounded_run(fn_ens(condition), input.text(), res.2@, limit),
        res.0 == input.skip_chars(res.2@),
        res.0.is_rest_of(input),
        input.boundary(byte_len(input.text().take(res.2@)) as int),
        input.take_chars(res.2@).wf(),
        res.0.offset - input.offset == byte_len(input.text().take(res.2@)),
        limit is Some ==> res.1 == res.2@,
{
    let mut cur = input;
    let ghost mut k: int = 0;
    let mut count: usize = 0;
    proof {
        input.lemma_skip_chars(0);
        assert(input.text().take(0) =~= Seq::<char>::empty());
        assert(input.text().skip(0) =~= input.text());
    }
    loop
        invariant
            input.wf(),
            forall|c: char| call_requires(*condition, (c,)),
            0 <= k <= input.text().len(),
            limit matches Some(n) ==> count == k && k <= n,
            cur == input.skip_chars(k),
            cur.is_rest_of(input),
            cur.text() == input.text().skip(k),
            forall|j: int| 0 <= j < k ==> fn_ens(condition)(#[trigger] input.text()[j], true),
        decreases input.text().len() - k,
    {
        proof {
            input.lemma_skip_chars(k);
        }
        let at_limit = match limit {
            Some(n) => count >= n,
            None => false,
        };
        if at_limit {
            return (cur, count, Ghost(k));
        }
        match cur.first_char() {
            None => {
                return (cur, count, Ghost(k));
            },
            Some(c) => {
                let accepted = condition(c);
                assert(cur.text()[0] == input.text()[k]);
                assert(fn_ens(condition)(input.text()[k], accepted));
                if !accepted {
                    return (cur, count, Ghost(k));
                }
                proof {
                    cur.lemma_first_char();
                    cur.lemma_skip_chars(1);
                    lemma_take_step(input.text(), k);
                    input.lemma_skip_chars(k + 1);
                }
                cur = cur.skip(len_utf8(c));
                if limit.is_some() {
                    count = count + 1;
                }
                proof {
                    k = k + 1;
                }
            },
        }
    }
}

/// Reads the longest run of characters at the start that `condition`
/// accepts.
pub fn take_while<'a, F: Fn(char) -> bool>(condition: F, input: Input<'a>) -> (res:
    IResultLookahead<'a, Input<'a>>)
    requires
        input.wf(),
        forall|c: char| call_requires(condition, (c,)),
    ensures
        take_while_rel(fn_ens(&condition))(input, res),
        sound(input, res),
        res matches Ok(ok) && ok.parsed.wf() && ok.discarded_error is None,
{
    let (cur, _, Ghost(k)) = read_while(&condition, input, None);
    let read = input.slice(0, input.offset_to(&cur));
    assert(run_of(fn_ens(&condition), input.text(), k));
    Ok(IOk { remaining: cur, parsed: read, discarded_error: None })
}

/// Reads the longest run of characters at the start that `condition`
/// accepts, and fails with `expectation` where there is none.
pub fn take_while1<'a, F: Fn(char) -> bool>(
    condition: F,
    expectation: Expectation,
    input: Input<'a>,
) -> (res: IResultLookahead<'a, Input<'a>>)
    requires
        input.wf(),
        forall|c: char| call_requires(condition, (c,)),
    ensures
        take_while1_rel(fn_ens(&condition), expectation)(input, res),
        sound(input, res),
        advancing(input, res),
        res matches Ok(ok) ==> ok.parsed.wf() && ok.discarded_error is None,
{
    let (cur, _, Ghost(k)) = read_while(&condition, input, None);
    let read = input.slice(0, input.offset_to(&cur));
    assert(run_of(fn_ens(&condition), input.text(), k));
    proof {
        if k == 0 {
            assert(input.text().take(0) =~= Seq::<char>::empty());
        } else {
            assert(input.text().take(k).len() > 0);
            input.take_chars(k).lemma_empty();
            input.lemma_skip_chars(k);
        }
    }
    if read.is_empty() {
        Err(InputParseErr::fatal(ErrorTree::expected(read, expectation)))
    } else {
        Ok(IOk { remaining: cur, parsed: read, discarded_error: None })
    }
}

/// Reads the longest run of characters at the start that `condition`
/// accepts, `n` of them at most, and fails with `expectation` where the run
/// has fewer than `m` bytes.
pub fn take_while_m_n<'a, F: Fn(char) -> bool>(
    m: usize,
    n: usize,
    condition: F,
    expectation: Expectation,
    input: Input<'a>,
) -> (res: IResultLookahead<'a, Input<'a>>)
    requires
        m <= n,
        input.wf(),
        forall|c: char| call_requires(condition, (c,)),
    ensures
        take_while_m_n_rel(m, n, fn_ens(&condition), expectation)(input, res),
        sound(input, res),
        res matches Ok(ok) ==> ok.parsed.wf() && ok.discarded_error is None,
{
    let (cur, _, Ghost(k)) = read_while(&condition, input, Some(n));
    let read = input.slice(0, input.offset_to(&cur));
    if read.len() < m {
        proof {
            read.lemma_raw_valid();
            vstd::utf8::is_char_boundary_start_end_of_seq(read.raw());
        }
        Err(InputParseErr::fatal(ErrorTree::expected(read.skip(read.len()), expectation)))
    } else {
        Ok(IOk { remaining: cur, parsed: read, discarded_error: None })
    }
}

/// Reads one character that `condition` accepts, and fails with
/// `expectation` where there is none.
pub fn take1_if<'a, F: Fn(char) -> bool>(condition: F, expectation: Expectation, input: Input<'a>)
    -> (res: IResultLookahead<'a, Input<'a>>)
    requires
        input.wf(),
        forall|c: char| call_requires(condition, (c,)),
    ensures
        take1_if_rel(fn_ens(&condition), expectation)(input, res),
        sound(input, res),
        advancing(input, res),
        res matches Ok(ok) ==> ok.parsed.wf() && ok.discarded_error is None,
{
    match input.first_char() {
        Some(c) => {
            let accepted = condition(c);
            assert(fn_ens(&condition)(input.text()[0], accepted));
            if accepted {
                proof {
                    input.lemma_first_char();
                    input.lemma_skip_chars(1);
                }
                let (rest, read) = input.take_split(len_utf8(c));
                Ok(IOk { remaining: rest, parsed: read, discarded_error: None })
            } else {
                Err(InputParseErr::fatal(ErrorTree::expected(input, expectation)))
            }
        },
        None => Err(InputParseErr::fatal(ErrorTree::expected(input, expectation))),
    }
}

/// Runs `f` again and again until it fails recoverably, and gives the values
/// in order. `f` has to read something whenever it succeeds.
pub fn many0<'a, O, F>(f: F, input: Input<'a>) -> (res: IResultLookahead<'a, Vec<O>>) where
    F: Fn(Input<'a>) -> IResultLookahead<'a, O>,

    requires
        input.wf(),
        parser_on(&f, input),
        consuming_on(&f, input),
    ensures
        many0_rel(ens(&f))(input, res),
        sound(input, res),
{
    let mut i = input;
    let mut acc: Vec<O> = Vec::new();
    loop
        invariant
            input.wf(),
            parser_on(&f, input),
            consuming_on(&f, input),
            i.is_rest_of(input),
            forall|res: IResultLookahead<'a, Vec<O>>|
                many0_steps(ens(&f), i, acc@, res) ==> many0_steps(
                    ens(&f),
                    input,
                    Seq::<O>::empty(),
                    res,
                ),
        decreases i.size(),
    {
        let r = f(i);
        let ghost g = r;
        let ghost before = i;
        let ghost had = acc@;
        assert(ens(&f)(i, g));
        match r {
            Err(InputParseErr::Recoverable(e)) => {
                let res = Ok(IOk { remaining: i, parsed: acc, discarded_error: Some(e) });
                assert(many0_steps(ens(&f), i, had, res));
                return res;
            },
            Err(InputParseErr::Fatal(e)) => {
                let res = Err(InputParseErr::Fatal(e));
                assert(many0_steps(ens(&f), i, had, res));
                return res;
            },
            Ok(ok) => {
                // every step has to read something, so that the loop ends
                i = ok.remaining;
                acc.push(ok.parsed);
                assert forall|res: IResultLookahead<'a, Vec<O>>|
                    many0_steps(ens(&f), i, acc@, res) implies many0_steps(
                    ens(&f),
                    input,
                    Seq::<O>::empty(),
                    res,
                ) by {
                    assert(ens(&f)(before, g));
                    assert(many0_steps(ens(&f), before, had, res));
                }
            },
        }
    }
}

/// Runs `f` again and again until it fails recoverably, and folds the values
/// with `g`, starting from what `init` gives. `f` has to read something
/// whenever it succeeds.
pub fn fold_many0<'a, O, R, F, G, H>(f: F, init: H, g: G, input: Input<'a>) -> (res:
    IResultLookahead<'a, R>) where
    F: Fn(Input<'a>) -> IResultLookahead<'a, O>,
    G: Fn(R, O) -> R,
    H: Fn() -> R,

    requires
        input.wf(),
        parser_on(&f, input),
        consuming_on(&f, input),
        call_requires(init, ()),
        forall|acc: R, o: O| call_requires(g, (acc, o)),
    ensures
        fold_many0_rel(ens(&f), init_ens(&init), fold_ens(&g))(input, res),
        sound(input, res),
{
    let mut acc = init();
    let ghost first = acc;
    assert(init_ens(&init)((), first));
    let mut i = input;
    loop
        invariant
            input.wf(),
            parser_on(&f, input),
            consuming_on(&f, input),
            forall|acc: R, o: O| call_requires(g, (acc, o)),
            init_ens(&init)((), first),
            i.is_rest_of(input),
            forall|res: IResultLookahead<'a, R>|
                fold_steps(ens(&f), fold_ens(&g), i, acc, res) ==> fold_steps(
                    ens(&f),
                    fold_ens(&g),
                    input,
                    first,
                    res,
                ),
        decreases i.size(),
    {
        let r = f(i);
        let ghost got = r;
        let ghost before = i;
        let ghost had = acc;
        assert(ens(&f)(i, got));
        match r {
            Ok(ok) => {
                // every step has to read something, so that the loop ends
                let ghost value = ok.parsed;
                acc = g(acc, ok.parsed);
                i = ok.remaining;
                assert forall|res: IResultLookahead<'a, R>|
                    fold_steps(ens(&f), fold_ens(&g), i, acc, res) implies fold_steps(
                    ens(&f),
                    fold_ens(&g),
                    input,
                    first,
                    res,
                ) by {
                    assert(ens(&f)(before, got));
                    assert(fold_ens(&g)((had, value), acc));
                    assert(fold_steps(ens(&f), fold_ens(&g), before, had, res));
                }
            },
            Err(InputParseErr::Recoverable(e)) => {
                let res = Ok(IOk { remaining: i, parsed: acc, discarded_error: Some(e) });
                assert(fold_steps(ens(&f), fold_ens(&g), i, had, res));
                return res;
            },
            Err(InputParseErr::Fatal(e)) => {
                let res = Err(InputParseErr::Fatal(e));
                assert(fold_steps(ens(&f), fold_ens(&g), i, had, res));
                return res;
            },
        }
    }
}

/// Reads characters up to the first place where `parser` succeeds, and what
/// `parser` reads there. Its value is what stands before that place.
pub fn take_until<'a, O, F>(parser: F, input: Input<'a>) -> (res: IResultLookahead<'a, Input<'a>>)
    where F: Fn(Input<'a>) -> IResultLookahead<'a, O>
    requires
        input.wf(),
        parser_on(&parser, input),
    ensures
        take_until_rel(ens(&parser))(input, res),
        sound(input, res),
        res matches Ok(ok) ==> ok.parsed.wf(),
{
    let mut cur = input;
    let ghost mut k: int = 0;
    proof {
        input.lemma_skip_chars(0);
        assert(input.text().take(0) =~= Seq::<char>::empty());
        assert(input.text().skip(0) =~= input.text());
    }
    loop
        invariant
            input.wf(),
            parser_on(&parser, input),
            0 <= k <= input.text().len(),
            cur == input.skip_chars(k),
            cur.is_rest_of(input),
            cur.text() == input.text().skip(k),
            forall|res: IResultLookahead<'a, Input<'a>>|
                until_steps(ens(&parser), input, k, res) ==> until_steps(
                    ens(&parser),
                    input,
                    0,
                    res,
                ),
        decreases input.text().len() - k,
    {
        proof {
            input.lemma_skip_chars(k);
        }
        let r = parser(cur);
        let ghost got = r;
        assert(ens(&parser)(input.skip_chars(k), got));
        match r {
            Ok(ok) => {
                let read = input.slice(0, input.offset_to(&cur));
                let res = Ok(
                    IOk {
                        remaining: ok.remaining,
                        parsed: read,
                        discarded_error: ok.discarded_error,
                    },
                );
                assert(until_steps(ens(&parser), input, k, res));
                return res;
            },
            Err(InputParseErr::Fatal(e)) => {
                let res = Err(InputParseErr::Fatal(e));
                assert(until_steps(ens(&parser), input, k, res));
                return res;
            },
            Err(InputParseErr::Recoverable(e)) => {
                match cur.first_char() {
                    None => {
                        let res = Err(InputParseErr::Recoverable(e));
                        assert(until_steps(ens(&parser), input, k, res));
                        return res;
                    },
                    Some(c) => {
                        proof {
                            cur.lemma_first_char();
                            cur.lemma_skip_chars(1);
                            lemma_take_step(input.text(), k);
                            input.lemma_skip_chars(k + 1);
                        }
                        cur = cur.skip(len_utf8(c));
                        proof {
                            assert forall|res: IResultLookahead<'a, Input<'a>>|
                                until_steps(
                                    ens(&parser),
                                    input,
                                    k + 1,
                                    res,
                                ) implies until_steps(ens(&parser), input, 0, res) by {
                                assert(ens(&parser)(input.skip_chars(k), got));
                                assert(until_steps(ens(&parser), input, k, res));
                            }
                            k = k + 1;
                        }
                    },
                }
            },
        }
    }
}

/// Runs `a` and gives its value with the places where `a` started and
/// ended.
pub open spec fn span_rel<'a, A>(a: Rel<'a, A>) -> Rel<'a, Spanned<'a, A>> {
    |input: Input<'a>, res: IResultLookahead<'a, Spanned<'a, A>>|
        exists|r1: IResultLookahead<'a, A>| #[trigger]
            a(input, r1) && match r1 {
                Err(e) => failed(res, e),
                Ok(ok) => res == Ok::<IOk<'a, Spanned<'a, A>>, InputParseErr<'a>>(
                    IOk {
                        remaining: ok.remaining,
                        parsed: Spanned {
                            start: input.prefix(0),
                            value: ok.parsed,
                            end: ok.remaining.prefix(0),
                        },
                        discarded_error: ok.discarded_error,
                    },
                ),
            }
}

/// Runs `a` between blanks and comments, which are read and dropped.
pub open spec fn ws_rel<'a, A>(a: Rel<'a, A>) -> Rel<'a, A> {
    delimited_rel(multispacews0_rel(), a, multispacews0_rel())
}

/// Runs `a` between blanks and comments, and gives its value with the
/// places where `a` itself started and ended.
pub open spec fn spanned_rel<'a, A>(a: Rel<'a, A>) -> Rel<'a, Spanned<'a, A>> {
    ws_rel(span_rel(a))
}

/// The failure of a block whose end tag is missing: what the inner parser
/// had set aside, as a recoverable failure, or else the failure `e` of the
/// end tag.
pub open spec fn unclosed<'a>(set_aside: Option<InputParseError<'a>>, e: InputParseErr<'a>)
    -> InputParseErr<'a> {
    match set_aside {
        Some(d) => InputParseErr::Recoverable(d),
        None => e,
    }
}

/// Reads `start_tag`, runs `a`, reads `end_tag`, and gives the value of `a`.
/// Without the start tag the failure is recoverable. Where the end tag is
/// missing, the failure that `a` had set aside says why `a` stopped, and it
/// is the result; on success it is dropped.
pub open spec fn block_rel<'a, A>(start_tag: char, a: Rel<'a, A>, end_tag: char) -> Rel<'a, A> {
    |input: Input<'a>, res: IResultLookahead<'a, A>|
        exists|r: IResultLookahead<'a, A>| #[trigger]
            preceded_rel(lookahead_rel(one_char_rel(start_tag)), a)(input, r) && match r {
                Err(e) => failed(res, e),
                Ok(ok) => match one_char_result(end_tag, ok.remaining) {
                    Ok(ok_end) => res == Ok::<IOk<'a, A>, InputParseErr<'a>>(
                        IOk {
                            remaining: ok_end.remaining,
                            parsed: ok.parsed,
                            discarded_error: None,
                        },
                    ),
                    Err(e) => failed(res, unclosed(ok.discarded_error, e)),
                },
            }
}

/// The elements of a list: those that `many0` read, and the last one.
pub open spec fn with_last<O>(p: (Vec<O>, Option<O>), out: Vec<O>) -> bool {
    out@ == p.0@ + (match p.1 {
        Some(x) => seq![x],
        None => Seq::<O>::empty(),
    })
}

/// The elements of a list: the first one, and the others if there are any.
pub open spec fn with_first<O>(p: (O, Option<Vec<O>>), out: Vec<O>) -> bool {
    out@ == seq![p.0] + (match p.1 {
        Some(t) => t@,
        None => Seq::<O>::empty(),
    })
}

/// Reads elements that `a` reads, each between blanks and each followed by a
/// comma, as many as there are; then one more element without a comma, if
/// one is there. The value holds all elements in order.
pub open spec fn comma_list0_rel<'a, O>(a: Rel<'a, O>) -> Rel<'a, Vec<Spanned<'a, O>>> {
    map_rel(
        pair_rel(
            many0_rel(terminated_rel(spanned_rel(a), lookahead_rel(one_char_rel(',')))),
            opt_rel(spanned_rel(a)),
        ),
        |p: (Vec<Spanned<'a, O>>, Option<Spanned<'a, O>>), out: Vec<Spanned<'a, O>>|
            with_last(p, out),
    )
}

/// Reads one element that `a` reads, and after a comma the elements that
/// `comma_list0` reads.
pub open spec fn comma_list1_rel<'a, O>(a: Rel<'a, O>) -> Rel<'a, Vec<Spanned<'a, O>>> {
    map_rel(
        pair_rel(
            spanned_rel(a),
            opt_rel(preceded_rel(lookahead_rel(one_char_rel(',')), comma_list0_rel(a))),
        ),
        |p: (Spanned<'a, O>, Option<Vec<Spanned<'a, O>>>), out: Vec<Spanned<'a, O>>|
            with_first(p, out),
    )
}

/// `b` allows every result that `a` allows.
pub open spec fn wider<'a, O>(a: Rel<'a, O>, b: Rel<'a, O>) -> bool {
    forall|c: Input<'a>, r: IResultLookahead<'a, O>| #[trigger] a(c, r) ==> b(c, r)
}

/// What `pair` does with two parsers it does with wider ones.
pub proof fn lemma_pair_wider<'a, A, B>(
    a: Rel<'a, A>,
    a2: Rel<'a, A>,
    b: Rel<'a, B>,
    b2: Rel<'a, B>,
    input: Input<'a>,
    res: IResultLookahead<'a, (A, B)>,
)
    requires
        pair_rel(a, b)(input, res),
        wider(a, a2),
        wider(b, b2),
    ensures
        pair_rel(a2, b2)(input, res),
{
}

/// What `preceded` does with two parsers it does with wider ones.
pub proof fn lemma_preceded_wider<'a, A, B>(
    a: Rel<'a, A>,
    a2: Rel<'a, A>,
    b: Rel<'a, B>,
    b2: Rel<'a, B>,
    input: Input<'a>,
    res: IResultLookahead<'a, B>,
)
    requires
        preceded_rel(a, b)(input, res),
        wider(a, a2),
        wider(b, b2),
    ensures
        preceded_rel(a2, b2)(input, res),
{
}

/// What `terminated` does with two parsers it does with wider ones.
pub proof fn lemma_terminated_wider<'a, A, B>(
    a: Rel<'a, A>,
    a2: Rel<'a, A>,
    b: Rel<'a, B>,
    b2: Rel<'a, B>,
    input: Input<'a>,
    res: IResultLookahead<'a, A>,
)
    requires
        terminated_rel(a, b)(input, res),
        wider(a, a2),
        wider(b, b2),
    ensures
        terminated_rel(a2, b2)(input, res),
{
}

/// What `delimited` does with three parsers it does with wider ones.
pub proof fn lemma_delimited_wider<'a, A, B, C>(
    a: Rel<'a, A>,
    a2: Rel<'a, A>,
    b: Rel<'a, B>,
    b2: Rel<'a, B>,
    c: Rel<'a, C>,
    c2: Rel<'a, C>,
    input: Input<'a>,
    res: IResultLookahead<'a, B>,
)
    requires
        delimited_rel(a, b, c)(input, res),
        wider(a, a2),
        wider(b, b2),
        wider(c, c2),
    ensures
        delimited_rel(a2, b2, c2)(input, res),
{
    assert(wider(preceded_rel(a, b), preceded_rel(a2, b2))) by {
        assert forall|i: Input<'a>, r: IResultLookahead<'a, B>| #[trigger]
            preceded_rel(a, b)(i, r) implies preceded_rel(a2, b2)(i, r) by {
            lemma_preceded_wider(a, a2, b, b2, i, r);
        }
    }
    lemma_terminated_wider(preceded_rel(a, b), preceded_rel(a2, b2), c, c2, input, res);
}

/// What `lookahead` does with a parser it does with a wider one.
pub proof fn lemma_lookahead_wider<'a, A>(
    a: Rel<'a, A>,
    a2: Rel<'a, A>,
    input: Input<'a>,
    res: IResultLookahead<'a, A>,
)
    requires
        lookahead_rel(a)(input, res),
        wider(a, a2),
    ensures
        lookahead_rel(a2)(input, res),
{
}

/// What `opt` does with a parser it does with a wider one.
pub proof fn lemma_opt_wider<'a, A>(
    a: Rel<'a, A>,
    a2: Rel<'a, A>,
    input: Input<'a>,
    res: IResultLookahead<'a, Option<A>>,
)
    requires
        opt_rel(a)(input, res),
        wider(a, a2),
    ensures
        opt_rel(a2)(input, res),
{
}

/// What `many0` does with a parser it does with a wider one.
pub proof fn lemma_many0_rel_wider<'a, A>(
    a: Rel<'a, A>,
    a2: Rel<'a, A>,
    input: Input<'a>,
    res: IResultLookahead<'a, Vec<A>>,
)
    requires
        many0_rel(a)(input, res),
        wider(a, a2),
    ensures
        many0_rel(a2)(input, res),
{
    lemma_many0_wider(a, a2, input, Seq::<A>::empty(), res);
}

/// What `fold_many0` does with a parser and two functions it does with
/// wider ones.
pub proof fn lemma_fold_many0_rel_wider<'a, O, R>(
    a: Rel<'a, O>,
    a2: Rel<'a, O>,
    init: spec_fn((), R) -> bool,
    init2: spec_fn((), R) -> bool,
    g: spec_fn((R, O), R) -> bool,
    g2: spec_fn((R, O), R) -> bool,
    input: Input<'a>,
    res: IResultLookahead<'a, R>,
)
    requires
        fold_many0_rel(a, init, g)(input, res),
        wider(a, a2),
        forall|u: (), r: R| #[trigger] init(u, r) ==> init2(u, r),
        forall|x: (R, O), y: R| #[trigger] g(x, y) ==> g2(x, y),
    ensures
        fold_many0_rel(a2, init2, g2)(input, res),
{
    let first = choose|first: R| #[trigger] init((), first) && fold_steps(a, g, input, first, res);
    assert(init2((), first));
    lemma_fold_wider(a, a2, g, g2, input, first, res);
}

/// What noting the span does with a parser it does with a wider one.
pub proof fn lemma_span_wider<'a, A>(
    a: Rel<'a, A>,
    a2: Rel<'a, A>,
    input: Input<'a>,
    res: IResultLookahead<'a, Spanned<'a, A>>,
)
    requires
        span_rel(a)(input, res),
        wider(a, a2),
    ensures
        span_rel(a2)(input, res),
{
}

/// What `ws` does with a parser it does with a wider one.
pub proof fn lemma_ws_wider<'a, A>(
    a: Rel<'a, A>,
    a2: Rel<'a, A>,
    input: Input<'a>,
    res: IResultLookahead<'a, A>,
)
    requires
        ws_rel(a)(input, res),
        wider(a, a2),
    ensures
        ws_rel(a2)(input, res),
{
    lemma_delimited_wider(
        multispacews0_rel(),
        multispacews0_rel(),
        a,
        a2,
        multispacews0_rel(),
        multispacews0_rel(),
        input,
        res,
    );
}

/// What `spanned` does with a parser it does with a wider one.
pub proof fn lemma_spanned_wider<'a, A>(
    a: Rel<'a, A>,
    a2: Rel<'a, A>,
    input: Input<'a>,
    res: IResultLookahead<'a, Spanned<'a, A>>,
)
    requires
        spanned_rel(a)(input, res),
        wider(a, a2),
    ensures
        spanned_rel(a2)(input, res),
{
    assert(wider(span_rel(a), span_rel(a2))) by {
        assert forall|i: Input<'a>, r: IResultLookahead<'a, Spanned<'a, A>>| #[trigger]
            span_rel(a)(i, r) implies span_rel(a2)(i, r) by {
            lemma_span_wider(a, a2, i, r);
        }
    }
    lemma_ws_wider(span_rel(a), span_rel(a2), input, res);
}

/// What `block` does with a parser it does with a wider one.
pub proof fn lemma_block_wider<'a, A>(
    start_tag: char,
    a: Rel<'a, A>,
    a2: Rel<'a, A>,
    end_tag: char,
    input: Input<'a>,
    res: IResultLookahead<'a, A>,
)
    requires
        block_rel(start_tag, a, end_tag)(input, res),
        wider(a, a2),
    ensures
        block_rel(start_tag, a2, end_tag)(input, res),
{
    let start = lookahead_rel(one_char_rel(start_tag));
    assert forall|i: Input<'a>, r: IResultLookahead<'a, A>| #[trigger]
        preceded_rel(start, a)(i, r) implies preceded_rel(start, a2)(i, r) by {
        lemma_preceded_wider(start, start, a, a2, i, r);
    }
    let r = choose|r: IResultLookahead<'a, A>| #[trigger]
        preceded_rel(lookahead_rel(one_char_rel(start_tag)), a)(input, r) && match r {
            Err(e) => failed(res, e),
            Ok(ok) => match one_char_result(end_tag, ok.remaining) {
                Ok(ok_end) => res == Ok::<IOk<'a, A>, InputParseErr<'a>>(
                    IOk { remaining: ok_end.remaining, parsed: ok.parsed, discarded_error: None },
                ),
                Err(e) => failed(res, unclosed(ok.discarded_error, e)),
            },
        };
    assert(preceded_rel(lookahead_rel(one_char_rel(start_tag)), a2)(input, r));
}

/// What `comma_list0` does with a parser it does with a wider one.
pub proof fn lemma_comma_list0_wider<'a, A>(
    a: Rel<'a, A>,
    a2: Rel<'a, A>,
    input: Input<'a>,
    res: IResultLookahead<'a, Vec<Spanned<'a, A>>>,
)
    requires
        comma_list0_rel(a)(input, res),
        wider(a, a2),
    ensures
        comma_list0_rel(a2)(input, res),
{
    let comma = lookahead_rel(one_char_rel(','));
    assert(wider(spanned_rel(a), spanned_rel(a2))) by {
        assert forall|i: Input<'a>, r: IResultLookahead<'a, Spanned<'a, A>>| #[trigger]
            spanned_rel(a)(i, r) implies spanned_rel(a2)(i, r) by {
            lemma_spanned_wider(a, a2, i, r);
        }
    }
    assert(wider(terminated_rel(spanned_rel(a), comma), terminated_rel(spanned_rel(a2), comma)))
        by {
        assert forall|i: Input<'a>, r: IResultLookahead<'a, Spanned<'a, A>>| #[trigger]
            terminated_rel(spanned_rel(a), comma)(i, r) implies terminated_rel(
            spanned_rel(a2),
            comma,
        )(i, r) by {
            lemma_terminated_wider(spanned_rel(a), spanned_rel(a2), comma, comma, i, r);
        }
    }
    let many = many0_rel(terminated_rel(spanned_rel(a), comma));
    let many2 = many0_rel(terminated_rel(spanned_rel(a2), comma));
    assert(wider(many, many2)) by {
        assert forall|i: Input<'a>, r: IResultLookahead<'a, Vec<Spanned<'a, A>>>| #[trigger]
            many(i, r) implies many2(i, r) by {
            lemma_many0_rel_wider(
                terminated_rel(spanned_rel(a), comma),
                terminated_rel(spanned_rel(a2), comma),
                i,
                r,
            );
        }
    }
    assert(wider(opt_rel(spanned_rel(a)), opt_rel(spanned_rel(a2)))) by {
        assert forall|i: Input<'a>, r: IResultLookahead<'a, Option<Spanned<'a, A>>>| #[trigger]
            opt_rel(spanned_rel(a))(i, r) implies opt_rel(spanned_rel(a2))(i, r) by {
            lemma_opt_wider(spanned_rel(a), spanned_rel(a2), i, r);
        }
    }
    let both = pair_rel(many, opt_rel(spanned_rel(a)));
    let both2 = pair_rel(many2, opt_rel(spanned_rel(a2)));
    assert(wider(both, both2)) by {
        assert forall|
            i: Input<'a>,
            r: IResultLookahead<'a, (Vec<Spanned<'a, A>>, Option<Spanned<'a, A>>)>,
        | #[trigger] both(i, r) implies both2(i, r) by {
            lemma_pair_wider(many, many2, opt_rel(spanned_rel(a)), opt_rel(spanned_rel(a2)), i, r);
        }
    }
}

/// What `comma_list1` does with a parser it does with a wider one.
pub proof fn lemma_comma_list1_wider<'a, A>(
    a: Rel<'a, A>,
    a2: Rel<'a, A>,
    input: Input<'a>,
    res: IResultLookahead<'a, Vec<Spanned<'a, A>>>,
)
    requires
        comma_list1_rel(a)(input, res),
        wider(a, a2),
    ensures
        comma_list1_rel(a2)(input, res),
{
    let comma = lookahead_rel(one_char_rel(','));
    assert(wider(spanned_rel(a), spanned_rel(a2))) by {
        assert forall|i: Input<'a>, r: IResultLookahead<'a, Spanned<'a, A>>| #[trigger]
            spanned_rel(a)(i, r) implies spanned_rel(a2)(i, r) by {
            lemma_spanned_wider(a, a2, i, r);
        }
    }
    assert(wider(comma_list0_rel(a), comma_list0_rel(a2))) by {
        assert forall|i: Input<'a>, r: IResultLookahead<'a, Vec<Spanned<'a, A>>>| #[trigger]
            comma_list0_rel(a)(i, r) implies comma_list0_rel(a2)(i, r) by {
            lemma_comma_list0_wider(a, a2, i, r);
        }
    }
    let others = preceded_rel(comma, comma_list0_rel(a));
    let others2 = preceded_rel(comma, comma_list0_rel(a2));
    assert(wider(others, others2)) by {
        assert forall|i: Input<'a>, r: IResultLookahead<'a, Vec<Spanned<'a, A>>>| #[trigger]
            others(i, r) implies others2(i, r) by {
            lemma_preceded_wider(comma, comma, comma_list0_rel(a), comma_list0_rel(a2), i, r);
        }
    }
    assert(wider(opt_rel(others), opt_rel(others2))) by {
        assert forall|i: Input<'a>, r: IResultLookahead<'a, Option<Vec<Spanned<'a, A>>>>|
         #[trigger]
            opt_rel(others)(i, r) implies opt_rel(others2)(i, r) by {
            lemma_opt_wider(others, others2, i, r);
        }
    }
    let both = pair_rel(spanned_rel(a), opt_rel(others));
    let both2 = pair_rel(spanned_rel(a2), opt_rel(others2));
    assert(wider(both, both2)) by {
        assert forall|
            i: Input<'a>,
            r: IResultLookahead<'a, (Spanned<'a, A>, Option<Vec<Spanned<'a, A>>>)>,
        | #[trigger] both(i, r) implies both2(i, r) by {
            lemma_pair_wider(spanned_rel(a), spanned_rel(a2), opt_rel(others), opt_rel(others2), i, r);
        }
    }
}

/// Runs `inner` and notes where it started and ended.
fn span<'a, O, F>(inner: F, input: Input<'a>) -> (res: IResultLookahead<'a, Spanned<'a, O>>) where
    F: Fn(Input<'a>) -> IResultLookahead<'a, O>,

    requires
        input.wf(),
        runs_on(&inner, input),
    ensures
        span_rel(ens(&inner))(input, res),
        sound(input, res),
        (forall|r: IResultLookahead<'a, O>| #[trigger]
            call_ensures(inner, (input,), r) ==> advancing(input, r)) ==> advancing(input, res),
{
    let (_, start) = input.take_split(0);
    let r1 = inner(input);
    let ghost g1 = r1;
    assert(ens(&inner)(input, g1));
    match r1 {
        Err(e) => Err(e),
        Ok(ok) => {
            let (_, end) = ok.remaining.take_split(0);
            Ok(
                IOk {
                    remaining: ok.remaining,
                    parsed: Spanned { start, value: ok.parsed, end },
                    discarded_error: ok.discarded_error,
                },
            )
        },
    }
}

/// Runs `inner` between blanks and comments, which are read and dropped.
pub fn ws<'a, O, F>(inner: F, input: Input<'a>) -> (res: IResultLookahead<'a, O>) where
    F: Fn(Input<'a>) -> IResultLookahead<'a, O>,

    requires
        input.wf(),
        parser_on(&inner, input),
    ensures
        ws_rel(ens(&inner))(input, res),
        sound(input, res),
        consuming_on(&inner, input) ==> advancing(input, res),
{
    let lead = |c: Input<'a>| -> (r: IResultLookahead<'a, O>)
        requires
            c == input,
        ensures
            preceded_rel(multispacews0_rel(), ens(&inner))(c, r),
            sound(c, r),
            consuming_on(&inner, input) ==> advancing(c, r),
        { preceded(multispacews0, &inner, c) };
    terminated(lead, multispacews0, input)
}

/// Runs `inner` between blanks and comments, and gives its value with the
/// places where `inner` itself started and ended.
pub fn spanned<'a, O, F>(inner: F, input: Input<'a>) -> (res: IResultLookahead<'a, Spanned<'a, O>>)
    where F: Fn(Input<'a>) -> IResultLookahead<'a, O>
    requires
        input.wf(),
        parser_on(&inner, input),
    ensures
        spanned_rel(ens(&inner))(input, res),
        sound(input, res),
        consuming_on(&inner, input) ==> advancing(input, res),
{
    let noting = |c: Input<'a>| -> (r: IResultLookahead<'a, Spanned<'a, O>>)
        requires
            c.is_rest_of(input),
        ensures
            span_rel(ens(&inner))(c, r),
            sound(c, r),
            consuming_on(&inner, input) ==> advancing(c, r),
        { span(&inner, c) };
    let res = ws(noting, input);
    proof {
        lemma_ws_wider(ens(&noting), span_rel(ens(&inner)), input, res);
    }
    res
}

/// Like
///
/// ```text
/// delimited(
///     one_char(start_tag),
///     inner,
///     one_char(end_tag),
/// )
/// ```
///
/// but respects the discarded error of `inner` in case of error
/// and forgets it in case of success.
pub fn block<'a, O, F>(start_tag: char, inner: F, end_tag: char, input: Input<'a>) -> (res:
    IResultLookahead<'a, O>) where F: Fn(Input<'a>) -> IResultLookahead<'a, O>
    requires
        input.wf(),
        input.text().len() > 0 && input.text()[0] == start_tag ==> runs_on(
            &inner,
            input.skip_chars(1),
        ),
    ensures
        block_rel(start_tag, ens(&inner), end_tag)(input, res),
        sound(input, res),
        advancing(input, res),
{
    let opening = |c: Input<'a>| -> (r: IResultLookahead<'a, char>)
        requires
            c == input,
        ensures
            lookahead_rel(one_char_rel(start_tag))(c, r),
            sound(c, r),
            advancing(c, r),
            r matches Ok(ok) ==> ok.remaining == c.skip_chars(1) && c.text().len() > 0
                && c.text()[0] == start_tag,
        {
            let first = |d: Input<'a>| -> (r2: IResultLookahead<'a, char>)
                requires
                    d.wf(),
                ensures
                    one_char_rel(start_tag)(d, r2),
                    sound(d, r2),
                    advancing(d, r2),
                { one_char(start_tag, d) };
            lookahead(first, c)
        };
    let r = preceded(opening, inner, input);
    let ghost g = r;
    assert(preceded_rel(lookahead_rel(one_char_rel(start_tag)), ens(&inner))(input, g));
    match r {
        Err(e) => Err(e),
        Ok(ok) => {
            match one_char(end_tag, ok.remaining) {
                Ok(ok_end) => Ok(ok_end.replace(ok.parsed)),
                Err(e) => {
                    match ok.discarded_error {
                        Some(d) => Err(InputParseErr::Recoverable(d)),
                        None => Err(e),
                    }
                },
            }
        },
    }
}

/// Reads elements with commas between them and, if one likes, behind them;
/// there may be none.
///
/// Each element is read once: an element that no comma follows is the last
/// one, and it is not read again.
#[verifier::rlimit(40)]
pub fn comma_list0<'a, O, F>(f: F, input: Input<'a>) -> (res: IResultLookahead<
    'a,
    Vec<Spanned<'a, O>>,
>) where F: Fn(Input<'a>) -> IResultLookahead<'a, O> + Copy
    requires
        input.wf(),
        parser_on(&f, input),
    ensures
        comma_list0_rel(ens(&f))(input, res),
        sound(input, res),
{
    let ghost elem = spanned_rel(ens(&f));
    let ghost comma = lookahead_rel(one_char_rel(','));
    let ghost step = terminated_rel(elem, comma);
    let ghost both = pair_rel(many0_rel(step), opt_rel(elem));
    let mut cur = input;
    let mut acc: Vec<Spanned<'a, O>> = Vec::new();
    loop
        invariant
            input.wf(),
            parser_on(&f, input),
            cur.is_rest_of(input),
            elem == spanned_rel(ens(&f)),
            comma == lookahead_rel(one_char_rel(',')),
            step == terminated_rel(elem, comma),
            both == pair_rel(many0_rel(step), opt_rel(elem)),
            forall|r: IResultLookahead<'a, Vec<Spanned<'a, O>>>|
                many0_steps(step, cur, acc@, r) ==> many0_steps(
                    step,
                    input,
                    Seq::<Spanned<'a, O>>::empty(),
                    r,
                ),
        decreases cur.size(),
    {
        let r1 = spanned(f, cur);
        let ghost g1 = r1;
        let ghost before = cur;
        let ghost had = acc@;
        let ghost many_vec = acc;
        assert(elem(before, g1));
        match r1 {
            Err(InputParseErr::Fatal(e)) => {
                proof {
                    let t: IResultLookahead<'a, Spanned<'a, O>> = Err(InputParseErr::Fatal(e));
                    assert(step(before, t));
                    let many: IResultLookahead<'a, Vec<Spanned<'a, O>>> = Err(
                        InputParseErr::Fatal(e),
                    );
                    assert(many0_steps(step, before, had, many));
                    assert(many0_rel(step)(input, many));
                    let p: IResultLookahead<
                        'a,
                        (Vec<Spanned<'a, O>>, Option<Spanned<'a, O>>),
                    > = Err(InputParseErr::Fatal(e));
                    assert(both(input, p));
                }
                return Err(InputParseErr::Fatal(e));
            },
            Err(InputParseErr::Recoverable(e)) => {
                proof {
                    let t: IResultLookahead<'a, Spanned<'a, O>> = Err(
                        InputParseErr::Recoverable(e),
                    );
                    assert(step(before, t));
                    let many: IResultLookahead<'a, Vec<Spanned<'a, O>>> = Ok(
                        IOk { remaining: before, parsed: many_vec, discarded_error: Some(e) },
                    );
                    assert(many0_steps(step, before, had, many));
                    assert(many0_rel(step)(input, many));
                    let o: IResultLookahead<'a, Option<Spanned<'a, O>>> = Ok(
                        IOk { remaining: before, parsed: None, discarded_error: Some(e) },
                    );
                    assert(opt_rel(elem)(before, o));
                    let p: IResultLookahead<
                        'a,
                        (Vec<Spanned<'a, O>>, Option<Spanned<'a, O>>),
                    > = Ok(
                        IOk {
                            remaining: before,
                            parsed: (many_vec, None),
                            discarded_error: deeper_error(Some(e), Some(e)),
                        },
                    );
                    assert(both(input, p));
                    assert(acc@ =~= many_vec@ + Seq::<Spanned<'a, O>>::empty());
                }
                return Ok(IOk { remaining: cur, parsed: acc, discarded_error: Some(e) });
            },
            Ok(ok1) => {
                let IOk { remaining: rest, parsed: value, discarded_error: aside } = ok1;
                let first = |d: Input<'a>| -> (r4: IResultLookahead<'a, char>)
                    requires
                        d.wf(),
                    ensures
                        one_char_rel(',')(d, r4),
                        sound(d, r4),
                        advancing(d, r4),
                    { one_char(',', d) };
                let r2 = lookahead(first, rest);
                let ghost g2 = r2;
                assert(comma(rest, g2));
                match r2 {
                    Ok(ok2) => {
                        let ghost t: IResultLookahead<'a, Spanned<'a, O>> = Ok(
                            IOk {
                                remaining: ok2.remaining,
                                parsed: value,
                                discarded_error: deeper_error(aside, ok2.discarded_error),
                            },
                        );
                        assert(step(before, t));
                        cur = ok2.remaining;
                        acc.push(value);
                        assert forall|r: IResultLookahead<'a, Vec<Spanned<'a, O>>>|
                            many0_steps(step, cur, acc@, r) implies many0_steps(
                            step,
                            input,
                            Seq::<Spanned<'a, O>>::empty(),
                            r,
                        ) by {
                            assert(step(before, t));
                            assert(many0_steps(step, before, had, r));
                        }
                    },
                    Err(failure) => {
                        let e2 = match failure {
                            InputParseErr::Recoverable(e) => e,
                            InputParseErr::Fatal(e) => e,
                        };
                        proof {
                            let t: IResultLookahead<'a, Spanned<'a, O>> = Err(
                                InputParseErr::Recoverable(e2),
                            );
                            assert(step(before, t));
                            let many: IResultLookahead<'a, Vec<Spanned<'a, O>>> = Ok(
                                IOk {
                                    remaining: before,
                                    parsed: many_vec,
                                    discarded_error: Some(e2),
                                },
                            );
                            assert(many0_steps(step, before, had, many));
                            assert(many0_rel(step)(input, many));
                            let o: IResultLookahead<'a, Option<Spanned<'a, O>>> = Ok(
                                IOk {
                                    remaining: rest,
                                    parsed: Some(value),
                                    discarded_error: aside,
                                },
                            );
                            assert(opt_rel(elem)(before, o));
                            let p: IResultLookahead<
                                'a,
                                (Vec<Spanned<'a, O>>, Option<Spanned<'a, O>>),
                            > = Ok(
                                IOk {
                                    remaining: rest,
                                    parsed: (many_vec, Some(value)),
                                    discarded_error: deeper_error(Some(e2), aside),
                                },
                            );
                            assert(both(input, p));
                        }
                        acc.push(value);
                        proof {
                            assert(acc@ =~= many_vec@ + seq![value]);
                        }
                        let kept = IOk { remaining: rest, parsed: (), discarded_error: aside }
                            .prepend_err(Some(e2));
                        return Ok(
                            IOk {
                                remaining: rest,
                                parsed: acc,
                                discarded_error: kept.discarded_error,
                            },
                        );
                    },
                }
            },
        }
    }
}

/// Reads elements with commas between them, as `comma_list0` does, with a
/// parser whose every failure ends the list.
pub fn comma_list0_lookahead<'a, O, F>(f: F, input: Input<'a>) -> (res: IResultLookahead<
    'a,
    Vec<Spanned<'a, O>>,
>) where F: Fn(Input<'a>) -> IResultLookahead<'a, O> + Copy
    requires
        input.wf(),
        parser_on(&f, input),
    ensures
        comma_list0_rel(lookahead_rel(ens(&f)))(input, res),
        sound(input, res),
{
    let element = |c: Input<'a>| -> (r: IResultLookahead<'a, O>)
        requires
            c.is_rest_of(input),
        ensures
            lookahead_rel(ens(&f))(c, r),
            sound(c, r),
        { lookahead(f, c) };
    let res = comma_list0(element, input);
    proof {
        lemma_comma_list0_wider(ens(&element), lookahead_rel(ens(&f)), input, res);
    }
    res
}

/// Reads elements with commas between them and, if one likes, behind them;
/// there is one at least.
pub fn comma_list1<'a, O, F>(f: F, input: Input<'a>) -> (res: IResultLookahead<
    'a,
    Vec<Spanned<'a, O>>,
>) where F: Fn(Input<'a>) -> IResultLookahead<'a, O> + Copy
    requires
        input.wf(),
        parser_on(&f, input),
    ensures
        comma_list1_rel(ens(&f))(input, res),
        sound(input, res),
{
    let head = |c: Input<'a>| -> (r: IResultLookahead<'a, Spanned<'a, O>>)
        requires
            c.is_rest_of(input),
        ensures
            spanned_rel(ens(&f))(c, r),
            sound(c, r),
        { spanned(f, c) };
    let tail = |c: Input<'a>| -> (r: IResultLookahead<'a, Option<Vec<Spanned<'a, O>>>>)
        requires
            c.is_rest_of(input),
        ensures
            opt_rel(preceded_rel(lookahead_rel(one_char_rel(',')), comma_list0_rel(ens(&f))))(
                c,
                r,
            ),
            sound(c, r),
        {
            let others = |d: Input<'a>| -> (r2: IResultLookahead<'a, Vec<Spanned<'a, O>>>)
                requires
                    d.is_rest_of(input),
                ensures
                    preceded_rel(lookahead_rel(one_char_rel(',')), comma_list0_rel(ens(&f)))(
                        d,
                        r2,
                    ),
                    sound(d, r2),
                {
                    let comma = |e: Input<'a>| -> (r3: IResultLookahead<'a, char>)
                        requires
                            e.wf(),
                        ensures
                            lookahead_rel(one_char_rel(','))(e, r3),
                            sound(e, r3),
                        {
                            let first = |d: Input<'a>| -> (r4: IResultLookahead<'a, char>)
                                requires
                                    d.wf(),
                                ensures
                                    one_char_rel(',')(d, r4),
                                    sound(d, r4),
                                { one_char(',', d) };
                            lookahead(first, e)
                        };
                    let list = |e: Input<'a>| -> (r3: IResultLookahead<'a, Vec<Spanned<'a, O>>>)
                        requires
                            e.is_rest_of(input),
                        ensures
                            comma_list0_rel(ens(&f))(e, r3),
                            sound(e, r3),
                        { comma_list0(f, e) };
                    preceded(comma, list, d)
                };
            opt(others, c)
        };
    let both = |c: Input<'a>| -> (r: IResultLookahead<
        'a,
        (Spanned<'a, O>, Option<Vec<Spanned<'a, O>>>),
    >)
        requires
            c.is_rest_of(input),
        ensures
            pair_rel(
                spanned_rel(ens(&f)),
                opt_rel(preceded_rel(lookahead_rel(one_char_rel(',')), comma_list0_rel(ens(&f)))),
            )(c, r),
            sound(c, r),
        { pair(head, tail, c) };
    let join = |p: (Spanned<'a, O>, Option<Vec<Spanned<'a, O>>>)| -> (out: Vec<Spanned<'a, O>>)
        ensures
            with_first(p, out),
        {
            let (head, tail) = p;
            let mut list = Vec::new();
            list.push(head);
            match tail {
                Some(mut others) => {
                    list.append(&mut others);
                },
                None => {},
            }
            list
        };
    let r = map(both, join, input);
    proof {
        assert(map_rel(ens(&both), fn_ens(&join))(input, r));
    }
    r
}

/// Reads elements with commas between them, as `comma_list1` does, with a
/// parser whose every failure ends the list.
pub fn comma_list1_lookahead<'a, O, F>(f: F, input: Input<'a>) -> (res: IResultLookahead<
    'a,
    Vec<Spanned<'a, O>>,
>) where F: Fn(Input<'a>) -> IResultLookahead<'a, O> + Copy
    requires
        input.wf(),
        parser_on(&f, input),
    ensures
        comma_list1_rel(lookahead_rel(ens(&f)))(input, res),
        sound(input, res),
{
    let element = |c: Input<'a>| -> (r: IResultLookahead<'a, O>)
        requires
            c.is_rest_of(input),
        ensures
            lookahead_rel(ens(&f))(c, r),
            sound(c, r),
        { lookahead(f, c) };
    let res = comma_list1(element, input);
    proof {
        lemma_comma_list1_wider(ens(&element), lookahead_rel(ens(&f)), input, res);
    }
    res
}

} // verus!
