//! What holds of every parse, stated over the relations of the parsers.

use vstd::prelude::*;
use crate::utf8_parser::combinators::{
    alt2_rel, context_final_rel, cut_rel, lookahead_rel, opt_rel, take_while_rel, Rel,
};
use crate::utf8_parser::error::{
    deeper_error, ErrorTree, Expectation, InputParseErr, InputParseError,
};
use crate::utf8_parser::input::Input;
use crate::utf8_parser::ok::IOk;
use crate::utf8_parser::primitive::string::{with_fragment, StringFragment};
use crate::utf8_parser::pt::{Expr, Ron};
use crate::utf8_parser::ron::{expr_parses, ron_inner_rel, ron_result};
use crate::utf8_parser::IResultLookahead;

verus! {

/// A parser behind `cut` never fails recoverably: once a branch is
/// committed to, no other branch is tried.
pub proof fn cut_fails_fatally<'a, A>(
    a: Rel<'a, A>,
    input: Input<'a>,
    res: IResultLookahead<'a, A>,
)
    requires
        cut_rel(a)(input, res),
    ensures
        res matches Err(e) ==> e is Fatal,
{
}

/// A parser behind `lookahead` never fails fatally: it only probes.
pub proof fn lookahead_fails_recoverably<'a, A>(
    a: Rel<'a, A>,
    input: Input<'a>,
    res: IResultLookahead<'a, A>,
)
    requires
        lookahead_rel(a)(input, res),
    ensures
        res matches Err(e) ==> e is Recoverable,
{
}

/// `opt` never fails recoverably: where its parser does, it succeeds
/// without a value, has read nothing and keeps the failure.
pub proof fn opt_absorbs_recoverable_failure<'a, A>(
    a: Rel<'a, A>,
    input: Input<'a>,
    res: IResultLookahead<'a, Option<A>>,
)
    requires
        opt_rel(a)(input, res),
    ensures
        res matches Err(e) ==> e is Fatal,
        res matches Ok(ok) ==> (ok.parsed is None ==> ok.remaining == input
            && ok.discarded_error is Some),
{
}

/// `take_while` never fails.
pub proof fn take_while_succeeds<'a>(
    p: spec_fn(char, bool) -> bool,
    input: Input<'a>,
    res: IResultLookahead<'a, Input<'a>>,
)
    requires
        take_while_rel(p)(input, res),
    ensures
        res is Ok,
{
}

/// Where the first parser of `alt2` succeeds or fails fatally, its result is
/// the result, whatever the second parser would do.
pub proof fn alt2_prefers_the_first<'a, A>(
    a: Rel<'a, A>,
    b: Rel<'a, A>,
    input: Input<'a>,
    res: IResultLookahead<'a, A>,
)
    requires
        alt2_rel(a, b)(input, res),
        forall|r: IResultLookahead<'a, A>| #[trigger]
            a(input, r) ==> !(r matches Err(InputParseErr::Recoverable(_))),
    ensures
        a(input, res),
{
}

/// A label that is marked final stays the last label of its tree: a tree
/// that failed behind `context_final` with the mark is a stack that takes
/// no label any more.
pub proof fn final_context_is_final<'a, A>(
    ctx: &'static str,
    a: Rel<'a, A>,
    input: Input<'a>,
    res: IResultLookahead<'a, A>,
)
    requires
        context_final_rel(ctx, true, a)(input, res),
    ensures
        res matches Err(e) ==> (e.tree() matches ErrorTree::Stack { finalized, .. }
            && finalized),
{
}

/// Of two failures that were set aside, the one that is kept is one of
/// them, and none reaches further than it.
pub proof fn the_deeper_failure_is_kept<'a>(
    first: InputParseError<'a>,
    second: InputParseError<'a>,
)
    ensures
        deeper_error(Some(first), Some(second)) == Some(first) || deeper_error(
            Some(first),
            Some(second),
        ) == Some(second),
        deeper_error(Some(first), Some(second))->0.depth() >= first.depth(),
        deeper_error(Some(first), Some(second))->0.depth() >= second.depth(),
{
}

/// An expression fails fatally or not at all, and the tree of its failure
/// is a stack that takes no label any more.
pub proof fn expr_fails_fatally<'a>(
    input: Input<'a>,
    depth: nat,
    res: IResultLookahead<'a, Expr<'a>>,
)
    requires
        expr_parses(input, depth, res),
    ensures
        res matches Err(e) ==> {
            &&& e is Fatal
            &&& e.tree() matches ErrorTree::Stack { finalized, .. } && finalized
        },
{
}

/// A document is read only where the whole input is read: `ron` succeeds
/// exactly where `ron_inner` succeeds and leaves nothing, and it fails with
/// the expectation of the end of the input where something is left.
pub proof fn document_reads_the_whole_input<'a>(
    input: &'a str,
    res: Result<Ron<'a>, InputParseError<'a>>,
)
    requires
        ron_result(input, res),
    ensures
        res matches Ok(doc) ==> exists|ok: IOk<'a, Ron<'a>>| #[trigger]
            ron_inner_rel()(Input::whole(input), Ok(ok)) && ok.remaining.size() == 0 && ok.parsed
                == doc,
        (exists|ok: IOk<'a, Ron<'a>>| #[trigger]
            ron_inner_rel()(Input::whole(input), Ok(ok)) && ok.remaining.size() > 0 && (
            forall|r: IResultLookahead<'a, Ron<'a>>| #[trigger]
                ron_inner_rel()(Input::whole(input), r) ==> r == Ok::<
                    IOk<'a, Ron<'a>>,
                    InputParseErr<'a>,
                >(ok))) ==> (res matches Err(e) && e matches ErrorTree::Base { kind, .. } && kind
            == crate::utf8_parser::error::BaseErrorKind::Expected(Expectation::Eof)),
{
}

/// Escaped blanks add nothing to a string.
pub proof fn escaped_blanks_add_nothing<'a>(before: String, after: String)
    requires
        with_fragment()((before, StringFragment::<'a>::EscapedWS), after),
    ensures
        after@ == before@,
{
    assert(before@ + Seq::<char>::empty() =~= before@);
}

/// An escaped character adds itself, and nothing else, to a string.
pub proof fn escaped_char_adds_itself<'a>(before: String, c: char, after: String)
    requires
        with_fragment()((before, StringFragment::<'a>::EscapedChar(c)), after),
    ensures
        after@ == before@.push(c),
{
    assert(before@ + seq![c] =~= before@.push(c));
}

} // verus!
