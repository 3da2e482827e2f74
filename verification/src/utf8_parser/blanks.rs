//! Blanks and comments are read in one way, and reading them twice reads
//! no more than reading them once: so a parser that runs between them
//! gives the same for a text and for the text without the blanks and
//! comments at its start.

use vstd::prelude::*;
use crate::utf8_parser::basic::{
    any_comment_rel, blank_steps, blanks_after, block_comment_rel, comment_close,
    eol_comment_rel, line_char, multispace0_rel, multispacews0_rel, starts_with,
};
use crate::utf8_parser::char_categories::{decides, whitespace};
use crate::utf8_parser::combinators::{preceded_rel, read_chars, run_of, ws_rel, Rel};
use crate::utf8_parser::error::InputParseErr;
use crate::utf8_parser::input::Input;
use crate::utf8_parser::ok::IOk;
use crate::utf8_parser::IResultLookahead;

verus! {

/// A test that computes its answer accepts one run at the start of a text,
/// and no other.
pub proof fn lemma_run_unique(f: spec_fn(char) -> bool, text: Seq<char>, k1: int, k2: int)
    requires
        run_of(decides(f), text, k1),
        run_of(decides(f), text, k2),
    ensures
        k1 == k2,
{
    if k1 < k2 {
        assert(decides(f)(text[k1], true));
        assert(decides(f)(text[k1], false));
    }
    if k2 < k1 {
        assert(decides(f)(text[k2], true));
        assert(decides(f)(text[k2], false));
    }
}

/// The end of a comment lies behind the two characters that end it, and
/// inside the text.
pub proof fn lemma_comment_close_bounds(text: Seq<char>, i: int, depth: nat)
    requires
        0 <= i,
    ensures
        comment_close(text, i, depth) matches Some(n) ==> i + 2 <= n <= text.len(),
    decreases text.len() - i,
{
    if i + 1 >= text.len() {
    } else if text[i] == '/' && text[i + 1] == '*' {
        lemma_comment_close_bounds(text, i + 2, depth + 1);
    } else if text[i] == '*' && text[i + 1] == '/' {
        if depth != 0 {
            lemma_comment_close_bounds(text, i + 2, (depth - 1) as nat);
        }
    } else {
        lemma_comment_close_bounds(text, i + 1, depth);
    }
}

/// The blanks at the start are read in one way, and what is left is a
/// cursor into the same text.
pub proof fn lemma_spaces_decided<'a>(
    cur: Input<'a>,
    s1: IResultLookahead<'a, Input<'a>>,
    s2: IResultLookahead<'a, Input<'a>>,
)
    requires
        cur.wf(),
        multispace0_rel()(cur, s1),
        multispace0_rel()(cur, s2),
    ensures
        s1 == s2,
        s1 matches Ok(sp) && sp.remaining.is_rest_of(cur),
{
    let p = |c: char| whitespace(c);
    let k1 = choose|k: int| #[trigger] run_of(decides(p), cur.text(), k) && s1 == read_chars(cur, k);
    let k2 = choose|k: int| #[trigger] run_of(decides(p), cur.text(), k) && s2 == read_chars(cur, k);
    lemma_run_unique(p, cur.text(), k1, k2);
    cur.lemma_skip_chars(k1);
}

/// A comment to the end of the line is read in one way; its only failure
/// is that there is none, which is recoverable; and what it leaves is a
/// cursor into the same text.
pub proof fn lemma_eol_comment_decided<'a>(
    cur: Input<'a>,
    c1: IResultLookahead<'a, Input<'a>>,
    c2: IResultLookahead<'a, Input<'a>>,
)
    requires
        cur.wf(),
        eol_comment_rel()(cur, c1),
        eol_comment_rel()(cur, c2),
    ensures
        c1 == c2,
        c1 matches Ok(ok) ==> ok.remaining.is_rest_of(cur),
        c1 matches Err(e) ==> e is Recoverable,
{
    let p = |c: char| line_char(c);
    if starts_with(cur.text(), "//"@) {
        let n = "//"@.len() as int;
        cur.lemma_skip_chars(n);
        let rest = cur.skip_chars(n);
        assert forall|k1: int, k2: int| #[trigger]
            run_of(decides(p), rest.text(), k1) && #[trigger] run_of(
                decides(p),
                rest.text(),
                k2,
            ) implies k1 == k2 by {
            lemma_run_unique(p, rest.text(), k1, k2);
        }
        assert forall|k: int| #[trigger]
            run_of(decides(p), rest.text(), k) implies rest.skip_chars(k).is_rest_of(rest) by {
            rest.lemma_skip_chars(k);
        }
    }
}

/// A block comment is read in one way, and what it leaves is a cursor into
/// the same text.
pub proof fn lemma_block_comment_decided<'a>(
    cur: Input<'a>,
    c1: IResultLookahead<'a, Input<'a>>,
    c2: IResultLookahead<'a, Input<'a>>,
)
    requires
        cur.wf(),
        block_comment_rel()(cur, c1),
        block_comment_rel()(cur, c2),
    ensures
        c1 == c2,
        c1 matches Ok(ok) ==> ok.remaining.is_rest_of(cur),
{
    if starts_with(cur.text(), "/*"@) {
        let n = "/*"@.len() as int;
        cur.lemma_skip_chars(n);
        let rest = cur.skip_chars(n);
        lemma_comment_close_bounds(rest.text(), 0, 0);
        match comment_close(rest.text(), 0, 0) {
            Some(m) => {
                rest.lemma_skip_chars(m);
            },
            None => {},
        }
    }
}

/// A comment of either kind is read in one way: two results for one input
/// are the same success, or the same fatal failure, or recoverable
/// failures both. What a success leaves is a cursor into the same text.
pub proof fn lemma_comment_decided<'a>(
    cur: Input<'a>,
    c1: IResultLookahead<'a, Input<'a>>,
    c2: IResultLookahead<'a, Input<'a>>,
)
    requires
        cur.wf(),
        any_comment_rel()(cur, c1),
        any_comment_rel()(cur, c2),
    ensures
        c1 is Ok ==> c1 == c2,
        c1 matches Err(InputParseErr::Fatal(_)) ==> c1 == c2,
        c1 matches Err(InputParseErr::Recoverable(_)) ==> c2 matches Err(
            InputParseErr::Recoverable(_),
        ),
        c1 matches Ok(ok) ==> ok.remaining.is_rest_of(cur),
{
    assert forall|b1: IResultLookahead<'a, Input<'a>>, b2: IResultLookahead<'a, Input<'a>>|
     #[trigger]
        block_comment_rel()(cur, b1) && #[trigger] block_comment_rel()(cur, b2) implies b1 == b2
        && (b1 matches Ok(ok) ==> ok.remaining.is_rest_of(cur)) by {
        lemma_block_comment_decided(cur, b1, b2);
    }
    assert forall|b1: IResultLookahead<'a, Input<'a>>, b2: IResultLookahead<'a, Input<'a>>|
     #[trigger]
        eol_comment_rel()(cur, b1) && #[trigger] eol_comment_rel()(cur, b2) implies b1 == b2 && (
    b1 matches Ok(ok) ==> ok.remaining.is_rest_of(cur)) && (b1 matches Err(e)
        ==> e is Recoverable) by {
        lemma_eol_comment_decided(cur, b1, b2);
    }
}

/// Blanks and comments are read in one way: where they can be read at all,
/// no other result is possible, and what is left is a cursor into the same
/// text.
pub proof fn blanks_are_read_in_one_way<'a>(
    cur: Input<'a>,
    r1: IResultLookahead<'a, ()>,
    r2: IResultLookahead<'a, ()>,
)
    requires
        cur.wf(),
        blank_steps(cur, r1),
        blank_steps(cur, r2),
        r1 is Ok,
    ensures
        r1 == r2,
        r1 matches Ok(ok) && ok.remaining.is_rest_of(cur),
    decreases cur.size(),
{
    assert forall|
        s1: IResultLookahead<'a, Input<'a>>,
        s2: IResultLookahead<'a, Input<'a>>,
        c1: IResultLookahead<'a, Input<'a>>,
        c2: IResultLookahead<'a, Input<'a>>,
    |
        #![trigger any_comment_rel()(s1->Ok_0.remaining, c1), any_comment_rel()(s2->Ok_0.remaining, c2)]
        multispace0_rel()(cur, s1) && multispace0_rel()(cur, s2) && s1 is Ok && s2 is Ok
            && any_comment_rel()(s1->Ok_0.remaining, c1) && any_comment_rel()(
            s2->Ok_0.remaining,
            c2,
        ) && blanks_after(cur, s1->Ok_0.remaining, c1, r1) && blanks_after(
            cur,
            s2->Ok_0.remaining,
            c2,
            r2,
        ) implies r1 == r2 && r1->Ok_0.remaining.is_rest_of(cur) by {
        lemma_spaces_decided(cur, s1, s2);
        let rest = s1->Ok_0.remaining;
        lemma_comment_decided(rest, c1, c2);
        match c1 {
            Ok(ok) => {
                blanks_are_read_in_one_way(ok.remaining, r1, r2);
            },
            _ => {},
        }
    }
    assert forall|s1: IResultLookahead<'a, Input<'a>>| #[trigger]
        multispace0_rel()(cur, s1) implies s1 is Ok by {
        lemma_spaces_decided(cur, s1, s1);
    }
}

/// Reading blanks and comments twice reads no more than reading them
/// once: behind them there is none.
pub proof fn blanks_are_read_once<'a>(cur: Input<'a>, res: IResultLookahead<'a, ()>)
    requires
        cur.wf(),
        blank_steps(cur, res),
        res is Ok,
    ensures
        blank_steps(res->Ok_0.remaining, res),
    decreases cur.size(),
{
    assert forall|s1: IResultLookahead<'a, Input<'a>>, c1: IResultLookahead<'a, Input<'a>>|
        #![trigger multispace0_rel()(cur, s1), any_comment_rel()(s1->Ok_0.remaining, c1)]
        multispace0_rel()(cur, s1) && s1 is Ok && any_comment_rel()(s1->Ok_0.remaining, c1)
            && blanks_after(cur, s1->Ok_0.remaining, c1, res) implies blank_steps(
        res->Ok_0.remaining,
        res,
    ) by {
        lemma_spaces_decided(cur, s1, s1);
        let rest = s1->Ok_0.remaining;
        lemma_comment_decided(rest, c1, c1);
        match c1 {
            Ok(ok) => {
                blanks_are_read_once(ok.remaining, res);
            },
            Err(InputParseErr::Recoverable(_)) => {
                let p = |c: char| whitespace(c);
                let k = choose|k: int| #[trigger]
                    run_of(decides(p), cur.text(), k) && s1 == read_chars(cur, k);
                cur.lemma_skip_chars(k);
                rest.lemma_skip_chars(0);
                assert(rest.text().take(0) =~= Seq::<char>::empty());
                assert(rest.skip_chars(0) == rest);
                assert(run_of(decides(p), rest.text(), 0));
                let again = read_chars(rest, 0);
                assert(multispace0_rel()(rest, again));
                assert(any_comment_rel()(again->Ok_0.remaining, c1));
                assert(blanks_after(rest, rest, c1, res));
            },
            _ => {},
        }
    }
}

/// A parser that runs between blanks and comments gives the same for a
/// text and for what is left of the text once the blanks and comments at
/// its start are read: they change neither the value nor the place where
/// the parser stops nor its failure.
pub proof fn leading_blanks_change_nothing<'a, A>(
    a: Rel<'a, A>,
    input: Input<'a>,
    skipped: IOk<'a, ()>,
    res: IResultLookahead<'a, A>,
)
    requires
        input.wf(),
        multispacews0_rel()(input, Ok(skipped)),
    ensures
        ws_rel(a)(input, res) <==> ws_rel(a)(skipped.remaining, res),
{
    let first: IResultLookahead<'a, ()> = Ok(skipped);
    blanks_are_read_in_one_way(input, first, first);
    blanks_are_read_once(input, first);
    let rest = skipped.remaining;
    assert(multispacews0_rel()(rest, first));
    assert forall|r: IResultLookahead<'a, ()>| #[trigger]
        multispacews0_rel()(input, r) implies r == first by {
        blanks_are_read_in_one_way(input, first, r);
    }
    assert forall|r: IResultLookahead<'a, ()>| #[trigger]
        multispacews0_rel()(rest, r) implies r == first by {
        blanks_are_read_in_one_way(rest, first, r);
    }
    assert forall|r1: IResultLookahead<'a, A>|
        #![trigger preceded_rel(multispacews0_rel(), a)(input, r1)]
        #![trigger preceded_rel(multispacews0_rel(), a)(rest, r1)]
        preceded_rel(multispacews0_rel(), a)(input, r1) <==> preceded_rel(multispacews0_rel(), a)(
            rest,
            r1,
        ) by {
        assert(multispacews0_rel()(input, first));
        assert(multispacews0_rel()(rest, first));
    }
}

} // verus!
