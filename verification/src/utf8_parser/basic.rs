//! The parsers that read characters: tags, single characters, runs of
//! characters, blanks and comments.

use vstd::prelude::*;
use vstd::string::StrSliceExecFns;
use crate::utf8_parser::char_categories::{decides, is_ws, whitespace};
use crate::utf8_parser::combinators::{
    advancing, alt2, alt2_rel, base_failure, bounded_run, failed, fn_ens, lemma_run_wider,
    lemma_take_while1_wider, lemma_take_while_wider, lookahead, lookahead_rel, pair, pair_rel,
    read_chars, read_while, recognize, recognize_rel, sound, take_while, take_while1,
    take_while1_rel, take_while_rel, Rel,
};
use crate::utf8_parser::error::{ErrorTree, Expectation, InputParseErr};
use crate::utf8_parser::input::Input;
use crate::utf8_parser::ok::IOk;
use crate::utf8_parser::text::{
    byte_len, char_width, lemma_byte_len_bound, lemma_take_step, len_utf8,
};
use crate::utf8_parser::IResultLookahead;

verus! {

/// `text` begins with the characters `t`.
pub open spec fn starts_with(text: Seq<char>, t: Seq<char>) -> bool {
    t.len() <= text.len() && text.take(t.len() as int) == t
}

/// What `nothing` gives: success, with nothing read.
pub open spec fn nothing_result<'a>(input: Input<'a>) -> IResultLookahead<'a, Input<'a>> {
    Ok(IOk { remaining: input, parsed: input.prefix(0), discarded_error: None })
}

/// What `nothing` does.
pub open spec fn nothing_rel<'a>() -> Rel<'a, Input<'a>> {
    |input: Input<'a>, res: IResultLookahead<'a, Input<'a>>| res == nothing_result(input)
}

/// Matches always and doesn't advance the parser
pub fn nothing<'a>(input: Input<'a>) -> (res: IResultLookahead<'a, Input<'a>>)
    requires
        input.wf(),
    ensures
        res == nothing_result(input),
        nothing_rel()(input, res),
        sound(input, res),
{
    let (rest, read) = input.take_split(0);
    Ok(IOk { remaining: rest, parsed: read, discarded_error: None })
}

/// Gives the place of the input, as an empty cursor there, and reads
/// nothing.
pub fn position<'a>(input: Input<'a>) -> (res: IResultLookahead<'a, Input<'a>>)
    requires
        input.wf(),
    ensures
        res == nothing_result(input),
        nothing_rel()(input, res),
        sound(input, res),
{
    nothing(input)
}

/// What `multispace0` does: it reads the blanks at the start.
pub open spec fn multispace0_rel<'a>() -> Rel<'a, Input<'a>> {
    take_while_rel(decides(|c: char| whitespace(c)))
}

/// What `multispace1` does: it reads the blanks at the start, and fails
/// where there is none.
pub open spec fn multispace1_rel<'a>() -> Rel<'a, Input<'a>> {
    take_while1_rel(decides(|c: char| whitespace(c)), Expectation::Multispace)
}

/// Reads the blanks at the start: spaces, tabs, line feeds and carriage returns.
pub fn multispace0<'a>(input: Input<'a>) -> (res: IResultLookahead<'a, Input<'a>>)
    requires
        input.wf(),
    ensures
        multispace0_rel()(input, res),
        sound(input, res),
        res matches Ok(ok) && ok.discarded_error is None,
{
    let res = take_while(is_ws, input);
    proof {
        lemma_take_while_wider(fn_ens(&is_ws), decides(|c: char| whitespace(c)), input, res);
    }
    res
}

/// Reads the blanks at the start, one at least.
pub fn multispace1<'a>(input: Input<'a>) -> (res: IResultLookahead<'a, Input<'a>>)
    requires
        input.wf(),
    ensures
        multispace1_rel()(input, res),
        sound(input, res),
        advancing(input, res),
{
    let res = take_while1(is_ws, Expectation::Multispace, input);
    proof {
        lemma_take_while1_wider(
            fn_ens(&is_ws),
            decides(|c: char| whitespace(c)),
            Expectation::Multispace,
            input,
            res,
        );
    }
    res
}

/// Steps over the characters of `t` at the start of `input`, if they stand
/// there.
fn match_tag<'a>(t: &str, input: Input<'a>) -> (res: Option<Input<'a>>)
    requires
        input.wf(),
    ensures
        res is Some == starts_with(input.text(), t@),
        res matches Some(rest) ==> rest == input.skip_chars(t@.len() as int) && rest.is_rest_of(
            input,
        ) && input.boundary(rest.offset - input.offset) && input.take_chars(t@.len() as int)
            == input.prefix(rest.offset - input.offset),
{
    let n = t.unicode_len();
    let mut cur = input;
    let mut i: usize = 0;
    proof {
        input.lemma_skip_chars(0);
        assert(input.text().take(0) =~= Seq::<char>::empty());
        assert(input.text().skip(0) =~= input.text());
    }
    while i < n
        invariant
            input.wf(),
            n == t@.len(),
            0 <= i <= n,
            i <= input.text().len(),
            cur == input.skip_chars(i as int),
            cur.is_rest_of(input),
            cur.text() == input.text().skip(i as int),
            input.text().take(i as int) =~= t@.take(i as int),
        decreases n - i,
    {
        let wanted = t.get_char(i);
        match cur.first_char() {
            None => {
                return None;
            },
            Some(found) => {
                if found != wanted {
                    proof {
                        if starts_with(input.text(), t@) {
                            assert(input.text().take(t@.len() as int)[i as int]
                                == input.text()[i as int]);
                            assert(false);
                        }
                    }
                    return None;
                }
                proof {
                    cur.lemma_first_char();
                    cur.lemma_skip_chars(1);
                    lemma_take_step(input.text(), i as int);
                    input.lemma_skip_chars(i + 1);
                    assert(input.text().take(i + 1) =~= input.text().take(i as int).push(
                        input.text()[i as int],
                    ));
                    assert(t@.take(i + 1) =~= t@.take(i as int).push(t@[i as int]));
                }
                cur = cur.skip(len_utf8(found));
                i = i + 1;
            },
        }
    }
    proof {
        assert(t@.take(n as int) =~= t@);
        input.lemma_skip_chars(n as int);
    }
    Some(cur)
}

/// What `tag` gives: the characters of `t` read, or a fatal failure where
/// the input does not begin with them.
pub open spec fn tag_result<'a>(t: &'static str, input: Input<'a>) -> IResultLookahead<
    'a,
    Input<'a>,
> {
    if starts_with(input.text(), t@) {
        read_chars(input, t@.len() as int)
    } else {
        base_failure(input, Expectation::Tag(t))
    }
}

/// What `tag` does.
pub open spec fn tag_rel<'a>(t: &'static str) -> Rel<'a, Input<'a>> {
    |input: Input<'a>, res: IResultLookahead<'a, Input<'a>>| res == tag_result(t, input)
}

/// Reads the characters of `t`.
pub fn tag<'a>(t: &'static str, input: Input<'a>) -> (res: IResultLookahead<'a, Input<'a>>)
    requires
        input.wf(),
    ensures
        res == tag_result(t, input),
        tag_rel(t)(input, res),
        sound(input, res),
        res matches Ok(ok) ==> ok.parsed.wf(),
{
    match match_tag(t, input) {
        Some(rest) => {
            proof {
                input.lemma_skip_chars(t@.len() as int);
            }
            let read = input.slice(0, input.offset_to(&rest));
            Ok(IOk { remaining: rest, parsed: read, discarded_error: None })
        },
        None => Err(InputParseErr::fatal(ErrorTree::expected(input, Expectation::Tag(t)))),
    }
}

/// What `one_char` gives: the character `c` read, or a fatal failure where
/// the input does not begin with it.
pub open spec fn one_char_result<'a>(c: char, input: Input<'a>) -> IResultLookahead<'a, char> {
    if input.text().len() > 0 && input.text()[0] == c {
        Ok(IOk { remaining: input.skip_chars(1), parsed: c, discarded_error: None })
    } else {
        base_failure(input, Expectation::Char(c))
    }
}

/// What `one_char` does.
pub open spec fn one_char_rel<'a>(c: char) -> Rel<'a, char> {
    |input: Input<'a>, res: IResultLookahead<'a, char>| res == one_char_result(c, input)
}

/// Reads the character `c`.
pub fn one_char<'a>(c: char, input: Input<'a>) -> (res: IResultLookahead<'a, char>)
    requires
        input.wf(),
    ensures
        res == one_char_result(c, input),
        one_char_rel(c)(input, res),
        sound(input, res),
        advancing(input, res),
{
    match input.first_char() {
        Some(t) => {
            if t == c {
                proof {
                    input.lemma_first_char();
                    input.lemma_skip_chars(1);
                }
                Ok(IOk { remaining: input.skip(len_utf8(c)), parsed: c, discarded_error: None })
            } else {
                Err(InputParseErr::fatal(ErrorTree::expected(input, Expectation::Char(c))))
            }
        },
        None => Err(InputParseErr::fatal(ErrorTree::expected(input, Expectation::Char(c)))),
    }
}

/// The first place at or after `i` where `c` stands in `s`.
pub open spec fn position_from(s: Seq<char>, c: char, i: int) -> Option<int>
    decreases s.len() - i,
{
    if i < 0 || i >= s.len() {
        None
    } else if s[i] == c {
        Some(i)
    } else {
        position_from(s, c, i + 1)
    }
}

/// What `one_of_chars` gives: where the first character of the input is the
/// `i`-th character of `one_of`, and no earlier one, it is read and the
/// value is the `i`-th of `mapping`; else a fatal failure.
pub open spec fn one_of_chars_result<'a, O>(
    one_of: &'static str,
    mapping: &'static [O],
    input: Input<'a>,
) -> IResultLookahead<'a, O> {
    if input.text().len() > 0 && position_from(one_of@, input.text()[0], 0) is Some {
        Ok(
            IOk {
                remaining: input.skip_chars(1),
                parsed: mapping@[position_from(one_of@, input.text()[0], 0).unwrap()],
                discarded_error: None,
            },
        )
    } else {
        base_failure(input, Expectation::OneOfChars(one_of))
    }
}

/// What `one_of_chars` does.
pub open spec fn one_of_chars_rel<'a, O>(one_of: &'static str, mapping: &'static [O]) -> Rel<
    'a,
    O,
> {
    |input: Input<'a>, res: IResultLookahead<'a, O>|
        res == one_of_chars_result(one_of, mapping, input)
}

/// Finds the first place where `c` stands in `s`.
fn find_char(s: &str, c: char) -> (res: Option<usize>)
    ensures
        res matches Some(i) ==> position_from(s@, c, 0) == Some(i as int) && i < s@.len(),
        res is None ==> position_from(s@, c, 0) is None,
{
    let n = s.unicode_len();
    let mut i: usize = 0;
    while i < n
        invariant
            n == s@.len(),
            0 <= i <= n,
            position_from(s@, c, 0) == position_from(s@, c, i as int),
        decreases n - i,
    {
        if s.get_char(i) == c {
            return Some(i);
        }
        i = i + 1;
    }
    None
}

/// Reads one character that is among those of `one_of`, and gives the value
/// that `mapping` holds at its place. `mapping` has a value for every byte
/// of `one_of`.
pub fn one_of_chars<'a, O: Copy>(one_of: &'static str, mapping: &'static [O], input: Input<'a>)
    -> (res: IResultLookahead<'a, O>)
    requires
        input.wf(),
        byte_len(one_of@) == mapping@.len(),
    ensures
        res == one_of_chars_result(one_of, mapping, input),
        one_of_chars_rel(one_of, mapping)(input, res),
        sound(input, res),
        advancing(input, res),
        res matches Ok(ok) ==> exists|i: int|
            0 <= i < one_of@.len() && i < mapping@.len() && ok.parsed == #[trigger] mapping@[i],
{
    match input.first_char() {
        Some(t) => {
            match find_char(one_of, t) {
                Some(i) => {
                    proof {
                        input.lemma_first_char();
                        input.lemma_skip_chars(1);
                        lemma_byte_len_bound(one_of@);
                    }
                    Ok(
                        IOk {
                            remaining: input.skip(len_utf8(t)),
                            parsed: mapping[i],
                            discarded_error: None,
                        },
                    )
                },
                None => Err(
                    InputParseErr::fatal(
                        ErrorTree::expected(input, Expectation::OneOfChars(one_of)),
                    ),
                ),
            }
        },
        None => Err(
            InputParseErr::fatal(ErrorTree::expected(input, Expectation::OneOfChars(one_of))),
        ),
    }
}

/// The first place at or after `i` in `tags` whose tag `text` begins with.
pub open spec fn tag_from(tags: Seq<&'static str>, text: Seq<char>, i: int) -> Option<int>
    decreases tags.len() - i,
{
    if i < 0 || i >= tags.len() {
        None
    } else if starts_with(text, tags[i]@) {
        Some(i)
    } else {
        tag_from(tags, text, i + 1)
    }
}

/// What `one_of_tags` gives: the first tag of `one_of` that the input begins
/// with is read and the value is the one that `mapping` holds at its place;
/// where there is no such tag, a fatal failure.
pub open spec fn one_of_tags_result<'a, O>(
    one_of: &'static [&'static str],
    mapping: &'static [O],
    input: Input<'a>,
) -> IResultLookahead<'a, O> {
    match tag_from(one_of@, input.text(), 0) {
        Some(i) => Ok(
            IOk {
                remaining: input.skip_chars(one_of@[i]@.len() as int),
                parsed: mapping@[i],
                discarded_error: None,
            },
        ),
        None => base_failure(input, Expectation::OneOfTags(one_of)),
    }
}

/// What `one_of_tags` does.
pub open spec fn one_of_tags_rel<'a, O>(one_of: &'static [&'static str], mapping: &'static [O])
    -> Rel<'a, O> {
    |input: Input<'a>, res: IResultLookahead<'a, O>|
        res == one_of_tags_result(one_of, mapping, input)
}

/// Reads the first of the tags `one_of` that stands at the start of the
/// input, and gives the value that `mapping` holds at its place.
pub fn one_of_tags<'a, O: Copy>(
    one_of: &'static [&'static str],
    mapping: &'static [O],
    input: Input<'a>,
) -> (res: IResultLookahead<'a, O>)
    requires
        input.wf(),
        one_of@.len() <= mapping@.len(),
    ensures
        res == one_of_tags_result(one_of, mapping, input),
        one_of_tags_rel(one_of, mapping)(input, res),
        sound(input, res),
{
    let mut i: usize = 0;
    while i < one_of.len()
        invariant
            input.wf(),
            one_of@.len() <= mapping@.len(),
            0 <= i <= one_of@.len(),
            tag_from(one_of@, input.text(), 0) == tag_from(one_of@, input.text(), i as int),
        decreases one_of.len() - i,
    {
        match match_tag(one_of[i], input) {
            Some(rest) => {
                return Ok(IOk { remaining: rest, parsed: mapping[i], discarded_error: None });
            },
            None => {},
        }
        i = i + 1;
    }
    Err(InputParseErr::fatal(ErrorTree::expected(input, Expectation::OneOfTags(one_of))))
}

/// The number of characters, all of `w` bytes, among which one starts before
/// byte `n`.
pub open spec fn run_cap(n: usize, w: usize) -> usize {
    if w == 0 {
        0usize
    } else {
        (n / w + if n % w != 0 {
            1int
        } else {
            0int
        }) as usize
    }
}

/// The test on characters that accepts `c` alone.
pub open spec fn only(c: char) -> spec_fn(char, bool) -> bool {
    decides(|x: char| x == c)
}

/// What `repeat_char` does. With `n` at 0 it reads nothing. Else it reads
/// the characters `c` that start within the first `n` bytes and follow one
/// another from the start. It succeeds where these are `n`; it fails at the
/// input where there is none, and at the last of them where they are fewer.
pub open spec fn repeat_char_rel<'a>(c: char, n: usize) -> Rel<'a, Input<'a>> {
    |input: Input<'a>, res: IResultLookahead<'a, Input<'a>>|
        if n == 0 {
            res == read_chars(input, 0)
        } else {
            exists|k: int| #[trigger]
                bounded_run(
                    only(c),
                    input.text(),
                    k,
                    Some(run_cap(n, char_width(c) as usize)),
                ) && res == (if k == 0 {
                    base_failure(input, Expectation::Char(c))
                } else if k == n {
                    read_chars(input, k)
                } else {
                    base_failure(input.skip_chars(k - 1), Expectation::Char(c))
                })
        }
}

/// Reads the character `c` `n` times.
pub fn repeat_char<'a>(c: char, n: usize, input: Input<'a>) -> (res: IResultLookahead<
    'a,
    Input<'a>,
>)
    requires
        input.wf(),
    ensures
        repeat_char_rel(c, n)(input, res),
        sound(input, res),
        res matches Ok(ok) ==> ok.parsed.wf(),
{
    if n == 0 {
        proof {
            input.lemma_skip_chars(0);
            assert(input.text().take(0) =~= Seq::<char>::empty());
        }
        let (rest, read) = input.take_split(0);
        return Ok(IOk { remaining: rest, parsed: read, discarded_error: None });
    }
    let w = len_utf8(c);
    let cap = n / w + (if n % w != 0 {
        1
    } else {
        0
    });
    let is_c = |x: char| -> (b: bool)
        ensures
            b == (x == c),
        { x == c };
    let (cur, count, Ghost(k)) = read_while(&is_c, input, Some(cap));
    proof {
        lemma_run_wider(fn_ens(&is_c), only(c), input.text(), k, Some(cap));
        assert(bounded_run(only(c), input.text(), k, Some(cap)));
        input.lemma_skip_chars(k);
    }
    if count == 0 {
        Err(InputParseErr::fatal(ErrorTree::expected(input, Expectation::Char(c))))
    } else if count == n {
        let read = input.slice(0, input.offset_to(&cur));
        Ok(IOk { remaining: cur, parsed: read, discarded_error: None })
    } else {
        proof {
            lemma_take_step(input.text(), k - 1);
            input.lemma_skip_chars(k - 1);
            assert(only(c)(input.text()[k - 1], true));
        }
        let last = input.skip(input.offset_to(&cur) - w);
        Err(InputParseErr::fatal(ErrorTree::expected(last, Expectation::Char(c))))
    }
}

/// A character that does not end a line.
pub open spec fn line_char(c: char) -> bool {
    c != '\n' && c != '\r'
}

fn is_line_char(c: char) -> (res: bool)
    ensures
        res == line_char(c),
{
    c != '\n' && c != '\r'
}

/// What `eol_comment` does: it reads `//` and what follows on the line, and
/// gives both as its value; without `//` it fails recoverably.
pub open spec fn eol_comment_rel<'a>() -> Rel<'a, Input<'a>> {
    recognize_rel(
        pair_rel(
            lookahead_rel(tag_rel("//")),
            take_while_rel(decides(|c: char| line_char(c))),
        ),
    )
}

/// Reads a comment that runs to the end of the line.
pub fn eol_comment<'a>(input: Input<'a>) -> (res: IResultLookahead<'a, Input<'a>>)
    requires
        input.wf(),
    ensures
        eol_comment_rel()(input, res),
        sound(input, res),
        advancing(input, res),
        res is Err ==> res->Err_0 is Recoverable,
{
    let start = |c: Input<'a>| -> (r: IResultLookahead<'a, Input<'a>>)
        requires
            c.wf(),
        ensures
            lookahead_rel(tag_rel("//"))(c, r),
            sound(c, r),
            advancing(c, r) || !starts_with(c.text(), "//"@),
            r is Err ==> r->Err_0 is Recoverable,
        {
            let slashes = |d: Input<'a>| -> (r2: IResultLookahead<'a, Input<'a>>)
                requires
                    d.wf(),
                ensures
                    tag_rel("//")(d, r2),
                    sound(d, r2),
                { tag("//", d) };
            proof {
                reveal_strlit("//");
                if starts_with(c.text(), "//"@) {
                    c.lemma_skip_chars(2);
                    c.lemma_skip_chars(1);
                    c.lemma_first_char();
                    lemma_take_step(c.text(), 1);
                }
            }
            lookahead(slashes, c)
        };
    let rest = |c: Input<'a>| -> (r: IResultLookahead<'a, Input<'a>>)
        requires
            c.wf(),
        ensures
            take_while_rel(decides(|c: char| line_char(c)))(c, r),
            sound(c, r),
            r is Ok,
        {
            let r = take_while(is_line_char, c);
            proof {
                lemma_take_while_wider(
                    fn_ens(&is_line_char),
                    decides(|c: char| line_char(c)),
                    c,
                    r,
                );
            }
            r
        };
    let both = |c: Input<'a>| -> (r: IResultLookahead<'a, (Input<'a>, Input<'a>)>)
        requires
            c.wf(),
        ensures
            pair_rel(
                lookahead_rel(tag_rel("//")),
                take_while_rel(decides(|c: char| line_char(c))),
            )(c, r),
            sound(c, r),
            advancing(c, r),
            r is Err ==> r->Err_0 is Recoverable,
        { pair(start, rest, c) };
    recognize(both, input)
}

/// The place just behind the `*/` that ends a comment. The text is read from
/// its `i`-th character on, and `depth` comments that were opened inside the
/// comment are still open.
pub open spec fn comment_close(text: Seq<char>, i: int, depth: nat) -> Option<int>
    decreases text.len() - i,
{
    if i < 0 || i + 1 >= text.len() {
        None
    } else if text[i] == '/' && text[i + 1] == '*' {
        comment_close(text, i + 2, depth + 1)
    } else if text[i] == '*' && text[i + 1] == '/' {
        if depth == 0 {
            Some(i + 2)
        } else {
            comment_close(text, i + 2, (depth - 1) as nat)
        }
    } else {
        comment_close(text, i + 1, depth)
    }
}

/// The place of the last character of the input, and the input itself where
/// it is empty.
pub open spec fn last_char<'a>(input: Input<'a>) -> Input<'a> {
    if input.text().len() == 0 {
        input
    } else {
        input.skip_chars(input.text().len() - 1)
    }
}

/// What reading the rest of a block comment gives, once its `/*` is read:
/// everything up to the `*/` that ends it is read, with the comments inside
/// it; a comment without end is a fatal failure at the last character.
pub open spec fn block_comment_tail_result<'a>(input: Input<'a>) -> IResultLookahead<'a, ()> {
    match comment_close(input.text(), 0, 0) {
        Some(n) => Ok(IOk { remaining: input.skip_chars(n), parsed: (), discarded_error: None }),
        None => base_failure(last_char(input), Expectation::BlockCommentEnd),
    }
}

/// Reads the rest of a block comment, once its `/*` is read.
pub fn block_comment_tail<'a>(input: Input<'a>) -> (res: IResultLookahead<'a, ()>)
    requires
        input.wf(),
    ensures
        res == block_comment_tail_result(input),
        block_comment_tail_rel()(input, res),
        sound(input, res),
        res is Err ==> res->Err_0 is Fatal,
{
    let mut cur = input;
    let mut prev = input;
    let mut depth: usize = 0;
    let ghost mut i: int = 0;
    proof {
        input.lemma_skip_chars(0);
        assert(input.text().take(0) =~= Seq::<char>::empty());
        assert(input.text().skip(0) =~= input.text());
        lemma_byte_len_bound(input.text());
        input.lemma_raw_valid();
    }
    loop
        invariant
            input.wf(),
            input.text().len() <= usize::MAX,
            0 <= i <= input.text().len(),
            cur == input.skip_chars(i),
            cur.is_rest_of(input),
            cur.text() == input.text().skip(i),
            prev == (if i == 0 {
                input
            } else {
                input.skip_chars(i - 1)
            }),
            depth <= i,
            comment_close(input.text(), 0, 0) == comment_close(input.text(), i, depth as nat),
        decreases input.text().len() - i,
    {
        match cur.first_char() {
            None => {
                return Err(
                    InputParseErr::fatal(ErrorTree::expected(prev, Expectation::BlockCommentEnd)),
                );
            },
            Some(a) => {
                let next = cur.step_over(a, input, Ghost(i));
                match next.first_char() {
                    None => {
                        return Err(
                            InputParseErr::fatal(
                                ErrorTree::expected(cur, Expectation::BlockCommentEnd),
                            ),
                        );
                    },
                    Some(b) => {
                        if a == '/' && b == '*' {
                            depth = depth + 1;
                            prev = next;
                            cur = next.step_over(b, input, Ghost(i + 1));
                            proof {
                                i = i + 2;
                            }
                        } else if a == '*' && b == '/' {
                            let after = next.step_over(b, input, Ghost(i + 1));
                            if depth == 0 {
                                return Ok(
                                    IOk { remaining: after, parsed: (), discarded_error: None },
                                );
                            }
                            depth = depth - 1;
                            prev = next;
                            cur = after;
                            proof {
                                i = i + 2;
                            }
                        } else {
                            prev = cur;
                            cur = next;
                            proof {
                                i = i + 1;
                            }
                        }
                    },
                }
            },
        }
    }
}

/// What `block_comment_tail` does.
pub open spec fn block_comment_tail_rel<'a>() -> Rel<'a, ()> {
    |input: Input<'a>, res: IResultLookahead<'a, ()>| res == block_comment_tail_result(input)
}

/// What `block_comment` does: it reads `/*` and everything up to the `*/`
/// that ends the comment, and gives all of it as its value; without `/*` it
/// fails recoverably, and without the end fatally.
pub open spec fn block_comment_rel<'a>() -> Rel<'a, Input<'a>> {
    recognize_rel(pair_rel(lookahead_rel(tag_rel("/*")), block_comment_tail_rel()))
}

/// Reads a block comment; block comments inside it are part of it.
pub fn block_comment<'a>(input: Input<'a>) -> (res: IResultLookahead<'a, Input<'a>>)
    requires
        input.wf(),
    ensures
        block_comment_rel()(input, res),
        sound(input, res),
        advancing(input, res),
{
    let start = |c: Input<'a>| -> (r: IResultLookahead<'a, Input<'a>>)
        requires
            c.wf(),
        ensures
            lookahead_rel(tag_rel("/*"))(c, r),
            sound(c, r),
            advancing(c, r),
        {
            let open = |d: Input<'a>| -> (r2: IResultLookahead<'a, Input<'a>>)
                requires
                    d.wf(),
                ensures
                    tag_rel("/*")(d, r2),
                    sound(d, r2),
                { tag("/*", d) };
            proof {
                reveal_strlit("/*");
                if starts_with(c.text(), "/*"@) {
                    c.lemma_skip_chars(2);
                    c.lemma_skip_chars(1);
                    c.lemma_first_char();
                    lemma_take_step(c.text(), 1);
                }
            }
            lookahead(open, c)
        };
    let both = |c: Input<'a>| -> (r: IResultLookahead<'a, (Input<'a>, ())>)
        requires
            c.wf(),
        ensures
            pair_rel(lookahead_rel(tag_rel("/*")), block_comment_tail_rel())(c, r),
            sound(c, r),
            advancing(c, r),
        { pair(start, block_comment_tail, c) };
    recognize(both, input)
}

/// What reading a comment of either kind does.
pub open spec fn any_comment_rel<'a>() -> Rel<'a, Input<'a>> {
    alt2_rel(block_comment_rel(), eol_comment_rel())
}

/// What follows once the blanks at `cur` are read and `comment` is what
/// reading a comment at `rest`, behind them, gave: after a comment the
/// blanks behind it are read in turn; where there is no comment all is
/// read; a comment without end is a fatal failure.
pub open spec fn blanks_after<'a>(
    cur: Input<'a>,
    rest: Input<'a>,
    comment: IResultLookahead<'a, Input<'a>>,
    res: IResultLookahead<'a, ()>,
) -> bool
    decreases cur.size(), 0nat,
{
    match comment {
        Ok(ok) => ok.remaining.size() < cur.size() && blank_steps(ok.remaining, res),
        Err(InputParseErr::Recoverable(_)) => res == Ok::<IOk<'a, ()>, InputParseErr<'a>>(
            IOk { remaining: rest, parsed: (), discarded_error: None },
        ),
        Err(InputParseErr::Fatal(e)) => failed(res, InputParseErr::Fatal(e)),
    }
}

/// Blanks are read from `cur` on, then a comment, and so on. Where no
/// comment follows the blanks, all is read; a comment without end is a
/// fatal failure.
pub open spec fn blank_steps<'a>(cur: Input<'a>, res: IResultLookahead<'a, ()>) -> bool
    decreases cur.size(), 1nat,
{
    exists|spaces: IResultLookahead<'a, Input<'a>>| #[trigger]
        multispace0_rel()(cur, spaces) && match spaces {
            Err(e) => failed(res, e),
            Ok(sp) => exists|comment: IResultLookahead<'a, Input<'a>>| #[trigger]
                any_comment_rel()(sp.remaining, comment) && blanks_after(
                    cur,
                    sp.remaining,
                    comment,
                    res,
                ),
        }
}

/// What `multispacews0` does: it reads the blanks and comments at the
/// start.
pub open spec fn multispacews0_rel<'a>() -> Rel<'a, ()> {
    |input: Input<'a>, res: IResultLookahead<'a, ()>| blank_steps(input, res)
}

/// Reads blanks and comments, in any order, as many as there are.
pub fn multispacews0<'a>(input: Input<'a>) -> (res: IResultLookahead<'a, ()>)
    requires
        input.wf(),
    ensures
        multispacews0_rel()(input, res),
        sound(input, res),
        res matches Ok(ok) ==> ok.discarded_error is None,
{
    let mut cur = input;
    loop
        invariant
            input.wf(),
            cur.is_rest_of(input),
            forall|res: IResultLookahead<'a, ()>|
                blank_steps(cur, res) ==> blank_steps(input, res),
        decreases cur.size(),
    {
        let spaces = multispace0(cur);
        let ghost got_spaces = spaces;
        let ghost before = cur;
        let after = match spaces {
            Ok(sp) => sp.remaining,
            Err(e) => {
                return Err(e);
            },
        };
        let comment = alt2(block_comment, eol_comment, after);
        let ghost got = comment;
        assert(multispace0_rel()(before, got_spaces));
        assert(any_comment_rel()(after, got));
        match comment {
            Ok(ok) => {
                cur = ok.remaining;
                assert forall|res: IResultLookahead<'a, ()>| blank_steps(cur, res) implies blank_steps(
                    input,
                    res,
                ) by {
                    assert(multispace0_rel()(before, got_spaces));
                    assert(any_comment_rel()(after, got));
                    assert(blank_steps(before, res));
                }
            },
            Err(InputParseErr::Recoverable(_)) => {
                let res = Ok(IOk { remaining: after, parsed: (), discarded_error: None });
                assert(blank_steps(before, res));
                return res;
            },
            Err(InputParseErr::Fatal(e)) => {
                let res = Err(InputParseErr::Fatal(e));
                assert(blank_steps(before, res));
                return res;
            },
        }
    }
}

} // verus!
