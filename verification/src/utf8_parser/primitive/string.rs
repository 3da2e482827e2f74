//! Strings with escapes, which are read into a text of their own.

use vstd::prelude::*;
use vstd::string::StringExecFns;
use vstd::utf8::is_scalar;
use crate::utf8_parser::basic::{
    multispace1, multispace1_rel, one_char, one_char_rel, one_of_chars, one_of_chars_rel,
};
use crate::utf8_parser::char_categories::{decides, hex_digit, is_hex_digit};
use crate::utf8_parser::combinators;
use crate::utf8_parser::combinators::{
    advancing, alt2, alt2_rel, context, context_rel, cut, cut_rel, delimited, delimited_rel,
    fn_ens, fold_ens, fold_many0, fold_many0_rel, init_ens, lemma_delimited_wider,
    lemma_fold_many0_rel_wider, lemma_take_while1_wider, lemma_take_while_m_n_wider, lookahead,
    lookahead_rel, map_rel, map_res, map_res_rel, preceded, preceded_rel, sound, take_while1,
    take_while1_rel, take_while_m_n, take_while_m_n_rel, Rel,
};
use crate::utf8_parser::error::{BaseErrorKind, ErrorTree, Expectation, InputParseErr};
use crate::utf8_parser::input::Input;
use crate::utf8_parser::primitive::number::{number_of, parse_u64_radix};
use crate::utf8_parser::primitive::str::{is_plain_char, plain_char};
use crate::utf8_parser::text::lemma_ascii_len;
use crate::util::push_char;
use crate::utf8_parser::{IResultLookahead, OutputResult};

verus! {

/// The character with the number `v`, if there is one. It calls
/// `char::from_u32` of the standard library, which answers for every number
/// that is a Unicode scalar value, and for no other.
#[verifier::external_body]
fn char_from_u32(v: u32) -> (res: Option<char>)
    ensures
        res == (if is_scalar(v) {
            Some(v as char)
        } else {
            None
        }),
{
    char::from_u32(v)
}

/// What the digits of a unicode escape name. `at` is where the escape
/// began, and failures are reported there.
pub open spec fn scalar_result<'a>(at: Input<'a>, hex: Input<'a>) -> OutputResult<'a, char> {
    match number_of(hex.text(), 16) {
        Ok(v) => if v <= 0x10FFFF && is_scalar(v as u32) {
            Ok((v as u32) as char)
        } else {
            Err(
                InputParseErr::Fatal(
                    ErrorTree::expected_at(
                        at,
                        Expectation::UnicodeHexSequence {
                            got: if v <= u32::MAX {
                                v as u32
                            } else {
                                u32::MAX
                            },
                        },
                    ),
                ),
            )
        },
        Err(e) => Err(
            InputParseErr::Fatal(ErrorTree::Base { location: at, kind: BaseErrorKind::External(e) }),
        ),
    }
}

/// What naming a character by its digits does.
pub open spec fn as_scalar<'a>(at: Input<'a>) -> spec_fn(Input<'a>, OutputResult<'a, char>) -> bool {
    |hex: Input<'a>, out: OutputResult<'a, char>| out == scalar_result(at, hex)
}

fn to_scalar<'a>(at: Input<'a>, hex: Input<'a>) -> (res: OutputResult<'a, char>)
    requires
        hex.wf(),
    ensures
        as_scalar(at)(hex, res),
{
    match parse_u64_radix((16, hex)) {
        Err(e) => {
            match e {
                InputParseErr::Fatal(ErrorTree::Base { location: _, kind }) => Err(
                    InputParseErr::Fatal(ErrorTree::Base { location: at, kind }),
                ),
                other => Err(other),
            }
        },
        Ok(v) => {
            let got: u32 = if v <= 0xFFFF_FFFF {
                v as u32
            } else {
                0xFFFF_FFFF
            };
            if v <= 0x10FFFF {
                match char_from_u32(got) {
                    Some(c) => Ok(c),
                    None => Err(
                        InputParseErr::fatal(
                            ErrorTree::expected(at, Expectation::UnicodeHexSequence { got }),
                        ),
                    ),
                }
            } else {
                Err(
                    InputParseErr::fatal(
                        ErrorTree::expected(at, Expectation::UnicodeHexSequence { got }),
                    ),
                )
            }
        },
    }
}

/// One to six hexadecimal digits.
pub open spec fn hex_digits_rel<'a>() -> Rel<'a, Input<'a>> {
    take_while_m_n_rel(1, 6, decides(|c: char| hex_digit(c)), Expectation::HexDigit)
}

fn hex_digits<'a>(input: Input<'a>) -> (res: IResultLookahead<'a, Input<'a>>)
    requires
        input.wf(),
    ensures
        hex_digits_rel()(input, res),
        sound(input, res),
        res matches Ok(ok) ==> ok.parsed.wf(),
{
    let res = take_while_m_n(1, 6, is_hex_digit, Expectation::HexDigit, input);
    proof {
        lemma_take_while_m_n_wider(
            1,
            6,
            fn_ens(&is_hex_digit),
            decides(|c: char| hex_digit(c)),
            Expectation::HexDigit,
            input,
            res,
        );
    }
    res
}

fn brace_open<'a>(input: Input<'a>) -> (res: IResultLookahead<'a, char>)
    requires
        input.wf(),
    ensures
        one_char_rel('{')(input, res),
        sound(input, res),
{
    one_char('{', input)
}

fn brace_close<'a>(input: Input<'a>) -> (res: IResultLookahead<'a, char>)
    requires
        input.wf(),
    ensures
        one_char_rel('}')(input, res),
        sound(input, res),
{
    one_char('}', input)
}

/// The digits of a unicode escape between their braces, which have to
/// follow.
pub open spec fn braced_hex_rel<'a>() -> Rel<'a, Input<'a>> {
    cut_rel(delimited_rel(one_char_rel('{'), hex_digits_rel(), one_char_rel('}')))
}

fn braced_hex<'a>(input: Input<'a>) -> (res: IResultLookahead<'a, Input<'a>>)
    requires
        input.wf(),
    ensures
        braced_hex_rel()(input, res),
        sound(input, res),
        res matches Ok(ok) ==> ok.parsed.wf(),
{
    let braced = |c: Input<'a>| -> (r: IResultLookahead<'a, Input<'a>>)
        requires
            c.wf(),
        ensures
            delimited_rel(one_char_rel('{'), hex_digits_rel(), one_char_rel('}'))(c, r),
            sound(c, r),
            r matches Ok(ok) ==> ok.parsed.wf(),
        {
            let r = delimited(brace_open, hex_digits, brace_close, c);
            proof {
                lemma_delimited_wider(
                    combinators::ens(&brace_open),
                    one_char_rel('{'),
                    combinators::ens(&hex_digits),
                    hex_digits_rel(),
                    combinators::ens(&brace_close),
                    one_char_rel('}'),
                    c,
                    r,
                );
            }
            r
        };
    cut(braced, input)
}

/// The letter that starts a unicode escape; without it the failure is
/// recoverable.
pub open spec fn letter_u_rel<'a>() -> Rel<'a, char> {
    lookahead_rel(one_char_rel('u'))
}

fn letter_u<'a>(input: Input<'a>) -> (res: IResultLookahead<'a, char>)
    requires
        input.wf(),
    ensures
        letter_u_rel()(input, res),
        sound(input, res),
        advancing(input, res),
{
    let one = |d: Input<'a>| -> (r2: IResultLookahead<'a, char>)
        requires
            d.wf(),
        ensures
            one_char_rel('u')(d, r2),
            sound(d, r2),
            advancing(d, r2),
        { one_char('u', d) };
    lookahead(one, input)
}

/// `u` and the digits between braces.
pub open spec fn unicode_digits_rel<'a>() -> Rel<'a, Input<'a>> {
    preceded_rel(letter_u_rel(), braced_hex_rel())
}

fn unicode_digits<'a>(input: Input<'a>) -> (res: IResultLookahead<'a, Input<'a>>)
    requires
        input.wf(),
    ensures
        unicode_digits_rel()(input, res),
        sound(input, res),
        advancing(input, res),
        res matches Ok(ok) ==> ok.parsed.wf(),
{
    preceded(letter_u, braced_hex, input)
}

/// What `parse_unicode` does: it reads a sequence of the form `u{XXXX}`,
/// where `XXXX` is 1 to 6 hexadecimal numerals, and gives the character
/// with that number. Digits that name no character are a fatal failure
/// where the sequence began.
pub open spec fn parse_unicode_rel<'a>() -> Rel<'a, char> {
    |input: Input<'a>, res: IResultLookahead<'a, char>|
        map_res_rel(unicode_digits_rel(), as_scalar(input))(input, res)
}

/// Reads a unicode escape behind the backslash: `u{XXXX}`.
pub fn parse_unicode<'a>(input: Input<'a>) -> (res: IResultLookahead<'a, char>)
    requires
        input.wf(),
    ensures
        parse_unicode_rel()(input, res),
        sound(input, res),
        advancing(input, res),
{
    let named = |hex: Input<'a>| -> (out: OutputResult<'a, char>)
        requires
            hex.wf(),
        ensures
            as_scalar(input)(hex, out),
        { to_scalar(input, hex) };
    map_res(unicode_digits, named, input)
}

/// The character that a letter after a backslash stands for.
pub open spec fn escape_letter_rel<'a>() -> Rel<'a, char> {
    one_of_chars_rel("nrtbf\\/\"", &['\n', '\r', '\t', '\u{08}', '\u{0C}', '\\', '/', '"'])
}

fn escape_letter<'a>(input: Input<'a>) -> (res: IResultLookahead<'a, char>)
    requires
        input.wf(),
    ensures
        escape_letter_rel()(input, res),
        sound(input, res),
        advancing(input, res),
{
    proof {
        reveal_strlit("nrtbf\\/\"");
        lemma_ascii_len("nrtbf\\/\""@);
    }
    one_of_chars(
        "nrtbf\\/\"",
        &['\n', '\r', '\t', '\u{08}', '\u{0C}', '\\', '/', '"'],
        input,
    )
}

/// What has to follow a backslash: a unicode escape or an escape letter.
pub open spec fn escape_body_rel<'a>() -> Rel<'a, char> {
    cut_rel(alt2_rel(parse_unicode_rel(), escape_letter_rel()))
}

fn escape_body<'a>(input: Input<'a>) -> (res: IResultLookahead<'a, char>)
    requires
        input.wf(),
    ensures
        escape_body_rel()(input, res),
        sound(input, res),
        advancing(input, res),
{
    let either = |c: Input<'a>| -> (r: IResultLookahead<'a, char>)
        requires
            c.wf(),
        ensures
            alt2_rel(parse_unicode_rel(), escape_letter_rel())(c, r),
            sound(c, r),
            advancing(c, r),
        { alt2(parse_unicode, escape_letter, c) };
    cut(either, input)
}

/// A backslash; without it the failure is recoverable.
pub open spec fn backslash_rel<'a>() -> Rel<'a, char> {
    lookahead_rel(one_char_rel('\\'))
}

fn backslash<'a>(input: Input<'a>) -> (res: IResultLookahead<'a, char>)
    requires
        input.wf(),
    ensures
        backslash_rel()(input, res),
        sound(input, res),
        advancing(input, res),
{
    let one = |d: Input<'a>| -> (r2: IResultLookahead<'a, char>)
        requires
            d.wf(),
        ensures
            one_char_rel('\\')(d, r2),
            sound(d, r2),
            advancing(d, r2),
        { one_char('\\', d) };
    lookahead(one, input)
}

/// What `parse_escaped_char` does: it reads an escaped character: `\n`,
/// `\t`, `\r`, `\u{00AC}`, etc., and gives the character that it stands for.
pub open spec fn parse_escaped_char_rel<'a>() -> Rel<'a, char> {
    preceded_rel(backslash_rel(), escape_body_rel())
}

/// Reads an escaped character.
pub fn parse_escaped_char<'a>(input: Input<'a>) -> (res: IResultLookahead<'a, char>)
    requires
        input.wf(),
    ensures
        parse_escaped_char_rel()(input, res),
        sound(input, res),
        advancing(input, res),
{
    preceded(backslash, escape_body, input)
}

/// Blanks, one at least; without one the failure is recoverable.
pub open spec fn some_blanks_rel<'a>() -> Rel<'a, Input<'a>> {
    lookahead_rel(multispace1_rel())
}

fn some_blanks<'a>(input: Input<'a>) -> (res: IResultLookahead<'a, Input<'a>>)
    requires
        input.wf(),
    ensures
        some_blanks_rel()(input, res),
        sound(input, res),
{
    lookahead(multispace1, input)
}

/// What `parse_escaped_whitespace` does: it reads a backslash, followed by
/// any amount of whitespace. This is used later to discard any escaped
/// whitespace.
pub open spec fn parse_escaped_whitespace_rel<'a>() -> Rel<'a, Input<'a>> {
    preceded_rel(backslash_rel(), some_blanks_rel())
}

/// Reads a backslash and the blanks behind it.
pub fn parse_escaped_whitespace<'a>(input: Input<'a>) -> (res: IResultLookahead<'a, Input<'a>>)
    requires
        input.wf(),
    ensures
        parse_escaped_whitespace_rel()(input, res),
        sound(input, res),
        advancing(input, res),
{
    preceded(backslash, some_blanks, input)
}

/// The characters of a literal, one at least.
pub open spec fn plain_chars_rel<'a>() -> Rel<'a, Input<'a>> {
    take_while1_rel(decides(|c: char| plain_char(c)), Expectation::Something)
}

fn plain_chars<'a>(input: Input<'a>) -> (res: IResultLookahead<'a, Input<'a>>)
    requires
        input.wf(),
    ensures
        plain_chars_rel()(input, res),
        sound(input, res),
        advancing(input, res),
        res matches Ok(ok) ==> ok.parsed.wf(),
{
    let res = take_while1(is_plain_char, Expectation::Something, input);
    proof {
        lemma_take_while1_wider(
            fn_ens(&is_plain_char),
            decides(|c: char| plain_char(c)),
            Expectation::Something,
            input,
            res,
        );
    }
    res
}

/// What `parse_literal` does: it reads a non-empty block of text that
/// doesn't include `\` or `"`; where there is none the failure is
/// recoverable.
pub open spec fn parse_literal_rel<'a>() -> Rel<'a, Input<'a>> {
    lookahead_rel(plain_chars_rel())
}

/// Reads a run of characters that stand for themselves.
pub fn parse_literal<'a>(input: Input<'a>) -> (res: IResultLookahead<'a, Input<'a>>)
    requires
        input.wf(),
    ensures
        parse_literal_rel()(input, res),
        sound(input, res),
        advancing(input, res),
        res matches Ok(ok) ==> ok.parsed.wf(),
{
    lookahead(plain_chars, input)
}

/// A string fragment contains a fragment of a string being parsed: either
/// a non-empty Literal (a series of non-escaped characters), a single
/// parsed escaped character, or a block of escaped whitespace.
#[derive(Debug, Clone, Copy, PartialEq, Eq)]
pub enum StringFragment<'a> {
    Literal(&'a str),
    EscapedChar(char),
    EscapedWS,
}

impl<'a> StringFragment<'a> {
    /// What the fragment adds to the string.
    pub open spec fn text(self) -> Seq<char> {
        match self {
            StringFragment::Literal(s) => s@,
            StringFragment::EscapedChar(c) => seq![c],
            StringFragment::EscapedWS => Seq::<char>::empty(),
        }
    }
}

/// The fragment of a literal.
pub open spec fn as_literal<'a>() -> spec_fn(Input<'a>, StringFragment<'a>) -> bool {
    |m: Input<'a>, out: StringFragment<'a>|
        out matches StringFragment::Literal(s) && s@ == m.text()
}

/// The fragment of an escaped character.
pub open spec fn as_escaped<'a>() -> spec_fn(char, StringFragment<'a>) -> bool {
    |c: char, out: StringFragment<'a>| out == StringFragment::<'a>::EscapedChar(c)
}

/// The fragment of escaped blanks.
pub open spec fn as_blank<'a>() -> spec_fn(Input<'a>, StringFragment<'a>) -> bool {
    |m: Input<'a>, out: StringFragment<'a>| out == StringFragment::<'a>::EscapedWS
}

/// A literal, as a fragment.
pub open spec fn literal_fragment_rel<'a>() -> Rel<'a, StringFragment<'a>> {
    map_rel(parse_literal_rel(), as_literal())
}

fn literal_fragment<'a>(input: Input<'a>) -> (res: IResultLookahead<'a, StringFragment<'a>>)
    requires
        input.wf(),
    ensures
        literal_fragment_rel()(input, res),
        sound(input, res),
        advancing(input, res),
{
    let wrap = |m: Input<'a>| -> (out: StringFragment<'a>)
        requires
            m.wf(),
        ensures
            as_literal()(m, out),
        { StringFragment::Literal(m.fragment()) };
    combinators::map(parse_literal, wrap, input)
}

/// An escaped character, as a fragment.
pub open spec fn escaped_fragment_rel<'a>() -> Rel<'a, StringFragment<'a>> {
    map_rel(parse_escaped_char_rel(), as_escaped())
}

fn escaped_fragment<'a>(input: Input<'a>) -> (res: IResultLookahead<'a, StringFragment<'a>>)
    requires
        input.wf(),
    ensures
        escaped_fragment_rel()(input, res),
        sound(input, res),
        advancing(input, res),
{
    let wrap = |c: char| -> (out: StringFragment<'a>)
        ensures
            as_escaped()(c, out),
        { StringFragment::EscapedChar(c) };
    combinators::map(parse_escaped_char, wrap, input)
}

/// Escaped blanks, as a fragment.
pub open spec fn blank_fragment_rel<'a>() -> Rel<'a, StringFragment<'a>> {
    map_rel(parse_escaped_whitespace_rel(), as_blank())
}

fn blank_fragment<'a>(input: Input<'a>) -> (res: IResultLookahead<'a, StringFragment<'a>>)
    requires
        input.wf(),
    ensures
        blank_fragment_rel()(input, res),
        sound(input, res),
        advancing(input, res),
{
    let wrap = |m: Input<'a>| -> (out: StringFragment<'a>)
        ensures
            as_blank()(m, out),
        { StringFragment::EscapedWS };
    combinators::map(parse_escaped_whitespace, wrap, input)
}

/// A backslash and what it escapes: blanks, or else a character.
pub open spec fn escape_fragment_rel<'a>() -> Rel<'a, StringFragment<'a>> {
    alt2_rel(blank_fragment_rel(), escaped_fragment_rel())
}

fn escape_fragment<'a>(input: Input<'a>) -> (res: IResultLookahead<'a, StringFragment<'a>>)
    requires
        input.wf(),
    ensures
        escape_fragment_rel()(input, res),
        sound(input, res),
        advancing(input, res),
{
    alt2(blank_fragment, escaped_fragment, input)
}

/// What `parse_fragment` does: it reads a literal, or else escaped blanks,
/// or else an escaped character.
pub open spec fn parse_fragment_rel<'a>() -> Rel<'a, StringFragment<'a>> {
    alt2_rel(literal_fragment_rel(), escape_fragment_rel())
}

/// Reads one fragment of a string.
pub fn parse_fragment<'a>(input: Input<'a>) -> (res: IResultLookahead<'a, StringFragment<'a>>)
    requires
        input.wf(),
    ensures
        parse_fragment_rel()(input, res),
        sound(input, res),
        advancing(input, res),
{
    alt2(literal_fragment, escape_fragment, input)
}

/// The empty string, from which a string is built.
pub open spec fn empty_string() -> spec_fn((), String) -> bool {
    |u: (), out: String| out@ == Seq::<char>::empty()
}

/// A string with a fragment added at its end.
pub open spec fn with_fragment<'a>() -> spec_fn((String, StringFragment<'a>), String) -> bool {
    |x: (String, StringFragment<'a>), out: String| out@ == x.0@ + x.1.text()
}

fn add_fragment<'a>(string: String, fragment: StringFragment<'a>) -> (res: String)
    ensures
        with_fragment()((string, fragment), res),
{
    let mut string = string;
    match fragment {
        StringFragment::Literal(s) => {
            string.append(s);
        },
        StringFragment::EscapedChar(c) => {
            let ghost before = string@;
            push_char(&mut string, c);
            assert(string@ =~= before + seq![c]);
        },
        StringFragment::EscapedWS => {
            assert(string@ =~= string@ + Seq::<char>::empty());
        },
    }
    string
}

/// The text of a string: its fragments, one after the other.
pub open spec fn build_string_rel<'a>() -> Rel<'a, String> {
    fold_many0_rel(parse_fragment_rel(), empty_string(), with_fragment())
}

fn build_string<'a>(input: Input<'a>) -> (res: IResultLookahead<'a, String>)
    requires
        input.wf(),
    ensures
        build_string_rel()(input, res),
        sound(input, res),
{
    let start = || -> (s: String)
        ensures
            empty_string()((), s),
        { String::new() };
    let res = fold_many0(parse_fragment, start, add_fragment, input);
    proof {
        lemma_fold_many0_rel_wider(
            combinators::ens(&parse_fragment),
            parse_fragment_rel(),
            init_ens(&start),
            empty_string(),
            fold_ens(&add_fragment),
            with_fragment(),
            input,
            res,
        );
    }
    res
}

fn quote<'a>(input: Input<'a>) -> (res: IResultLookahead<'a, char>)
    requires
        input.wf(),
    ensures
        one_char_rel('"')(input, res),
        sound(input, res),
{
    one_char('"', input)
}

/// What `parse_string` does: it reads a string between quotes and gives
/// its text, with every escape replaced by what it stands for.
pub open spec fn parse_string_rel<'a>() -> Rel<'a, String> {
    context_rel("string", delimited_rel(one_char_rel('"'), build_string_rel(), one_char_rel('"')))
}

/// Parse a string. Use a loop of parse_fragment and push all of the fragments
/// into an output string.
pub fn parse_string<'a>(input: Input<'a>) -> (res: IResultLookahead<'a, String>)
    requires
        input.wf(),
    ensures
        parse_string_rel()(input, res),
        sound(input, res),
{
    let quoted = |c: Input<'a>| -> (r: IResultLookahead<'a, String>)
        requires
            c.wf(),
        ensures
            delimited_rel(one_char_rel('"'), build_string_rel(), one_char_rel('"'))(c, r),
            sound(c, r),
        {
            let r = delimited(quote, build_string, quote, c);
            proof {
                lemma_delimited_wider(
                    combinators::ens(&quote),
                    one_char_rel('"'),
                    combinators::ens(&build_string),
                    build_string_rel(),
                    combinators::ens(&quote),
                    one_char_rel('"'),
                    c,
                    r,
                );
            }
            r
        };
    context("string", quoted, input)
}

} // verus!
