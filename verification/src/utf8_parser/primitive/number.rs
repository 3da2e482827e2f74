//! Numbers: signs, integers in base 10, 2, 8 and 16, and numbers with a
//! decimal point.

use vstd::prelude::*;
use crate::utf8_parser::basic::{
    one_char, one_char_rel, one_of_chars, one_of_chars_rel,
};
use crate::utf8_parser::char_categories::{
    decides, digit, digit_first, hex_digit, is_digit, is_digit_first, is_hex_digit,
};
use crate::utf8_parser::combinators;
use crate::utf8_parser::combinators::{
    advancing, alt2, alt2_rel, context, context_rel, fn_ens, lemma_take1_if_wider,
    lemma_take_while_wider, lookahead, lookahead_rel, map_rel, map_res, map_res_rel, opt,
    opt_rel, pair, pair_rel, preceded, preceded_rel, recognize, recognize_rel, sound, take1_if,
    take1_if_rel, take_while, take_while_rel, terminated, terminated_rel, Rel,
};
use crate::utf8_parser::error::{
    BaseErrorKind, ConversionError, ErrorTree, Expectation, InputParseErr,
};
use crate::utf8_parser::input::Input;
use crate::utf8_parser::pt::{Decimal, Integer, Sign, SignedInteger, UnsignedInteger};
use crate::utf8_parser::text::lemma_ascii_len;
use crate::utf8_parser::{IResultLookahead, OutputResult};

verus! {

/// What `sign` does: it reads `+` or `-`.
pub open spec fn sign_rel<'a>() -> Rel<'a, Sign> {
    one_of_chars_rel("+-", &[Sign::Positive, Sign::Negative])
}

/// Reads a sign.
pub fn sign<'a>(input: Input<'a>) -> (res: IResultLookahead<'a, Sign>)
    requires
        input.wf(),
    ensures
        sign_rel()(input, res),
        sound(input, res),
        advancing(input, res),
{
    proof {
        reveal_strlit("+-");
        lemma_ascii_len("+-"@);
    }
    one_of_chars("+-", &[Sign::Positive, Sign::Negative], input)
}

/// What `c` counts as a digit: 0 to 9 for the decimal digits, 10 to 35 for
/// the letters, whatever their case.
pub open spec fn digit_value(c: char) -> Option<nat> {
    if '0' <= c <= '9' {
        Some((c as nat - '0' as nat) as nat)
    } else if 'a' <= c <= 'z' {
        Some((c as nat - 'a' as nat + 10) as nat)
    } else if 'A' <= c <= 'Z' {
        Some((c as nat - 'A' as nat + 10) as nat)
    } else {
        None
    }
}

/// The number that the digits of `text` from the `i`-th on add to `acc`, in
/// base `radix`; or the first thing in the way: a character that is no
/// digit of the base, or a number that has outgrown 64 bits.
pub open spec fn number_from(text: Seq<char>, radix: u32, i: int, acc: u64) -> Result<
    u64,
    ConversionError,
>
    decreases text.len() - i,
{
    if i < 0 || i >= text.len() {
        Ok(acc)
    } else {
        match digit_value(text[i]) {
            Some(d) => if d >= radix {
                Err(ConversionError::InvalidDigit)
            } else if acc * radix + d > u64::MAX {
                Err(ConversionError::PosOverflow)
            } else {
                number_from(text, radix, i + 1, (acc * radix + d) as u64)
            },
            None => Err(ConversionError::InvalidDigit),
        }
    }
}

/// The number that `text` writes in base `radix`. An empty text is no
/// number.
pub open spec fn number_of(text: Seq<char>, radix: u32) -> Result<u64, ConversionError> {
    if text.len() == 0 {
        Err(ConversionError::Empty)
    } else {
        number_from(text, radix, 0, 0)
    }
}

/// The number that the digits of `text` write in base `radix`: each digit
/// counts `radix` times as much as the digit behind it.
pub open spec fn digits_value(text: Seq<char>, radix: nat) -> nat
    decreases text.len(),
{
    if text.len() == 0 {
        0
    } else {
        digits_value(text.drop_last(), radix) * radix + (match digit_value(text.last()) {
            Some(d) => d,
            None => 0,
        })
    }
}

/// `c` is a digit of the base `radix`.
pub open spec fn is_digit_of(c: char, radix: nat) -> bool {
    digit_value(c) matches Some(d) && d < radix
}

/// Every character of `text` is a digit of the base `radix`.
pub open spec fn all_digits(text: Seq<char>, radix: nat) -> bool {
    forall|i: int|
        0 <= i < text.len() ==> is_digit_of(#[trigger] text[i], radix)
}

/// More digits write no smaller number.
pub proof fn lemma_digits_value_grows(text: Seq<char>, radix: nat, j: int)
    requires
        radix >= 1,
        0 <= j <= text.len(),
    ensures
        digits_value(text.take(j), radix) <= digits_value(text, radix),
    decreases text.len() - j,
{
    if j == text.len() {
        assert(text.take(j) =~= text);
    } else {
        lemma_digits_value_grows(text, radix, j + 1);
        assert(text.take(j + 1).drop_last() =~= text.take(j));
        let x = digits_value(text.take(j), radix);
        assert(x * radix >= x) by (nonlinear_arith)
            requires
                radix >= 1,
                x >= 0,
        ;
    }
}

/// Reading on from the `i`-th digit gives the number that all digits write,
/// where `acc` is the number that the digits before write.
proof fn lemma_number_from(text: Seq<char>, radix: u32, i: int, acc: u64)
    requires
        2 <= radix <= 36,
        0 <= i <= text.len(),
        all_digits(text.take(i), radix as nat),
        acc == digits_value(text.take(i), radix as nat),
    ensures
        number_from(text, radix, i, acc) matches Ok(n) ==> n == digits_value(text, radix as nat),
        number_from(text, radix, i, acc) is Ok <==> all_digits(text, radix as nat)
            && digits_value(text, radix as nat) <= u64::MAX,
    decreases text.len() - i,
{
    if i == text.len() {
        assert(text.take(i) =~= text);
    } else {
        assert(text.take(i + 1).drop_last() =~= text.take(i));
        assert(text.take(i + 1).last() == text[i]);
        match digit_value(text[i]) {
            Some(d) => {
                if d >= radix {
                } else if acc * radix + d > u64::MAX {
                    lemma_digits_value_grows(text, radix as nat, i + 1);
                } else {
                    assert forall|j: int| 0 <= j < text.take(i + 1).len() implies is_digit_of(
                        #[trigger] text.take(i + 1)[j],
                        radix as nat,
                    ) by {
                        if j < i {
                            assert(text.take(i)[j] == text.take(i + 1)[j]);
                        }
                    }
                    lemma_number_from(text, radix, i + 1, (acc * radix + d) as u64);
                }
            },
            None => {},
        }
    }
}

/// A text is a number exactly where it is not empty, all its characters
/// are digits of the base and the number that they write fits 64 bits; and
/// then it is that number.
pub proof fn number_is_the_value_of_its_digits(text: Seq<char>, radix: u32)
    requires
        2 <= radix <= 36,
    ensures
        number_of(text, radix) matches Ok(n) ==> n == digits_value(text, radix as nat),
        number_of(text, radix) is Ok <==> text.len() > 0 && all_digits(text, radix as nat)
            && digits_value(text, radix as nat) <= u64::MAX,
{
    if text.len() > 0 {
        assert(text.take(0) =~= Seq::<char>::empty());
        lemma_number_from(text, radix, 0, 0);
    }
}

/// What turning a run of digits into a number gives; a run that is no
/// number is a fatal failure at the run.
pub open spec fn parse_u64_result<'a>(radix: u32, input: Input<'a>) -> OutputResult<'a, u64> {
    match number_of(input.text(), radix) {
        Ok(n) => Ok(n),
        Err(e) => Err(
            InputParseErr::Fatal(
                ErrorTree::Base { location: input, kind: BaseErrorKind::External(e) },
            ),
        ),
    }
}

/// What `parse_u64_dec` does.
pub open spec fn as_decimal<'a>() -> spec_fn(Input<'a>, OutputResult<'a, u64>) -> bool {
    |m: Input<'a>, out: OutputResult<'a, u64>| out == parse_u64_result(10, m)
}

/// What `parse_u64_radix` does.
pub open spec fn as_radix<'a>() -> spec_fn((u32, Input<'a>), OutputResult<'a, u64>) -> bool {
    |m: (u32, Input<'a>), out: OutputResult<'a, u64>| out == parse_u64_result(m.0, m.1)
}

/// Computes what `c` counts as a digit.
fn to_digit(c: char) -> (res: Option<u32>)
    ensures
        res matches Some(d) ==> digit_value(c) == Some(d as nat),
        res is None ==> digit_value(c) is None,
{
    if '0' <= c && c <= '9' {
        Some(c as u32 - '0' as u32)
    } else if 'a' <= c && c <= 'z' {
        Some(c as u32 - 'a' as u32 + 10)
    } else if 'A' <= c && c <= 'Z' {
        Some(c as u32 - 'A' as u32 + 10)
    } else {
        None
    }
}

/// Turns a run of digits in base `radix` into a number.
pub fn parse_u64_radix<'a>(radix_input: (u32, Input<'a>)) -> (res: OutputResult<'a, u64>)
    requires
        radix_input.1.wf(),
        2 <= radix_input.0 <= 36,
    ensures
        res == parse_u64_result(radix_input.0, radix_input.1),
        as_radix()(radix_input, res),
{
    let radix = radix_input.0;
    let input = radix_input.1;
    if input.is_empty() {
        return Err(
            InputParseErr::fatal(
                ErrorTree::Base {
                    location: input,
                    kind: BaseErrorKind::External(ConversionError::Empty),
                },
            ),
        );
    }
    let mut cur = input;
    let mut acc: u64 = 0;
    let ghost mut i: int = 0;
    proof {
        input.lemma_skip_chars(0);
        assert(input.text().take(0) =~= Seq::<char>::empty());
        assert(input.text().skip(0) =~= input.text());
    }
    loop
        invariant
            input.wf(),
            radix == radix_input.0,
            input == radix_input.1,
            input.text().len() > 0,
            2 <= radix <= 36,
            0 <= i <= input.text().len(),
            cur == input.skip_chars(i),
            cur.is_rest_of(input),
            cur.text() == input.text().skip(i),
            number_from(input.text(), radix, 0, 0) == number_from(input.text(), radix, i, acc),
        decreases input.text().len() - i,
    {
        match cur.first_char() {
            None => {
                return Ok(acc);
            },
            Some(c) => {
                let kind = match to_digit(c) {
                    None => Some(ConversionError::InvalidDigit),
                    Some(d) => {
                        if d >= radix {
                            Some(ConversionError::InvalidDigit)
                        } else {
                            match acc.checked_mul(radix as u64) {
                                None => Some(ConversionError::PosOverflow),
                                Some(scaled) => match scaled.checked_add(d as u64) {
                                    None => Some(ConversionError::PosOverflow),
                                    Some(next) => {
                                        acc = next;
                                        None
                                    },
                                },
                            }
                        }
                    },
                };
                match kind {
                    Some(e) => {
                        return Err(
                            InputParseErr::fatal(
                                ErrorTree::Base {
                                    location: input,
                                    kind: BaseErrorKind::External(e),
                                },
                            ),
                        );
                    },
                    None => {
                        cur = cur.step_over(c, input, Ghost(i));
                        proof {
                            i = i + 1;
                        }
                    },
                }
            },
        }
    }
}

/// Turns a run of decimal digits into a number.
pub fn parse_u64_dec<'a>(input: Input<'a>) -> (res: OutputResult<'a, u64>)
    requires
        input.wf(),
    ensures
        res == parse_u64_result(10, input),
        as_decimal()(input, res),
{
    parse_u64_radix((10, input))
}

/// The test that accepts the decimal digits.
pub open spec fn digits() -> spec_fn(char, bool) -> bool {
    decides(|c: char| digit(c))
}

/// The run of decimal digits at the start.
pub open spec fn digit_run_rel<'a>() -> Rel<'a, Input<'a>> {
    take_while_rel(digits())
}

fn digit_run<'a>(input: Input<'a>) -> (res: IResultLookahead<'a, Input<'a>>)
    requires
        input.wf(),
    ensures
        digit_run_rel()(input, res),
        sound(input, res),
        res matches Ok(ok) && ok.parsed.wf() && ok.discarded_error is None,
{
    let res = take_while(is_digit, input);
    proof {
        lemma_take_while_wider(fn_ens(&is_digit), digits(), input, res);
    }
    res
}

/// What `decimal_unsigned` does: it reads the decimal digits at the start
/// and gives their number; without a digit, and with a number beyond 64
/// bits, it fails fatally.
pub open spec fn decimal_unsigned_rel<'a>() -> Rel<'a, u64> {
    map_res_rel(digit_run_rel(), as_decimal())
}

/// Reads a decimal number without a sign.
pub fn decimal_unsigned<'a>(input: Input<'a>) -> (res: IResultLookahead<'a, u64>)
    requires
        input.wf(),
    ensures
        decimal_unsigned_rel()(input, res),
        sound(input, res),
{
    map_res(digit_run, parse_u64_dec, input)
}

/// The number of the digits after the point, and how many they are, counted
/// in 16 bits.
pub open spec fn as_fraction<'a>() -> spec_fn(Input<'a>, OutputResult<'a, (u64, u16)>) -> bool {
    |m: Input<'a>, out: OutputResult<'a, (u64, u16)>|
        out == (match parse_u64_result(10, m) {
            Ok(n) => Ok::<(u64, u16), InputParseErr<'a>>((n, (m.size() % 0x10000) as u16)),
            Err(e) => Err::<(u64, u16), InputParseErr<'a>>(e),
        })
}

fn fraction_of<'a>(input: Input<'a>) -> (res: OutputResult<'a, (u64, u16)>)
    requires
        input.wf(),
    ensures
        as_fraction()(input, res),
{
    match parse_u64_dec(input) {
        Ok(n) => Ok((n, (input.len() % 0x10000) as u16)),
        Err(e) => Err(e),
    }
}

/// What `fractional_part` does: it reads the decimal digits at the start.
pub open spec fn fractional_part_rel<'a>() -> Rel<'a, (u64, u16)> {
    map_res_rel(digit_run_rel(), as_fraction())
}

/// Reads the digits behind a decimal point: their number, and how many they
/// are.
pub fn fractional_part<'a>(input: Input<'a>) -> (res: IResultLookahead<'a, (u64, u16)>)
    requires
        input.wf(),
    ensures
        fractional_part_rel()(input, res),
        sound(input, res),
{
    map_res(digit_run, fraction_of, input)
}

/// A lone `0`.
pub open spec fn zero_rel<'a>() -> Rel<'a, Input<'a>> {
    recognize_rel(lookahead_rel(one_char_rel('0')))
}

fn zero<'a>(input: Input<'a>) -> (res: IResultLookahead<'a, Input<'a>>)
    requires
        input.wf(),
    ensures
        zero_rel()(input, res),
        sound(input, res),
        res matches Ok(ok) ==> ok.parsed.wf(),
{
    let digit = |c: Input<'a>| -> (r: IResultLookahead<'a, char>)
        requires
            c.wf(),
        ensures
            lookahead_rel(one_char_rel('0'))(c, r),
            sound(c, r),
        {
            let one = |d: Input<'a>| -> (r2: IResultLookahead<'a, char>)
                requires
                    d.wf(),
                ensures
                    one_char_rel('0')(d, r2),
                    sound(d, r2),
                { one_char('0', d) };
            lookahead(one, c)
        };
    recognize(digit, input)
}

/// A digit from 1 to 9.
pub open spec fn first_digit_rel<'a>() -> Rel<'a, Input<'a>> {
    take1_if_rel(decides(|c: char| digit_first(c)), Expectation::DigitFirst)
}

fn first_digit<'a>(input: Input<'a>) -> (res: IResultLookahead<'a, Input<'a>>)
    requires
        input.wf(),
    ensures
        first_digit_rel()(input, res),
        sound(input, res),
{
    let res = take1_if(is_digit_first, Expectation::DigitFirst, input);
    proof {
        lemma_take1_if_wider(
            fn_ens(&is_digit_first),
            decides(|c: char| digit_first(c)),
            Expectation::DigitFirst,
            input,
            res,
        );
    }
    res
}

/// A digit from 1 to 9 and the digits that follow it.
pub open spec fn nonzero_rel<'a>() -> Rel<'a, Input<'a>> {
    preceded_rel(first_digit_rel(), digit_run_rel())
}

fn nonzero<'a>(input: Input<'a>) -> (res: IResultLookahead<'a, Input<'a>>)
    requires
        input.wf(),
    ensures
        nonzero_rel()(input, res),
        sound(input, res),
{
    preceded(first_digit, digit_run, input)
}

/// A lone `0`, or a digit from 1 to 9 and the digits that follow it.
pub open spec fn plain_digits_rel<'a>() -> Rel<'a, Input<'a>> {
    recognize_rel(alt2_rel(zero_rel(), nonzero_rel()))
}

fn plain_digits<'a>(input: Input<'a>) -> (res: IResultLookahead<'a, Input<'a>>)
    requires
        input.wf(),
    ensures
        plain_digits_rel()(input, res),
        sound(input, res),
        res matches Ok(ok) ==> ok.parsed.wf(),
{
    let either = |c: Input<'a>| -> (r: IResultLookahead<'a, Input<'a>>)
        requires
            c.wf(),
        ensures
            alt2_rel(zero_rel(), nonzero_rel())(c, r),
            sound(c, r),
        { alt2(zero, nonzero, c) };
    recognize(either, input)
}

/// What `decimal_unsigned_no_leading_zero` does: it reads a decimal number
/// that does not start with 0 unless it is 0.
pub open spec fn decimal_unsigned_no_leading_zero_rel<'a>() -> Rel<'a, u64> {
    map_res_rel(plain_digits_rel(), as_decimal())
}

/// Reads a decimal number that does not start with 0 unless it is 0.
pub fn decimal_unsigned_no_leading_zero<'a>(input: Input<'a>) -> (res: IResultLookahead<'a, u64>)
    requires
        input.wf(),
    ensures
        decimal_unsigned_no_leading_zero_rel()(input, res),
        sound(input, res),
{
    map_res(plain_digits, parse_u64_dec, input)
}

/// The prefix of a number in base 2, 8 or 16: `0b`, `0o` or `0x`. Its value
/// is the base.
pub open spec fn radix_prefix_rel<'a>() -> Rel<'a, u32> {
    lookahead_rel(preceded_rel(one_char_rel('0'), one_of_chars_rel("box", &[2u32, 8u32, 16u32])))
}

fn radix_prefix<'a>(input: Input<'a>) -> (res: IResultLookahead<'a, u32>)
    requires
        input.wf(),
    ensures
        radix_prefix_rel()(input, res),
        sound(input, res),
        res matches Ok(ok) ==> 2 <= ok.parsed <= 16,
{
    let prefix = |c: Input<'a>| -> (r: IResultLookahead<'a, u32>)
        requires
            c.wf(),
        ensures
            preceded_rel(one_char_rel('0'), one_of_chars_rel("box", &[2u32, 8u32, 16u32]))(c, r),
            sound(c, r),
            r matches Ok(ok) ==> 2 <= ok.parsed <= 16,
        {
            let zero = |d: Input<'a>| -> (r2: IResultLookahead<'a, char>)
                requires
                    d.wf(),
                ensures
                    one_char_rel('0')(d, r2),
                    sound(d, r2),
                { one_char('0', d) };
            let base = |d: Input<'a>| -> (r2: IResultLookahead<'a, u32>)
                requires
                    d.wf(),
                ensures
                    one_of_chars_rel("box", &[2u32, 8u32, 16u32])(d, r2),
                    sound(d, r2),
                    r2 matches Ok(ok) ==> 2 <= ok.parsed <= 16,
                {
                    proof {
                        reveal_strlit("box");
                        lemma_ascii_len("box"@);
                    }
                    one_of_chars("box", &[2u32, 8u32, 16u32], d)
                };
            preceded(zero, base, c)
        };
    lookahead(prefix, input)
}

/// The run of hexadecimal digits at the start.
pub open spec fn hex_run_rel<'a>() -> Rel<'a, Input<'a>> {
    take_while_rel(decides(|c: char| hex_digit(c)))
}

fn hex_run<'a>(input: Input<'a>) -> (res: IResultLookahead<'a, Input<'a>>)
    requires
        input.wf(),
    ensures
        hex_run_rel()(input, res),
        sound(input, res),
        res matches Ok(ok) && ok.parsed.wf(),
{
    let res = take_while(is_hex_digit, input);
    proof {
        lemma_take_while_wider(fn_ens(&is_hex_digit), decides(|c: char| hex_digit(c)), input, res);
    }
    res
}

/// What `alt_radix_unsigned` does: it reads `0b`, `0o` or `0x` and the
/// hexadecimal digits that follow, and gives their number in that base.
/// Without the prefix it fails recoverably; digits that are no number of
/// the base are a fatal failure.
pub open spec fn alt_radix_unsigned_rel<'a>() -> Rel<'a, u64> {
    map_res_rel(pair_rel(radix_prefix_rel(), hex_run_rel()), as_radix())
}

/// Reads a number in base 2, 8 or 16, behind `0b`, `0o` or `0x`.
pub fn alt_radix_unsigned<'a>(input: Input<'a>) -> (res: IResultLookahead<'a, u64>)
    requires
        input.wf(),
    ensures
        alt_radix_unsigned_rel()(input, res),
        sound(input, res),
{
    let both = |c: Input<'a>| -> (r: IResultLookahead<'a, (u32, Input<'a>)>)
        requires
            c.wf(),
        ensures
            pair_rel(radix_prefix_rel(), hex_run_rel())(c, r),
            sound(c, r),
            r matches Ok(ok) ==> 2 <= ok.parsed.0 <= 16 && ok.parsed.1.wf(),
        { pair(radix_prefix, hex_run, c) };
    map_res(both, parse_u64_radix, input)
}

/// Makes an unsigned integer of a number.
pub open spec fn as_unsigned() -> spec_fn(u64, UnsignedInteger) -> bool {
    |number: u64, out: UnsignedInteger| out == (UnsignedInteger { number })
}

/// What `unsigned_integer` does: it reads a number with the prefix of a
/// base, or else a decimal number without a leading zero.
pub open spec fn unsigned_integer_rel<'a>() -> Rel<'a, UnsignedInteger> {
    map_rel(
        alt2_rel(alt_radix_unsigned_rel(), decimal_unsigned_no_leading_zero_rel()),
        as_unsigned(),
    )
}

/// Reads an integer without a sign.
pub fn unsigned_integer<'a>(input: Input<'a>) -> (res: IResultLookahead<'a, UnsignedInteger>)
    requires
        input.wf(),
    ensures
        unsigned_integer_rel()(input, res),
        sound(input, res),
{
    let number = |c: Input<'a>| -> (r: IResultLookahead<'a, u64>)
        requires
            c.wf(),
        ensures
            alt2_rel(alt_radix_unsigned_rel(), decimal_unsigned_no_leading_zero_rel())(c, r),
            sound(c, r),
        { alt2(alt_radix_unsigned, decimal_unsigned_no_leading_zero, c) };
    let wrap = |number: u64| -> (out: UnsignedInteger)
        ensures
            as_unsigned()(number, out),
        { UnsignedInteger { number } };
    combinators::map(number, wrap, input)
}

/// A sign that may follow; without one the failure is recoverable.
pub open spec fn some_sign_rel<'a>() -> Rel<'a, Sign> {
    lookahead_rel(sign_rel())
}

fn some_sign<'a>(input: Input<'a>) -> (res: IResultLookahead<'a, Sign>)
    requires
        input.wf(),
    ensures
        some_sign_rel()(input, res),
        sound(input, res),
{
    lookahead(sign, input)
}

/// Makes a signed integer of a sign and a number.
pub open spec fn as_signed() -> spec_fn((Sign, u64), SignedInteger) -> bool {
    |p: (Sign, u64), out: SignedInteger| out == (SignedInteger { sign: p.0, number: p.1 })
}

/// What `signed_integer` does: it reads a sign and a decimal number.
pub open spec fn signed_integer_rel<'a>() -> Rel<'a, SignedInteger> {
    map_rel(pair_rel(some_sign_rel(), decimal_unsigned_rel()), as_signed())
}

/// Reads an integer with a sign.
pub fn signed_integer<'a>(input: Input<'a>) -> (res: IResultLookahead<'a, SignedInteger>)
    requires
        input.wf(),
    ensures
        signed_integer_rel()(input, res),
        sound(input, res),
{
    let both = |c: Input<'a>| -> (r: IResultLookahead<'a, (Sign, u64)>)
        requires
            c.wf(),
        ensures
            pair_rel(some_sign_rel(), decimal_unsigned_rel())(c, r),
            sound(c, r),
        { pair(some_sign, decimal_unsigned, c) };
    let wrap = |p: (Sign, u64)| -> (out: SignedInteger)
        ensures
            as_signed()(p, out),
        { SignedInteger { sign: p.0, number: p.1 } };
    combinators::map(both, wrap, input)
}

/// What `integer` does: it reads a signed integer, or else an unsigned one.
pub open spec fn integer_rel<'a>() -> Rel<'a, Integer> {
    context_rel(
        "integer",
        alt2_rel(
            map_rel(signed_integer_rel(), |s: SignedInteger, out: Integer| out == Integer::Signed(s)),
            map_rel(
                unsigned_integer_rel(),
                |u: UnsignedInteger, out: Integer| out == Integer::Unsigned(u),
            ),
        ),
    )
}

/// Reads an integer, with or without a sign.
pub fn integer<'a>(input: Input<'a>) -> (res: IResultLookahead<'a, Integer>)
    requires
        input.wf(),
    ensures
        integer_rel()(input, res),
        sound(input, res),
{
    let either = |c: Input<'a>| -> (r: IResultLookahead<'a, Integer>)
        requires
            c.wf(),
        ensures
            alt2_rel(
                map_rel(
                    signed_integer_rel(),
                    |s: SignedInteger, out: Integer| out == Integer::Signed(s),
                ),
                map_rel(
                    unsigned_integer_rel(),
                    |u: UnsignedInteger, out: Integer| out == Integer::Unsigned(u),
                ),
            )(c, r),
            sound(c, r),
        {
            let signed = |d: Input<'a>| -> (r2: IResultLookahead<'a, Integer>)
                requires
                    d.wf(),
                ensures
                    map_rel(
                        signed_integer_rel(),
                        |s: SignedInteger, out: Integer| out == Integer::Signed(s),
                    )(d, r2),
                    sound(d, r2),
                {
                    let wrap = |s: SignedInteger| -> (out: Integer)
                        ensures
                            out == Integer::Signed(s),
                        { Integer::Signed(s) };
                    let r2 = combinators::map(signed_integer, wrap, d);
                    r2
                };
            let unsigned = |d: Input<'a>| -> (r2: IResultLookahead<'a, Integer>)
                requires
                    d.wf(),
                ensures
                    map_rel(
                        unsigned_integer_rel(),
                        |u: UnsignedInteger, out: Integer| out == Integer::Unsigned(u),
                    )(d, r2),
                    sound(d, r2),
                {
                    let wrap = |u: UnsignedInteger| -> (out: Integer)
                        ensures
                            out == Integer::Unsigned(u),
                        { Integer::Unsigned(u) };
                    let r2 = combinators::map(unsigned_integer, wrap, d);
                    r2
                };
            alt2(signed, unsigned, c)
        };
    context("integer", either, input)
}

/// A sign, if one is there.
pub open spec fn opt_sign_rel<'a>() -> Rel<'a, Option<Sign>> {
    opt_rel(some_sign_rel())
}

fn opt_sign<'a>(input: Input<'a>) -> (res: IResultLookahead<'a, Option<Sign>>)
    requires
        input.wf(),
    ensures
        opt_sign_rel()(input, res),
        sound(input, res),
{
    opt(some_sign, input)
}

/// Keeps the low 16 bits of a number.
pub open spec fn as_u16() -> spec_fn(u64, u16) -> bool {
    |n: u64, out: u16| out == (n % 0x10000) as u16
}

/// The digits of an exponent, as a number of 16 bits.
pub open spec fn exponent_digits_rel<'a>() -> Rel<'a, u16> {
    map_rel(decimal_unsigned_rel(), as_u16())
}

fn exponent_digits<'a>(input: Input<'a>) -> (res: IResultLookahead<'a, u16>)
    requires
        input.wf(),
    ensures
        exponent_digits_rel()(input, res),
        sound(input, res),
{
    let low = |n: u64| -> (out: u16)
        ensures
            as_u16()(n, out),
        { (n % 0x10000) as u16 };
    combinators::map(decimal_unsigned, low, input)
}

/// The letter that starts an exponent.
pub open spec fn exponent_mark_rel<'a>() -> Rel<'a, ()> {
    one_of_chars_rel("eE", &[(), ()])
}

fn exponent_mark<'a>(input: Input<'a>) -> (res: IResultLookahead<'a, ()>)
    requires
        input.wf(),
    ensures
        exponent_mark_rel()(input, res),
        sound(input, res),
{
    proof {
        reveal_strlit("eE");
        lemma_ascii_len("eE"@);
    }
    one_of_chars("eE", &[(), ()], input)
}

/// The sign and the digits of an exponent.
pub open spec fn exponent_value_rel<'a>() -> Rel<'a, (Option<Sign>, u16)> {
    pair_rel(opt_sign_rel(), exponent_digits_rel())
}

fn exponent_value<'a>(input: Input<'a>) -> (res: IResultLookahead<'a, (Option<Sign>, u16)>)
    requires
        input.wf(),
    ensures
        exponent_value_rel()(input, res),
        sound(input, res),
{
    pair(opt_sign, exponent_digits, input)
}

/// An exponent: `e` or `E`, a sign if one is there, and digits.
pub open spec fn exponent_rel<'a>() -> Rel<'a, (Option<Sign>, u16)> {
    lookahead_rel(preceded_rel(exponent_mark_rel(), exponent_value_rel()))
}

fn exponent<'a>(input: Input<'a>) -> (res: IResultLookahead<'a, (Option<Sign>, u16)>)
    requires
        input.wf(),
    ensures
        exponent_rel()(input, res),
        sound(input, res),
{
    let marked = |c: Input<'a>| -> (r: IResultLookahead<'a, (Option<Sign>, u16)>)
        requires
            c.wf(),
        ensures
            preceded_rel(exponent_mark_rel(), exponent_value_rel())(c, r),
            sound(c, r),
        { preceded(exponent_mark, exponent_value, c) };
    lookahead(marked, input)
}

/// What `decimal_exp` does: it reads an exponent, if one is there.
pub open spec fn decimal_exp_rel<'a>() -> Rel<'a, Option<(Option<Sign>, u16)>> {
    opt_rel(exponent_rel())
}

/// Reads the exponent of a decimal, if one is there.
pub fn decimal_exp<'a>(input: Input<'a>) -> (res: IResultLookahead<
    'a,
    Option<(Option<Sign>, u16)>,
>)
    requires
        input.wf(),
    ensures
        decimal_exp_rel()(input, res),
        sound(input, res),
{
    opt(exponent, input)
}

/// The decimal point, which has to follow.
pub open spec fn point_rel<'a>() -> Rel<'a, char> {
    lookahead_rel(one_char_rel('.'))
}

fn point<'a>(input: Input<'a>) -> (res: IResultLookahead<'a, char>)
    requires
        input.wf(),
    ensures
        point_rel()(input, res),
        sound(input, res),
{
    let dot = |d: Input<'a>| -> (r2: IResultLookahead<'a, char>)
        requires
            d.wf(),
        ensures
            one_char_rel('.')(d, r2),
            sound(d, r2),
        { one_char('.', d) };
    lookahead(dot, input)
}

/// The digits before the point, and the point.
pub open spec fn whole_rel<'a>() -> Rel<'a, u64> {
    terminated_rel(decimal_unsigned_rel(), point_rel())
}

fn whole<'a>(input: Input<'a>) -> (res: IResultLookahead<'a, u64>)
    requires
        input.wf(),
    ensures
        whole_rel()(input, res),
        sound(input, res),
{
    terminated(decimal_unsigned, point, input)
}

/// The digits after the point, and the exponent.
pub open spec fn fraction_rel<'a>() -> Rel<'a, ((u64, u16), Option<(Option<Sign>, u16)>)> {
    pair_rel(fractional_part_rel(), decimal_exp_rel())
}

fn fraction<'a>(input: Input<'a>) -> (res: IResultLookahead<
    'a,
    ((u64, u16), Option<(Option<Sign>, u16)>),
>)
    requires
        input.wf(),
    ensures
        fraction_rel()(input, res),
        sound(input, res),
{
    pair(fractional_part, decimal_exp, input)
}

/// The digits before the point, the point, and what follows it.
pub open spec fn whole_and_fraction_rel<'a>() -> Rel<
    'a,
    (u64, ((u64, u16), Option<(Option<Sign>, u16)>)),
> {
    pair_rel(whole_rel(), fraction_rel())
}

fn whole_and_fraction<'a>(input: Input<'a>) -> (res: IResultLookahead<
    'a,
    (u64, ((u64, u16), Option<(Option<Sign>, u16)>)),
>)
    requires
        input.wf(),
    ensures
        whole_and_fraction_rel()(input, res),
        sound(input, res),
{
    pair(whole, fraction, input)
}

/// Makes a decimal of the parts of one with digits before the point.
pub open spec fn as_decimal_std() -> spec_fn(
    (Option<Sign>, (u64, ((u64, u16), Option<(Option<Sign>, u16)>))),
    Decimal,
) -> bool {
    |p: (Option<Sign>, (u64, ((u64, u16), Option<(Option<Sign>, u16)>))), out: Decimal|
        out == (Decimal {
            sign: p.0,
            whole: Some(p.1.0),
            fractional: p.1.1.0.0,
            fractional_digits: p.1.1.0.1,
            exponent: p.1.1.1,
        })
}

/// What `decimal_std` does: it reads a number with digits on both sides of
/// the point, e.g.
///
/// * `+1.23e3`
/// * `-5.0`
/// * `1222.00`
pub open spec fn decimal_std_rel<'a>() -> Rel<'a, Decimal> {
    map_rel(pair_rel(opt_sign_rel(), whole_and_fraction_rel()), as_decimal_std())
}

/// Reads a decimal with digits before the point.
pub fn decimal_std<'a>(input: Input<'a>) -> (res: IResultLookahead<'a, Decimal>)
    requires
        input.wf(),
    ensures
        decimal_std_rel()(input, res),
        sound(input, res),
{
    let parts = |c: Input<'a>| -> (r: IResultLookahead<
        'a,
        (Option<Sign>, (u64, ((u64, u16), Option<(Option<Sign>, u16)>))),
    >)
        requires
            c.wf(),
        ensures
            pair_rel(opt_sign_rel(), whole_and_fraction_rel())(c, r),
            sound(c, r),
        { pair(opt_sign, whole_and_fraction, c) };
    let wrap = |p: (Option<Sign>, (u64, ((u64, u16), Option<(Option<Sign>, u16)>)))| -> (out:
        Decimal)
        ensures
            as_decimal_std()(p, out),
        { Decimal::new(p.0, Some(p.1.0), p.1.1.0.0, p.1.1.0.1, p.1.1.1) };
    combinators::map(parts, wrap, input)
}

/// The point, and what follows it.
pub open spec fn bare_fraction_rel<'a>() -> Rel<'a, ((u64, u16), Option<(Option<Sign>, u16)>)> {
    preceded_rel(point_rel(), fraction_rel())
}

fn bare_fraction<'a>(input: Input<'a>) -> (res: IResultLookahead<
    'a,
    ((u64, u16), Option<(Option<Sign>, u16)>),
>)
    requires
        input.wf(),
    ensures
        bare_fraction_rel()(input, res),
        sound(input, res),
{
    preceded(point, fraction, input)
}

/// Makes a decimal of the parts of one without digits before the point.
pub open spec fn as_decimal_frac() -> spec_fn(
    (Option<Sign>, ((u64, u16), Option<(Option<Sign>, u16)>)),
    Decimal,
) -> bool {
    |p: (Option<Sign>, ((u64, u16), Option<(Option<Sign>, u16)>)), out: Decimal|
        out == (Decimal {
            sign: p.0,
            whole: None,
            fractional: p.1.0.0,
            fractional_digits: p.1.0.1,
            exponent: p.1.1,
        })
}

/// What `decimal_frac` does: it reads a decimal without a whole part e.g.
/// `.01`, with a sign if one is there.
pub open spec fn decimal_frac_rel<'a>() -> Rel<'a, Decimal> {
    map_rel(pair_rel(opt_sign_rel(), bare_fraction_rel()), as_decimal_frac())
}

/// Reads a decimal without digits before the point.
pub fn decimal_frac<'a>(input: Input<'a>) -> (res: IResultLookahead<'a, Decimal>)
    requires
        input.wf(),
    ensures
        decimal_frac_rel()(input, res),
        sound(input, res),
{
    let parts = |c: Input<'a>| -> (r: IResultLookahead<
        'a,
        (Option<Sign>, ((u64, u16), Option<(Option<Sign>, u16)>)),
    >)
        requires
            c.wf(),
        ensures
            pair_rel(opt_sign_rel(), bare_fraction_rel())(c, r),
            sound(c, r),
        { pair(opt_sign, bare_fraction, c) };
    let wrap = |p: (Option<Sign>, ((u64, u16), Option<(Option<Sign>, u16)>))| -> (out: Decimal)
        ensures
            as_decimal_frac()(p, out),
        { Decimal::new(p.0, None, p.1.0.0, p.1.0.1, p.1.1) };
    combinators::map(parts, wrap, input)
}

/// What `decimal` does: it reads a number with a decimal point, with or
/// without digits before the point.
pub open spec fn decimal_rel<'a>() -> Rel<'a, Decimal> {
    context_rel("decimal", alt2_rel(decimal_frac_rel(), decimal_std_rel()))
}

/// Reads a number with a decimal point.
pub fn decimal<'a>(input: Input<'a>) -> (res: IResultLookahead<'a, Decimal>)
    requires
        input.wf(),
    ensures
        decimal_rel()(input, res),
        sound(input, res),
{
    let either = |c: Input<'a>| -> (r: IResultLookahead<'a, Decimal>)
        requires
            c.wf(),
        ensures
            alt2_rel(decimal_frac_rel(), decimal_std_rel())(c, r),
            sound(c, r),
        { alt2(decimal_frac, decimal_std, c) };
    context("decimal", either, input)
}

} // verus!
