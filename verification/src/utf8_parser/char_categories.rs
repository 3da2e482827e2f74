//! The categories of characters that the grammar tells apart. Only ASCII
//! characters belong to a category.

use vstd::prelude::*;

verus! {

/// `[1-9]`
pub open spec fn digit_first(c: char) -> bool {
    '1' <= c <= '9'
}

/// `[0-9]`
pub open spec fn digit(c: char) -> bool {
    '0' <= c <= '9'
}

/// `[\n\t\r ]`
pub open spec fn whitespace(c: char) -> bool {
    c == ' ' || c == '\t' || c == '\n' || c == '\r'
}

/// `[A-Za-z_]`
pub open spec fn ident_first(c: char) -> bool {
    'A' <= c <= 'Z' || 'a' <= c <= 'z' || c == '_'
}

/// `[A-Za-z_0-9]`
pub open spec fn ident_other(c: char) -> bool {
    ident_first(c) || digit(c)
}

/// `[A-Za-z_0-9\.+-]`
pub open spec fn ident_raw(c: char) -> bool {
    ident_other(c) || c == '.' || c == '+' || c == '-'
}

/// `[0-9A-Fa-f]`
pub open spec fn hex_digit(c: char) -> bool {
    digit(c) || 'a' <= c <= 'f' || 'A' <= c <= 'F'
}

/// The answer of a test on characters that computes `f`.
pub open spec fn decides(f: spec_fn(char) -> bool) -> spec_fn(char, bool) -> bool {
    |c: char, b: bool| b == f(c)
}

/// Is `c` a digit from 1 to 9?
pub fn is_digit_first(c: char) -> (res: bool)
    ensures
        res == digit_first(c),
{
    '1' <= c && c <= '9'
}

/// Is `c` a decimal digit?
pub fn is_digit(c: char) -> (res: bool)
    ensures
        res == digit(c),
{
    '0' <= c && c <= '9'
}

/// Is `c` a space, a tab, a line feed or a carriage return?
pub fn is_ws(c: char) -> (res: bool)
    ensures
        res == whitespace(c),
{
    c == ' ' || c == '\t' || c == '\n' || c == '\r'
}

/// Can `c` begin an identifier?
pub fn is_ident_first_char(c: char) -> (res: bool)
    ensures
        res == ident_first(c),
{
    ('A' <= c && c <= 'Z') || ('a' <= c && c <= 'z') || c == '_'
}

/// Can `c` stand inside an identifier?
pub fn is_ident_other_char(c: char) -> (res: bool)
    ensures
        res == ident_other(c),
{
    is_ident_first_char(c) || is_digit(c)
}

/// Can `c` stand in a raw identifier?
pub fn is_ident_raw_char(c: char) -> (res: bool)
    ensures
        res == ident_raw(c),
{
    is_ident_other_char(c) || c == '.' || c == '+' || c == '-'
}

/// Is `c` a space, a tab, a line feed or a carriage return?
pub fn is_whitespace_char(c: char) -> (res: bool)
    ensures
        res == whitespace(c),
{
    is_ws(c)
}

/// Is `c` a hexadecimal digit?
pub fn is_hex_digit(c: char) -> (res: bool)
    ensures
        res == hex_digit(c),
{
    is_digit(c) || ('a' <= c && c <= 'f') || ('A' <= c && c <= 'F')
}

} // verus!
