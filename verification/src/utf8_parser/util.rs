use vstd::prelude::*;
use crate::utf8_parser::combinators::base_failure;
use crate::utf8_parser::error::{ErrorTree, Expectation, InputParseErr};
use crate::utf8_parser::input::Input;
use crate::utf8_parser::{IResultLookahead, OutputResult};

verus! {

/// The fatal failure of a parser that expected `expectation` at `input`.
pub fn base_err<'a, T>(input: Input<'a>, expectation: Expectation) -> (res: IResultLookahead<'a, T>)
    ensures
        res == base_failure::<T>(input, expectation),
{
    Err(InputParseErr::fatal(ErrorTree::expected(input, expectation)))
}

/// The fatal failure of a conversion that expected `expectation` at `input`.
pub fn base_err_res<'a, T>(input: Input<'a>, expectation: Expectation) -> (res: OutputResult<'a, T>)
    ensures
        res matches Err(e) && e == InputParseErr::Fatal(
            ErrorTree::expected_at(input, expectation),
        ),
{
    Err(InputParseErr::fatal(ErrorTree::expected(input, expectation)))
}

} // verus!
