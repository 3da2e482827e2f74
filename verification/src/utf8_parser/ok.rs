use vstd::prelude::*;
use crate::utf8_parser::error::{deeper_error, InputParseErr, InputParseError};
use crate::utf8_parser::input::Input;
use crate::utf8_parser::{IResultLookahead, OutputResult};

verus! {

/// What a parser hands back when it succeeds.
#[derive(Debug)]
pub struct IOk<'a, O> {
    /// What is left to read
    pub remaining: Input<'a>,
    /// What was read
    pub parsed: O,
    /// A recoverable error that got discarded because the parsed
    /// expression was optional (`opt`, `many0`, etc.).
    ///
    /// The parser says "I could've done more, but this is the problem I ran into."
    pub discarded_error: Option<InputParseError<'a>>,
}

impl<'a, O> IOk<'a, O> {
    /// A success that set no failure aside.
    pub fn from(pair: (Input<'a>, O)) -> (res: Self)
        ensures
            res == (IOk { remaining: pair.0, parsed: pair.1, discarded_error: None }),
    {
        IOk { remaining: pair.0, parsed: pair.1, discarded_error: None }
    }

    /// Run the `parser` on the remaining input and join what both parsed
    /// with `map`. Of the failures that the two steps set aside the deeper
    /// one stays.
    pub fn and_then<P, Q, F, M>(self, parser: F, map: M) -> (res: IResultLookahead<'a, Q>) where
        F: Fn(Input<'a>) -> IResultLookahead<'a, P>,
        M: FnOnce(O, P) -> Q,

        requires
            parser.requires((self.remaining,)),
            forall|p: P| map.requires((self.parsed, p)),
        ensures
            exists|r2: IResultLookahead<'a, P>| #[trigger]
                parser.ensures((self.remaining,), r2) && match r2 {
                    Err(e) => res matches Err(e2) && e2 == e,
                    Ok(ok2) => {
                        &&& res matches Ok(ok)
                        &&& ok.remaining == ok2.remaining
                        &&& map.ensures((self.parsed, ok2.parsed), ok.parsed)
                        &&& ok.discarded_error == deeper_error(
                            self.discarded_error,
                            ok2.discarded_error,
                        )
                    },
                },
    {
        let IOk { remaining, parsed, discarded_error } = self;
        let res = parser(remaining);
        match res {
            Err(e) => Err(e),
            Ok(ok2) => {
                let IOk { remaining, parsed: parsed2, discarded_error } = ok2.prepend_err(
                    discarded_error,
                );
                Ok(IOk { remaining, parsed: map(parsed, parsed2), discarded_error })
            },
        }
    }

    /// Run the `parser` on the remaining input,
    /// calling `map` with the already parsed input and the result of `parser`.
    pub fn then_res<P, Q, F, M>(self, parser: F, map: M) -> (res: IResultLookahead<'a, Q>) where
        F: Fn(Input<'a>) -> IResultLookahead<'a, P>,
        M: FnOnce(O, IResultLookahead<'a, P>) -> IResultLookahead<'a, Q>,

        requires
            parser.requires((self.remaining,)),
            forall|r: IResultLookahead<'a, P>| map.requires((self.parsed, r)),
        ensures
            exists|r2: IResultLookahead<'a, P>, handed: IResultLookahead<'a, P>| #[trigger]
                parser.ensures((self.remaining,), r2) && #[trigger] map.ensures(
                    (self.parsed, handed),
                    res,
                ) && match r2 {
                    Err(e) => handed matches Err(e2) && e2 == e,
                    Ok(ok2) => handed == Ok::<IOk<'a, P>, InputParseErr<'a>>(
                        IOk {
                            remaining: ok2.remaining,
                            parsed: ok2.parsed,
                            discarded_error: deeper_error(
                                self.discarded_error,
                                ok2.discarded_error,
                            ),
                        },
                    ),
                },
    {
        let IOk { remaining, parsed, discarded_error } = self;
        let res = parser(remaining);
        let handed = match res {
            Err(e) => Err(e),
            Ok(ok2) => Ok(ok2.prepend_err(discarded_error)),
        };
        map(parsed, handed)
    }

    /// Changes what was parsed.
    pub fn map<P, F: FnOnce(O) -> P>(self, f: F) -> (res: IOk<'a, P>)
        requires
            f.requires((self.parsed,)),
        ensures
            res.remaining == self.remaining,
            f.ensures((self.parsed,), res.parsed),
            res.discarded_error == self.discarded_error,
    {
        IOk {
            remaining: self.remaining,
            parsed: f(self.parsed),
            discarded_error: self.discarded_error,
        }
    }

    /// Changes what was parsed, or fails as `f` does.
    pub fn map_res<P, F: FnOnce(O) -> OutputResult<'a, P>>(self, f: F) -> (res: IResultLookahead<
        'a,
        P,
    >)
        requires
            f.requires((self.parsed,)),
        ensures
            exists|out: OutputResult<'a, P>| #[trigger]
                f.ensures((self.parsed,), out) && match out {
                    Err(e) => res matches Err(e2) && e2 == e,
                    Ok(p) => res == Ok::<IOk<'a, P>, InputParseErr<'a>>(
                        IOk {
                            remaining: self.remaining,
                            parsed: p,
                            discarded_error: self.discarded_error,
                        },
                    ),
                },
    {
        let IOk { remaining, parsed, discarded_error } = self;
        match f(parsed) {
            Err(e) => Err(e),
            Ok(p) => Ok(IOk { remaining, parsed: p, discarded_error }),
        }
    }

    /// Puts `parsed` in the place of what was parsed.
    pub fn replace<P>(self, parsed: P) -> (res: IOk<'a, P>)
        ensures
            res == (IOk {
                remaining: self.remaining,
                parsed,
                discarded_error: self.discarded_error,
            }),
    {
        IOk { remaining: self.remaining, parsed, discarded_error: self.discarded_error }
    }

    /// Drops the failure that was set aside.
    pub fn forget_err(self) -> (res: Self)
        ensures
            res == (IOk { remaining: self.remaining, parsed: self.parsed, discarded_error: None }),
    {
        IOk { remaining: self.remaining, parsed: self.parsed, discarded_error: None }
    }

    /// Joins the failure that an earlier step set aside with the one of this
    /// step: the deeper of the two stays.
    pub fn prepend_err(self, discarded_error: Option<InputParseError<'a>>) -> (res: Self)
        ensures
            res == (IOk {
                remaining: self.remaining,
                parsed: self.parsed,
                discarded_error: deeper_error(discarded_error, self.discarded_error),
            }),
    {
        let IOk { remaining, parsed, discarded_error: own } = self;
        let kept = match discarded_error {
            None => own,
            Some(a) => match own {
                None => Some(a),
                Some(b) => if b.deepest() > a.deepest() {
                    Some(b)
                } else {
                    Some(a)
                },
            },
        };
        IOk { remaining, parsed, discarded_error: kept }
    }
}

} // verus!
