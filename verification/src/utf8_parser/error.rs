//! The error tree: what a failed parse reports, with every place that was
//! tried and every construct that was being read.

use vstd::prelude::*;
use crate::utf8_parser::input::Input;

verus! {

/// The error tree of a parse over a source text.
pub type InputParseError<'a> = ErrorTree<Input<'a>>;

/// How a parser failed.
#[derive(Debug)]
pub enum InputParseErr<'a> {
    /// The parser did not match here; another alternative may.
    Recoverable(InputParseError<'a>),
    /// The parser was on the right branch and the input is malformed: no
    /// other alternative is tried.
    Fatal(InputParseError<'a>),
}

impl<'a> InputParseErr<'a> {
    /// The error tree, whatever the severity.
    pub open spec fn tree(self) -> InputParseError<'a> {
        match self {
            InputParseErr::Recoverable(e) => e,
            InputParseErr::Fatal(e) => e,
        }
    }

    /// The failure after which another alternative may be tried.
    pub fn recoverable(e: InputParseError<'a>) -> (res: Self)
        ensures
            res == InputParseErr::Recoverable(e),
    {
        InputParseErr::Recoverable(e)
    }

    /// The failure that ends the parse.
    pub fn fatal(e: InputParseError<'a>) -> (res: Self)
        ensures
            res == InputParseErr::Fatal(e),
    {
        InputParseErr::Fatal(e)
    }

    /// May another alternative be tried after this failure?
    pub fn is_recoverable(&self) -> (res: bool)
        ensures
            res == (self is Recoverable),
    {
        match self {
            InputParseErr::Recoverable(_) => true,
            InputParseErr::Fatal(_) => false,
        }
    }
}

/// What a parser wanted to find where it failed.
#[non_exhaustive]
#[derive(Debug, Copy, Clone, PartialEq, Eq)]
pub enum Expectation {
    /// A string tag was expected.
    Tag(&'static str),
    /// A specific character was expected.
    Char(char),
    /// One of the chars in the str
    OneOfChars(&'static str),
    /// One of the tags in the slice
    OneOfTags(&'static [&'static str]),
    /// One of the classes in the array
    OneOfExpectations(&'static [Expectation]),
    /// An ASCII letter (`[a-zA-Z]`) was expected.
    Alpha,
    /// A decimal digit (`[0-9]`) was expected.
    Digit,
    /// A decimal digit (`[1-9]`) was expected.
    DigitFirst,
    /// A hexadecimal digit (`[0-9a-fA-F]`) was expected.
    HexDigit,
    /// The digits of a unicode escape that name a character were expected.
    UnicodeHexSequence { got: u32 },
    /// An octal digit (`[0-7]`) was expected.
    OctDigit,
    /// An alphanumeric character (`[0-9a-zA-Z]`) was expected.
    AlphaNumeric,
    /// A space or tab was expected.
    Space,
    /// The end of a raw string was expected.
    RawStringEnd,
    /// The closing */ of a block comment.
    BlockCommentEnd,
    /// A space, tab, newline, or carriage return was expected.
    Multispace,
    /// `"\r\n"` was expected.
    CrLf,
    /// Eof was expected.
    Eof,
    /// Expected something; ie, not Eof.
    Something,
    /// An expression that does not hold expressions so many levels deep.
    Nesting,
}

/// Why a run of digits that was recognized is no number.
#[derive(Debug, Copy, Clone, PartialEq, Eq, Structural)]
pub enum ConversionError {
    /// There was no digit.
    Empty,
    /// A character is no digit of the base.
    InvalidDigit,
    /// The number does not fit the integer type.
    PosOverflow,
}

/// The specific things that can go wrong at one place.
#[derive(Debug, Copy, Clone, PartialEq, Eq)]
pub enum BaseErrorKind {
    /// Something specific was expected, such as a specific character or any
    /// digit.
    Expected(Expectation),
    /// A span was recognized, and turning it into a value failed.
    External(ConversionError),
}

/// A label that says which construct was being read.
#[derive(Debug, Clone, Copy, PartialEq, Eq)]
pub enum StackContext {
    /// The `context` combinator attached a message as context for a
    /// subparser error.
    Context(&'static str),
}

#[derive(Debug)]
pub enum ErrorTree<I> {
    /// A specific error event at a specific location. Often this will indicate
    /// that something like a tag or character was expected at that location.
    Base {
        /// The location of this error in the input
        location: I,
        /// The specific error that occurred
        kind: BaseErrorKind,
    },
    /// A stack indicates a chain of error contexts was provided. The stack
    /// should be read "backwards"; that is, errors *earlier* in the `Vec`
    /// occurred "sooner" (deeper in the call stack).
    Stack {
        /// The failure that the labels are about
        base: Box<ErrorTree<I>>,
        /// Whether it was indicated that the "final" useful context has been pushed onto the stack
        finalized: bool,
        /// The stack of contexts attached to that error
        contexts: Vec<(I, StackContext)>,
    },
    /// A series of parsers were tried at the same location (for instance, via
    /// the `alt2` combinator) and all of them failed.
    Alt(Vec<ErrorTree<I>>),
}

impl<I> ErrorTree<I> {
    /// The alternatives that `alt` joins: those of an `Alt` node, or the tree
    /// itself.
    pub open spec fn alternatives(self) -> Seq<ErrorTree<I>> {
        match self {
            ErrorTree::Alt(v) => v@,
            other => seq![other],
        }
    }

    /// The alternatives of the node that `alt` makes of two failures. Those of
    /// an `Alt` node come first; a tree that is no `Alt` node comes after
    /// them, whether it was first or second.
    pub open spec fn alt_items(first: Self, second: Self) -> Seq<ErrorTree<I>> {
        if !(first is Alt) && second is Alt {
            second.alternatives() + first.alternatives()
        } else {
            first.alternatives() + second.alternatives()
        }
    }

    /// `res` is `other` with the label `ctx` at `location` on top: pushed on
    /// the stack that `other` is, or on a new stack over `other`; a stack
    /// that was marked final stays as it is.
    pub open spec fn with_context(
        location: I,
        ctx: &'static str,
        final_context: bool,
        other: Self,
        res: Self,
    ) -> bool {
        match other {
            ErrorTree::Stack { base, finalized, contexts } => if finalized {
                res == other
            } else {
                &&& res matches ErrorTree::Stack { base: b, finalized: f, contexts: c }
                &&& b == base
                &&& f == final_context
                &&& c@ == contexts@.push((location, StackContext::Context(ctx)))
            },
            _ => {
                &&& res matches ErrorTree::Stack { base: b, finalized: f, contexts: c }
                &&& *b == other
                &&& f == final_context
                &&& c@ == seq![(location, StackContext::Context(ctx))]
            },
        }
    }

    /// The tree of a single failure: `expectation` was not met at `location`.
    pub open spec fn expected_at(location: I, expectation: Expectation) -> Self {
        ErrorTree::Base { location, kind: BaseErrorKind::Expected(expectation) }
    }

    /// The failure of a parser that expected `expectation` at `location`.
    pub fn expected(location: I, expectation: Expectation) -> (res: Self)
        ensures
            res == Self::expected_at(location, expectation),
    {
        ErrorTree::Base { location, kind: BaseErrorKind::Expected(expectation) }
    }

    /// Joins the failures of two parsers that were tried at the same place
    /// into one node, without nesting `Alt` in `Alt`.
    pub fn alt(first: Self, second: Self) -> (res: Self)
        ensures
            res matches ErrorTree::Alt(v) && v@ == Self::alt_items(first, second),
    {
        match first {
            ErrorTree::Alt(mut alt) => {
                match second {
                    ErrorTree::Alt(mut alt2) => {
                        alt.append(&mut alt2);
                        ErrorTree::Alt(alt)
                    },
                    x => {
                        alt.push(x);
                        ErrorTree::Alt(alt)
                    },
                }
            },
            x => {
                match second {
                    ErrorTree::Alt(mut alt) => {
                        alt.push(x);
                        ErrorTree::Alt(alt)
                    },
                    y => {
                        let mut v = Vec::new();
                        v.push(x);
                        v.push(y);
                        assert(v@ =~= seq![x] + seq![y]);
                        ErrorTree::Alt(v)
                    },
                }
            },
        }
    }

    /// Similar to append: Create a new error with some added context
    pub fn add_context(location: I, ctx: &'static str, final_context: bool, other: Self) -> (res:
        Self)
        ensures
            Self::with_context(location, ctx, final_context, other, res),
    {
        let context = (location, StackContext::Context(ctx));
        match other {
            ErrorTree::Stack { base, finalized, mut contexts } => {
                if finalized {
                    ErrorTree::Stack { base, finalized, contexts }
                } else {
                    // This is already a stack, so push on to it
                    contexts.push(context);
                    ErrorTree::Stack { base, contexts, finalized: final_context }
                }
            },
            // This isn't a stack, create a new stack
            base => {
                let mut contexts = Vec::new();
                contexts.push(context);
                ErrorTree::Stack { base: Box::new(base), contexts, finalized: final_context }
            },
        }
    }
}

/// Of two cursors into one source, the one further on; the second where both
/// stand at the same place.
pub open spec fn further<'a>(a: Input<'a>, b: Input<'a>) -> Input<'a> {
    if b.offset >= a.offset {
        b
    } else {
        a
    }
}

impl<'a> ErrorTree<Input<'a>> {
    /// No `Alt` node in the tree is empty.
    pub open spec fn wf(self) -> bool
        decreases self,
    {
        match self {
            ErrorTree::Base { .. } => true,
            ErrorTree::Stack { base, .. } => base.wf(),
            ErrorTree::Alt(v) => v@.len() > 0 && forall|i: int|
                0 <= i < v@.len() ==> (#[trigger] v@[i]).wf(),
        }
    }

    /// Is no `Alt` node in the tree empty?
    pub fn is_wf(&self) -> (res: bool)
        ensures
            res == self.wf(),
        decreases self,
    {
        match self {
            ErrorTree::Base { .. } => true,
            ErrorTree::Stack { base, .. } => base.is_wf(),
            ErrorTree::Alt(v) => {
                if v.len() == 0 {
                    return false;
                }
                let mut i: usize = 0;
                while i < v.len()
                    invariant
                        i <= v@.len(),
                        self == ErrorTree::<Input<'a>>::Alt(*v),
                        forall|j: int| 0 <= j < i ==> (#[trigger] v@[j]).wf(),
                    decreases v.len() - i,
                {
                    proof {
                        vstd::std_specs::vec::axiom_vec_index_decreases(*v, i as int);
                        assert(self->Alt_0 == *v);
                    }
                    if !v[i].is_wf() {
                        return false;
                    }
                    i = i + 1;
                }
                true
            },
        }
    }

    /// The place of the base error that lies furthest on in the source; the
    /// last such place where several lie equally far.
    pub open spec fn furthest(self) -> Input<'a>
        decreases self, 0nat,
    {
        match self {
            ErrorTree::Base { location, .. } => location,
            ErrorTree::Stack { base, .. } => base.furthest(),
            ErrorTree::Alt(v) => if v@.len() == 0 {
                arbitrary()
            } else {
                Self::furthest_among(v@, (v@.len() - 1) as nat)
            },
        }
    }

    /// The place furthest on among the trees `v[0]` to `v[n]`.
    pub open spec fn furthest_among(v: Seq<Self>, n: nat) -> Input<'a>
        decreases v, n,
    {
        if n >= v.len() {
            arbitrary()
        } else if n == 0 {
            v[0].furthest()
        } else {
            further(Self::furthest_among(v, (n - 1) as nat), v[n as int].furthest())
        }
    }

    /// Finds the base error that lies furthest on in the source: the point
    /// up to which some branch could read.
    pub fn max_location(&self) -> (res: Input<'a>)
        requires
            self.wf(),
        ensures
            res == self.furthest(),
        decreases self,
    {
        match self {
            ErrorTree::Base { location, .. } => *location,
            ErrorTree::Stack { base, .. } => base.max_location(),
            ErrorTree::Alt(v) => {
                let mut best = v[0].max_location();
                let mut i: usize = 1;
                while i < v.len()
                    invariant
                        1 <= i <= v.len(),
                        self.wf(),
                        self == ErrorTree::<Input<'a>>::Alt(*v),
                        best == Self::furthest_among(v@, (i - 1) as nat),
                    decreases v.len() - i,
                {
                    let next = v[i].max_location();
                    if next.offset >= best.offset {
                        best = next;
                    }
                    i += 1;
                }
                best
            },
        }
    }

    /// How far into the source the tree reaches: the offset of the base error
    /// that lies furthest on, and 0 for a tree without a base error.
    pub open spec fn depth(self) -> nat
        decreases self, 0nat,
    {
        match self {
            ErrorTree::Base { location, .. } => location.offset as nat,
            ErrorTree::Stack { base, .. } => base.depth(),
            ErrorTree::Alt(v) => Self::depth_among(v@, v@.len()),
        }
    }

    /// How far the first `n` trees of `v` reach.
    pub open spec fn depth_among(v: Seq<Self>, n: nat) -> nat
        decreases v, n,
    {
        if n == 0 || n > v.len() {
            0
        } else {
            let rest = Self::depth_among(v, (n - 1) as nat);
            let last = v[n - 1].depth();
            if last > rest {
                last
            } else {
                rest
            }
        }
    }

    /// Computes how far into the source the tree reaches.
    pub fn deepest(&self) -> (res: usize)
        ensures
            res == self.depth(),
        decreases self,
    {
        match self {
            ErrorTree::Base { location, .. } => location.offset,
            ErrorTree::Stack { base, .. } => base.deepest(),
            ErrorTree::Alt(v) => {
                let mut best: usize = 0;
                let mut i: usize = 0;
                while i < v.len()
                    invariant
                        i <= v.len(),
                        self == ErrorTree::<Input<'a>>::Alt(*v),
                        best == Self::depth_among(v@, i as nat),
                    decreases v.len() - i,
                {
                    proof {
                        vstd::std_specs::vec::axiom_vec_index_decreases(*v, i as int);
                        assert(self->Alt_0 == *v);
                    }
                    let next = v[i].deepest();
                    if next > best {
                        best = next;
                    }
                    i += 1;
                }
                best
            },
        }
    }
}

/// Of the failures that two steps of a sequence set aside, the one that
/// reaches further into the source; the first where both reach equally far.
pub open spec fn deeper_error<'a>(
    first: Option<InputParseError<'a>>,
    second: Option<InputParseError<'a>>,
) -> Option<InputParseError<'a>> {
    match (first, second) {
        (Some(a), Some(b)) => if b.depth() > a.depth() {
            second
        } else {
            first
        },
        (Some(_), None) => first,
        (None, _) => second,
    }
}

} // verus!
