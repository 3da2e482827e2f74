//! Error trees as text for a reader.

use vstd::prelude::*;
use vstd::string::{StrSliceExecFns, StringExecFns};
use crate::location::Location;
use crate::utf8_parser::combinators::fn_ens;
use crate::utf8_parser::error::{
    BaseErrorKind, ConversionError, ErrorTree, Expectation, InputParseErr, StackContext,
};
use crate::utf8_parser::input::Input;
use crate::util::{
    debug_char, debug_char_text, debug_str, debug_text, decimal_string, decimal_text, hex_string,
    hex_text, indent, indent_text, join, joined, pretty_list, push_char, texts,
    write_pretty_list,
};

verus! {

impl Location {
    /// The location as text: line, colon, column.
    pub open spec fn text(self) -> Seq<char> {
        decimal_text(self.line as nat) + ":"@ + decimal_text(self.column as nat)
    }

    /// Writes the location: line, colon, column.
    pub fn to_string(&self) -> (res: String)
        ensures
            res@ == self.text(),
    {
        let mut out = decimal_string(self.line as u64);
        out.append(":");
        out.append(decimal_string(self.column as u64).as_str());
        out
    }
}

impl<'a> Input<'a> {
    /// What stands for the first character of the fragment where a failure
    /// is reported: the character itself where it takes one byte, and
    /// `eof` else.
    pub open spec fn first_text(self) -> Seq<char> {
        if self.text().len() > 0 && (self.text()[0] as u32) < 0x80 {
            seq![self.text()[0]]
        } else {
            "eof"@
        }
    }

    /// The cursor as text: its location and, between backticks, what
    /// stands there.
    pub open spec fn shown(self) -> Seq<char> {
        self.place().text() + " (`"@ + self.first_text() + "`)"@
    }

    /// Writes the cursor: its location and, between backticks, what stands
    /// there.
    pub fn to_string(&self) -> (res: String)
        requires
            self.wf(),
        ensures
            res@ == self.shown(),
    {
        let mut out = self.location().to_string();
        out.append(" (`");
        match self.first_char() {
            Some(c) => {
                if (c as u32) < 0x80 {
                    push_char(&mut out, c);
                    assert(out@ =~= self.place().text() + " (`"@ + seq![c]);
                } else {
                    out.append("eof");
                }
            },
            None => {
                out.append("eof");
            },
        }
        out.append("`)");
        out
    }
}

impl ConversionError {
    /// What the failed conversion says.
    pub open spec fn text(self) -> Seq<char> {
        match self {
            ConversionError::Empty => "cannot parse integer from empty string"@,
            ConversionError::InvalidDigit => "invalid digit found in string"@,
            ConversionError::PosOverflow => "number too large to fit in target type"@,
        }
    }

    /// Writes what the failed conversion says.
    pub fn to_string(&self) -> (res: String)
        ensures
            res@ == self.text(),
    {
        match self {
            ConversionError::Empty => String::from_str("cannot parse integer from empty string"),
            ConversionError::InvalidDigit => String::from_str("invalid digit found in string"),
            ConversionError::PosOverflow => String::from_str(
                "number too large to fit in target type",
            ),
        }
    }
}

/// How deep lists of expectations inside lists of expectations are written.
pub const EXPECTATION_DEPTH: usize = 8;

/// Each character of `one_of`, written as a character literal.
pub open spec fn char_items(one_of: &'static str) -> Seq<Seq<char>> {
    Seq::new(one_of@.len(), |i: int| debug_char_text(one_of@[i]))
}

/// Each tag of `one_of`, written as a string literal.
pub open spec fn tag_items(one_of: &'static [&'static str]) -> Seq<Seq<char>> {
    Seq::new(one_of@.len(), |i: int| debug_text(one_of@[i]@))
}

impl Expectation {
    /// Each expectation of `one_of` as text, lists inside them `depth`
    /// levels deep.
    pub open spec fn items(one_of: &'static [Expectation], depth: nat) -> Seq<Seq<char>>
        decreases depth, 1nat,
    {
        Seq::new(one_of@.len(), |i: int| one_of@[i].text(depth))
    }

    /// The expectation as text. Lists of expectations are written `depth`
    /// levels deep, and `...` stands for what lies deeper.
    pub open spec fn text(self, depth: nat) -> Seq<char>
        decreases depth, 0nat,
    {
        match self {
            Expectation::Tag(tag) => debug_text(tag@),
            Expectation::Char(c) => debug_char_text(c),
            Expectation::OneOfChars(one_of) => pretty_list(char_items(one_of)),
            Expectation::OneOfTags(one_of) => pretty_list(tag_items(one_of)),
            Expectation::OneOfExpectations(one_of) => if depth == 0 {
                "..."@
            } else {
                pretty_list(Self::items(one_of, (depth - 1) as nat))
            },
            Expectation::Alpha => "an ascii letter"@,
            Expectation::Digit => "an ascii digit"@,
            Expectation::DigitFirst => "a non-zero ascii digit [1-9]"@,
            Expectation::HexDigit => "a hexadecimal digit"@,
            Expectation::OctDigit => "an octal digit"@,
            Expectation::AlphaNumeric => "an ascii alphanumeric character"@,
            Expectation::Space => "a space or tab"@,
            Expectation::Multispace => "whitespace"@,
            Expectation::BlockCommentEnd => "end of block comment (`*/`)"@,
            Expectation::Eof => "eof"@,
            Expectation::CrLf => "CRLF"@,
            Expectation::Something => "not eof"@,
            Expectation::UnicodeHexSequence { got } => "a valid unicode hex sequence (got 0x"@
                + hex_text(got as nat) + ")"@,
            Expectation::RawStringEnd => "closing raw string sequence"@,
            Expectation::Nesting => "an expression that is nested less deeply"@,
        }
    }

    /// Writes the expectation, lists of expectations `depth` levels deep.
    pub fn to_string_depth(&self, depth: usize) -> (res: String)
        ensures
            res@ == self.text(depth as nat),
        decreases depth,
    {
        match self {
            Expectation::Tag(tag) => debug_str(tag),
            Expectation::Char(c) => debug_char(*c),
            Expectation::OneOfChars(one_of) => {
                let n = one_of.unicode_len();
                let mut items: Vec<String> = Vec::new();
                let mut i: usize = 0;
                while i < n
                    invariant
                        n == one_of@.len(),
                        i <= n,
                        items@.len() == i,
                        forall|j: int|
                            0 <= j < i ==> (#[trigger] items@[j])@ == debug_char_text(one_of@[j]),
                    decreases n - i,
                {
                    items.push(debug_char(one_of.get_char(i)));
                    i = i + 1;
                }
                assert(texts(items@) =~= char_items(*one_of));
                write_pretty_list(&items)
            },
            Expectation::OneOfTags(one_of) => {
                let mut items: Vec<String> = Vec::new();
                let mut i: usize = 0;
                while i < one_of.len()
                    invariant
                        i <= one_of@.len(),
                        items@.len() == i,
                        forall|j: int|
                            0 <= j < i ==> (#[trigger] items@[j])@ == debug_text(one_of@[j]@),
                    decreases one_of.len() - i,
                {
                    items.push(debug_str(one_of[i]));
                    i = i + 1;
                }
                assert(texts(items@) =~= tag_items(*one_of));
                write_pretty_list(&items)
            },
            Expectation::OneOfExpectations(one_of) => {
                if depth == 0 {
                    return String::from_str("...");
                }
                let mut items: Vec<String> = Vec::new();
                let mut i: usize = 0;
                while i < one_of.len()
                    invariant
                        depth > 0,
                        i <= one_of@.len(),
                        items@.len() == i,
                        forall|j: int|
                            0 <= j < i ==> (#[trigger] items@[j])@ == one_of@[j].text(
                                (depth - 1) as nat,
                            ),
                    decreases one_of.len() - i,
                {
                    items.push(one_of[i].to_string_depth(depth - 1));
                    i = i + 1;
                }
                assert(texts(items@) =~= Self::items(*one_of, (depth - 1) as nat));
                write_pretty_list(&items)
            },
            Expectation::Alpha => String::from_str("an ascii letter"),
            Expectation::Digit => String::from_str("an ascii digit"),
            Expectation::DigitFirst => String::from_str("a non-zero ascii digit [1-9]"),
            Expectation::HexDigit => String::from_str("a hexadecimal digit"),
            Expectation::OctDigit => String::from_str("an octal digit"),
            Expectation::AlphaNumeric => String::from_str("an ascii alphanumeric character"),
            Expectation::Space => String::from_str("a space or tab"),
            Expectation::Multispace => String::from_str("whitespace"),
            Expectation::BlockCommentEnd => String::from_str("end of block comment (`*/`)"),
            Expectation::Eof => String::from_str("eof"),
            Expectation::CrLf => String::from_str("CRLF"),
            Expectation::Something => String::from_str("not eof"),
            Expectation::UnicodeHexSequence { got } => {
                let mut out = String::from_str("a valid unicode hex sequence (got 0x");
                out.append(hex_string(*got as u64).as_str());
                out.append(")");
                out
            },
            Expectation::RawStringEnd => String::from_str("closing raw string sequence"),
            Expectation::Nesting => String::from_str("an expression that is nested less deeply"),
        }
    }

    /// Writes the expectation.
    pub fn to_string(&self) -> (res: String)
        ensures
            res@ == self.text(EXPECTATION_DEPTH as nat),
    {
        self.to_string_depth(EXPECTATION_DEPTH)
    }
}

impl BaseErrorKind {
    /// What went wrong, as text.
    pub open spec fn text(self) -> Seq<char> {
        match self {
            BaseErrorKind::Expected(expectation) => "expected "@ + expectation.text(
                EXPECTATION_DEPTH as nat,
            ),
            BaseErrorKind::External(err) => "external error:\n"@ + indent_text(err.text(), true),
        }
    }

    /// Writes what went wrong.
    pub fn to_string(&self) -> (res: String)
        ensures
            res@ == self.text(),
    {
        match self {
            BaseErrorKind::Expected(expectation) => {
                let mut out = String::from_str("expected ");
                out.append(expectation.to_string().as_str());
                out
            },
            BaseErrorKind::External(err) => {
                let mut out = String::from_str("external error:\n");
                out.append(indent(err.to_string()).to_string().as_str());
                out
            },
        }
    }
}

impl StackContext {
    /// The label, as text.
    pub open spec fn text(self) -> Seq<char> {
        match self {
            StackContext::Context(ctx) => "could not match "@ + debug_text(ctx@),
        }
    }

    /// Writes the label.
    pub fn to_string(&self) -> (res: String)
        ensures
            res@ == self.text(),
    {
        match self {
            StackContext::Context(ctx) => {
                let mut out = String::from_str("could not match ");
                out.append(debug_str(ctx).as_str());
                out
            },
        }
    }
}

/// `b` is the tree `a` with each location replaced as `rel` says.
pub open spec fn mapped<I, T>(rel: spec_fn(I, T) -> bool, a: ErrorTree<I>, b: ErrorTree<T>) -> bool
    decreases a,
{
    match a {
        ErrorTree::Base { location, kind } => {
            &&& b matches ErrorTree::Base { location: l2, kind: k2 }
            &&& rel(location, l2)
            &&& k2 == kind
        },
        ErrorTree::Stack { base, finalized, contexts } => {
            &&& b matches ErrorTree::Stack { base: b2, finalized: f2, contexts: c2 }
            &&& mapped(rel, *base, *b2)
            &&& f2 == finalized
            &&& c2@.len() == contexts@.len()
            &&& forall|i: int|
                0 <= i < contexts@.len() ==> rel(contexts@[i].0, (#[trigger] c2@[i]).0)
                    && c2@[i].1 == contexts@[i].1
        },
        ErrorTree::Alt(v) => {
            &&& b matches ErrorTree::Alt(v2)
            &&& v2@.len() == v@.len()
            &&& forall|i: int| 0 <= i < v@.len() ==> mapped(rel, v@[i], #[trigger] v2@[i])
        },
    }
}

/// A tree whose locations were replaced under a relation has them replaced
/// under every wider relation.
pub proof fn lemma_mapped_wider<I, T>(
    rel: spec_fn(I, T) -> bool,
    rel2: spec_fn(I, T) -> bool,
    a: ErrorTree<I>,
    b: ErrorTree<T>,
)
    requires
        mapped(rel, a, b),
        forall|i: I, t: T| #[trigger] rel(i, t) ==> rel2(i, t),
    ensures
        mapped(rel2, a, b),
    decreases a,
{
    match a {
        ErrorTree::Base { .. } => {},
        ErrorTree::Stack { base, finalized, contexts } => {
            match b {
                ErrorTree::Stack { base: b2, finalized: f2, contexts: c2 } => {
                    lemma_mapped_wider(rel, rel2, *base, *b2);
                    assert forall|i: int| 0 <= i < contexts@.len() implies rel2(
                        contexts@[i].0,
                        (#[trigger] c2@[i]).0,
                    ) && c2@[i].1 == contexts@[i].1 by {
                        assert(rel(contexts@[i].0, c2@[i].0));
                    }
                },
                _ => {},
            }
        },
        ErrorTree::Alt(v) => {
            match b {
                ErrorTree::Alt(v2) => {
                    assert forall|i: int| 0 <= i < v@.len() implies mapped(
                        rel2,
                        v@[i],
                        #[trigger] v2@[i],
                    ) by {
                        lemma_mapped_wider(rel, rel2, v@[i], v2@[i]);
                    }
                },
                _ => {},
            }
        },
    }
}

impl<I: Copy> ErrorTree<I> {
    /// Makes the tree with the same failures and labels, each location
    /// replaced by what `convert_location` gives for it.
    pub fn map_locations<T, F: Fn(I) -> T>(&self, convert_location: &F) -> (res: ErrorTree<T>)
        requires
            forall|i: I| call_requires(*convert_location, (i,)),
        ensures
            mapped(fn_ens(convert_location), *self, res),
        decreases self,
    {
        match self {
            ErrorTree::Base { location, kind } => ErrorTree::Base {
                location: convert_location(*location),
                kind: *kind,
            },
            ErrorTree::Stack { base, contexts, finalized } => {
                let new_base = base.map_locations(convert_location);
                let mut new_contexts: Vec<(T, StackContext)> = Vec::new();
                let mut i: usize = 0;
                while i < contexts.len()
                    invariant
                        forall|i: I| call_requires(*convert_location, (i,)),
                        i <= contexts@.len(),
                        new_contexts@.len() == i,
                        forall|j: int|
                            0 <= j < i ==> fn_ens(convert_location)(
                                contexts@[j].0,
                                (#[trigger] new_contexts@[j]).0,
                            ) && new_contexts@[j].1 == contexts@[j].1,
                    decreases contexts.len() - i,
                {
                    let entry = &contexts[i];
                    new_contexts.push((convert_location(entry.0), entry.1));
                    i = i + 1;
                }
                ErrorTree::Stack {
                    base: Box::new(new_base),
                    contexts: new_contexts,
                    finalized: *finalized,
                }
            },
            ErrorTree::Alt(siblings) => {
                let mut out: Vec<ErrorTree<T>> = Vec::new();
                let mut i: usize = 0;
                while i < siblings.len()
                    invariant
                        forall|i: I| call_requires(*convert_location, (i,)),
                        *self == ErrorTree::<I>::Alt(*siblings),
                        i <= siblings@.len(),
                        out@.len() == i,
                        forall|j: int|
                            0 <= j < i ==> mapped(
                                fn_ens(convert_location),
                                siblings@[j],
                                #[trigger] out@[j],
                            ),
                    decreases siblings.len() - i,
                {
                    proof {
                        vstd::std_specs::vec::axiom_vec_index_decreases(*siblings, i as int);
                        assert(self->Alt_0 == *siblings);
                    }
                    out.push(siblings[i].map_locations(convert_location));
                    i = i + 1;
                }
                ErrorTree::Alt(out)
            },
        }
    }
}

impl ErrorTree<String> {
    /// The lines that name the labels of a stack: the last label first.
    pub open spec fn contexts_text(contexts: Seq<(String, StackContext)>, n: nat) -> Seq<char>
        decreases n,
    {
        if n == 0 || n > contexts.len() {
            Seq::<char>::empty()
        } else {
            contexts[n - 1].1.text() + " at "@ + contexts[n - 1].0@ + " because\n"@
                + Self::contexts_text(contexts, (n - 1) as nat)
        }
    }

    /// The tree as text. A single failure is written in one line. A stack
    /// is written as a line for each label, the last label first, and the
    /// failure below them, indented. Alternatives are written below a
    /// heading, indented, with `or` between them.
    pub open spec fn text(self) -> Seq<char>
        decreases self, 0nat,
    {
        match self {
            ErrorTree::Base { location, kind } => kind.text() + " at "@ + location@,
            ErrorTree::Stack { base, contexts, .. } => Self::contexts_text(
                contexts@,
                contexts@.len(),
            ) + indent_text(base.text(), true),
            ErrorTree::Alt(siblings) => "none of these matched:\n"@ + indent_text(
                joined(Self::texts_of(siblings@, siblings@.len()), " or\n"@),
                true,
            ),
        }
    }

    /// The texts of the first `n` trees of `v`.
    pub open spec fn texts_of(v: Seq<Self>, n: nat) -> Seq<Seq<char>>
        decreases v, n,
    {
        if n == 0 || n > v.len() {
            Seq::<Seq<char>>::empty()
        } else {
            Self::texts_of(v, (n - 1) as nat).push(v[n - 1].text())
        }
    }

    /// Writes the tree.
    pub fn to_string(&self) -> (res: String)
        ensures
            res@ == self.text(),
        decreases self,
    {
        match self {
            ErrorTree::Base { location, kind } => {
                let mut out = kind.to_string();
                out.append(" at ");
                out.append(location.as_str());
                out
            },
            ErrorTree::Stack { contexts, base, finalized: _ } => {
                let mut out = String::new();
                let mut n: usize = contexts.len();
                while n > 0
                    invariant
                        n <= contexts@.len(),
                        out@ + Self::contexts_text(contexts@, n as nat) == Self::contexts_text(
                            contexts@,
                            contexts@.len(),
                        ),
                    decreases n,
                {
                    let ghost had = out@;
                    let entry = &contexts[n - 1];
                    out.append(entry.1.to_string().as_str());
                    out.append(" at ");
                    out.append(entry.0.as_str());
                    out.append(" because\n");
                    proof {
                        assert(out@ + Self::contexts_text(contexts@, (n - 1) as nat) =~= had
                            + Self::contexts_text(contexts@, n as nat));
                    }
                    n = n - 1;
                }
                proof {
                    assert(out@ + Seq::<char>::empty() =~= out@);
                }
                out.append(indent(base.to_string()).to_string().as_str());
                out
            },
            ErrorTree::Alt(siblings) => {
                let mut items: Vec<String> = Vec::new();
                let mut i: usize = 0;
                while i < siblings.len()
                    invariant
                        *self == ErrorTree::<String>::Alt(*siblings),
                        i <= siblings@.len(),
                        items@.len() == i,
                        texts(items@) =~= Self::texts_of(siblings@, i as nat),
                    decreases siblings.len() - i,
                {
                    proof {
                        vstd::std_specs::vec::axiom_vec_index_decreases(*siblings, i as int);
                        assert(self->Alt_0 == *siblings);
                    }
                    let ghost before = items@;
                    items.push(siblings[i].to_string());
                    proof {
                        assert(texts(items@) =~= texts(before).push(siblings@[i as int].text()));
                    }
                    i = i + 1;
                }
                let mut out = String::from_str("none of these matched:\n");
                out.append(indent(join(&items, " or\n")).to_string().as_str());
                out
            },
        }
    }
}

/// An error tree whose locations are written out, ready to be written as a
/// whole.
#[derive(Debug)]
pub struct ErrorTreeFmt(pub ErrorTree<String>);

/// The text of the line and column of a cursor.
pub open spec fn as_location_text<'a>() -> spec_fn(Input<'a>, String) -> bool {
    |i: Input<'a>, out: String| out@ == i.place().text()
}

fn location_text<'a>(i: Input<'a>) -> (res: String)
    ensures
        as_location_text()(i, res),
{
    i.location().to_string()
}

/// The line and column of a cursor.
pub open spec fn as_location<'a>() -> spec_fn(Input<'a>, Location) -> bool {
    |i: Input<'a>, out: Location| out == i.place()
}

fn location_of<'a>(i: Input<'a>) -> (res: Location)
    ensures
        as_location()(i, res),
{
    i.location()
}

impl ErrorTreeFmt {
    /// Writes out the locations of a tree, each as line and column.
    pub fn new<'a>(e: &ErrorTree<Input<'a>>) -> (res: Self)
        ensures
            mapped(as_location_text(), *e, res.0),
    {
        let tree = e.map_locations(&location_text);
        proof {
            lemma_mapped_wider(fn_ens(&location_text), as_location_text(), *e, tree);
        }
        ErrorTreeFmt(tree)
    }

    /// Writes the tree.
    pub fn to_string(&self) -> (res: String)
        ensures
            res@ == self.0.text(),
    {
        self.0.to_string()
    }
}

/// The text of a cursor: its line and column and, for a cursor that is
/// well formed, what stands there.
pub open spec fn as_shown<'a>() -> spec_fn(Input<'a>, String) -> bool {
    |i: Input<'a>, out: String|
        out@ == (if i.wf() {
            i.shown()
        } else {
            i.place().text()
        })
}

fn shown_text<'a>(i: Input<'a>) -> (res: String)
    ensures
        as_shown()(i, res),
{
    if i.is_well_formed() {
        i.to_string()
    } else {
        i.location().to_string()
    }
}

impl<'a> InputParseErr<'a> {
    /// Writes the failure: its tree, each cursor written with its line and
    /// column and with what stands there.
    pub fn to_string(&self) -> (res: String)
        ensures
            exists|shown: ErrorTree<String>|
                mapped(as_shown(), self.tree(), shown) && res@ == #[trigger] shown.text(),
    {
        match self {
            InputParseErr::Recoverable(e) => e.to_string(),
            InputParseErr::Fatal(e) => e.to_string(),
        }
    }
}

impl<'a> ErrorTree<Input<'a>> {
    /// Writes the tree, each cursor written with its line and column and
    /// with what stands there.
    pub fn to_string(&self) -> (res: String)
        ensures
            exists|shown: ErrorTree<String>|
                mapped(as_shown(), *self, shown) && res@ == #[trigger] shown.text(),
    {
        let shown = self.map_locations(&shown_text);
        proof {
            lemma_mapped_wider(fn_ens(&shown_text), as_shown(), *self, shown);
        }
        let res = shown.to_string();
        assert(mapped(as_shown(), *self, shown) && res@ == shown.text());
        res
    }

    /// Replaces each cursor by its line and column.
    pub fn calc_locations(&self) -> (res: ErrorTree<Location>)
        ensures
            mapped(as_location(), *self, res),
    {
        let tree = self.map_locations(&location_of);
        proof {
            lemma_mapped_wider(fn_ens(&location_of), as_location(), *self, tree);
        }
        tree
    }
}

} // verus!
