use vstd::prelude::*;
use vstd::string::StringSliceAdditionalSpecFns;
use vstd::utf8::*;
use crate::utf8_parser::text::{
    byte_len, char_width, lemma_boundary_iff, lemma_boundary_shift, lemma_split_chars,
    lemma_subrange_valid, lemma_take_one, lemma_take_step, len_utf8,
};

verus! {

/// Where a cursor stands in its source.
#[derive(Clone, Copy, Debug, PartialEq, Eq, Structural)]
pub enum Offset {
    /// Bytes from the start of the whole source
    Absolute(usize),
    /// Bytes from some earlier cursor
    Relative(usize),
}

impl Offset {
    /// Moves an absolute offset `offset` bytes on.
    pub fn add(self, offset: usize) -> (res: Offset)
        requires
            self is Absolute,
            self->Absolute_0 + offset <= usize::MAX,
        ensures
            res == Offset::Absolute((self->Absolute_0 + offset) as usize),
    {
        match self {
            Offset::Absolute(x) => Offset::Absolute(x + offset),
            Offset::Relative(x) => Offset::Relative(x),
        }
    }
}

/// A view of a part of the source text: the whole source, and the byte range
/// of it that is still to be read. Copying a cursor copies three words; no
/// parser ever changes one.
///
/// Cursors into one source are ordered by the place where they start.
#[derive(Clone, Copy, Debug, PartialEq, Eq, PartialOrd, Ord)]
pub struct Input<'a> {
    /// First byte of the fragment, counted from the start of the source
    pub offset: usize,
    /// the complete input
    pub input: &'a str,
    /// First byte after the fragment, counted from the start of the source
    pub end: usize,
}

impl<'a> Input<'a> {
    /// The bytes of the whole source.
    pub open spec fn source(&self) -> Seq<u8> {
        self.input.spec_bytes()
    }

    /// The fragment lies within the source and starts and ends between two
    /// characters.
    pub open spec fn wf(&self) -> bool {
        &&& self.offset <= self.end <= self.source().len()
        &&& is_char_boundary(self.source(), self.offset as int)
        &&& is_char_boundary(self.source(), self.end as int)
    }

    /// The bytes of the fragment.
    pub open spec fn raw(&self) -> Seq<u8> {
        self.source().subrange(self.offset as int, self.end as int)
    }

    /// The characters of the fragment.
    pub open spec fn text(&self) -> Seq<char> {
        decode_utf8(self.raw())
    }

    /// The number of bytes in the fragment.
    pub open spec fn size(&self) -> nat {
        (self.end - self.offset) as nat
    }

    /// The cursor that has read `n` more bytes.
    pub open spec fn advance(&self, n: int) -> Input<'a> {
        Input { offset: (self.offset + n) as usize, input: self.input, end: self.end }
    }

    /// The cursor over the first `n` bytes of the fragment.
    pub open spec fn prefix(&self, n: int) -> Input<'a> {
        Input { offset: self.offset, input: self.input, end: (self.offset + n) as usize }
    }

    /// The cursor over the bytes `from..to` of the fragment.
    pub open spec fn part(&self, from: int, to: int) -> Input<'a> {
        Input {
            offset: (self.offset + from) as usize,
            input: self.input,
            end: (self.offset + to) as usize,
        }
    }

    /// The cursor that has read the first `k` characters.
    pub open spec fn skip_chars(&self, k: int) -> Input<'a> {
        self.advance(byte_len(self.text().take(k)) as int)
    }

    /// The cursor over the first `k` characters.
    pub open spec fn take_chars(&self, k: int) -> Input<'a> {
        self.prefix(byte_len(self.text().take(k)) as int)
    }

    /// `self` is what is left of `other` after reading some of it.
    pub open spec fn is_rest_of(&self, other: Input<'a>) -> bool {
        &&& self.wf()
        &&& self.input == other.input
        &&& self.end == other.end
        &&& other.offset <= self.offset
    }

    /// `self` is what is left of `other` after reading at least one byte of
    /// it.
    pub open spec fn is_inside(&self, other: Input<'a>) -> bool {
        self.is_rest_of(other) && other.offset < self.offset
    }

    /// `n` bytes into the fragment, a character starts or the fragment ends.
    pub open spec fn boundary(&self, n: int) -> bool {
        0 <= n <= self.size() && is_char_boundary(self.source(), self.offset + n)
    }

    /// The fragment is valid UTF-8, and boundaries inside it are boundaries
    /// of the source.
    pub proof fn lemma_raw_valid(&self)
        requires
            self.wf(),
        ensures
            valid_utf8(self.source()),
            valid_utf8(self.raw()),
            encode_utf8(self.text()) == self.raw(),
            self.raw().len() == self.size(),
            forall|n: int|
                0 <= n <= self.size() ==> (#[trigger] is_char_boundary(self.raw(), n)
                    <==> self.boundary(n)),
    {
        encode_utf8_valid_utf8(self.input@);
        lemma_subrange_valid(self.source(), self.offset as int, self.end as int);
        decode_utf8_encode_utf8(self.raw());
        assert forall|n: int| 0 <= n <= self.size() implies (#[trigger] is_char_boundary(
            self.raw(),
            n,
        ) <==> self.boundary(n)) by {
            lemma_boundary_shift(self.source(), self.offset as int, self.end as int, n);
        }
    }

    /// Reading the first `k` characters leaves a well-formed cursor over the
    /// other characters, and the part read is a well-formed cursor over
    /// those `k`.
    pub proof fn lemma_skip_chars(&self, k: int)
        requires
            self.wf(),
            0 <= k <= self.text().len(),
        ensures
            byte_len(self.text().take(k)) <= self.size(),
            self.boundary(byte_len(self.text().take(k)) as int),
            self.skip_chars(k).wf(),
            self.skip_chars(k).is_rest_of(*self),
            self.skip_chars(k).text() == self.text().skip(k),
            self.take_chars(k).wf(),
            self.take_chars(k).text() == self.text().take(k),
    {
        self.lemma_raw_valid();
        let b = self.raw();
        lemma_split_chars(b, k);
        let n = byte_len(self.text().take(k)) as int;
        assert(self.skip_chars(k).raw() =~= b.subrange(n, b.len() as int));
        assert(self.take_chars(k).raw() =~= b.subrange(0, n));
    }

    /// A cursor over a text with a first character can step over it.
    pub proof fn lemma_first_char(&self)
        requires
            self.wf(),
            self.text().len() > 0,
        ensures
            char_width(self.text()[0]) <= self.size(),
            self.advance(char_width(self.text()[0]) as int) == self.skip_chars(1),
    {
        lemma_take_one(self.text());
        self.lemma_skip_chars(1);
    }

    /// What is left after the first character lies inside the input.
    pub proof fn lemma_inside_after_first(&self)
        requires
            self.wf(),
            self.text().len() > 0,
        ensures
            self.skip_chars(1).is_inside(*self),
    {
        self.lemma_skip_chars(1);
        self.lemma_first_char();
        vstd::utf8::char_is_scalar(self.text()[0]);
    }

    /// An empty fragment has no characters, and a fragment with bytes has one.
    pub proof fn lemma_empty(&self)
        requires
            self.wf(),
        ensures
            self.size() == 0 <==> self.text().len() == 0,
    {
        self.lemma_raw_valid();
        if self.size() == 0 {
            assert(self.raw() =~= Seq::<u8>::empty());
        } else {
            assert(self.raw().len() > 0);
        }
    }

    /// The cursor over a whole source text.
    pub open spec fn whole(input: &'a str) -> Input<'a> {
        Input { offset: 0, input, end: input.spec_bytes().len() as usize }
    }

    /// Wraps a whole source text.
    pub fn new(input: &'a str) -> (res: Self)
        ensures
            res == Self::whole(input),
            res.wf(),
            res.input == input,
            res.offset == 0,
            res.end == input.spec_bytes().len(),
            res.text() == input@,
    {
        proof {
            encode_utf8_valid_utf8(input@);
            is_char_boundary_start_end_of_seq(input.spec_bytes());
            encode_utf8_decode_utf8(input@);
            assert(input.spec_bytes().subrange(0, input.spec_bytes().len() as int)
                =~= input.spec_bytes());
        }
        let end = input.as_bytes().len();
        Input { offset: 0, input, end }
    }

    /// The cursor over an empty text, for values that were not read anywhere.
    pub open spec fn mocked() -> Input<'static> {
        Input { offset: 0, input: "", end: 0 }
    }

    /// The cursor over an empty text, for values that were not read anywhere.
    pub fn new_mocked() -> (res: Input<'static>)
        ensures
            res == Self::mocked(),
            res.wf(),
    {
        proof {
            reveal_strlit("");
            assert(""@ =~= Seq::<char>::empty());
        }
        Input::new("")
    }

    /// Does the fragment lie within the source, between two characters?
    pub fn is_well_formed(&self) -> (res: bool)
        ensures
            res == self.wf(),
    {
        self.offset <= self.end && self.end <= self.input.as_bytes().len()
            && self.input.is_char_boundary(self.offset) && self.input.is_char_boundary(self.end)
    }

    /// Is nothing left to read?
    pub fn is_empty(&self) -> (res: bool)
        requires
            self.wf(),
        ensures
            res == (self.size() == 0),
            res == (self.text().len() == 0),
    {
        proof {
            self.lemma_empty();
        }
        self.offset == self.end
    }

    /// The number of bytes left to read.
    pub fn len(&self) -> (res: usize)
        requires
            self.wf(),
        ensures
            res == self.size(),
    {
        self.end - self.offset
    }

    /// Where the fragment starts in the source.
    pub fn offset(&self) -> (res: Offset)
        ensures
            res == Offset::Absolute(self.offset),
    {
        Offset::Absolute(self.offset)
    }

    /// The number of bytes from the start of this fragment to the start of
    /// `other`, a cursor further on in the same source.
    pub fn offset_to(&self, other: &Self) -> (res: usize)
        requires
            self.offset <= other.offset,
        ensures
            res == other.offset - self.offset,
    {
        other.offset - self.offset
    }

    /// The fragment as a string slice of the source.
    pub fn fragment(&self) -> (res: &'a str)
        requires
            self.wf(),
        ensures
            res.spec_bytes() == self.raw(),
            res@ == self.text(),
    {
        proof {
            encode_utf8_valid_utf8(self.input@);
            valid_utf8_split(self.source(), self.end as int);
            lemma_boundary_iff(self.source(), self.offset as int);
            lemma_boundary_iff(self.source().subrange(0, self.end as int), self.offset as int);
        }
        let (head, _) = self.input.split_at(self.end);
        let (_, res) = head.split_at(self.offset);
        proof {
            assert(res.spec_bytes() =~= self.raw());
            encode_utf8_decode_utf8(res@);
        }
        res
    }

    /// The first character of the fragment, if it has one.
    pub fn first_char(&self) -> (res: Option<char>)
        requires
            self.wf(),
        ensures
            res == (if self.text().len() > 0 {
                Some(self.text()[0])
            } else {
                None
            }),
    {
        let frag = self.fragment();
        let mut it = frag.chars();
        proof {
            vstd::string::axiom_spec_iter(frag);
        }
        let ghost before = it;
        let res = it.next();
        proof {
            vstd::string::next_postcondition(&before, &it, res);
        }
        res
    }

    /// The characters of the fragment.
    pub fn chars(&self) -> (res: Vec<char>)
        requires
            self.wf(),
        ensures
            res@ == self.text(),
    {
        let mut out: Vec<char> = Vec::new();
        let mut cur = *self;
        proof {
            self.lemma_skip_chars(0);
            assert(self.text().take(0) =~= Seq::<char>::empty());
            assert(self.text().skip(0) =~= self.text());
        }
        loop
            invariant
                self.wf(),
                out@.len() <= self.text().len(),
                cur == self.skip_chars(out@.len() as int),
                cur.is_rest_of(*self),
                cur.text() == self.text().skip(out@.len() as int),
                out@ =~= self.text().take(out@.len() as int),
            decreases self.text().len() - out@.len(),
        {
            match cur.first_char() {
                None => {
                    assert(self.text().take(out@.len() as int) =~= self.text());
                    return out;
                },
                Some(c) => {
                    cur = cur.step_over(c, *self, Ghost(out@.len() as int));
                    out.push(c);
                },
            }
        }
    }

    /// The characters of the fragment, each with the byte of the fragment
    /// where it starts.
    pub fn char_indices(&self) -> (res: Vec<(usize, char)>)
        requires
            self.wf(),
        ensures
            res@.len() == self.text().len(),
            forall|i: int|
                0 <= i < res@.len() ==> (#[trigger] res@[i]) == (
                    byte_len(self.text().take(i)) as usize,
                    self.text()[i],
                ),
    {
        let mut out: Vec<(usize, char)> = Vec::new();
        let mut cur = *self;
        proof {
            self.lemma_skip_chars(0);
            assert(self.text().take(0) =~= Seq::<char>::empty());
            assert(self.text().skip(0) =~= self.text());
        }
        loop
            invariant
                self.wf(),
                out@.len() <= self.text().len(),
                cur == self.skip_chars(out@.len() as int),
                cur.is_rest_of(*self),
                cur.text() == self.text().skip(out@.len() as int),
                forall|i: int|
                    0 <= i < out@.len() ==> (#[trigger] out@[i]) == (
                        byte_len(self.text().take(i)) as usize,
                        self.text()[i],
                    ),
            decreases self.text().len() - out@.len(),
        {
            proof {
                self.lemma_skip_chars(out@.len() as int);
            }
            match cur.first_char() {
                None => {
                    return out;
                },
                Some(c) => {
                    let at = cur.offset - self.offset;
                    cur = cur.step_over(c, *self, Ghost(out@.len() as int));
                    out.push((at, c));
                },
            }
        }
    }

    /// Steps from `self`, which stands behind the first `i` characters of
    /// `base`, over the character `c` that stands there.
    pub fn step_over(&self, c: char, base: Input<'a>, Ghost(i): Ghost<int>) -> (res: Self)
        requires
            base.wf(),
            0 <= i < base.text().len(),
            *self == base.skip_chars(i),
            c == base.text()[i],
        ensures
            res == base.skip_chars(i + 1),
            res.is_rest_of(base),
            res.is_rest_of(*self),
            res.text() == base.text().skip(i + 1),
            res.offset == self.offset + char_width(c),
    {
        proof {
            base.lemma_skip_chars(i);
            base.lemma_skip_chars(i + 1);
            lemma_take_step(base.text(), i);
        }
        Input { offset: self.offset + len_utf8(c), input: self.input, end: self.end }
    }

    /// The cursor that has read `n` more bytes; `n` bytes on a character
    /// starts or the fragment ends.
    pub fn skip(&self, n: usize) -> (res: Self)
        requires
            self.wf(),
            self.boundary(n as int),
        ensures
            res == self.advance(n as int),
            res.is_rest_of(*self),
    {
        Input { offset: self.offset + n, input: self.input, end: self.end }
    }

    /// Splits off the first `count` bytes: gives what is left, then what was
    /// split off. `count` bytes on a character starts or the fragment ends.
    pub fn take_split(&self, count: usize) -> (res: (Self, Self))
        requires
            self.wf(),
            self.boundary(count as int),
        ensures
            res.0 == self.advance(count as int),
            res.1 == self.prefix(count as int),
            res.0.is_rest_of(*self),
            res.1.wf(),
    {
        (
            Input { offset: self.offset + count, input: self.input, end: self.end },
            Input { offset: self.offset, input: self.input, end: self.offset + count },
        )
    }

    /// The cursor over the bytes `from..to` of the fragment; both are places
    /// where a character starts or the fragment ends.
    pub fn slice(&self, from: usize, to: usize) -> (res: Self)
        requires
            self.wf(),
            from <= to,
            self.boundary(from as int),
            self.boundary(to as int),
        ensures
            res == self.part(from as int, to as int),
            res.wf(),
    {
        Input { offset: self.offset + from, input: self.input, end: self.offset + to }
    }
}

} // verus!
