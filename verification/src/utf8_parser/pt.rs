//! Parse tree

use vstd::prelude::*;
use vstd::std_specs::cmp::{PartialEqSpec, PartialEqSpecImpl};
use crate::utf8_parser::input::Input;

verus! {

/// A value with the place in the source where it was read.
///
/// IMPORTANT: Equality operators do NOT compare the start & end spans!
#[derive(Debug)]
pub struct Spanned<'a, T> {
    pub start: Input<'a>,
    pub value: T,
    pub end: Input<'a>,
}

/// IMPORTANT: Equality operators do NOT compare the start & end spans!
impl<'a, T: PartialEq> PartialEq for Spanned<'a, T> {
    fn eq(&self, other: &Self) -> (res: bool) {
        self.value.eq(&other.value)
    }
}

impl<'a, T: PartialEq> PartialEqSpecImpl for Spanned<'a, T> {
    open spec fn obeys_eq_spec() -> bool {
        T::obeys_eq_spec()
    }

    open spec fn eq_spec(&self, other: &Self) -> bool {
        self.value.eq_spec(&other.value)
    }
}

impl<'a, T> Spanned<'a, T> {
    /// A value without a place in any source: its span is that of an empty
    /// text.
    pub open spec fn mock(value: T) -> Spanned<'a, T> {
        Spanned { start: Input::mocked(), value, end: Input::mocked() }
    }

    /// A value without a place in any source: its span is that of an empty
    /// text.
    pub fn new_test(value: T) -> (res: Self)
        ensures
            res == Self::mock(value),
    {
        Spanned { start: Input::new_mocked(), value, end: Input::new_mocked() }
    }

    /// Changes the value and keeps the span.
    pub fn map<T2, F: FnOnce(T) -> T2>(self, f: F) -> (res: Spanned<'a, T2>)
        requires
            f.requires((self.value,)),
        ensures
            res.start == self.start,
            res.end == self.end,
            f.ensures((self.value,), res.value),
    {
        Spanned { start: self.start, end: self.end, value: f(self.value) }
    }
}

/// An extension of the notation that a document can switch on.
#[derive(Clone, Copy, Debug, PartialEq, Eq, Structural)]
pub enum Extension {
    UnwrapNewtypes,
    ImplicitSome,
}

/// A whole document: its attributes and its one expression.
#[derive(Debug, PartialEq)]
pub struct Ron<'a> {
    pub attributes: Vec<Spanned<'a, Attribute<'a>>>,
    pub expr: Spanned<'a, Expr<'a>>,
}

/// A declaration at the head of a document.
#[derive(Debug, PartialEq)]
pub enum Attribute<'a> {
    Enable(Spanned<'a, Vec<Spanned<'a, Extension>>>),
}

impl<'a> Attribute<'a> {
    /// The attribute that switches `extensions` on, without a place in any
    /// source.
    pub fn enables_test(extensions: Vec<Extension>) -> (res: Self)
        ensures
            res matches Attribute::Enable(list) && list.start == Input::mocked() && list.end
                == Input::mocked() && list.value@.len() == extensions@.len() && forall|i: int|
                0 <= i < extensions@.len() ==> (#[trigger] list.value@[i]) == Spanned::<
                    'a,
                    Extension,
                >::mock(extensions@[i]),
    {
        let mut list: Vec<Spanned<'a, Extension>> = Vec::new();
        let mut i: usize = 0;
        while i < extensions.len()
            invariant
                i <= extensions.len(),
                list@.len() == i,
                forall|j: int|
                    0 <= j < i ==> (#[trigger] list@[j]) == Spanned::<'a, Extension>::mock(
                        extensions@[j],
                    ),
            decreases extensions.len() - i,
        {
            list.push(Spanned::new_test(extensions[i]));
            i = i + 1;
        }
        Attribute::Enable(Spanned::new_test(list))
    }
}

/// A name.
#[derive(Clone, Copy, Debug, PartialEq)]
pub struct Ident<'a>(pub &'a str);

impl<'a> Ident<'a> {
    /// The name that `input` spells.
    pub fn from_str(input: &'a str) -> (res: Self)
        ensures
            res.0 == input,
    {
        Ident(input)
    }

    /// The name as a text of its own.
    pub fn into_string(self) -> (res: String)
        ensures
            res@ == self.0@,
    {
        self.0.to_owned()
    }
}

#[derive(Clone, Copy, Debug, PartialEq, Eq, Structural)]
pub enum Sign {
    Positive,
    Negative,
}

impl Sign {
    /// 1 for the positive sign, -1 for the negative.
    pub open spec fn unit(self) -> int {
        match self {
            Sign::Positive => 1,
            Sign::Negative => -1,
        }
    }

    /// The sign as a number: 1 or -1.
    pub fn into_i8(self) -> (res: i8)
        ensures
            res == self.unit(),
    {
        match self {
            Sign::Positive => 1,
            Sign::Negative => -1,
        }
    }
}

#[derive(Clone, Copy, Debug, PartialEq, Eq, Structural)]
pub struct UnsignedInteger {
    pub number: u64,
}

impl UnsignedInteger {
    /// The integer `number`.
    pub fn new(number: u64) -> (res: Self)
        ensures
            res.number == number,
    {
        UnsignedInteger { number }
    }

    /// The number.
    pub fn into_u64(self) -> (res: u64)
        ensures
            res == self.number,
    {
        self.number
    }

    /// The integer as an expression.
    pub fn to_expr(self) -> (res: Expr<'static>)
        ensures
            res == Expr::<'static>::Integer(Integer::Unsigned(self)),
    {
        Expr::Integer(Integer::Unsigned(self))
    }
}

#[derive(Clone, Copy, Debug, PartialEq, Eq, Structural)]
pub struct SignedInteger {
    pub sign: Sign,
    pub number: u64,
}

impl SignedInteger {
    /// The integer with this sign and number.
    pub fn new_test(sign: Sign, number: u64) -> (res: Self)
        ensures
            res == (SignedInteger { sign, number }),
    {
        SignedInteger { sign, number }
    }

    /// The integer as an expression.
    pub fn to_expr(self) -> (res: Expr<'static>)
        ensures
            res == Expr::<'static>::Integer(Integer::Signed(self)),
    {
        Expr::Integer(Integer::Signed(self))
    }
}

#[derive(Clone, Copy, Debug, PartialEq, Eq, Structural)]
pub enum Integer {
    Signed(SignedInteger),
    Unsigned(UnsignedInteger),
}

impl Integer {
    /// The integer with this sign, if there is one, and number.
    pub fn new_test(sign: Option<Sign>, number: u64) -> (res: Self)
        ensures
            res == (match sign {
                None => Integer::Unsigned(UnsignedInteger { number }),
                Some(sign) => Integer::Signed(SignedInteger { sign, number }),
            }),
    {
        match sign {
            None => Integer::Unsigned(UnsignedInteger::new(number)),
            Some(sign) => Integer::Signed(SignedInteger::new_test(sign, number)),
        }
    }

    /// The number with sign that 64 bits hold for `x`: the number between
    /// -2^63 and 2^63 - 1 that differs from `x` by a multiple of 2^64.
    pub open spec fn wrap64(x: int) -> int {
        (x + 0x8000_0000_0000_0000) % 0x1_0000_0000_0000_0000 - 0x8000_0000_0000_0000
    }

    /// The integer as a number: the number without sign, or the number
    /// with its sign.
    pub open spec fn value(self) -> int {
        match self {
            Integer::Signed(s) => s.sign.unit() * s.number,
            Integer::Unsigned(u) => u.number as int,
        }
    }

    /// The integer in 64 bits with sign. An integer that these bits do not
    /// hold wraps around.
    pub fn into_i64(self) -> (res: i64)
        ensures
            res == Self::wrap64(self.value()),
            i64::MIN <= self.value() <= i64::MAX ==> res == self.value(),
    {
        match self {
            Integer::Signed(s) => {
                let bits = reinterpret(s.number);
                match s.sign {
                    Sign::Positive => bits,
                    Sign::Negative => {
                        if bits == i64::MIN {
                            bits
                        } else {
                            -bits
                        }
                    },
                }
            },
            Integer::Unsigned(u) => reinterpret(u.number),
        }
    }

    /// The integer as an expression.
    pub fn to_expr(self) -> (res: Expr<'static>)
        ensures
            res == Expr::<'static>::Integer(self),
    {
        Expr::Integer(self)
    }
}

/// The number with sign that has the bits of `number`.
fn reinterpret(number: u64) -> (res: i64)
    ensures
        res == Integer::wrap64(number as int),
        res == (if number >= 0x8000_0000_0000_0000 {
            number - 0x1_0000_0000_0000_0000
        } else {
            number as int
        }),
{
    if number >= 0x8000_0000_0000_0000 {
        let low = number - 0x8000_0000_0000_0000;
        (low as i64) - 0x4000_0000_0000_0000 - 0x4000_0000_0000_0000
    } else {
        number as i64
    }
}

/// A number with a decimal point, as it was written: the digits after the
/// point are kept as a number and as a count, so that leading zeros are not
/// lost.
#[derive(Clone, Copy, Debug, PartialEq, Eq)]
pub struct Decimal {
    pub sign: Option<Sign>,
    pub whole: Option<u64>,
    pub fractional: u64,
    pub fractional_digits: u16,
    pub exponent: Option<(Option<Sign>, u16)>,
}

impl Decimal {
    /// The decimal with these parts.
    pub fn new(
        sign: Option<Sign>,
        whole: Option<u64>,
        fractional: u64,
        fractional_digits: u16,
        exponent: Option<(Option<Sign>, u16)>,
    ) -> (res: Self)
        ensures
            res == (Decimal { sign, whole, fractional, fractional_digits, exponent }),
    {
        Decimal { sign, whole, fractional, fractional_digits, exponent }
    }

    /// 1, and -1 where the decimal has a minus sign.
    pub open spec fn sign_unit(self) -> int {
        match self.sign {
            Some(s) => s.unit(),
            None => 1,
        }
    }

    /// The digits before the point as a number: 0 where there is none.
    pub open spec fn whole_part(self) -> nat {
        match self.whole {
            Some(w) => w as nat,
            None => 0,
        }
    }

    /// The exponent with its sign: 0 where none is written.
    pub open spec fn power(self) -> int {
        match self.exponent {
            Some((Some(s), e)) => s.unit() * e,
            Some((None, e)) => e as int,
            None => 0,
        }
    }

    /// The power of ten that the last digit behind the point counts.
    pub open spec fn scale(self) -> int {
        self.power() - self.fractional_digits
    }

    /// The sign as a number: 1 or -1. The decimal stands for this sign
    /// times the sum of `whole_number` times ten to `signed_exponent` and
    /// `fractional` times ten to `fraction_exponent`.
    pub fn sign_number(&self) -> (res: i8)
        ensures
            res == self.sign_unit(),
    {
        match self.sign {
            Some(s) => s.into_i8(),
            None => 1,
        }
    }

    /// The digits before the point as a number.
    pub fn whole_number(&self) -> (res: u64)
        ensures
            res == self.whole_part(),
    {
        match self.whole {
            Some(w) => w,
            None => 0,
        }
    }

    /// The exponent with its sign.
    pub fn signed_exponent(&self) -> (res: i32)
        ensures
            res == self.power(),
    {
        match self.exponent {
            Some((Some(Sign::Negative), e)) => {
                let e: i32 = e as i32;
                -e
            },
            Some((_, e)) => e as i32,
            None => 0,
        }
    }

    /// The power of ten that the last digit behind the point counts.
    pub fn fraction_exponent(&self) -> (res: i32)
        ensures
            res == self.scale(),
    {
        self.signed_exponent() - self.fractional_digits as i32
    }
}

#[derive(Debug, PartialEq)]
pub struct KeyValue<'a, K> {
    pub key: Spanned<'a, K>,
    pub value: Spanned<'a, Expr<'a>>,
}

impl<'a, K> KeyValue<'a, K> {
    /// A key and a value, without a place in any source.
    pub open spec fn mock(key: K, value: Expr<'a>) -> KeyValue<'a, K> {
        KeyValue { key: Spanned::mock(key), value: Spanned::mock(value) }
    }

    /// A key and a value, without a place in any source.
    pub fn new_test(key: K, value: Expr<'a>) -> (res: Self)
        ensures
            res == Self::mock(key, value),
    {
        KeyValue { key: Spanned::new_test(key), value: Spanned::new_test(value) }
    }
}

#[derive(Debug, PartialEq)]
pub struct Struct<'a> {
    pub fields: Vec<Spanned<'a, KeyValue<'a, Ident<'a>>>>,
}

impl<'a> Struct<'a> {
    /// The struct of the named `fields`, without a place in any source.
    pub fn new_test(fields: Vec<(&'a str, Expr<'a>)>) -> (res: Self)
        ensures
            res.fields@.len() == fields@.len(),
            forall|i: int|
                0 <= i < fields@.len() ==> (#[trigger] res.fields@[i]) == Spanned::mock(
                    KeyValue::mock(Ident(fields@[i].0), fields@[i].1),
                ),
    {
        let mut fields = fields;
        let ghost all = fields@;
        let mut out: Vec<Spanned<'a, KeyValue<'a, Ident<'a>>>> = Vec::new();
        while fields.len() > 0
            invariant
                out@.len() + fields@.len() == all.len(),
                fields@ =~= all.subrange(out@.len() as int, all.len() as int),
                forall|i: int|
                    0 <= i < out@.len() ==> (#[trigger] out@[i]) == Spanned::mock(
                        KeyValue::mock(Ident(all[i].0), all[i].1),
                    ),
            decreases fields.len(),
        {
            let field = fields.remove(0);
            out.push(Spanned::new_test(KeyValue::new_test(Ident(field.0), field.1)));
        }
        Struct { fields: out }
    }

    /// The struct of the named `fields` under the tag `ident`.
    pub fn new_tagged(ident: &'a str, fields: Vec<(&'a str, Expr<'a>)>) -> (res: Tagged<'a>)
        ensures
            res.ident == Spanned::mock(Ident(ident)),
            res.untagged.start == Input::mocked(),
            res.untagged.end == Input::mocked(),
            res.untagged.value matches Untagged::Struct(s) && s.fields@.len() == fields@.len()
                && forall|i: int|
                0 <= i < fields@.len() ==> (#[trigger] s.fields@[i]) == Spanned::mock(
                    KeyValue::mock(Ident(fields@[i].0), fields@[i].1),
                ),
    {
        Tagged {
            ident: Spanned::new_test(Ident(ident)),
            untagged: Spanned::new_test(Untagged::Struct(Struct::new_test(fields))),
        }
    }
}

#[derive(Debug, PartialEq)]
pub struct RMap<'a> {
    pub entries: Vec<Spanned<'a, KeyValue<'a, Expr<'a>>>>,
}

impl<'a> RMap<'a> {
    /// The map of the entries `kvs`, without a place in any source.
    pub fn new_test(kvs: Vec<(Expr<'a>, Expr<'a>)>) -> (res: Self)
        ensures
            res.entries@.len() == kvs@.len(),
            forall|i: int|
                0 <= i < kvs@.len() ==> (#[trigger] res.entries@[i]) == Spanned::mock(
                    KeyValue::mock(kvs@[i].0, kvs@[i].1),
                ),
    {
        let mut kvs = kvs;
        let ghost all = kvs@;
        let mut out: Vec<Spanned<'a, KeyValue<'a, Expr<'a>>>> = Vec::new();
        while kvs.len() > 0
            invariant
                out@.len() + kvs@.len() == all.len(),
                kvs@ =~= all.subrange(out@.len() as int, all.len() as int),
                forall|i: int|
                    0 <= i < out@.len() ==> (#[trigger] out@[i]) == Spanned::mock(
                        KeyValue::mock(all[i].0, all[i].1),
                    ),
            decreases kvs.len(),
        {
            let kv = kvs.remove(0);
            out.push(Spanned::new_test(KeyValue::new_test(kv.0, kv.1)));
        }
        RMap { entries: out }
    }
}

/// Wraps each of `values` without a place in any source.
fn spanned_all<'a>(values: Vec<Expr<'a>>) -> (res: Vec<Spanned<'a, Expr<'a>>>)
    ensures
        res@.len() == values@.len(),
        forall|i: int| 0 <= i < values@.len() ==> (#[trigger] res@[i]) == Spanned::mock(values@[i]),
{
    let mut values = values;
    let ghost all = values@;
    let mut out: Vec<Spanned<'a, Expr<'a>>> = Vec::new();
    while values.len() > 0
        invariant
            out@.len() + values@.len() == all.len(),
            values@ =~= all.subrange(out@.len() as int, all.len() as int),
            forall|i: int| 0 <= i < out@.len() ==> (#[trigger] out@[i]) == Spanned::mock(all[i]),
        decreases values.len(),
    {
        let value = values.remove(0);
        out.push(Spanned::new_test(value));
    }
    out
}

#[derive(Debug, PartialEq)]
pub struct List<'a> {
    pub elements: Vec<Spanned<'a, Expr<'a>>>,
}

impl<'a> List<'a> {
    /// The list of `kvs`, without a place in any source.
    pub fn new_test(kvs: Vec<Expr<'a>>) -> (res: Self)
        ensures
            res.elements@.len() == kvs@.len(),
            forall|i: int|
                0 <= i < kvs@.len() ==> (#[trigger] res.elements@[i]) == Spanned::mock(kvs@[i]),
    {
        List { elements: spanned_all(kvs) }
    }
}

#[derive(Debug, PartialEq)]
pub struct Tuple<'a> {
    pub elements: Vec<Spanned<'a, Expr<'a>>>,
}

impl<'a> Tuple<'a> {
    /// The tuple of `kvs`, without a place in any source.
    pub fn new_test(kvs: Vec<Expr<'a>>) -> (res: Self)
        ensures
            res.elements@.len() == kvs@.len(),
            forall|i: int|
                0 <= i < kvs@.len() ==> (#[trigger] res.elements@[i]) == Spanned::mock(kvs@[i]),
    {
        Tuple { elements: spanned_all(kvs) }
    }
}

/// What can follow a tag, and stand without one.
#[derive(Debug, PartialEq)]
pub enum Untagged<'a> {
    Unit,
    Struct(Struct<'a>),
    Tuple(Tuple<'a>),
}

/// A name and what follows it.
#[derive(Debug, PartialEq)]
pub struct Tagged<'a> {
    pub ident: Spanned<'a, Ident<'a>>,
    pub untagged: Spanned<'a, Untagged<'a>>,
}

/// Are the two texts the same?
pub fn same_text(a: &str, b: &str) -> (res: bool)
    ensures
        res == (a@ == b@),
{
    let x = a.as_bytes();
    let y = b.as_bytes();
    proof {
        vstd::utf8::encode_utf8_decode_utf8(a@);
        vstd::utf8::encode_utf8_decode_utf8(b@);
    }
    if x.len() != y.len() {
        return false;
    }
    let mut i: usize = 0;
    while i < x.len()
        invariant
            x@ == vstd::utf8::encode_utf8(a@),
            y@ == vstd::utf8::encode_utf8(b@),
            x@.len() == y@.len(),
            i <= x@.len(),
            forall|j: int| 0 <= j < i ==> x@[j] == y@[j],
        decreases x.len() - i,
    {
        if x[i] != y[i] {
            return false;
        }
        i = i + 1;
    }
    assert(x@ =~= y@);
    true
}

impl<'a> Tagged<'a> {
    /// The tagged expression is `None`, or `Some` with one value.
    pub open spec fn optional(&self) -> bool {
        match self.untagged.value {
            Untagged::Tuple(t) => self.ident.value.0@ == "Some"@ && t.elements@.len() == 1,
            Untagged::Unit => self.ident.value.0@ == "None"@,
            Untagged::Struct(_) => false,
        }
    }

    /// Is the tagged expression `None`, or `Some` with one value?
    pub fn is_optional(&self) -> (res: bool)
        ensures
            res == self.optional(),
    {
        match &self.untagged.value {
            Untagged::Tuple(t) => same_text(self.ident.value.0, "Some") && t.elements.len() == 1,
            Untagged::Unit => same_text(self.ident.value.0, "None"),
            Untagged::Struct(_) => false,
        }
    }

    /// The value of `Some`, and nothing for `None`.
    pub fn into_optional(self) -> (res: Option<Spanned<'a, Expr<'a>>>)
        requires
            self.optional(),
        ensures
            res == (match self.untagged.value {
                Untagged::Tuple(t) => Some(t.elements@[0]),
                _ => None,
            }),
    {
        match self.untagged.value {
            Untagged::Tuple(t) => {
                let mut elements = t.elements;
                Some(elements.remove(0))
            },
            _ => None,
        }
    }
}

/// A node of the parse tree.
#[derive(Debug, PartialEq)]
pub enum Expr<'a> {
    Unit,
    Tagged(Tagged<'a>),
    Bool(bool),
    Tuple(Tuple<'a>),
    List(List<'a>),
    RMap(RMap<'a>),
    Struct(Struct<'a>),
    Integer(Integer),
    /// String without escapes (zero-copy)
    Str(&'a str),
    /// Escaped string
    String(String),
    Decimal(Decimal),
}

impl<'a> Expr<'a> {
    /// Replace expr with Unit, returning ownership of the contained expr
    pub fn take(&mut self) -> (res: Self)
        ensures
            res == *old(self),
            *final(self) == Expr::<'a>::Unit,
    {
        let mut taken = Expr::Unit;
        core::mem::swap(self, &mut taken);
        taken
    }
}

} // verus!
