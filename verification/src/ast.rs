//! The tree of a document as the caller gets it: every node with the line
//! and the column where it starts and ends.

use vstd::prelude::*;
use vstd::std_specs::cmp::{PartialEqSpec, PartialEqSpecImpl};
use crate::location::Location;
pub use crate::utf8_parser::pt::{
    Decimal, Extension, Ident, Integer, Sign, SignedInteger, UnsignedInteger,
};

verus! {

/// A value with the place where it was read.
///
/// IMPORTANT: Equality operators do NOT compare the start & end spans!
#[derive(Debug)]
pub struct Spanned<T> {
    pub start: Location,
    pub value: T,
    pub end: Location,
}

/// IMPORTANT: Equality operators do NOT compare the start & end spans!
impl<T: PartialEq> PartialEq for Spanned<T> {
    fn eq(&self, other: &Self) -> (res: bool) {
        self.value.eq(&other.value)
    }
}

impl<T: PartialEq> PartialEqSpecImpl for Spanned<T> {
    open spec fn obeys_eq_spec() -> bool {
        T::obeys_eq_spec()
    }

    open spec fn eq_spec(&self, other: &Self) -> bool {
        self.value.eq_spec(&other.value)
    }
}

impl<T> Spanned<T> {
    /// A value without a place: it starts and ends at line 1, column 1.
    pub fn new_test(value: T) -> (res: Self)
        ensures
            res.value == value,
            res.start == (Location { line: 1, column: 1 }),
            res.end == (Location { line: 1, column: 1 }),
    {
        Spanned {
            start: Location { line: 1, column: 1 },
            value,
            end: Location { line: 1, column: 1 },
        }
    }
}

#[derive(Debug, PartialEq)]
pub struct Ron<'a> {
    pub attributes: Vec<Spanned<Attribute>>,
    pub expr: Spanned<Expr<'a>>,
}

#[derive(Debug, PartialEq)]
pub enum Attribute {
    Enable(Spanned<Vec<Spanned<Extension>>>),
}

#[derive(Debug, PartialEq)]
pub struct KeyValue<'a, K> {
    pub key: Spanned<K>,
    pub value: Spanned<Expr<'a>>,
}

#[derive(Debug, PartialEq)]
pub struct Struct<'a> {
    pub fields: Vec<Spanned<KeyValue<'a, Ident<'a>>>>,
}

#[derive(Debug, PartialEq)]
pub struct RMap<'a> {
    pub entries: Vec<Spanned<KeyValue<'a, Expr<'a>>>>,
}

#[derive(Debug, PartialEq)]
pub struct List<'a> {
    pub elements: Vec<Spanned<Expr<'a>>>,
}

#[derive(Debug, PartialEq)]
pub struct Tuple<'a> {
    pub elements: Vec<Spanned<Expr<'a>>>,
}

#[derive(Debug, PartialEq)]
pub enum Untagged<'a> {
    Unit,
    Struct(Struct<'a>),
    Tuple(Tuple<'a>),
}

impl<'a> Untagged<'a> {
    /// Replaces the body with `Unit`, returning ownership of what it was.
    pub fn take(&mut self) -> (res: Self)
        ensures
            res == *old(self),
            *final(self) == Untagged::<'a>::Unit,
    {
        let mut taken = Untagged::Unit;
        core::mem::swap(self, &mut taken);
        taken
    }
}

#[derive(Debug, PartialEq)]
pub struct Tagged<'a> {
    pub ident: Spanned<Ident<'a>>,
    pub untagged: Spanned<Untagged<'a>>,
}

#[derive(Debug, PartialEq)]
pub enum Expr<'a> {
    Unit,
    Optional(Option<Box<Spanned<Expr<'a>>>>),
    Tagged(Tagged<'a>),
    Bool(bool),
    Tuple(Tuple<'a>),
    List(List<'a>),
    RMap(RMap<'a>),
    Struct(Struct<'a>),
    Integer(Integer),
    /// String without escapes (zero-copy)
    Str(&'a str),
    /// Escaped string
    String(String),
    Decimal(Decimal),
}

impl<'a> Expr<'a> {
    /// Replace expr with Unit, returning ownership of the contained expr
    pub fn take(&mut self) -> (res: Self)
        ensures
            res == *old(self),
            *final(self) == Expr::<'a>::Unit,
    {
        let mut taken = Expr::Unit;
        core::mem::swap(self, &mut taken);
        taken
    }
}

} // verus!
