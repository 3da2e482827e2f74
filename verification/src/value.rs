//! A value of any shape, for documents that are read without knowing what
//! they hold.

use vstd::prelude::*;
use crate::ast;
use crate::utf8_parser::pt::{Decimal, Ident};

verus! {

/// A number: an integer, or a decimal as it was written.
#[derive(Copy, Clone, Debug, PartialEq, Eq)]
pub enum Number {
    Integer(i64),
    Decimal(Decimal),
}

impl Number {
    /// If the `Number` is an integer, return it. Otherwise return `None`.
    pub fn as_i64(self) -> (res: Option<i64>)
        ensures
            res == (match self {
                Number::Integer(i) => Some(i),
                Number::Decimal(_) => None,
            }),
    {
        match self {
            Number::Integer(i) => Some(i),
            Number::Decimal(_) => None,
        }
    }

    /// If the `Number` is a decimal, return it. Otherwise return `None`.
    pub fn as_decimal(self) -> (res: Option<Decimal>)
        ensures
            res == (match self {
                Number::Integer(_) => None,
                Number::Decimal(d) => Some(d),
            }),
    {
        match self {
            Number::Integer(_) => None,
            Number::Decimal(d) => Some(d),
        }
    }
}

/// A value of any shape.
#[derive(Debug, PartialEq, Eq)]
pub enum Value {
    Bool(bool),
    Char(char),
    RMap(Vec<(Value, Value)>),
    Number(Number),
    Option(Option<Box<Value>>),
    String(String),
    List(Vec<Value>),
    Unit(Option<String>),
    Tuple(Option<String>, Vec<Value>),
    Struct(Option<String>, Vec<(String, Value)>),
}

/// `v` holds the values of the expressions `e`, one for one.
pub open spec fn values_of<'a>(e: Seq<ast::Spanned<ast::Expr<'a>>>, v: Seq<Value>) -> bool
    decreases e, 1nat,
{
    v.len() == e.len() && forall|i: int| 0 <= i < e.len() ==> value_of(e[i].value, #[trigger] v[i])
}

/// `v` holds the names and the values of the fields `e`, one for one.
pub open spec fn fields_of<'a>(
    e: Seq<ast::Spanned<ast::KeyValue<'a, Ident<'a>>>>,
    v: Seq<(String, Value)>,
) -> bool
    decreases e, 1nat,
{
    v.len() == e.len() && forall|i: int|
        0 <= i < e.len() ==> (#[trigger] v[i]).0@ == e[i].value.key.value.0@ && value_of(
            e[i].value.value.value,
            v[i].1,
        )
}

/// `v` holds the keys and the values of the entries `e`, one for one.
pub open spec fn entries_of<'a>(
    e: Seq<ast::Spanned<ast::KeyValue<'a, ast::Expr<'a>>>>,
    v: Seq<(Value, Value)>,
) -> bool
    decreases e, 1nat,
{
    v.len() == e.len() && forall|i: int|
        0 <= i < e.len() ==> value_of(e[i].value.key.value, (#[trigger] v[i]).0) && value_of(
            e[i].value.value.value,
            v[i].1,
        )
}

/// The name of a tag, where there is one.
pub open spec fn tag_is(tag: Option<String>, name: Option<Seq<char>>) -> bool {
    match (tag, name) {
        (Some(t), Some(n)) => t@ == n,
        (None, None) => true,
        _ => false,
    }
}

/// `v` is the value of what follows the tag `name`.
pub open spec fn untagged_value_of<'a>(
    name: Option<Seq<char>>,
    e: ast::Untagged<'a>,
    v: Value,
) -> bool
    decreases e, 2nat,
{
    match e {
        ast::Untagged::Unit => v matches Value::Unit(tag) && tag_is(tag, name),
        ast::Untagged::Struct(s) => v matches Value::Struct(tag, fields) && tag_is(tag, name)
            && fields_of(s.fields@, fields@),
        ast::Untagged::Tuple(t) => v matches Value::Tuple(tag, elements) && tag_is(tag, name)
            && values_of(t.elements@, elements@),
    }
}

/// `v` is the value of the expression `e`: the same shape, without the
/// places, with every text as a text of its own and every integer in 64
/// bits with sign.
pub open spec fn value_of<'a>(e: ast::Expr<'a>, v: Value) -> bool
    decreases e, 0nat,
{
    match e {
        ast::Expr::Unit => v matches Value::Unit(tag) && tag is None,
        ast::Expr::Optional(o) => v matches Value::Option(w) && match o {
            Some(inner) => w matches Some(b) && value_of(inner.value, *b),
            None => w is None,
        },
        ast::Expr::Tagged(t) => untagged_value_of(
            Some(t.ident.value.0@),
            t.untagged.value,
            v,
        ),
        ast::Expr::Bool(b) => v == Value::Bool(b),
        ast::Expr::Tuple(t) => v matches Value::Tuple(tag, elements) && tag is None && values_of(
            t.elements@,
            elements@,
        ),
        ast::Expr::List(l) => v matches Value::List(elements) && values_of(
            l.elements@,
            elements@,
        ),
        ast::Expr::RMap(m) => v matches Value::RMap(entries) && entries_of(m.entries@, entries@),
        ast::Expr::Struct(s) => v matches Value::Struct(tag, fields) && tag is None && fields_of(
            s.fields@,
            fields@,
        ),
        ast::Expr::Integer(i) => v == Value::Number(
            Number::Integer(crate::utf8_parser::pt::Integer::wrap64(i.value()) as i64),
        ),
        ast::Expr::Str(s) => v matches Value::String(t) && t@ == s@,
        ast::Expr::String(s) => v matches Value::String(t) && t@ == s@,
        ast::Expr::Decimal(d) => v == Value::Number(Number::Decimal(d)),
    }
}

fn values_from<'a>(e: &Vec<ast::Spanned<ast::Expr<'a>>>) -> (res: Vec<Value>)
    ensures
        values_of(e@, res@),
    decreases e, 1nat,
{
    let mut out: Vec<Value> = Vec::new();
    let mut i: usize = 0;
    while i < e.len()
        invariant
            i <= e@.len(),
            out@.len() == i,
            forall|j: int| 0 <= j < i ==> value_of(e@[j].value, #[trigger] out@[j]),
        decreases e.len() - i,
    {
        proof {
            vstd::std_specs::vec::axiom_vec_index_decreases(*e, i as int);
        }
        out.push(Value::from_expr(&e[i].value));
        i = i + 1;
    }
    out
}

fn fields_from<'a>(e: &Vec<ast::Spanned<ast::KeyValue<'a, Ident<'a>>>>) -> (res: Vec<
    (String, Value),
>)
    ensures
        fields_of(e@, res@),
    decreases e, 1nat,
{
    let mut out: Vec<(String, Value)> = Vec::new();
    let mut i: usize = 0;
    while i < e.len()
        invariant
            i <= e@.len(),
            out@.len() == i,
            forall|j: int|
                0 <= j < i ==> (#[trigger] out@[j]).0@ == e@[j].value.key.value.0@ && value_of(
                    e@[j].value.value.value,
                    out@[j].1,
                ),
        decreases e.len() - i,
    {
        proof {
            vstd::std_specs::vec::axiom_vec_index_decreases(*e, i as int);
        }
        let field = &e[i];
        out.push((field.value.key.value.into_string(), Value::from_expr(&field.value.value.value)));
        i = i + 1;
    }
    out
}

fn entries_from<'a>(e: &Vec<ast::Spanned<ast::KeyValue<'a, ast::Expr<'a>>>>) -> (res: Vec<
    (Value, Value),
>)
    ensures
        entries_of(e@, res@),
    decreases e, 1nat,
{
    let mut out: Vec<(Value, Value)> = Vec::new();
    let mut i: usize = 0;
    while i < e.len()
        invariant
            i <= e@.len(),
            out@.len() == i,
            forall|j: int|
                0 <= j < i ==> value_of(e@[j].value.key.value, (#[trigger] out@[j]).0)
                    && value_of(e@[j].value.value.value, out@[j].1),
        decreases e.len() - i,
    {
        proof {
            vstd::std_specs::vec::axiom_vec_index_decreases(*e, i as int);
        }
        let entry = &e[i];
        out.push(
            (Value::from_expr(&entry.value.key.value), Value::from_expr(&entry.value.value.value)),
        );
        i = i + 1;
    }
    out
}

fn untagged_from<'a>(name: Option<&'a str>, e: &ast::Untagged<'a>) -> (res: Value)
    ensures
        untagged_value_of(
            match name {
                Some(n) => Some(n@),
                None => None,
            },
            *e,
            res,
        ),
    decreases e, 2nat,
{
    let tag = match name {
        Some(n) => Some(n.to_owned()),
        None => None,
    };
    match e {
        ast::Untagged::Unit => Value::Unit(tag),
        ast::Untagged::Struct(s) => Value::Struct(tag, fields_from(&s.fields)),
        ast::Untagged::Tuple(t) => Value::Tuple(tag, values_from(&t.elements)),
    }
}

impl Value {
    /// The value of a document: that of its expression.
    pub fn from_ast<'a>(ast: &ast::Ron<'a>) -> (res: Self)
        ensures
            value_of(ast.expr.value, res),
    {
        Value::from_expr(&ast.expr.value)
    }

    /// The value of an expression.
    pub fn from_expr<'a>(e: &ast::Expr<'a>) -> (res: Self)
        ensures
            value_of(*e, res),
        decreases e, 0nat,
    {
        match e {
            ast::Expr::Unit => Value::Unit(None),
            ast::Expr::Optional(o) => match o {
                Some(inner) => Value::Option(Some(Box::new(Value::from_expr(&inner.value)))),
                None => Value::Option(None),
            },
            ast::Expr::Tagged(t) => untagged_from(Some(t.ident.value.0), &t.untagged.value),
            ast::Expr::Bool(b) => Value::Bool(*b),
            ast::Expr::Tuple(t) => Value::Tuple(None, values_from(&t.elements)),
            ast::Expr::List(l) => Value::List(values_from(&l.elements)),
            ast::Expr::RMap(m) => Value::RMap(entries_from(&m.entries)),
            ast::Expr::Struct(s) => Value::Struct(None, fields_from(&s.fields)),
            ast::Expr::Integer(i) => Value::Number(Number::Integer(i.into_i64())),
            ast::Expr::Str(s) => Value::String((*s).to_owned()),
            ast::Expr::String(s) => Value::String(s.clone()),
            ast::Expr::Decimal(d) => Value::Number(Number::Decimal(*d)),
        }
    }
}

} // verus!
