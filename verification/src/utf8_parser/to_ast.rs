//! From the parse tree, whose nodes hold cursors into the source, to the
//! tree that the caller gets, whose nodes hold lines and columns.

use vstd::prelude::*;
use crate::ast;
use crate::utf8_parser::pt::{
    Attribute, Expr, Extension, Ident, KeyValue, List, RMap, Ron, Spanned, Struct, Tagged, Tuple,
    Untagged,
};

verus! {

/// The span of `a` is that of `p`, as lines and columns.
pub open spec fn same_span<'a, P, A>(p: Spanned<'a, P>, a: ast::Spanned<A>) -> bool {
    a.start == p.start.place() && a.end == p.end.place()
}

/// `a` is the expression `p` with its span.
pub open spec fn spanned_expr_to<'a>(p: Spanned<'a, Expr<'a>>, a: ast::Spanned<ast::Expr<'a>>)
    -> bool
    decreases p, 1nat,
{
    same_span(p, a) && expr_to(p.value, a.value)
}

/// `a` holds the expressions of `p`, one for one.
pub open spec fn exprs_to<'a>(
    p: Seq<Spanned<'a, Expr<'a>>>,
    a: Seq<ast::Spanned<ast::Expr<'a>>>,
) -> bool
    decreases p, 2nat,
{
    a.len() == p.len() && forall|i: int|
        0 <= i < p.len() ==> spanned_expr_to(p[i], #[trigger] a[i])
}

/// `a` holds the fields of `p`, one for one.
pub open spec fn fields_to<'a>(
    p: Seq<Spanned<'a, KeyValue<'a, Ident<'a>>>>,
    a: Seq<ast::Spanned<ast::KeyValue<'a, Ident<'a>>>>,
) -> bool
    decreases p, 2nat,
{
    a.len() == p.len() && forall|i: int|
        0 <= i < p.len() ==> {
            &&& same_span(p[i], #[trigger] a[i])
            &&& same_span(p[i].value.key, a[i].value.key)
            &&& a[i].value.key.value == p[i].value.key.value
            &&& spanned_expr_to(p[i].value.value, a[i].value.value)
        }
}

/// `a` holds the entries of `p`, one for one.
pub open spec fn entries_to<'a>(
    p: Seq<Spanned<'a, KeyValue<'a, Expr<'a>>>>,
    a: Seq<ast::Spanned<ast::KeyValue<'a, ast::Expr<'a>>>>,
) -> bool
    decreases p, 2nat,
{
    a.len() == p.len() && forall|i: int|
        0 <= i < p.len() ==> {
            &&& same_span(p[i], #[trigger] a[i])
            &&& spanned_expr_to(p[i].value.key, a[i].value.key)
            &&& spanned_expr_to(p[i].value.value, a[i].value.value)
        }
}

/// `a` is what follows a tag in `p`.
pub open spec fn untagged_to<'a>(p: Untagged<'a>, a: ast::Untagged<'a>) -> bool
    decreases p, 3nat,
{
    match p {
        Untagged::Unit => a is Unit,
        Untagged::Struct(s) => a matches ast::Untagged::Struct(s2) && fields_to(
            s.fields@,
            s2.fields@,
        ),
        Untagged::Tuple(t) => a matches ast::Untagged::Tuple(t2) && exprs_to(
            t.elements@,
            t2.elements@,
        ),
    }
}

/// `a` is the expression `p`. `Some` with one value and `None` become an
/// optional value; everything else keeps its kind.
pub open spec fn expr_to<'a>(p: Expr<'a>, a: ast::Expr<'a>) -> bool
    decreases p, 0nat,
{
    match p {
        Expr::Unit => a is Unit,
        Expr::Tagged(t) => if t.optional() {
            a matches ast::Expr::Optional(o) && match t.untagged.value {
                Untagged::Tuple(tuple) => o matches Some(b) && tuple.elements@.len() == 1
                    && spanned_expr_to(tuple.elements@[0], *b),
                _ => o is None,
            }
        } else {
            &&& a matches ast::Expr::Tagged(t2)
            &&& same_span(t.ident, t2.ident)
            &&& t2.ident.value == t.ident.value
            &&& same_span(t.untagged, t2.untagged)
            &&& untagged_to(t.untagged.value, t2.untagged.value)
        },
        Expr::Bool(x) => a == ast::Expr::<'a>::Bool(x),
        Expr::Tuple(t) => a matches ast::Expr::Tuple(t2) && exprs_to(t.elements@, t2.elements@),
        Expr::List(l) => a matches ast::Expr::List(l2) && exprs_to(l.elements@, l2.elements@),
        Expr::RMap(m) => a matches ast::Expr::RMap(m2) && entries_to(m.entries@, m2.entries@),
        Expr::Struct(s) => a matches ast::Expr::Struct(s2) && fields_to(s.fields@, s2.fields@),
        Expr::Integer(x) => a == ast::Expr::<'a>::Integer(x),
        Expr::Str(x) => a == ast::Expr::<'a>::Str(x),
        Expr::String(x) => a matches ast::Expr::String(y) && y@ == x@,
        Expr::Decimal(x) => a == ast::Expr::<'a>::Decimal(x),
    }
}

/// `a` holds the extensions of `p`, one for one.
pub open spec fn extensions_to<'a>(
    p: Seq<Spanned<'a, Extension>>,
    a: Seq<ast::Spanned<Extension>>,
) -> bool {
    a.len() == p.len() && forall|i: int|
        0 <= i < p.len() ==> same_span(p[i], #[trigger] a[i]) && a[i].value == p[i].value
}

/// `a` is the attribute `p`.
pub open spec fn attribute_to<'a>(p: Attribute<'a>, a: ast::Attribute) -> bool {
    match (p, a) {
        (Attribute::Enable(list), ast::Attribute::Enable(list2)) => same_span(list, list2)
            && extensions_to(list.value@, list2.value@),
    }
}

/// `a` is the document `p`.
pub open spec fn ron_to<'a>(p: Ron<'a>, a: ast::Ron<'a>) -> bool {
    &&& a.attributes@.len() == p.attributes@.len()
    &&& forall|i: int|
        0 <= i < p.attributes@.len() ==> same_span(p.attributes@[i], #[trigger] a.attributes@[i])
            && attribute_to(p.attributes@[i].value, a.attributes@[i].value)
    &&& spanned_expr_to(p.expr, a.expr)
}

/// Turns the expressions of a list, one for one.
fn exprs_to_ast<'a>(p: &Vec<Spanned<'a, Expr<'a>>>) -> (res: Vec<ast::Spanned<ast::Expr<'a>>>)
    ensures
        exprs_to(p@, res@),
    decreases p, 2nat,
{
    let mut out: Vec<ast::Spanned<ast::Expr<'a>>> = Vec::new();
    let mut i: usize = 0;
    while i < p.len()
        invariant
            i <= p@.len(),
            out@.len() == i,
            forall|j: int| 0 <= j < i ==> spanned_expr_to(p@[j], #[trigger] out@[j]),
        decreases p.len() - i,
    {
        proof {
            vstd::std_specs::vec::axiom_vec_index_decreases(*p, i as int);
        }
        out.push(spanned_expr_to_ast(&p[i]));
        i = i + 1;
    }
    out
}

/// Turns an expression with its span.
fn spanned_expr_to_ast<'a>(p: &Spanned<'a, Expr<'a>>) -> (res: ast::Spanned<ast::Expr<'a>>)
    ensures
        spanned_expr_to(*p, res),
    decreases p, 1nat,
{
    ast::Spanned { start: p.start.location(), value: p.value.to_ast(), end: p.end.location() }
}

/// Turns the fields of a struct, one for one.
fn fields_to_ast<'a>(p: &Vec<Spanned<'a, KeyValue<'a, Ident<'a>>>>) -> (res: Vec<
    ast::Spanned<ast::KeyValue<'a, Ident<'a>>>,
>)
    ensures
        fields_to(p@, res@),
    decreases p, 2nat,
{
    let mut out: Vec<ast::Spanned<ast::KeyValue<'a, Ident<'a>>>> = Vec::new();
    let mut i: usize = 0;
    while i < p.len()
        invariant
            i <= p@.len(),
            out@.len() == i,
            forall|j: int|
                0 <= j < i ==> {
                    &&& same_span(p@[j], #[trigger] out@[j])
                    &&& same_span(p@[j].value.key, out@[j].value.key)
                    &&& out@[j].value.key.value == p@[j].value.key.value
                    &&& spanned_expr_to(p@[j].value.value, out@[j].value.value)
                },
        decreases p.len() - i,
    {
        proof {
            vstd::std_specs::vec::axiom_vec_index_decreases(*p, i as int);
        }
        let field = &p[i];
        let key = ast::Spanned {
            start: field.value.key.start.location(),
            value: field.value.key.value,
            end: field.value.key.end.location(),
        };
        let value = spanned_expr_to_ast(&field.value.value);
        out.push(
            ast::Spanned {
                start: field.start.location(),
                value: ast::KeyValue { key, value },
                end: field.end.location(),
            },
        );
        i = i + 1;
    }
    out
}

/// Turns the entries of a map, one for one.
fn entries_to_ast<'a>(p: &Vec<Spanned<'a, KeyValue<'a, Expr<'a>>>>) -> (res: Vec<
    ast::Spanned<ast::KeyValue<'a, ast::Expr<'a>>>,
>)
    ensures
        entries_to(p@, res@),
    decreases p, 2nat,
{
    let mut out: Vec<ast::Spanned<ast::KeyValue<'a, ast::Expr<'a>>>> = Vec::new();
    let mut i: usize = 0;
    while i < p.len()
        invariant
            i <= p@.len(),
            out@.len() == i,
            forall|j: int|
                0 <= j < i ==> {
                    &&& same_span(p@[j], #[trigger] out@[j])
                    &&& spanned_expr_to(p@[j].value.key, out@[j].value.key)
                    &&& spanned_expr_to(p@[j].value.value, out@[j].value.value)
                },
        decreases p.len() - i,
    {
        proof {
            vstd::std_specs::vec::axiom_vec_index_decreases(*p, i as int);
        }
        let entry = &p[i];
        let key = spanned_expr_to_ast(&entry.value.key);
        let value = spanned_expr_to_ast(&entry.value.value);
        out.push(
            ast::Spanned {
                start: entry.start.location(),
                value: ast::KeyValue { key, value },
                end: entry.end.location(),
            },
        );
        i = i + 1;
    }
    out
}

impl<'a> Untagged<'a> {
    /// Turns what follows a tag.
    pub fn to_ast(&self) -> (res: ast::Untagged<'a>)
        ensures
            untagged_to(*self, res),
        decreases self, 3nat,
    {
        match self {
            Untagged::Unit => ast::Untagged::Unit,
            Untagged::Struct(s) => ast::Untagged::Struct(
                ast::Struct { fields: fields_to_ast(&s.fields) },
            ),
            Untagged::Tuple(t) => ast::Untagged::Tuple(
                ast::Tuple { elements: exprs_to_ast(&t.elements) },
            ),
        }
    }
}

impl<'a> Expr<'a> {
    /// Turns an expression. `Some` with one value and `None` become an
    /// optional value.
    pub fn to_ast(&self) -> (res: ast::Expr<'a>)
        ensures
            expr_to(*self, res),
        decreases self, 0nat,
    {
        match self {
            Expr::Unit => ast::Expr::Unit,
            Expr::Tagged(t) => {
                if t.is_optional() {
                    match &t.untagged.value {
                        Untagged::Tuple(tuple) => {
                            proof {
                                vstd::std_specs::vec::axiom_vec_index_decreases(tuple.elements, 0);
                            }
                            ast::Expr::Optional(
                                Some(Box::new(spanned_expr_to_ast(&tuple.elements[0]))),
                            )
                        },
                        _ => ast::Expr::Optional(None),
                    }
                } else {
                    ast::Expr::Tagged(
                        ast::Tagged {
                            ident: ast::Spanned {
                                start: t.ident.start.location(),
                                value: t.ident.value,
                                end: t.ident.end.location(),
                            },
                            untagged: ast::Spanned {
                                start: t.untagged.start.location(),
                                value: t.untagged.value.to_ast(),
                                end: t.untagged.end.location(),
                            },
                        },
                    )
                }
            },
            Expr::Bool(x) => ast::Expr::Bool(*x),
            Expr::Tuple(t) => ast::Expr::Tuple(ast::Tuple { elements: exprs_to_ast(&t.elements) }),
            Expr::List(l) => ast::Expr::List(ast::List { elements: exprs_to_ast(&l.elements) }),
            Expr::RMap(m) => ast::Expr::RMap(ast::RMap { entries: entries_to_ast(&m.entries) }),
            Expr::Struct(s) => ast::Expr::Struct(ast::Struct { fields: fields_to_ast(&s.fields) }),
            Expr::Integer(x) => ast::Expr::Integer(*x),
            Expr::Str(x) => ast::Expr::Str(*x),
            Expr::String(x) => ast::Expr::String(x.clone()),
            Expr::Decimal(x) => ast::Expr::Decimal(*x),
        }
    }
}

impl<'a> Attribute<'a> {
    /// Turns an attribute.
    pub fn to_ast(&self) -> (res: ast::Attribute)
        ensures
            attribute_to(*self, res),
    {
        match self {
            Attribute::Enable(list) => {
                let mut out: Vec<ast::Spanned<Extension>> = Vec::new();
                let mut i: usize = 0;
                while i < list.value.len()
                    invariant
                        i <= list.value@.len(),
                        out@.len() == i,
                        forall|j: int|
                            0 <= j < i ==> same_span(list.value@[j], #[trigger] out@[j])
                                && out@[j].value == list.value@[j].value,
                    decreases list.value.len() - i,
                {
                    let e = &list.value[i];
                    out.push(
                        ast::Spanned {
                            start: e.start.location(),
                            value: e.value,
                            end: e.end.location(),
                        },
                    );
                    i = i + 1;
                }
                ast::Attribute::Enable(
                    ast::Spanned {
                        start: list.start.location(),
                        value: out,
                        end: list.end.location(),
                    },
                )
            },
        }
    }
}

impl<'a> Ron<'a> {
    /// Turns a document.
    pub fn to_ast(&self) -> (res: ast::Ron<'a>)
        ensures
            ron_to(*self, res),
    {
        let mut attributes: Vec<ast::Spanned<ast::Attribute>> = Vec::new();
        let mut i: usize = 0;
        while i < self.attributes.len()
            invariant
                i <= self.attributes@.len(),
                attributes@.len() == i,
                forall|j: int|
                    0 <= j < i ==> same_span(self.attributes@[j], #[trigger] attributes@[j])
                        && attribute_to(self.attributes@[j].value, attributes@[j].value),
            decreases self.attributes.len() - i,
        {
            let a = &self.attributes[i];
            attributes.push(
                ast::Spanned {
                    start: a.start.location(),
                    value: a.value.to_ast(),
                    end: a.end.location(),
                },
            );
            i = i + 1;
        }
        ast::Ron { attributes, expr: spanned_expr_to_ast(&self.expr) }
    }
}

} // verus!
