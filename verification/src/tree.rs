//! The declaration tree: functions with their statements, structs with their
//! fields. Statements are owned nodes; what a node does not model of the
//! source it stands for is kept by the caller under the node's `source` handle.

use vstd::prelude::*;
use crate::text::{texts, clone_texts};

verus! {

/// The expression that a statement evaluates.
#[derive(Debug, Clone, PartialEq, Eq)]
pub enum Expr {
    /// The expression as it stands in the source, found under the node's handle.
    Source,
    /// A call `callee(args)`; with `by_ref` each argument is passed as `&arg`.
    Call { callee: String, args: Vec<String>, by_ref: bool },
    /// A bare name.
    Name(String),
}

pub enum ExprView {
    Source,
    Call { callee: Seq<char>, args: Seq<Seq<char>>, by_ref: bool },
    Name(Seq<char>),
}

impl View for Expr {
    type V = ExprView;

    open spec fn view(&self) -> ExprView {
        match *self {
            Expr::Source => ExprView::Source,
            Expr::Call { callee, args, by_ref } => ExprView::Call {
                callee: callee@,
                args: texts(args@),
                by_ref,
            },
            Expr::Name(n) => ExprView::Name(n@),
        }
    }
}

/// What kind of statement a node is.
#[derive(Debug, Clone, PartialEq, Eq)]
pub enum Shape {
    /// A nested statement sequence; its statements are the node's `inner`.
    Scope,
    /// A nested function declaration of the given name.
    NestedFn(String),
    /// A local binding of a plain name.
    Binding(String),
    /// Any other statement of the source.
    Other,
    /// A trailing expression, the value of the enclosing sequence.
    Tail(Expr),
    /// An expression evaluated for its effect, followed by a semicolon.
    Run(Expr),
    /// A binding of the expression's value to a temporary.
    Capture(String, Expr),
}

pub enum ShapeView {
    Scope,
    NestedFn(Seq<char>),
    Binding(Seq<char>),
    Other,
    Tail(ExprView),
    Run(ExprView),
    Capture(Seq<char>, ExprView),
}

impl View for Shape {
    type V = ShapeView;

    open spec fn view(&self) -> ShapeView {
        match *self {
            Shape::Scope => ShapeView::Scope,
            Shape::NestedFn(n) => ShapeView::NestedFn(n@),
            Shape::Binding(n) => ShapeView::Binding(n@),
            Shape::Other => ShapeView::Other,
            Shape::Tail(e) => ShapeView::Tail(e@),
            Shape::Run(e) => ShapeView::Run(e@),
            Shape::Capture(t, e) => ShapeView::Capture(t@, e@),
        }
    }
}

/// One statement. The statements of a source statement are its nested
/// sequences, each a `Scope` node, in source order.
#[derive(Debug, PartialEq, Eq)]
pub struct Stmt {
    pub shape: Shape,
    pub source: usize,
    pub inner: Vec<Stmt>,
}

pub struct StmtView {
    pub shape: ShapeView,
    pub source: usize,
    pub inner: Seq<StmtView>,
}

/// What a statement is, as plain values.
pub open spec fn stmt_view(s: Stmt) -> StmtView
    decreases s,
{
    StmtView {
        shape: s.shape@,
        source: s.source,
        inner: Seq::new(
            s.inner@.len(),
            |i: int|
                if 0 <= i < s.inner@.len() {
                    stmt_view(s.inner@[i])
                } else {
                    arbitrary()
                },
        ),
    }
}

impl View for Stmt {
    type V = StmtView;

    open spec fn view(&self) -> StmtView {
        stmt_view(*self)
    }
}

/// The views of a statement sequence, in order.
pub open spec fn stmts_view(v: Seq<Stmt>) -> Seq<StmtView> {
    v.map_values(|s: Stmt| s@)
}

/// The inner statements of a node's view are the views of its inner statements.
pub proof fn lemma_inner_view(s: Stmt)
    ensures
        s@.inner == stmts_view(s.inner@),
{
    assert(s@.inner.len() == s.inner@.len());
    assert forall|i: int| 0 <= i < s.inner@.len() implies s@.inner[i] == stmts_view(s.inner@)[i] by {}
    assert(s@.inner =~= stmts_view(s.inner@));
}

/// A copy of an expression.
pub fn clone_expr(e: &Expr) -> (r: Expr)
    ensures
        r@ == e@,
{
    match e {
        Expr::Source => Expr::Source,
        Expr::Call { callee, args, by_ref } => Expr::Call {
            callee: callee.clone(),
            args: clone_texts(args),
            by_ref: *by_ref,
        },
        Expr::Name(n) => Expr::Name(n.clone()),
    }
}

/// A copy of a shape.
pub fn clone_shape(s: &Shape) -> (r: Shape)
    ensures
        r@ == s@,
{
    match s {
        Shape::Scope => Shape::Scope,
        Shape::NestedFn(n) => Shape::NestedFn(n.clone()),
        Shape::Binding(n) => Shape::Binding(n.clone()),
        Shape::Other => Shape::Other,
        Shape::Tail(e) => Shape::Tail(clone_expr(e)),
        Shape::Run(e) => Shape::Run(clone_expr(e)),
        Shape::Capture(t, e) => Shape::Capture(t.clone(), clone_expr(e)),
    }
}

} // verus!
