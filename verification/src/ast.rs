//! The Abstract Syntax Tree.
//!
//! This is the canonical, desugared node set that the evaluator, the
//! formatters and the highlighter all pattern-match on. Identifiers and
//! string literal values are resolved into independently owned byte strings
//! (the UTF-8 of the source), so the tree no longer needs the concrete
//! syntax tree once built; the original buffer is only consulted again for
//! span-to-text lookups while rendering diagnostics.

use vstd::prelude::*;
use crate::source::Span;

verus! {

/// A unary operator.
#[derive(Clone, Copy, Debug, PartialEq, Eq, Structural)]
pub enum UnOp {
    /// Numeric negation, `-`.
    Neg,
    /// Boolean negation, `not`.
    Not,
}

/// A binary operator.
#[derive(Clone, Copy, Debug, PartialEq, Eq, Structural)]
pub enum BinOp {
    Add,
    Sub,
    Mul,
    Div,
    And,
    Or,
    /// Collection union, `|`.
    Union,
    CmpEq,
    CmpNeq,
    CmpLt,
    CmpGt,
    CmpLeq,
    CmpGeq,
}

/// One fragment of a format string: either a literal piece of text or an
/// embedded expression. Fragments strictly alternate, starting and ending
/// with a literal.
#[derive(Debug, PartialEq, Eq)]
pub struct FormatFragment {
    /// The span of this fragment in the source.
    pub span: Span,
    /// The value of this fragment.
    pub body: Expr,
}

/// An expression.
#[derive(Debug, PartialEq, Eq)]
pub enum Expr {
    /// A non-recursive let binding: only `body` sees `ident`.
    Let { ident: Vec<u8>, value: Box<Expr>, body: Box<Expr> },
    /// A `{}`-enclosed collection literal.
    BraceLit(Vec<SeqElem>),
    /// A `[]`-enclosed collection literal.
    BracketLit(Vec<SeqElem>),
    NullLit,
    BoolLit(bool),
    /// A string literal, with escape sequences resolved.
    StringLit(Vec<u8>),
    /// A format string, split into alternating literal and hole fragments.
    Format(Vec<FormatFragment>),
    IntegerLit(i64),
    IfThenElse {
        condition_span: Span,
        condition: Box<Expr>,
        body_then: Box<Expr>,
        body_else: Box<Expr>,
    },
    /// A variable reference, with its identifier resolved from the source.
    Var { span: Span, ident: Vec<u8> },
    /// Access a field on the inner expression.
    Field { inner: Box<Expr>, field: Vec<u8>, field_span: Span },
    /// A function call.
    Call {
        /// The span of the opening parenthesis.
        open: Span,
        /// The span of the expression that evaluates to the function.
        function_span: Span,
        function: Box<Expr>,
        args: Vec<Expr>,
    },
    UnOp { op: UnOp, op_span: Span, body: Box<Expr> },
    BinOp { op: BinOp, op_span: Span, lhs: Box<Expr>, rhs: Box<Expr> },
}

/// One element of a collection literal's body.
#[derive(Debug, PartialEq, Eq)]
pub enum SeqElem {
    /// A bare element.
    Elem { span: Span, value: Box<Expr> },
    /// The single association shape: both surface forms (`key: value` and
    /// `ident = value`) collapse into it.
    Assoc { op_span: Span, key: Box<Expr>, value: Box<Expr> },
    /// A let binding scoped to the rest of the sequence.
    Let { ident: Vec<u8>, value: Box<Expr>, body: Box<SeqElem> },
    /// A comprehension binding one or more identifiers from one collection.
    For {
        /// The union of every bound identifier's span; never empty.
        idents_span: Span,
        idents: Vec<Vec<u8>>,
        collection_span: Span,
        collection: Box<Expr>,
        body: Box<SeqElem>,
    },
    /// A conditional guard.
    If { condition_span: Span, condition: Box<Expr>, body: Box<SeqElem> },
}

} // verus!
