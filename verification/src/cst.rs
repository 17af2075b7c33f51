//! The Concrete Syntax Tree.
//!
//! The CST mirrors the exact source layout: it keeps every token position,
//! the spans of non-code such as comments and blank lines, and surface-syntax
//! variants that mean the same thing (parentheses, `ident = value`
//! associations). It is produced by an upstream lexer/parser and assumed
//! syntactically valid; the well-formedness predicates below capture only
//! what the abstraction stage relies on, namely that every span indexes into
//! the source buffer and is long enough for its delimiters.

use vstd::prelude::*;
use crate::ast::{BinOp, UnOp};
use crate::source::Span;

verus! {

/// How a string or format string is quoted: `"`-delimited or `"""`-delimited.
#[derive(Clone, Copy, Debug, PartialEq, Eq, Structural)]
pub enum StringStyle {
    Double,
    Triple,
}

impl StringStyle {
    /// The byte length of one quote delimiter.
    pub open spec fn spec_quote_len(self) -> nat {
        match self {
            StringStyle::Double => 1,
            StringStyle::Triple => 3,
        }
    }

    pub fn quote_len(self) -> (n: usize)
        ensures
            n == self.spec_quote_len(),
    {
        match self {
            StringStyle::Double => 1,
            StringStyle::Triple => 3,
        }
    }
}

/// A node together with the spans of the non-code (comments, blank lines)
/// that preceded it. The abstraction stage forgets the prefix.
#[derive(Debug, PartialEq, Eq)]
pub struct Prefixed<T> {
    pub prefix: Vec<Span>,
    pub inner: T,
}

/// One expression hole inside a format string, together with the literal
/// text that trails it.
#[derive(Debug, PartialEq, Eq)]
pub struct FormatHole {
    /// The span of the hole's expression.
    pub span: Span,
    pub body: Expr,
    /// The literal text after the hole, up to and including the next hole's
    /// opening `{` or the closing quote.
    pub suffix: Span,
}

/// A concrete expression.
#[derive(Debug, PartialEq, Eq)]
pub enum Expr {
    Let { ident: Span, value: Box<Expr>, body: Box<Prefixed<Expr>> },
    BraceLit { open: Span, elements: Vec<Prefixed<SeqElem>> },
    BracketLit { open: Span, elements: Vec<Prefixed<SeqElem>> },
    /// A parenthesized expression; purely syntactic.
    Parens { open: Span, body: Box<Prefixed<Expr>> },
    NullLit(Span),
    BoolLit(Span, bool),
    /// A string literal; the span includes the quotes.
    StringLit(StringStyle, Span),
    FormatString {
        style: StringStyle,
        /// From the opening `f"` up to and including the first hole's `{`,
        /// or the closing quote if there are no holes.
        begin: Span,
        holes: Vec<FormatHole>,
    },
    /// An integer literal with `0x` prefix; the span includes the prefix.
    NumHexadecimal(Span),
    /// An integer literal with `0b` prefix; the span includes the prefix.
    NumBinary(Span),
    NumDecimal(Span),
    IfThenElse {
        condition_span: Span,
        condition: Box<Expr>,
        then_body: Box<Prefixed<Expr>>,
        else_body: Box<Prefixed<Expr>>,
    },
    Var(Span),
    Field { inner: Box<Expr>, field: Span },
    Call {
        open: Span,
        function_span: Span,
        function: Box<Expr>,
        args: Vec<Prefixed<Expr>>,
    },
    UnOp { op: UnOp, op_span: Span, body: Box<Expr> },
    BinOp { op: BinOp, op_span: Span, lhs: Box<Expr>, rhs: Box<Expr> },
}

/// One concrete element of a collection literal's body.
#[derive(Debug, PartialEq, Eq)]
pub enum SeqElem {
    Elem { span: Span, value: Box<Expr> },
    /// `key: value`, with an arbitrary expression as the key.
    AssocExpr { op_span: Span, field: Box<Expr>, value: Box<Expr> },
    /// `ident = value`, the alternate association notation.
    AssocIdent { op_span: Span, field: Span, value: Box<Expr> },
    Let { ident: Span, value: Box<Expr>, body: Box<Prefixed<SeqElem>> },
    For {
        /// The bound identifiers; the parser guarantees at least one.
        idents: Vec<Span>,
        collection_span: Span,
        collection: Box<Expr>,
        body: Box<Prefixed<SeqElem>>,
    },
    If { condition_span: Span, condition: Box<Expr>, body: Box<Prefixed<SeqElem>> },
}

/// The expression's spans index into a buffer of `n` bytes and are long
/// enough for the delimiters the abstraction stage trims off.
pub open spec fn expr_wf(e: Expr, n: nat) -> bool
    decreases e,
{
    match e {
        Expr::Let { ident, value, body } => ident.valid(n) && expr_wf(*value, n) && expr_wf(
            body.inner,
            n,
        ),
        Expr::BraceLit { open, elements } => open.valid(n) && elems_wf(elements@, n),
        Expr::BracketLit { open, elements } => open.valid(n) && elems_wf(elements@, n),
        Expr::Parens { open, body } => open.valid(n) && expr_wf(body.inner, n),
        Expr::NullLit(span) => span.valid(n),
        Expr::BoolLit(span, _) => span.valid(n),
        Expr::StringLit(style, span) => span.valid(n) && span.start + 2 * style.spec_quote_len()
            <= span.end,
        Expr::FormatString { style, begin, holes } => {
            &&& begin.valid(n)
            &&& begin.start + 1 + style.spec_quote_len() + 1 <= begin.end
            &&& holes_wf(holes@, style, n)
        },
        Expr::NumHexadecimal(span) => span.valid(n) && span.start + 2 <= span.end,
        Expr::NumBinary(span) => span.valid(n) && span.start + 2 <= span.end,
        Expr::NumDecimal(span) => span.valid(n),
        Expr::IfThenElse { condition_span, condition, then_body, else_body } => {
            &&& condition_span.valid(n)
            &&& expr_wf(*condition, n)
            &&& expr_wf(then_body.inner, n)
            &&& expr_wf(else_body.inner, n)
        },
        Expr::Var(span) => span.valid(n),
        Expr::Field { inner, field } => expr_wf(*inner, n) && field.valid(n),
        Expr::Call { open, function_span, function, args } => {
            &&& open.valid(n)
            &&& function_span.valid(n)
            &&& expr_wf(*function, n)
            &&& args_wf(args@, n)
        },
        Expr::UnOp { op_span, body, .. } => op_span.valid(n) && expr_wf(*body, n),
        Expr::BinOp { op_span, lhs, rhs, .. } => op_span.valid(n) && expr_wf(*lhs, n) && expr_wf(
            *rhs,
            n,
        ),
    }
}

pub open spec fn elems_wf(es: Seq<Prefixed<SeqElem>>, n: nat) -> bool
    decreases es,
{
    forall|i: int| 0 <= i < es.len() ==> seq_elem_wf(#[trigger] es[i].inner, n)
}

pub open spec fn args_wf(es: Seq<Prefixed<Expr>>, n: nat) -> bool
    decreases es,
{
    forall|i: int| 0 <= i < es.len() ==> expr_wf(#[trigger] es[i].inner, n)
}

/// Each hole's expression is well-formed and its trailing literal span is
/// long enough for the `}` that opens it and for what closes it: the closing
/// quote after the last hole, the next hole's `{` otherwise.
pub open spec fn holes_wf(hs: Seq<FormatHole>, style: StringStyle, n: nat) -> bool
    decreases hs,
{
    forall|i: int| 0 <= i < hs.len() ==> {
        &&& (#[trigger] hs[i]).span.valid(n)
        &&& expr_wf(hs[i].body, n)
        &&& hs[i].suffix.valid(n)
        &&& hs[i].suffix.start + 1 + (if i == hs.len() - 1 {
            style.spec_quote_len()
        } else {
            1
        }) <= hs[i].suffix.end
    }
}

pub open spec fn seq_elem_wf(e: SeqElem, n: nat) -> bool
    decreases e,
{
    match e {
        SeqElem::Elem { span, value } => span.valid(n) && expr_wf(*value, n),
        SeqElem::AssocExpr { op_span, field, value } => op_span.valid(n) && expr_wf(*field, n)
            && expr_wf(*value, n),
        SeqElem::AssocIdent { op_span, field, value } => op_span.valid(n) && field.valid(n)
            && expr_wf(*value, n),
        SeqElem::Let { ident, value, body } => ident.valid(n) && expr_wf(*value, n) && seq_elem_wf(
            body.inner,
            n,
        ),
        SeqElem::For { idents, collection_span, collection, body } => {
            &&& idents@.len() >= 1
            &&& forall|i: int| 0 <= i < idents@.len() ==> (#[trigger] idents@[i]).valid(n)
            &&& collection_span.valid(n)
            &&& expr_wf(*collection, n)
            &&& seq_elem_wf(body.inner, n)
        },
        SeqElem::If { condition_span, condition, body } => condition_span.valid(n) && expr_wf(
            *condition,
            n,
        ) && seq_elem_wf(body.inner, n),
    }
}

} // verus!
