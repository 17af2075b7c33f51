//! Abstraction converts a Concrete Syntax Tree into an Abstract Syntax Tree.
//!
//! It is responsible for a few things:
//!
//! * Forgetting about non-code such as blank lines and comments.
//! * Converting literals in the source code into values in the runtime.
//! * Removing syntactical differences (e.g. converting `k = v;` into
//!   `"k": v`).
//!
//! The transform is a pure structural recursion: every semantically
//! meaningful CST node appears exactly once, in the same relative nesting,
//! in the output, while purely syntactic nodes (parentheses) are elided
//! without a trace. The sole failure is a malformed escape sequence inside a
//! string or format-string fragment; the first failure aborts the whole
//! abstraction with no partial result.

use vstd::prelude::*;
use vstd::string::StringSliceAdditionalSpecFns;
use crate::ast;
use crate::cst;
use crate::cst::{FormatHole, Prefixed, StringStyle};
use crate::error::Error;
use crate::literals::{int_literal, parse_int_literal};
use crate::source::{spans_union, Span};
use crate::string::{escape_error_message, spec_unescape, unescape, EscapeError, Unescaped};

verus! {

/// The body of a plain string literal: the span's text with the quotes cut
/// off on both sides.
pub open spec fn lit_inner_text(s: Seq<u8>, style: StringStyle, span: Span) -> Seq<u8> {
    s.subrange(span.start + style.spec_quote_len(), span.end - style.spec_quote_len())
}

/// The literal text of a format string's opening fragment: the span's text
/// without the leading `f` and quote, nor the `{` that opens the first hole
/// (or the closing quote when there is no hole).
pub open spec fn begin_inner_text(s: Seq<u8>, style: StringStyle, begin: Span) -> Seq<u8> {
    s.subrange(begin.start + 1 + style.spec_quote_len(), begin.end - 1)
}

/// The literal text trailing a hole: the span's text without the `}` that
/// closes the hole, nor the `end_len` closing bytes (the closing quote after
/// the last hole, the next hole's `{` otherwise).
pub open spec fn suffix_inner_text(s: Seq<u8>, suffix: Span, end_len: int) -> Seq<u8> {
    s.subrange(suffix.start + 1, suffix.end - end_len)
}

/// A located abstraction failure: the absolute byte span of the offending
/// substring and the kind of escape error found there.
pub struct AbsFail {
    pub start: int,
    pub end: int,
    pub kind: EscapeError,
}

/// First failure wins.
pub open spec fn fail_or(a: Option<AbsFail>, b: Option<AbsFail>) -> Option<AbsFail> {
    if a is Some {
        a
    } else {
        b
    }
}

/// Lift an unescape outcome to an absolute failure, given the absolute
/// offset of the unescaped text.
pub open spec fn fail_from(u: Unescaped, base: int) -> Option<AbsFail> {
    match u {
        Unescaped::Done(_) => None,
        Unescaped::Fail { at, len, kind } => Some(
            AbsFail { start: base + at, end: base + at + len, kind },
        ),
    }
}

/// The error that the abstraction returns reports exactly the located
/// failure, with its span and its message.
pub open spec fn err_matches(e: Error, f: Option<AbsFail>) -> bool {
    &&& f matches Some(ff)
    &&& e.span == Some(Span { start: ff.start as usize, end: ff.end as usize })
    &&& e.message@ == escape_error_message(ff.kind)
}

/// `a` is what the expression `c` abstracts to against the source buffer
/// `s`. The relation is deterministic in `c` and `s`: it pins every field of
/// `a`, including every resolved identifier and every span that survives.
pub open spec fn expr_abstracts_to(s: Seq<u8>, c: cst::Expr, a: ast::Expr) -> bool
    decreases c,
{
    match c {
        cst::Expr::Let { ident, value, body } => {
            &&& a matches ast::Expr::Let { ident: ai, value: av, body: ab }
            &&& ai@ == ident.text(s)
            &&& expr_abstracts_to(s, *value, *av)
            &&& expr_abstracts_to(s, body.inner, *ab)
        },
        cst::Expr::BraceLit { elements, .. } => {
            &&& a matches ast::Expr::BraceLit(xs)
            &&& elems_abstract_to(s, elements@, xs@)
        },
        cst::Expr::BracketLit { elements, .. } => {
            &&& a matches ast::Expr::BracketLit(xs)
            &&& elems_abstract_to(s, elements@, xs@)
        },
        cst::Expr::Parens { body, .. } => expr_abstracts_to(s, body.inner, a),
        cst::Expr::NullLit(_) => a is NullLit,
        cst::Expr::BoolLit(_, b) => a == ast::Expr::BoolLit(b),
        cst::Expr::StringLit(style, span) => {
            &&& a matches ast::Expr::StringLit(v)
            &&& spec_unescape(lit_inner_text(s, style, span)) == Unescaped::Done(v@)
        },
        cst::Expr::FormatString { style, begin, holes } => {
            &&& a matches ast::Expr::Format(frags)
            &&& frags@.len() == 2 * holes@.len() + 1
            &&& frags@[0].span == begin
            &&& frags@[0].body matches ast::Expr::StringLit(v0)
            &&& spec_unescape(begin_inner_text(s, style, begin)) == Unescaped::Done(v0@)
            &&& forall|i: int|
                0 <= i < holes@.len() ==> {
                    let h = #[trigger] holes@[i];
                    &&& frags@[2 * i + 1].span == h.span
                    &&& expr_abstracts_to(s, h.body, frags@[2 * i + 1].body)
                    &&& frags@[2 * i + 2].span == h.suffix
                    &&& frags@[2 * i + 2].body matches ast::Expr::StringLit(v)
                    &&& spec_unescape(
                        suffix_inner_text(
                            s,
                            h.suffix,
                            if i == holes@.len() - 1 {
                                style.spec_quote_len() as int
                            } else {
                                1
                            },
                        ),
                    ) == Unescaped::Done(v@)
                }
        },
        cst::Expr::NumHexadecimal(span) => a == ast::Expr::IntegerLit(
            int_literal(s.subrange(span.start + 2, span.end as int), 16, 0),
        ),
        cst::Expr::NumBinary(span) => a == ast::Expr::IntegerLit(
            int_literal(s.subrange(span.start + 2, span.end as int), 2, 0),
        ),
        cst::Expr::NumDecimal(span) => a == ast::Expr::IntegerLit(
            int_literal(span.text(s), 10, 42),
        ),
        cst::Expr::IfThenElse { condition_span, condition, then_body, else_body } => {
            &&& a matches ast::Expr::IfThenElse {
                condition_span: acs,
                condition: ac,
                body_then: at_,
                body_else: ae,
            }
            &&& acs == condition_span
            &&& expr_abstracts_to(s, *condition, *ac)
            &&& expr_abstracts_to(s, then_body.inner, *at_)
            &&& expr_abstracts_to(s, else_body.inner, *ae)
        },
        cst::Expr::Var(span) => {
            &&& a matches ast::Expr::Var { span: asp, ident }
            &&& asp == span
            &&& ident@ == span.text(s)
        },
        cst::Expr::Field { inner, field } => {
            &&& a matches ast::Expr::Field { inner: ai, field: af, field_span }
            &&& expr_abstracts_to(s, *inner, *ai)
            &&& af@ == field.text(s)
            &&& field_span == field
        },
        cst::Expr::Call { open, function_span, function, args } => {
            &&& a matches ast::Expr::Call { open: ao, function_span: afs, function: af, args: aa }
            &&& ao == open
            &&& afs == function_span
            &&& expr_abstracts_to(s, *function, *af)
            &&& args_abstract_to(s, args@, aa@)
        },
        cst::Expr::UnOp { op, op_span, body } => {
            &&& a matches ast::Expr::UnOp { op: aop, op_span: asp, body: ab }
            &&& aop == op
            &&& asp == op_span
            &&& expr_abstracts_to(s, *body, *ab)
        },
        cst::Expr::BinOp { op, op_span, lhs, rhs } => {
            &&& a matches ast::Expr::BinOp { op: aop, op_span: asp, lhs: al, rhs: ar }
            &&& aop == op
            &&& asp == op_span
            &&& expr_abstracts_to(s, *lhs, *al)
            &&& expr_abstracts_to(s, *rhs, *ar)
        },
    }
}

/// Element-wise abstraction of a collection literal's body.
pub open spec fn elems_abstract_to(
    s: Seq<u8>,
    ces: Seq<Prefixed<cst::SeqElem>>,
    aes: Seq<ast::SeqElem>,
) -> bool
    decreases ces,
{
    &&& ces.len() == aes.len()
    &&& forall|i: int|
        0 <= i < ces.len() ==> seq_abstracts_to(s, (#[trigger] ces[i]).inner, aes[i])
}

/// Element-wise abstraction of a call's arguments.
pub open spec fn args_abstract_to(
    s: Seq<u8>,
    ces: Seq<Prefixed<cst::Expr>>,
    aes: Seq<ast::Expr>,
) -> bool
    decreases ces,
{
    &&& ces.len() == aes.len()
    &&& forall|i: int|
        0 <= i < ces.len() ==> expr_abstracts_to(s, (#[trigger] ces[i]).inner, aes[i])
}

/// `a` is what the sequence element `c` abstracts to against the source
/// buffer `s`. Both surface association forms land in the single
/// `Assoc` shape.
pub open spec fn seq_abstracts_to(s: Seq<u8>, c: cst::SeqElem, a: ast::SeqElem) -> bool
    decreases c,
{
    match c {
        cst::SeqElem::Elem { span, value } => {
            &&& a matches ast::SeqElem::Elem { span: asp, value: av }
            &&& asp == span
            &&& expr_abstracts_to(s, *value, *av)
        },
        cst::SeqElem::AssocExpr { op_span, field, value } => {
            &&& a matches ast::SeqElem::Assoc { op_span: ao, key, value: av }
            &&& ao == op_span
            &&& expr_abstracts_to(s, *field, *key)
            &&& expr_abstracts_to(s, *value, *av)
        },
        cst::SeqElem::AssocIdent { op_span, field, value } => {
            &&& a matches ast::SeqElem::Assoc { op_span: ao, key, value: av }
            &&& ao == op_span
            &&& *key matches ast::Expr::StringLit(k)
            &&& k@ == field.text(s)
            &&& expr_abstracts_to(s, *value, *av)
        },
        cst::SeqElem::Let { ident, value, body } => {
            &&& a matches ast::SeqElem::Let { ident: ai, value: av, body: ab }
            &&& ai@ == ident.text(s)
            &&& expr_abstracts_to(s, *value, *av)
            &&& seq_abstracts_to(s, body.inner, *ab)
        },
        cst::SeqElem::For { idents, collection_span, collection, body } => {
            &&& a matches ast::SeqElem::For {
                idents_span,
                idents: ai,
                collection_span: acs,
                collection: ac,
                body: ab,
            }
            &&& idents_span == spans_union(idents@)
            &&& ai@.len() == idents@.len()
            &&& forall|i: int|
                0 <= i < idents@.len() ==> (#[trigger] ai@[i])@ == idents@[i].text(s)
            &&& acs == collection_span
            &&& expr_abstracts_to(s, *collection, *ac)
            &&& seq_abstracts_to(s, body.inner, *ab)
        },
        cst::SeqElem::If { condition_span, condition, body } => {
            &&& a matches ast::SeqElem::If { condition_span: acs, condition: ac, body: ab }
            &&& acs == condition_span
            &&& expr_abstracts_to(s, *condition, *ac)
            &&& seq_abstracts_to(s, body.inner, *ab)
        },
    }
}

/// The first failure inside the expression `c`, in the order the transform
/// visits its parts; `None` when abstraction of `c` succeeds.
pub open spec fn expr_fail_of(s: Seq<u8>, c: cst::Expr) -> Option<AbsFail>
    decreases c,
{
    match c {
        cst::Expr::Let { value, body, .. } => fail_or(
            expr_fail_of(s, *value),
            expr_fail_of(s, body.inner),
        ),
        cst::Expr::BraceLit { elements, .. } => elems_fail_of(s, elements@),
        cst::Expr::BracketLit { elements, .. } => elems_fail_of(s, elements@),
        cst::Expr::Parens { body, .. } => expr_fail_of(s, body.inner),
        cst::Expr::NullLit(_) => None,
        cst::Expr::BoolLit(_, _) => None,
        cst::Expr::StringLit(style, span) => fail_from(
            spec_unescape(lit_inner_text(s, style, span)),
            span.start + style.spec_quote_len(),
        ),
        cst::Expr::FormatString { style, begin, holes } => fail_or(
            fail_from(
                spec_unescape(begin_inner_text(s, style, begin)),
                begin.start + 1 + style.spec_quote_len(),
            ),
            holes_fail_of(s, style, holes@),
        ),
        cst::Expr::NumHexadecimal(_) => None,
        cst::Expr::NumBinary(_) => None,
        cst::Expr::NumDecimal(_) => None,
        cst::Expr::IfThenElse { condition, then_body, else_body, .. } => fail_or(
            expr_fail_of(s, *condition),
            fail_or(expr_fail_of(s, then_body.inner), expr_fail_of(s, else_body.inner)),
        ),
        cst::Expr::Var(_) => None,
        cst::Expr::Field { inner, .. } => expr_fail_of(s, *inner),
        cst::Expr::Call { function, args, .. } => fail_or(
            expr_fail_of(s, *function),
            args_fail_of(s, args@),
        ),
        cst::Expr::UnOp { body, .. } => expr_fail_of(s, *body),
        cst::Expr::BinOp { lhs, rhs, .. } => fail_or(
            expr_fail_of(s, *lhs),
            expr_fail_of(s, *rhs),
        ),
    }
}

pub open spec fn elems_fail_of(s: Seq<u8>, es: Seq<Prefixed<cst::SeqElem>>) -> Option<AbsFail>
    decreases es,
{
    if es.len() == 0 {
        None
    } else {
        fail_or(seq_fail_of(s, es[0].inner), elems_fail_of(s, es.drop_first()))
    }
}

pub open spec fn args_fail_of(s: Seq<u8>, es: Seq<Prefixed<cst::Expr>>) -> Option<AbsFail>
    decreases es,
{
    if es.len() == 0 {
        None
    } else {
        fail_or(expr_fail_of(s, es[0].inner), args_fail_of(s, es.drop_first()))
    }
}

/// The first failure among a format string's holes: for each hole, first its
/// expression, then its trailing literal text.
pub open spec fn holes_fail_of(s: Seq<u8>, style: StringStyle, hs: Seq<FormatHole>) -> Option<
    AbsFail,
>
    decreases hs,
{
    if hs.len() == 0 {
        None
    } else {
        fail_or(
            fail_or(
                expr_fail_of(s, hs[0].body),
                fail_from(
                    spec_unescape(
                        suffix_inner_text(
                            s,
                            hs[0].suffix,
                            if hs.len() == 1 {
                                style.spec_quote_len() as int
                            } else {
                                1
                            },
                        ),
                    ),
                    hs[0].suffix.start + 1,
                ),
            ),
            holes_fail_of(s, style, hs.drop_first()),
        )
    }
}

/// The first failure inside the sequence element `c`.
pub open spec fn seq_fail_of(s: Seq<u8>, c: cst::SeqElem) -> Option<AbsFail>
    decreases c,
{
    match c {
        cst::SeqElem::Elem { value, .. } => expr_fail_of(s, *value),
        cst::SeqElem::AssocExpr { field, value, .. } => fail_or(
            expr_fail_of(s, *field),
            expr_fail_of(s, *value),
        ),
        cst::SeqElem::AssocIdent { value, .. } => expr_fail_of(s, *value),
        cst::SeqElem::Let { value, body, .. } => fail_or(
            expr_fail_of(s, *value),
            seq_fail_of(s, body.inner),
        ),
        cst::SeqElem::For { collection, body, .. } => fail_or(
            expr_fail_of(s, *collection),
            seq_fail_of(s, body.inner),
        ),
        cst::SeqElem::If { condition, body, .. } => fail_or(
            expr_fail_of(s, *condition),
            seq_fail_of(s, body.inner),
        ),
    }
}

/// Abstract an expression.
pub fn abstract_expr(input: &str, expr: &Prefixed<cst::Expr>) -> (r: Result<ast::Expr, Error>)
    requires
        cst::expr_wf(expr.inner, input.spec_bytes().len()),
    ensures
        r matches Ok(a) ==> expr_abstracts_to(input.spec_bytes(), expr.inner, a),
        r is Ok <==> expr_fail_of(input.spec_bytes(), expr.inner) is None,
        r matches Err(e) ==> err_matches(e, expr_fail_of(input.spec_bytes(), expr.inner)),
{
    Abstractor::new(input).expr(&expr.inner)
}

/// The abstractor can convert CST nodes to AST nodes for a given document.
pub struct Abstractor<'a> {
    input: &'a [u8],
}

impl<'a> Abstractor<'a> {
    /// The source buffer that the CST's spans index into. It must be the
    /// exact document the CST was parsed from; this is a caller contract
    /// that the abstraction does not re-validate.
    pub closed spec fn buf(self) -> Seq<u8> {
        self.input@
    }

    pub fn new(input: &'a str) -> (r: Abstractor<'a>)
        ensures
            r.buf() == input.spec_bytes(),
    {
        Abstractor { input: input.as_bytes() }
    }

    /// Unescape the text of the given span, which must select the body of a
    /// string literal (the part between the quotes).
    pub fn unescape(&self, str_inner: Span) -> (r: Result<Vec<u8>, Error>)
        requires
            str_inner.valid(self.buf().len()),
        ensures
            r is Ok <==> spec_unescape(str_inner.text(self.buf())) is Done,
            r matches Ok(v) ==> spec_unescape(str_inner.text(self.buf())) == Unescaped::Done(v@),
            r matches Err(e) ==> err_matches(
                e,
                fail_from(spec_unescape(str_inner.text(self.buf())), str_inner.start as int),
            ),
    {
        unescape(self.input, str_inner)
    }

    /// Abstract an expression.
    #[verifier::loop_isolation(false)]
    pub fn expr(&self, expr: &cst::Expr) -> (r: Result<ast::Expr, Error>)
        requires
            cst::expr_wf(*expr, self.buf().len()),
        ensures
            r matches Ok(a) ==> expr_abstracts_to(self.buf(), *expr, a),
            r is Ok <==> expr_fail_of(self.buf(), *expr) is None,
            r matches Err(e) ==> err_matches(e, expr_fail_of(self.buf(), *expr)),
        decreases *expr,
    {
        let ghost s = self.buf();
        match expr {
            cst::Expr::Let { ident, value, body } => {
                let ident_bytes = ident.resolve(self.input);
                let av = match self.expr(value) {
                    Ok(x) => x,
                    Err(e) => {
                        return Err(e);
                    },
                };
                let ab = match self.expr(&body.inner) {
                    Ok(x) => x,
                    Err(e) => {
                        return Err(e);
                    },
                };
                Ok(
                    ast::Expr::Let {
                        ident: ident_bytes,
                        value: Box::new(av),
                        body: Box::new(ab),
                    },
                )
            },
            cst::Expr::BraceLit { elements, .. } => {
                proof {
                    assert(decreases_to!(*expr => *elements));
                }
                let xs = match self.seq_elems(elements) {
                    Ok(x) => x,
                    Err(e) => {
                        return Err(e);
                    },
                };
                Ok(ast::Expr::BraceLit(xs))
            },
            cst::Expr::BracketLit { elements, .. } => {
                proof {
                    assert(decreases_to!(*expr => *elements));
                }
                let xs = match self.seq_elems(elements) {
                    Ok(x) => x,
                    Err(e) => {
                        return Err(e);
                    },
                };
                Ok(ast::Expr::BracketLit(xs))
            },
            cst::Expr::Parens { body, .. } => self.expr(&body.inner),
            cst::Expr::NullLit(_) => Ok(ast::Expr::NullLit),
            cst::Expr::BoolLit(_, b) => Ok(ast::Expr::BoolLit(*b)),
            cst::Expr::StringLit(style, span) => {
                // Cut off the string literal quotes.
                let len = style.quote_len();
                let span_inner = span.trim_start(len).trim_end(len);
                let v = match self.unescape(span_inner) {
                    Ok(v) => v,
                    Err(e) => {
                        return Err(e);
                    },
                };
                Ok(ast::Expr::StringLit(v))
            },
            cst::Expr::FormatString { style, begin, holes } => {
                let qlen = style.quote_len();
                let mut fragments: Vec<ast::FormatFragment> = Vec::new();
                let begin_inner = begin.trim_start(1 + qlen).trim_end(1);
                let begin_bytes = match self.unescape(begin_inner) {
                    Ok(v) => v,
                    Err(e) => {
                        return Err(e);
                    },
                };
                fragments.push(
                    ast::FormatFragment { span: *begin, body: ast::Expr::StringLit(begin_bytes) },
                );
                let mut i: usize = 0;
                proof {
                    assert(holes@.skip(0) =~= holes@);
                }
                while i < holes.len()
                    invariant
                        0 <= i <= holes@.len(),
                        fragments@.len() == 2 * i + 1,
                        fragments@[0].span == *begin,
                        fragments@[0].body matches ast::Expr::StringLit(v0) && spec_unescape(
                            begin_inner_text(s, *style, *begin),
                        ) == Unescaped::Done(v0@),
                        forall|j: int|
                            0 <= j < i ==> {
                                let h = #[trigger] holes@[j];
                                &&& fragments@[2 * j + 1].span == h.span
                                &&& expr_abstracts_to(s, h.body, fragments@[2 * j + 1].body)
                                &&& fragments@[2 * j + 2].span == h.suffix
                                &&& fragments@[2 * j + 2].body matches ast::Expr::StringLit(v)
                                &&& spec_unescape(
                                    suffix_inner_text(
                                        s,
                                        h.suffix,
                                        if j == holes@.len() - 1 {
                                            style.spec_quote_len() as int
                                        } else {
                                            1
                                        },
                                    ),
                                ) == Unescaped::Done(v@)
                            },
                        holes_fail_of(s, *style, holes@) == holes_fail_of(
                            s,
                            *style,
                            holes@.skip(i as int),
                        ),
                    decreases holes@.len() - i,
                {
                    let ghost rest = holes@.skip(i as int);
                    proof {
                        assert(rest[0] == holes@[i as int]);
                        assert(rest.drop_first() =~= holes@.skip(i as int + 1));
                        assert(decreases_to!(expr->FormatString_holes =>
                            expr->FormatString_holes@[i as int]));
                        assert(decreases_to!(*expr => holes@[i as int].body));
                        assert(cst::holes_wf(holes@, *style, s.len()));
                        assert(cst::expr_wf(holes@[i as int].body, s.len()));
                    }
                    let hole_body = match self.expr(&holes[i].body) {
                        Ok(x) => x,
                        Err(e) => {
                            return Err(e);
                        },
                    };
                    fragments.push(
                        ast::FormatFragment { span: holes[i].span, body: hole_body },
                    );
                    let is_last = i + 1 == holes.len();
                    let end_len = if is_last {
                        qlen
                    } else {
                        1
                    };
                    let suffix_inner = holes[i].suffix.trim_start(1).trim_end(end_len);
                    let suffix_bytes = match self.unescape(suffix_inner) {
                        Ok(v) => v,
                        Err(e) => {
                            return Err(e);
                        },
                    };
                    fragments.push(
                        ast::FormatFragment {
                            span: holes[i].suffix,
                            body: ast::Expr::StringLit(suffix_bytes),
                        },
                    );
                    i += 1;
                }
                proof {
                    assert(holes@.skip(i as int) =~= Seq::<FormatHole>::empty());
                }
                Ok(ast::Expr::Format(fragments))
            },
            cst::Expr::NumHexadecimal(span) => {
                // Cut off the 0x, then parse the rest.
                let digits = span.trim_start(2).resolve(self.input);
                let value = parse_int_literal(digits.as_slice(), 16, 0);
                Ok(ast::Expr::IntegerLit(value))
            },
            cst::Expr::NumBinary(span) => {
                // Cut off the 0b, then parse the rest.
                let digits = span.trim_start(2).resolve(self.input);
                let value = parse_int_literal(digits.as_slice(), 2, 0);
                Ok(ast::Expr::IntegerLit(value))
            },
            cst::Expr::NumDecimal(span) => {
                let digits = span.resolve(self.input);
                let value = parse_int_literal(digits.as_slice(), 10, 42);
                Ok(ast::Expr::IntegerLit(value))
            },
            cst::Expr::IfThenElse { condition_span, condition, then_body, else_body } => {
                let ac = match self.expr(condition) {
                    Ok(x) => x,
                    Err(e) => {
                        return Err(e);
                    },
                };
                let at_ = match self.expr(&then_body.inner) {
                    Ok(x) => x,
                    Err(e) => {
                        return Err(e);
                    },
                };
                let ae = match self.expr(&else_body.inner) {
                    Ok(x) => x,
                    Err(e) => {
                        return Err(e);
                    },
                };
                Ok(
                    ast::Expr::IfThenElse {
                        condition_span: *condition_span,
                        condition: Box::new(ac),
                        body_then: Box::new(at_),
                        body_else: Box::new(ae),
                    },
                )
            },
            cst::Expr::Var(span) => Ok(
                ast::Expr::Var { span: *span, ident: span.resolve(self.input) },
            ),
            cst::Expr::Field { inner, field } => {
                let ai = match self.expr(inner) {
                    Ok(x) => x,
                    Err(e) => {
                        return Err(e);
                    },
                };
                Ok(
                    ast::Expr::Field {
                        inner: Box::new(ai),
                        field: field.resolve(self.input),
                        field_span: *field,
                    },
                )
            },
            cst::Expr::Call { open, function_span, function, args } => {
                let af = match self.expr(function) {
                    Ok(x) => x,
                    Err(e) => {
                        return Err(e);
                    },
                };
                proof {
                    assert(decreases_to!(*expr => *args));
                }
                let aa = match self.arg_exprs(args) {
                    Ok(x) => x,
                    Err(e) => {
                        return Err(e);
                    },
                };
                Ok(
                    ast::Expr::Call {
                        open: *open,
                        function_span: *function_span,
                        function: Box::new(af),
                        args: aa,
                    },
                )
            },
            cst::Expr::UnOp { op, op_span, body } => {
                let ab = match self.expr(body) {
                    Ok(x) => x,
                    Err(e) => {
                        return Err(e);
                    },
                };
                Ok(ast::Expr::UnOp { op: *op, op_span: *op_span, body: Box::new(ab) })
            },
            cst::Expr::BinOp { op, op_span, lhs, rhs } => {
                let al = match self.expr(lhs) {
                    Ok(x) => x,
                    Err(e) => {
                        return Err(e);
                    },
                };
                let ar = match self.expr(rhs) {
                    Ok(x) => x,
                    Err(e) => {
                        return Err(e);
                    },
                };
                Ok(
                    ast::Expr::BinOp {
                        op: *op,
                        op_span: *op_span,
                        lhs: Box::new(al),
                        rhs: Box::new(ar),
                    },
                )
            },
        }
    }

    /// Abstract every element of a collection literal's body, stopping at
    /// the first failure.
    #[verifier::loop_isolation(false)]
    fn seq_elems(&self, elements: &Vec<Prefixed<cst::SeqElem>>) -> (r: Result<
        Vec<ast::SeqElem>,
        Error,
    >)
        requires
            cst::elems_wf(elements@, self.buf().len()),
        ensures
            r matches Ok(xs) ==> elems_abstract_to(self.buf(), elements@, xs@),
            r is Ok <==> elems_fail_of(self.buf(), elements@) is None,
            r matches Err(e) ==> err_matches(e, elems_fail_of(self.buf(), elements@)),
        decreases *elements,
    {
        let ghost s = self.buf();
        let mut out: Vec<ast::SeqElem> = Vec::new();
        let mut i: usize = 0;
        proof {
            assert(elements@.skip(0) =~= elements@);
        }
        while i < elements.len()
            invariant
                0 <= i <= elements@.len(),
                out@.len() == i,
                forall|j: int|
                    0 <= j < i ==> seq_abstracts_to(s, elements@[j].inner, #[trigger] out@[j]),
                elems_fail_of(s, elements@) == elems_fail_of(s, elements@.skip(i as int)),
            decreases elements@.len() - i,
        {
            let ghost rest = elements@.skip(i as int);
            proof {
                assert(rest[0] == elements@[i as int]);
                assert(rest.drop_first() =~= elements@.skip(i as int + 1));
                assert(decreases_to!(*elements => elements@[i as int].inner));
            }
            let x = match self.seq(&elements[i].inner) {
                Ok(x) => x,
                Err(e) => {
                    return Err(e);
                },
            };
            out.push(x);
            i += 1;
        }
        proof {
            assert(elements@.skip(i as int) =~= Seq::<Prefixed<cst::SeqElem>>::empty());
        }
        Ok(out)
    }

    /// Abstract every argument of a call, stopping at the first failure.
    #[verifier::loop_isolation(false)]
    fn arg_exprs(&self, args: &Vec<Prefixed<cst::Expr>>) -> (r: Result<Vec<ast::Expr>, Error>)
        requires
            cst::args_wf(args@, self.buf().len()),
        ensures
            r matches Ok(xs) ==> args_abstract_to(self.buf(), args@, xs@),
            r is Ok <==> args_fail_of(self.buf(), args@) is None,
            r matches Err(e) ==> err_matches(e, args_fail_of(self.buf(), args@)),
        decreases *args,
    {
        let ghost s = self.buf();
        let mut out: Vec<ast::Expr> = Vec::new();
        let mut i: usize = 0;
        proof {
            assert(args@.skip(0) =~= args@);
        }
        while i < args.len()
            invariant
                0 <= i <= args@.len(),
                out@.len() == i,
                forall|j: int|
                    0 <= j < i ==> expr_abstracts_to(s, args@[j].inner, #[trigger] out@[j]),
                args_fail_of(s, args@) == args_fail_of(s, args@.skip(i as int)),
            decreases args@.len() - i,
        {
            let ghost rest = args@.skip(i as int);
            proof {
                assert(rest[0] == args@[i as int]);
                assert(rest.drop_first() =~= args@.skip(i as int + 1));
                assert(decreases_to!(*args => args@[i as int].inner));
            }
            let x = match self.expr(&args[i].inner) {
                Ok(x) => x,
                Err(e) => {
                    return Err(e);
                },
            };
            out.push(x);
            i += 1;
        }
        proof {
            assert(args@.skip(i as int) =~= Seq::<Prefixed<cst::Expr>>::empty());
        }
        Ok(out)
    }

    /// Abstract a sequence element.
    #[verifier::loop_isolation(false)]
    pub fn seq(&self, seq: &cst::SeqElem) -> (r: Result<ast::SeqElem, Error>)
        requires
            cst::seq_elem_wf(*seq, self.buf().len()),
        ensures
            r matches Ok(a) ==> seq_abstracts_to(self.buf(), *seq, a),
            r is Ok <==> seq_fail_of(self.buf(), *seq) is None,
            r matches Err(e) ==> err_matches(e, seq_fail_of(self.buf(), *seq)),
        decreases *seq,
    {
        let ghost s = self.buf();
        match seq {
            cst::SeqElem::Elem { span, value } => {
                let av = match self.expr(value) {
                    Ok(x) => x,
                    Err(e) => {
                        return Err(e);
                    },
                };
                Ok(ast::SeqElem::Elem { span: *span, value: Box::new(av) })
            },
            cst::SeqElem::AssocExpr { op_span, field, value } => {
                let ak = match self.expr(field) {
                    Ok(x) => x,
                    Err(e) => {
                        return Err(e);
                    },
                };
                let av = match self.expr(value) {
                    Ok(x) => x,
                    Err(e) => {
                        return Err(e);
                    },
                };
                Ok(
                    ast::SeqElem::Assoc {
                        op_span: *op_span,
                        key: Box::new(ak),
                        value: Box::new(av),
                    },
                )
            },
            cst::SeqElem::AssocIdent { op_span, field, value } => {
                // We convert the `key = value` as if it had been written
                // `"key": value` so we can treat them uniformly from here on.
                let key_expr = ast::Expr::StringLit(field.resolve(self.input));
                let av = match self.expr(value) {
                    Ok(x) => x,
                    Err(e) => {
                        return Err(e);
                    },
                };
                Ok(
                    ast::SeqElem::Assoc {
                        op_span: *op_span,
                        key: Box::new(key_expr),
                        value: Box::new(av),
                    },
                )
            },
            cst::SeqElem::Let { ident, value, body } => {
                let ident_bytes = ident.resolve(self.input);
                let av = match self.expr(value) {
                    Ok(x) => x,
                    Err(e) => {
                        return Err(e);
                    },
                };
                let ab = match self.seq(&body.inner) {
                    Ok(x) => x,
                    Err(e) => {
                        return Err(e);
                    },
                };
                Ok(
                    ast::SeqElem::Let {
                        ident: ident_bytes,
                        value: Box::new(av),
                        body: Box::new(ab),
                    },
                )
            },
            cst::SeqElem::For { idents, collection_span, collection, body } => {
                // The union of every bound identifier's span; the parser
                // guarantees at least one identifier.
                let mut idents_span = idents[0];
                let mut k: usize = 1;
                while k < idents.len()
                    invariant
                        1 <= k <= idents@.len(),
                        idents_span == spans_union(idents@.take(k as int)),
                    decreases idents@.len() - k,
                {
                    idents_span = idents_span.union(idents[k]);
                    k += 1;
                    proof {
                        assert(idents@.take(k as int).drop_last() =~= idents@.take(k as int - 1));
                    }
                }
                proof {
                    assert(idents@.take(k as int) =~= idents@);
                }
                let mut names: Vec<Vec<u8>> = Vec::new();
                let mut j: usize = 0;
                while j < idents.len()
                    invariant
                        0 <= j <= idents@.len(),
                        names@.len() == j,
                        forall|m: int|
                            0 <= m < j ==> (#[trigger] names@[m])@ == idents@[m].text(s),
                    decreases idents@.len() - j,
                {
                    names.push(idents[j].resolve(self.input));
                    j += 1;
                }
                let ac = match self.expr(collection) {
                    Ok(x) => x,
                    Err(e) => {
                        return Err(e);
                    },
                };
                let ab = match self.seq(&body.inner) {
                    Ok(x) => x,
                    Err(e) => {
                        return Err(e);
                    },
                };
                Ok(
                    ast::SeqElem::For {
                        idents_span,
                        idents: names,
                        collection_span: *collection_span,
                        collection: Box::new(ac),
                        body: Box::new(ab),
                    },
                )
            },
            cst::SeqElem::If { condition_span, condition, body } => {
                let ac = match self.expr(condition) {
                    Ok(x) => x,
                    Err(e) => {
                        return Err(e);
                    },
                };
                let ab = match self.seq(&body.inner) {
                    Ok(x) => x,
                    Err(e) => {
                        return Err(e);
                    },
                };
                Ok(
                    ast::SeqElem::If {
                        condition_span: *condition_span,
                        condition: Box::new(ac),
                        body: Box::new(ab),
                    },
                )
            },
        }
    }
}

} // verus!
