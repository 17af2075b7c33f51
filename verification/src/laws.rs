//! Laws of the abstraction stage, stated and proved against the relations
//! of `abstraction`.

use vstd::prelude::*;
use crate::abstraction::{
    args_abstract_to, args_fail_of, elems_abstract_to, elems_fail_of, expr_abstracts_to,
    expr_fail_of, lit_inner_text, seq_abstracts_to, seq_fail_of,
};
use crate::ast;
use crate::cst;
use crate::cst::{FormatHole, Prefixed, StringStyle};
use crate::source::{spans_union, Span};
use crate::string::{spec_unescape, Unescaped};

verus! {

/// The expression contains no string literal and no format string.
pub open spec fn expr_no_strings(c: cst::Expr) -> bool
    decreases c,
{
    match c {
        cst::Expr::Let { value, body, .. } => expr_no_strings(*value) && expr_no_strings(
            body.inner,
        ),
        cst::Expr::BraceLit { elements, .. } => elems_no_strings(elements@),
        cst::Expr::BracketLit { elements, .. } => elems_no_strings(elements@),
        cst::Expr::Parens { body, .. } => expr_no_strings(body.inner),
        cst::Expr::NullLit(_) => true,
        cst::Expr::BoolLit(_, _) => true,
        cst::Expr::StringLit(_, _) => false,
        cst::Expr::FormatString { .. } => false,
        cst::Expr::NumHexadecimal(_) => true,
        cst::Expr::NumBinary(_) => true,
        cst::Expr::NumDecimal(_) => true,
        cst::Expr::IfThenElse { condition, then_body, else_body, .. } => {
            &&& expr_no_strings(*condition)
            &&& expr_no_strings(then_body.inner)
            &&& expr_no_strings(else_body.inner)
        },
        cst::Expr::Var(_) => true,
        cst::Expr::Field { inner, .. } => expr_no_strings(*inner),
        cst::Expr::Call { function, args, .. } => expr_no_strings(*function) && args_no_strings(
            args@,
        ),
        cst::Expr::UnOp { body, .. } => expr_no_strings(*body),
        cst::Expr::BinOp { lhs, rhs, .. } => expr_no_strings(*lhs) && expr_no_strings(*rhs),
    }
}

pub open spec fn elems_no_strings(es: Seq<Prefixed<cst::SeqElem>>) -> bool
    decreases es,
{
    forall|i: int| 0 <= i < es.len() ==> seq_no_strings((#[trigger] es[i]).inner)
}

pub open spec fn args_no_strings(es: Seq<Prefixed<cst::Expr>>) -> bool
    decreases es,
{
    forall|i: int| 0 <= i < es.len() ==> expr_no_strings((#[trigger] es[i]).inner)
}

pub open spec fn seq_no_strings(c: cst::SeqElem) -> bool
    decreases c,
{
    match c {
        cst::SeqElem::Elem { value, .. } => expr_no_strings(*value),
        cst::SeqElem::AssocExpr { field, value, .. } => expr_no_strings(*field)
            && expr_no_strings(*value),
        cst::SeqElem::AssocIdent { value, .. } => expr_no_strings(*value),
        cst::SeqElem::Let { value, body, .. } => expr_no_strings(*value) && seq_no_strings(
            body.inner,
        ),
        cst::SeqElem::For { collection, body, .. } => expr_no_strings(*collection)
            && seq_no_strings(body.inner),
        cst::SeqElem::If { condition, body, .. } => expr_no_strings(*condition)
            && seq_no_strings(body.inner),
    }
}

/// Abstraction of an expression without string or format literals cannot
/// fail: the only failure of this stage is a malformed escape sequence, and
/// those live only inside string literals.
pub proof fn lemma_no_strings_no_fail(s: Seq<u8>, c: cst::Expr)
    requires
        expr_no_strings(c),
    ensures
        expr_fail_of(s, c) is None,
    decreases c,
{
    match c {
        cst::Expr::Let { value, body, .. } => {
            lemma_no_strings_no_fail(s, *value);
            lemma_no_strings_no_fail(s, body.inner);
        },
        cst::Expr::BraceLit { elements, .. } => {
            lemma_elems_no_strings_no_fail(s, elements@);
        },
        cst::Expr::BracketLit { elements, .. } => {
            lemma_elems_no_strings_no_fail(s, elements@);
        },
        cst::Expr::Parens { body, .. } => {
            lemma_no_strings_no_fail(s, body.inner);
        },
        cst::Expr::IfThenElse { condition, then_body, else_body, .. } => {
            lemma_no_strings_no_fail(s, *condition);
            lemma_no_strings_no_fail(s, then_body.inner);
            lemma_no_strings_no_fail(s, else_body.inner);
        },
        cst::Expr::Field { inner, .. } => {
            lemma_no_strings_no_fail(s, *inner);
        },
        cst::Expr::Call { function, args, .. } => {
            lemma_no_strings_no_fail(s, *function);
            lemma_args_no_strings_no_fail(s, args@);
        },
        cst::Expr::UnOp { body, .. } => {
            lemma_no_strings_no_fail(s, *body);
        },
        cst::Expr::BinOp { lhs, rhs, .. } => {
            lemma_no_strings_no_fail(s, *lhs);
            lemma_no_strings_no_fail(s, *rhs);
        },
        _ => {},
    }
}

proof fn lemma_elems_no_strings_no_fail(s: Seq<u8>, es: Seq<Prefixed<cst::SeqElem>>)
    requires
        elems_no_strings(es),
    ensures
        elems_fail_of(s, es) is None,
    decreases es,
{
    if es.len() > 0 {
        lemma_seq_no_strings_no_fail(s, es[0].inner);
        assert(elems_no_strings(es.drop_first()));
        lemma_elems_no_strings_no_fail(s, es.drop_first());
    }
}

proof fn lemma_args_no_strings_no_fail(s: Seq<u8>, es: Seq<Prefixed<cst::Expr>>)
    requires
        args_no_strings(es),
    ensures
        args_fail_of(s, es) is None,
    decreases es,
{
    if es.len() > 0 {
        lemma_no_strings_no_fail(s, es[0].inner);
        assert(args_no_strings(es.drop_first()));
        lemma_args_no_strings_no_fail(s, es.drop_first());
    }
}

proof fn lemma_seq_no_strings_no_fail(s: Seq<u8>, c: cst::SeqElem)
    requires
        seq_no_strings(c),
    ensures
        seq_fail_of(s, c) is None,
    decreases c,
{
    match c {
        cst::SeqElem::Elem { value, .. } => {
            lemma_no_strings_no_fail(s, *value);
        },
        cst::SeqElem::AssocExpr { field, value, .. } => {
            lemma_no_strings_no_fail(s, *field);
            lemma_no_strings_no_fail(s, *value);
        },
        cst::SeqElem::AssocIdent { value, .. } => {
            lemma_no_strings_no_fail(s, *value);
        },
        cst::SeqElem::Let { value, body, .. } => {
            lemma_no_strings_no_fail(s, *value);
            lemma_seq_no_strings_no_fail(s, body.inner);
        },
        cst::SeqElem::For { collection, body, .. } => {
            lemma_no_strings_no_fail(s, *collection);
            lemma_seq_no_strings_no_fail(s, body.inner);
        },
        cst::SeqElem::If { condition, body, .. } => {
            lemma_no_strings_no_fail(s, *condition);
            lemma_seq_no_strings_no_fail(s, body.inner);
        },
    }
}

/// The number of semantically meaningful nodes of a concrete expression:
/// parentheses are not counted, everything else counts itself plus its
/// children. A format string counts itself, its opening literal fragment,
/// and each hole's expression and trailing literal fragment.
pub open spec fn cst_expr_count(c: cst::Expr) -> nat
    decreases c,
{
    match c {
        cst::Expr::Let { value, body, .. } => 1 + cst_expr_count(*value) + cst_expr_count(
            body.inner,
        ),
        cst::Expr::BraceLit { elements, .. } => 1 + cst_elems_count(elements@),
        cst::Expr::BracketLit { elements, .. } => 1 + cst_elems_count(elements@),
        cst::Expr::Parens { body, .. } => cst_expr_count(body.inner),
        cst::Expr::NullLit(_) => 1,
        cst::Expr::BoolLit(_, _) => 1,
        cst::Expr::StringLit(_, _) => 1,
        cst::Expr::FormatString { holes, .. } => 2 + cst_holes_count(holes@),
        cst::Expr::NumHexadecimal(_) => 1,
        cst::Expr::NumBinary(_) => 1,
        cst::Expr::NumDecimal(_) => 1,
        cst::Expr::IfThenElse { condition, then_body, else_body, .. } => 1 + cst_expr_count(
            *condition,
        ) + cst_expr_count(then_body.inner) + cst_expr_count(else_body.inner),
        cst::Expr::Var(_) => 1,
        cst::Expr::Field { inner, .. } => 1 + cst_expr_count(*inner),
        cst::Expr::Call { function, args, .. } => 1 + cst_expr_count(*function) + cst_args_count(
            args@,
        ),
        cst::Expr::UnOp { body, .. } => 1 + cst_expr_count(*body),
        cst::Expr::BinOp { lhs, rhs, .. } => 1 + cst_expr_count(*lhs) + cst_expr_count(*rhs),
    }
}

pub open spec fn cst_elems_count(es: Seq<Prefixed<cst::SeqElem>>) -> nat
    decreases es,
{
    if es.len() == 0 {
        0
    } else {
        cst_seq_count(es[0].inner) + cst_elems_count(es.drop_first())
    }
}

pub open spec fn cst_args_count(es: Seq<Prefixed<cst::Expr>>) -> nat
    decreases es,
{
    if es.len() == 0 {
        0
    } else {
        cst_expr_count(es[0].inner) + cst_args_count(es.drop_first())
    }
}

pub open spec fn cst_holes_count(hs: Seq<FormatHole>) -> nat
    decreases hs,
{
    if hs.len() == 0 {
        0
    } else {
        1 + cst_expr_count(hs[0].body) + cst_holes_count(hs.drop_first())
    }
}

pub open spec fn cst_seq_count(c: cst::SeqElem) -> nat
    decreases c,
{
    match c {
        cst::SeqElem::Elem { value, .. } => 1 + cst_expr_count(*value),
        cst::SeqElem::AssocExpr { field, value, .. } => 1 + cst_expr_count(*field)
            + cst_expr_count(*value),
        // The synthesized string-literal key counts like the written-out key.
        cst::SeqElem::AssocIdent { value, .. } => 2 + cst_expr_count(*value),
        cst::SeqElem::Let { value, body, .. } => 1 + cst_expr_count(*value) + cst_seq_count(
            body.inner,
        ),
        cst::SeqElem::For { collection, body, .. } => 1 + cst_expr_count(*collection)
            + cst_seq_count(body.inner),
        cst::SeqElem::If { condition, body, .. } => 1 + cst_expr_count(*condition) + cst_seq_count(
            body.inner,
        ),
    }
}

/// The number of nodes of an abstract expression.
pub open spec fn ast_expr_count(a: ast::Expr) -> nat
    decreases a,
{
    match a {
        ast::Expr::Let { value, body, .. } => 1 + ast_expr_count(*value) + ast_expr_count(*body),
        ast::Expr::BraceLit(xs) => 1 + ast_elems_count(xs@),
        ast::Expr::BracketLit(xs) => 1 + ast_elems_count(xs@),
        ast::Expr::NullLit => 1,
        ast::Expr::BoolLit(_) => 1,
        ast::Expr::StringLit(_) => 1,
        ast::Expr::Format(frags) => 1 + ast_frags_count(frags@),
        ast::Expr::IntegerLit(_) => 1,
        ast::Expr::IfThenElse { condition, body_then, body_else, .. } => 1 + ast_expr_count(
            *condition,
        ) + ast_expr_count(*body_then) + ast_expr_count(*body_else),
        ast::Expr::Var { .. } => 1,
        ast::Expr::Field { inner, .. } => 1 + ast_expr_count(*inner),
        ast::Expr::Call { function, args, .. } => 1 + ast_expr_count(*function) + ast_args_count(
            args@,
        ),
        ast::Expr::UnOp { body, .. } => 1 + ast_expr_count(*body),
        ast::Expr::BinOp { lhs, rhs, .. } => 1 + ast_expr_count(*lhs) + ast_expr_count(*rhs),
    }
}

pub open spec fn ast_elems_count(xs: Seq<ast::SeqElem>) -> nat
    decreases xs,
{
    if xs.len() == 0 {
        0
    } else {
        ast_seq_count(xs[0]) + ast_elems_count(xs.drop_first())
    }
}

pub open spec fn ast_args_count(xs: Seq<ast::Expr>) -> nat
    decreases xs,
{
    if xs.len() == 0 {
        0
    } else {
        ast_expr_count(xs[0]) + ast_args_count(xs.drop_first())
    }
}

pub open spec fn ast_frags_count(fs: Seq<ast::FormatFragment>) -> nat
    decreases fs,
{
    if fs.len() == 0 {
        0
    } else {
        ast_expr_count(fs[0].body) + ast_frags_count(fs.drop_first())
    }
}

pub open spec fn ast_seq_count(a: ast::SeqElem) -> nat
    decreases a,
{
    match a {
        ast::SeqElem::Elem { value, .. } => 1 + ast_expr_count(*value),
        ast::SeqElem::Assoc { key, value, .. } => 1 + ast_expr_count(*key) + ast_expr_count(
            *value,
        ),
        ast::SeqElem::Let { value, body, .. } => 1 + ast_expr_count(*value) + ast_seq_count(
            *body,
        ),
        ast::SeqElem::For { collection, body, .. } => 1 + ast_expr_count(*collection)
            + ast_seq_count(*body),
        ast::SeqElem::If { condition, body, .. } => 1 + ast_expr_count(*condition) + ast_seq_count(
            *body,
        ),
    }
}

/// Abstraction preserves the tree shape: the output has exactly as many
/// nodes as the input has semantically meaningful nodes, parenthesis nodes
/// contributing none.
pub proof fn lemma_count_preserved(s: Seq<u8>, c: cst::Expr, a: ast::Expr)
    requires
        expr_abstracts_to(s, c, a),
    ensures
        ast_expr_count(a) == cst_expr_count(c),
    decreases c,
{
    match c {
        cst::Expr::Let { value, body, .. } => {
            lemma_count_preserved(s, *value, *a->Let_value);
            lemma_count_preserved(s, body.inner, *a->Let_body);
        },
        cst::Expr::BraceLit { elements, .. } => {
            lemma_elems_count_preserved(s, elements@, a->BraceLit_0@);
        },
        cst::Expr::BracketLit { elements, .. } => {
            lemma_elems_count_preserved(s, elements@, a->BracketLit_0@);
        },
        cst::Expr::Parens { body, .. } => {
            lemma_count_preserved(s, body.inner, a);
        },
        cst::Expr::FormatString { style, begin, holes } => {
            let frags = a->Format_0@;
            lemma_holes_count_preserved(s, style, holes@, frags, begin);
        },
        cst::Expr::IfThenElse { condition, then_body, else_body, .. } => {
            lemma_count_preserved(s, *condition, *a->IfThenElse_condition);
            lemma_count_preserved(s, then_body.inner, *a->IfThenElse_body_then);
            lemma_count_preserved(s, else_body.inner, *a->IfThenElse_body_else);
        },
        cst::Expr::Field { inner, .. } => {
            lemma_count_preserved(s, *inner, *a->Field_inner);
        },
        cst::Expr::Call { function, args, .. } => {
            lemma_count_preserved(s, *function, *a->Call_function);
            lemma_args_count_preserved(s, args@, a->Call_args@);
        },
        cst::Expr::UnOp { body, .. } => {
            lemma_count_preserved(s, *body, *a->UnOp_body);
        },
        cst::Expr::BinOp { lhs, rhs, .. } => {
            lemma_count_preserved(s, *lhs, *a->BinOp_lhs);
            lemma_count_preserved(s, *rhs, *a->BinOp_rhs);
        },
        _ => {},
    }
}

proof fn lemma_elems_count_preserved(
    s: Seq<u8>,
    ces: Seq<Prefixed<cst::SeqElem>>,
    aes: Seq<ast::SeqElem>,
)
    requires
        elems_abstract_to(s, ces, aes),
    ensures
        ast_elems_count(aes) == cst_elems_count(ces),
    decreases ces,
{
    if ces.len() > 0 {
        lemma_seq_count_preserved(s, ces[0].inner, aes[0]);
        assert(elems_abstract_to(s, ces.drop_first(), aes.drop_first())) by {
            assert forall|i: int| 0 <= i < ces.drop_first().len() implies seq_abstracts_to(
                s,
                (#[trigger] ces.drop_first()[i]).inner,
                aes.drop_first()[i],
            ) by {
                assert(ces.drop_first()[i] == ces[i + 1]);
                assert(aes.drop_first()[i] == aes[i + 1]);
            }
        }
        lemma_elems_count_preserved(s, ces.drop_first(), aes.drop_first());
    }
}

proof fn lemma_args_count_preserved(
    s: Seq<u8>,
    ces: Seq<Prefixed<cst::Expr>>,
    aes: Seq<ast::Expr>,
)
    requires
        args_abstract_to(s, ces, aes),
    ensures
        ast_args_count(aes) == cst_args_count(ces),
    decreases ces,
{
    if ces.len() > 0 {
        lemma_count_preserved(s, ces[0].inner, aes[0]);
        assert(args_abstract_to(s, ces.drop_first(), aes.drop_first())) by {
            assert forall|i: int| 0 <= i < ces.drop_first().len() implies expr_abstracts_to(
                s,
                (#[trigger] ces.drop_first()[i]).inner,
                aes.drop_first()[i],
            ) by {
                assert(ces.drop_first()[i] == ces[i + 1]);
                assert(aes.drop_first()[i] == aes[i + 1]);
            }
        }
        lemma_args_count_preserved(s, ces.drop_first(), aes.drop_first());
    }
}

/// The fragments of a format string carry one literal for the opening text,
/// then one expression and one literal per hole; counting nodes, that is one
/// node for each literal fragment and the full tree of each hole expression.
proof fn lemma_holes_count_preserved(
    s: Seq<u8>,
    style: StringStyle,
    hs: Seq<FormatHole>,
    frags: Seq<ast::FormatFragment>,
    begin: Span,
)
    requires
        frags.len() == 2 * hs.len() + 1,
        frags[0].body is StringLit,
        forall|i: int|
            0 <= i < hs.len() ==> expr_abstracts_to(
                s,
                (#[trigger] hs[i]).body,
                frags[2 * i + 1].body,
            ) && frags[2 * i + 2].body is StringLit,
    ensures
        ast_frags_count(frags) == 1 + cst_holes_count(hs),
    decreases hs,
{
    if hs.len() == 0 {
        assert(frags.len() == 1);
        assert(ast_frags_count(frags.drop_first()) == 0) by {
            assert(frags.drop_first().len() == 0);
        }
        assert(ast_frags_count(frags) == ast_expr_count(frags[0].body) + ast_frags_count(
            frags.drop_first(),
        ));
        assert(ast_expr_count(frags[0].body) == 1);
    } else {
        // Peel the last hole's two fragments off the end.
        let shorter = frags.take(frags.len() - 2);
        let front = hs.drop_last();
        assert(shorter.len() == 2 * front.len() + 1);
        assert forall|i: int|
            0 <= i < front.len() implies expr_abstracts_to(
            s,
            (#[trigger] front[i]).body,
            shorter[2 * i + 1].body,
        ) && shorter[2 * i + 2].body is StringLit by {
            assert(front[i] == hs[i]);
            assert(shorter[2 * i + 1] == frags[2 * i + 1]);
            assert(shorter[2 * i + 2] == frags[2 * i + 2]);
        }
        lemma_holes_count_preserved(s, style, front, shorter, begin);
        let k = hs.len() - 1;
        assert(hs[k] == hs.last());
        lemma_count_preserved(s, hs[k].body, frags[2 * k + 1].body);
        lemma_frags_count_snoc2(shorter, frags, 2 * k + 1);
        lemma_holes_count_snoc(hs);
        assert(ast_expr_count(frags[2 * k + 2].body) == 1);
    }
}

/// Appending two fragments to a fragment list adds their bodies' counts.
proof fn lemma_frags_count_snoc2(shorter: Seq<ast::FormatFragment>, frags: Seq<ast::FormatFragment>, k: int)
    requires
        0 <= k,
        frags.len() == k + 2,
        shorter == frags.take(k),
    ensures
        ast_frags_count(frags) == ast_frags_count(shorter) + ast_expr_count(frags[k].body)
            + ast_expr_count(frags[k + 1].body),
    decreases frags.len(),
{
    if k == 0 {
        assert(ast_frags_count(frags.drop_first().drop_first()) == 0) by {
            assert(frags.drop_first().drop_first().len() == 0);
        }
        assert(frags.drop_first()[0] == frags[1]);
        assert(ast_frags_count(frags.drop_first()) == ast_expr_count(frags[1].body)
            + ast_frags_count(frags.drop_first().drop_first()));
        assert(ast_frags_count(frags) == ast_expr_count(frags[0].body) + ast_frags_count(
            frags.drop_first(),
        ));
        assert(ast_frags_count(shorter) == 0) by {
            assert(shorter.len() == 0);
        }
    } else {
        assert(shorter.drop_first() =~= frags.drop_first().take(k - 1));
        lemma_frags_count_snoc2(shorter.drop_first(), frags.drop_first(), k - 1);
        assert(shorter[0] == frags[0]);
        assert(frags.drop_first()[k - 1] == frags[k]);
        assert(frags.drop_first()[k] == frags[k + 1]);
    }
}

/// The count of a hole list is the count of its front plus its last hole.
proof fn lemma_holes_count_snoc(hs: Seq<FormatHole>)
    requires
        hs.len() >= 1,
    ensures
        cst_holes_count(hs) == cst_holes_count(hs.drop_last()) + 1 + cst_expr_count(
            hs.last().body,
        ),
    decreases hs.len(),
{
    if hs.len() == 1 {
        assert(cst_holes_count(hs.drop_first()) == 0);
        assert(cst_holes_count(hs.drop_last()) == 0) by {
            assert(hs.drop_last().len() == 0);
        }
    } else {
        lemma_holes_count_snoc(hs.drop_first());
        assert(hs.drop_first().drop_last() =~= hs.drop_last().drop_first());
        assert(hs.drop_first().last() == hs.last());
        assert(hs.drop_last()[0] == hs[0]);
    }
}

proof fn lemma_seq_count_preserved(s: Seq<u8>, c: cst::SeqElem, a: ast::SeqElem)
    requires
        seq_abstracts_to(s, c, a),
    ensures
        ast_seq_count(a) == cst_seq_count(c),
    decreases c,
{
    match c {
        cst::SeqElem::Elem { value, .. } => {
            lemma_count_preserved(s, *value, *a->Elem_value);
        },
        cst::SeqElem::AssocExpr { field, value, .. } => {
            lemma_count_preserved(s, *field, *a->Assoc_key);
            lemma_count_preserved(s, *value, *a->Assoc_value);
        },
        cst::SeqElem::AssocIdent { value, .. } => {
            lemma_count_preserved(s, *value, *a->Assoc_value);
            assert(ast_expr_count(*a->Assoc_key) == 1);
        },
        cst::SeqElem::Let { value, body, .. } => {
            lemma_count_preserved(s, *value, *a->Let_value);
            lemma_seq_count_preserved(s, body.inner, *a->Let_body);
        },
        cst::SeqElem::For { collection, body, .. } => {
            lemma_count_preserved(s, *collection, *a->For_collection);
            lemma_seq_count_preserved(s, body.inner, *a->For_body);
        },
        cst::SeqElem::If { condition, body, .. } => {
            lemma_count_preserved(s, *condition, *a->If_condition);
            lemma_seq_count_preserved(s, body.inner, *a->If_body);
        },
    }
}

/// Parenthesization contributes no AST node: a parenthesized expression
/// abstracts to exactly what its body abstracts to, and fails exactly when
/// its body fails.
pub proof fn lemma_parens_elision(s: Seq<u8>, c: cst::Expr, a: ast::Expr)
    requires
        c is Parens,
    ensures
        expr_abstracts_to(s, c, a) <==> expr_abstracts_to(s, c->Parens_body.inner, a),
        expr_fail_of(s, c) == expr_fail_of(s, c->Parens_body.inner),
{
}

/// A format template with `k` embedded expressions yields exactly `2k + 1`
/// fragments, strictly alternating: at every even position stands a literal
/// fragment, and at every odd position `2j + 1` stands the abstraction of
/// hole `j`'s expression.
pub proof fn lemma_format_alternation(s: Seq<u8>, c: cst::Expr, a: ast::Expr)
    requires
        c is FormatString,
        expr_abstracts_to(s, c, a),
    ensures
        a is Format,
        a->Format_0@.len() == 2 * c->FormatString_holes@.len() + 1,
        forall|i: int|
            0 <= i < a->Format_0@.len() && i % 2 == 0 ==> (#[trigger] a->Format_0@[i]).body
                is StringLit,
        forall|i: int|
            0 <= i < a->Format_0@.len() && i % 2 == 1 ==> expr_abstracts_to(
                s,
                c->FormatString_holes@[(i - 1) / 2].body,
                (#[trigger] a->Format_0@[i]).body,
            ),
{
    assert forall|i: int| 0 <= i < a->Format_0@.len() && i % 2 == 0 implies (
    #[trigger] a->Format_0@[i]).body is StringLit by {
        if i == 0 {
            assert((a->Format_0@[0]).body is StringLit);
        } else {
            let j = (i - 2) / 2;
            assert(i == 2 * j + 2);
            assert(0 <= j < c->FormatString_holes@.len());
            assert(expr_abstracts_to(
                s,
                c->FormatString_holes@[j].body,
                a->Format_0@[2 * j + 1].body,
            ) && (a->Format_0@[2 * j + 2]).body is StringLit);
        }
    }
    assert forall|i: int| 0 <= i < a->Format_0@.len() && i % 2 == 1 implies expr_abstracts_to(
        s,
        c->FormatString_holes@[(i - 1) / 2].body,
        (#[trigger] a->Format_0@[i]).body,
    ) by {
        let j = (i - 1) / 2;
        assert(i == 2 * j + 1);
        assert(0 <= j < c->FormatString_holes@.len());
        assert(expr_abstracts_to(
            s,
            c->FormatString_holes@[j].body,
            a->Format_0@[2 * j + 1].body,
        ));
    }
}

/// Both surface association forms abstract to the identical node: when the
/// string literal `key_span` unescapes to exactly the identifier's text,
/// `ident = value` and `"ident": value` admit the same abstractions.
pub proof fn lemma_assoc_forms_agree(
    s: Seq<u8>,
    op_span: Span,
    field: Span,
    style: StringStyle,
    key_span: Span,
    value: Box<cst::Expr>,
    a: ast::SeqElem,
)
    requires
        spec_unescape(lit_inner_text(s, style, key_span)) == Unescaped::Done(field.text(s)),
    ensures
        seq_abstracts_to(s, cst::SeqElem::AssocIdent { op_span, field, value }, a)
            <==> seq_abstracts_to(
            s,
            cst::SeqElem::AssocExpr {
                op_span,
                field: Box::new(cst::Expr::StringLit(style, key_span)),
                value,
            },
            a,
        ),
{
    let ghost lit = cst::Expr::StringLit(style, key_span);
    if seq_abstracts_to(s, cst::SeqElem::AssocIdent { op_span, field, value }, a) {
        assert(a matches ast::SeqElem::Assoc { key, .. } && *key matches ast::Expr::StringLit(
            k,
        ) && k@ == field.text(s));
        assert(expr_abstracts_to(
            s,
            *Box::new(lit),
            *a->Assoc_key,
        ));
        assert(seq_abstracts_to(
            s,
            cst::SeqElem::AssocExpr { op_span, field: Box::new(lit), value },
            a,
        ));
    }
    if seq_abstracts_to(s, cst::SeqElem::AssocExpr { op_span, field: Box::new(lit), value }, a) {
        assert(a matches ast::SeqElem::Assoc { key, .. } && expr_abstracts_to(s, lit, *key));
        assert(a matches ast::SeqElem::Assoc { key, .. } && *key matches ast::Expr::StringLit(
            k,
        ) && k@ == field.text(s));
        assert(seq_abstracts_to(s, cst::SeqElem::AssocIdent { op_span, field, value }, a));
    }
}

/// A `For` over identifiers laid out left to right in the source gets an
/// `idents_span` that runs exactly from the start of the first identifier to
/// the end of the last one.
pub proof fn lemma_for_idents_span(s: Seq<u8>, c: cst::SeqElem, a: ast::SeqElem)
    requires
        c is For,
        seq_abstracts_to(s, c, a),
        forall|i: int, j: int|
            0 <= i <= j < c->For_idents@.len() ==> (#[trigger] c->For_idents@[i]).start <= (
            #[trigger] c->For_idents@[j]).start && c->For_idents@[i].end <= c->For_idents@[j].end,
        c->For_idents@.len() >= 1,
    ensures
        a is For,
        a->For_idents_span.start == c->For_idents@[0].start,
        a->For_idents_span.end == c->For_idents@.last().end,
{
    lemma_spans_union_ordered(c->For_idents@);
}

/// The fold of pairwise unions over spans ordered left to right keeps the
/// first span's start and the last span's end.
proof fn lemma_spans_union_ordered(ss: Seq<Span>)
    requires
        ss.len() >= 1,
        forall|i: int, j: int|
            0 <= i <= j < ss.len() ==> (#[trigger] ss[i]).start <= (#[trigger] ss[j]).start
                && ss[i].end <= ss[j].end,
    ensures
        spans_union(ss).start == ss[0].start,
        spans_union(ss).end == ss.last().end,
    decreases ss.len(),
{
    if ss.len() > 1 {
        let front = ss.drop_last();
        assert forall|i: int, j: int| 0 <= i <= j < front.len() implies (
        #[trigger] front[i]).start <= (#[trigger] front[j]).start && front[i].end
            <= front[j].end by {
            assert(front[i] == ss[i]);
            assert(front[j] == ss[j]);
        }
        lemma_spans_union_ordered(front);
        assert(front[0] == ss[0]);
        assert(front.last() == ss[ss.len() - 2]);
    }
}

} // verus!
