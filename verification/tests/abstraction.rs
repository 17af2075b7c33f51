use rcl_front::abstraction::{abstract_expr, Abstractor};
use rcl_front::ast;
use rcl_front::cst;
use rcl_front::cst::{FormatHole, Prefixed, StringStyle};
use rcl_front::source::Span;

fn sp(start: usize, end: usize) -> Span {
    Span { start, end }
}

fn prefixed<T>(inner: T) -> Prefixed<T> {
    Prefixed {
        prefix: vec![],
        inner,
    }
}

#[test]
fn integer_literals_parse_per_radix() {
    // 0x1_0 -> 16, 0b101 -> 5, 42 -> 42.
    let r = abstract_expr("0x1_0", &prefixed(cst::Expr::NumHexadecimal(sp(0, 5)))).unwrap();
    assert_eq!(r, ast::Expr::IntegerLit(16));

    let r = abstract_expr("0b101", &prefixed(cst::Expr::NumBinary(sp(0, 5)))).unwrap();
    assert_eq!(r, ast::Expr::IntegerLit(5));

    let r = abstract_expr("42", &prefixed(cst::Expr::NumDecimal(sp(0, 2)))).unwrap();
    assert_eq!(r, ast::Expr::IntegerLit(42));

    // Underscores are separators; hex digits may be either case.
    let r = abstract_expr("4_2", &prefixed(cst::Expr::NumDecimal(sp(0, 3)))).unwrap();
    assert_eq!(r, ast::Expr::IntegerLit(42));
    let r = abstract_expr("0xfF", &prefixed(cst::Expr::NumHexadecimal(sp(0, 4)))).unwrap();
    assert_eq!(r, ast::Expr::IntegerLit(255));
}

#[test]
fn integer_literal_overflow_yields_placeholder() {
    // A magnitude beyond the 64-bit range abstracts to the documented
    // placeholder instead of failing: 0 for hex/binary, 42 for decimal.
    let input = "0x10000000000000000";
    let r = abstract_expr(
        input,
        &prefixed(cst::Expr::NumHexadecimal(sp(0, input.len()))),
    )
    .unwrap();
    assert_eq!(r, ast::Expr::IntegerLit(0));

    let input = "99999999999999999999";
    let r = abstract_expr(input, &prefixed(cst::Expr::NumDecimal(sp(0, input.len())))).unwrap();
    assert_eq!(r, ast::Expr::IntegerLit(42));

    // A non-integer decimal literal degrades to the placeholder too.
    let r = abstract_expr("1.5", &prefixed(cst::Expr::NumDecimal(sp(0, 3)))).unwrap();
    assert_eq!(r, ast::Expr::IntegerLit(42));

    // A hex literal without digits degrades to its placeholder.
    let r = abstract_expr("0x", &prefixed(cst::Expr::NumHexadecimal(sp(0, 2)))).unwrap();
    assert_eq!(r, ast::Expr::IntegerLit(0));
}

#[test]
fn assoc_ident_and_assoc_expr_agree() {
    // `{a = 1}` and `{"a": 1}` abstract to the same association:
    // key StringLit("a"), value IntegerLit(1).
    let input1 = "{a = 1}";
    let cst1 = cst::SeqElem::AssocIdent {
        op_span: sp(3, 4),
        field: sp(1, 2),
        value: Box::new(cst::Expr::NumDecimal(sp(5, 6))),
    };
    let r1 = Abstractor::new(input1).seq(&cst1).unwrap();

    let input2 = "{\"a\": 1}";
    let cst2 = cst::SeqElem::AssocExpr {
        op_span: sp(4, 5),
        field: Box::new(cst::Expr::StringLit(StringStyle::Double, sp(1, 4))),
        value: Box::new(cst::Expr::NumDecimal(sp(6, 7))),
    };
    let r2 = Abstractor::new(input2).seq(&cst2).unwrap();

    match (r1, r2) {
        (
            ast::SeqElem::Assoc {
                key: k1, value: v1, ..
            },
            ast::SeqElem::Assoc {
                key: k2, value: v2, ..
            },
        ) => {
            assert_eq!(k1, k2);
            assert_eq!(v1, v2);
            assert_eq!(*k1, ast::Expr::StringLit(b"a".to_vec()));
            assert_eq!(*v1, ast::Expr::IntegerLit(1));
        }
        other => panic!("expected two associations, got {:?}", other),
    }
}

#[test]
fn format_string_fragments_alternate() {
    // Zero holes: one literal fragment.
    let input = "f\"hi\"";
    let c = cst::Expr::FormatString {
        style: StringStyle::Double,
        begin: sp(0, 5),
        holes: vec![],
    };
    let r = abstract_expr(input, &prefixed(c)).unwrap();
    match r {
        ast::Expr::Format(frags) => {
            assert_eq!(frags.len(), 1);
            assert_eq!(frags[0].span, sp(0, 5));
            assert_eq!(frags[0].body, ast::Expr::StringLit(b"hi".to_vec()));
        }
        other => panic!("expected a format string, got {:?}", other),
    }

    // One hole: literal, expression, literal.
    let input = "f\"a{x}b\"";
    let c = cst::Expr::FormatString {
        style: StringStyle::Double,
        begin: sp(0, 4),
        holes: vec![FormatHole {
            span: sp(4, 5),
            body: cst::Expr::Var(sp(4, 5)),
            suffix: sp(5, 8),
        }],
    };
    let r = abstract_expr(input, &prefixed(c)).unwrap();
    match r {
        ast::Expr::Format(frags) => {
            assert_eq!(frags.len(), 3);
            assert_eq!(frags[0].body, ast::Expr::StringLit(b"a".to_vec()));
            assert_eq!(
                frags[1].body,
                ast::Expr::Var {
                    span: sp(4, 5),
                    ident: b"x".to_vec()
                }
            );
            assert_eq!(frags[2].body, ast::Expr::StringLit(b"b".to_vec()));
        }
        other => panic!("expected a format string, got {:?}", other),
    }

    // Two holes: five fragments, strictly alternating.
    let input = "f\"a{x}b{y}c\"";
    let c = cst::Expr::FormatString {
        style: StringStyle::Double,
        begin: sp(0, 4),
        holes: vec![
            FormatHole {
                span: sp(4, 5),
                body: cst::Expr::Var(sp(4, 5)),
                suffix: sp(5, 8),
            },
            FormatHole {
                span: sp(8, 9),
                body: cst::Expr::Var(sp(8, 9)),
                suffix: sp(9, 12),
            },
        ],
    };
    let r = abstract_expr(input, &prefixed(c)).unwrap();
    match r {
        ast::Expr::Format(frags) => {
            assert_eq!(frags.len(), 5);
            assert_eq!(frags[0].body, ast::Expr::StringLit(b"a".to_vec()));
            assert!(matches!(frags[1].body, ast::Expr::Var { .. }));
            assert_eq!(frags[2].body, ast::Expr::StringLit(b"b".to_vec()));
            assert!(matches!(frags[3].body, ast::Expr::Var { .. }));
            assert_eq!(frags[4].body, ast::Expr::StringLit(b"c".to_vec()));
        }
        other => panic!("expected a format string, got {:?}", other),
    }
}

#[test]
fn triple_quoted_string_trims_three_bytes() {
    let input = "\"\"\"hi\"\"\"";
    let c = cst::Expr::StringLit(StringStyle::Triple, sp(0, 8));
    let r = abstract_expr(input, &prefixed(c)).unwrap();
    assert_eq!(r, ast::Expr::StringLit(b"hi".to_vec()));
}

#[test]
fn invalid_escape_fails_with_exact_span() {
    // The literal "a\q": the escape `\q` occupies bytes 2..4 of the document.
    let input = "\"a\\q\"";
    let c = cst::Expr::StringLit(StringStyle::Double, sp(0, 5));
    let e = abstract_expr(input, &prefixed(c)).unwrap_err();
    assert_eq!(e.span, Some(sp(2, 4)));
    assert_eq!(e.message, "Invalid escape sequence.");

    // An unescaped control character fails at its own byte.
    let input = "\"a\nb\"";
    let c = cst::Expr::StringLit(StringStyle::Double, sp(0, 5));
    let e = abstract_expr(input, &prefixed(c)).unwrap_err();
    assert_eq!(e.span, Some(sp(2, 3)));
    assert_eq!(e.message, "Control characters must be escaped.");
}

#[test]
fn truncated_escape_fails_at_backslash() {
    // A backslash right before the closing quote: the escape is cut short.
    let input = "\"a\\\"";
    let c = cst::Expr::StringLit(StringStyle::Double, sp(0, 4));
    let e = abstract_expr(input, &prefixed(c)).unwrap_err();
    assert_eq!(e.span, Some(sp(2, 3)));
    assert_eq!(e.message, "Unexpected end of string after escape character.");
}

#[test]
fn first_escape_error_wins() {
    // Two broken string literals inside one bracket literal: the error
    // points at the first one, and no partial tree comes back.
    let input = "[\"\\q\" \"\\p\"]";
    let c = cst::Expr::BracketLit {
        open: sp(0, 1),
        elements: vec![
            prefixed(cst::SeqElem::Elem {
                span: sp(1, 5),
                value: Box::new(cst::Expr::StringLit(StringStyle::Double, sp(1, 5))),
            }),
            prefixed(cst::SeqElem::Elem {
                span: sp(6, 10),
                value: Box::new(cst::Expr::StringLit(StringStyle::Double, sp(6, 10))),
            }),
        ],
    };
    let e = abstract_expr(input, &prefixed(c)).unwrap_err();
    assert_eq!(e.span, Some(sp(2, 4)));
}

#[test]
fn unescape_resolves_escape_sequences() {
    let input = "\"a\\nb\\t\\\\\\\"\"";
    let a = Abstractor::new(input);
    let r = a.unescape(sp(1, input.len() - 1)).unwrap();
    assert_eq!(r, b"a\nb\t\\\"".to_vec());
}

#[test]
fn parens_contribute_no_node() {
    // `(1 + 2)` and `1 + 2` abstract to the identical BinOp node.
    let input = "(1 + 2)";
    let bare = cst::Expr::BinOp {
        op: ast::BinOp::Add,
        op_span: sp(3, 4),
        lhs: Box::new(cst::Expr::NumDecimal(sp(1, 2))),
        rhs: Box::new(cst::Expr::NumDecimal(sp(5, 6))),
    };
    let wrapped = cst::Expr::Parens {
        open: sp(0, 1),
        body: Box::new(prefixed(cst::Expr::BinOp {
            op: ast::BinOp::Add,
            op_span: sp(3, 4),
            lhs: Box::new(cst::Expr::NumDecimal(sp(1, 2))),
            rhs: Box::new(cst::Expr::NumDecimal(sp(5, 6))),
        })),
    };
    let r1 = abstract_expr(input, &prefixed(bare)).unwrap();
    let r2 = abstract_expr(input, &prefixed(wrapped)).unwrap();
    assert_eq!(r1, r2);
    assert_eq!(
        r1,
        ast::Expr::BinOp {
            op: ast::BinOp::Add,
            op_span: sp(3, 4),
            lhs: Box::new(ast::Expr::IntegerLit(1)),
            rhs: Box::new(ast::Expr::IntegerLit(2)),
        }
    );
}

#[test]
fn for_idents_span_covers_all_idents() {
    // `for a, b in xs: e` -- idents_span runs from the start of `a` to the
    // end of `b`.
    let input = "for a, b in xs: e";
    let c = cst::SeqElem::For {
        idents: vec![sp(4, 5), sp(7, 8)],
        collection_span: sp(12, 14),
        collection: Box::new(cst::Expr::Var(sp(12, 14))),
        body: Box::new(prefixed(cst::SeqElem::Elem {
            span: sp(16, 17),
            value: Box::new(cst::Expr::Var(sp(16, 17))),
        })),
    };
    let r = Abstractor::new(input).seq(&c).unwrap();
    match r {
        ast::SeqElem::For {
            idents_span,
            idents,
            collection_span,
            collection,
            ..
        } => {
            assert_eq!(idents_span, sp(4, 8));
            assert_eq!(idents, vec![b"a".to_vec(), b"b".to_vec()]);
            assert_eq!(collection_span, sp(12, 14));
            assert_eq!(
                *collection,
                ast::Expr::Var {
                    span: sp(12, 14),
                    ident: b"xs".to_vec()
                }
            );
        }
        other => panic!("expected a for element, got {:?}", other),
    }
}

#[test]
fn structural_nodes_abstract_in_place() {
    // A string-free tree abstracts successfully and keeps its shape: a let
    // binding whose body calls a function on a field access.
    let input = "let y = f(x.a); not y";
    let c = cst::Expr::Let {
        ident: sp(4, 5),
        value: Box::new(cst::Expr::Call {
            open: sp(9, 10),
            function_span: sp(8, 9),
            function: Box::new(cst::Expr::Var(sp(8, 9))),
            args: vec![prefixed(cst::Expr::Field {
                inner: Box::new(cst::Expr::Var(sp(10, 11))),
                field: sp(12, 13),
            })],
        }),
        body: Box::new(prefixed(cst::Expr::UnOp {
            op: ast::UnOp::Not,
            op_span: sp(16, 19),
            body: Box::new(cst::Expr::Var(sp(20, 21))),
        })),
    };
    let r = abstract_expr(input, &prefixed(c)).unwrap();
    assert_eq!(
        r,
        ast::Expr::Let {
            ident: b"y".to_vec(),
            value: Box::new(ast::Expr::Call {
                open: sp(9, 10),
                function_span: sp(8, 9),
                function: Box::new(ast::Expr::Var {
                    span: sp(8, 9),
                    ident: b"f".to_vec()
                }),
                args: vec![ast::Expr::Field {
                    inner: Box::new(ast::Expr::Var {
                        span: sp(10, 11),
                        ident: b"x".to_vec()
                    }),
                    field: b"a".to_vec(),
                    field_span: sp(12, 13),
                }],
            }),
            body: Box::new(ast::Expr::UnOp {
                op: ast::UnOp::Not,
                op_span: sp(16, 19),
                body: Box::new(ast::Expr::Var {
                    span: sp(20, 21),
                    ident: b"y".to_vec()
                }),
            }),
        }
    );
}

#[test]
fn null_bool_and_if_abstract() {
    let input = "if c: null else true";
    let c = cst::Expr::IfThenElse {
        condition_span: sp(3, 4),
        condition: Box::new(cst::Expr::Var(sp(3, 4))),
        then_body: Box::new(prefixed(cst::Expr::NullLit(sp(6, 10)))),
        else_body: Box::new(prefixed(cst::Expr::BoolLit(sp(16, 20), true))),
    };
    let r = abstract_expr(input, &prefixed(c)).unwrap();
    assert_eq!(
        r,
        ast::Expr::IfThenElse {
            condition_span: sp(3, 4),
            condition: Box::new(ast::Expr::Var {
                span: sp(3, 4),
                ident: b"c".to_vec()
            }),
            body_then: Box::new(ast::Expr::NullLit),
            body_else: Box::new(ast::Expr::BoolLit(true)),
        }
    );
}

#[test]
fn error_report_renders_message() {
    let e = rcl_front::error::Error::new("boom");
    assert_eq!(e.report(), "Error: boom\n");
}
