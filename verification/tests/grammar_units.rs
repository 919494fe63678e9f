//! Unit tests over hand-built token sequences.

use iso_bmff_dsl::class::{parse_class, parse_extends, ExtendsArg};
use iso_bmff_dsl::decl::{
    parse_var_decl, resolve_scalar, ArraySpec, BaseKind, DefaultVal, NativeType, Signedness,
};
use iso_bmff_dsl::error::{Expected, ParseError, SizedBase};
use iso_bmff_dsl::expr::{parse_expr, BinOp, Expr};
use iso_bmff_dsl::stmt::{parse_stmt, Stmt};
use iso_bmff_dsl::token::{Delim, Span, Tok};

fn sp(line: u32, column: u32) -> Span {
    Span { line, column }
}

fn z() -> Span {
    sp(0, 0)
}

fn id(name: &str) -> Tok {
    Tok::Ident(name.to_string(), z())
}

fn num(v: u64) -> Tok {
    Tok::Int(v, z())
}

fn stri(s: &str) -> Tok {
    Tok::Str(s.to_string(), z())
}

fn punct(c: char) -> Tok {
    Tok::Punct(c, false, z())
}

fn paren(inner: Vec<Tok>) -> Tok {
    Tok::Group(Delim::Paren, inner, z())
}

fn bracket(inner: Vec<Tok>) -> Tok {
    Tok::Group(Delim::Bracket, inner, z())
}

fn brace(inner: Vec<Tok>) -> Tok {
    Tok::Group(Delim::Brace, inner, z())
}

fn var(name: &str) -> Expr {
    Expr::Variable(name.to_string(), z())
}

fn lit(v: u64) -> Expr {
    Expr::LitInt(v, z())
}

fn binary(l: Expr, op: BinOp, r: Expr) -> Expr {
    Expr::Binary { left: Box::new(l), op, op_span: z(), right: Box::new(r) }
}

// The width table, row by row, across every width in each listed range.
#[test]
fn width_table_int_signed() {
    for w in 1..=64u64 {
        let want = if w <= 8 {
            NativeType::I8
        } else if w <= 16 {
            NativeType::I16
        } else if w <= 32 {
            NativeType::I32
        } else {
            NativeType::I64
        };
        assert_eq!(resolve_scalar(SizedBase::IntBase, true, w, z()), Ok(want));
    }
}

#[test]
fn width_table_int_unsigned() {
    for w in 1..=64u64 {
        let want = if w <= 8 {
            NativeType::U8
        } else if w <= 16 {
            NativeType::U16
        } else if w <= 32 {
            NativeType::U32
        } else {
            NativeType::U64
        };
        assert_eq!(resolve_scalar(SizedBase::IntBase, false, w, z()), Ok(want));
    }
}

#[test]
fn width_table_bit() {
    for w in 1..=64u64 {
        let want = if w == 1 {
            NativeType::Bool
        } else if w == 24 {
            NativeType::Flags
        } else if w <= 8 {
            NativeType::U8
        } else if w <= 16 {
            NativeType::U16
        } else if w <= 32 {
            NativeType::U32
        } else {
            NativeType::U64
        };
        assert_eq!(resolve_scalar(SizedBase::BitBase, false, w, z()), Ok(want));
    }
}

#[test]
fn width_table_unsupported() {
    for &w in &[0u64, 65, 100, 9999, u64::MAX] {
        for &base in &[SizedBase::IntBase, SizedBase::BitBase] {
            for &signed in &[false, true] {
                assert_eq!(
                    resolve_scalar(base, signed, w, sp(3, 7)),
                    Err(ParseError::UnsupportedWidth { span: sp(3, 7), base, width: w })
                );
            }
        }
    }
}

#[test]
fn width_error_through_declaration() {
    // unsigned int(65) x
    let toks = vec![id("unsigned"), id("int"), paren(vec![num(65)]), id("x")];
    assert_eq!(
        parse_var_decl(&toks, 0),
        Err(ParseError::UnsupportedWidth {
            span: z(),
            base: SizedBase::IntBase,
            width: 65
        })
    );
}

// The right-associativity law on concrete tokens: a - b - c.
#[test]
fn right_associative_subtraction() {
    let toks = vec![id("a"), punct('-'), id("b"), punct('-'), id("c")];
    let got = parse_expr(&toks, 0).expect("parse");
    let want = binary(var("a"), BinOp::Sub, binary(var("b"), BinOp::Sub, var("c")));
    assert_eq!(got, (want, 5));
    // Not the left-associative grouping.
    let left = binary(binary(var("a"), BinOp::Sub, var("b")), BinOp::Sub, var("c"));
    assert_ne!(got.0, left);
}

#[test]
fn two_char_operators() {
    // a <= b, with the two characters marked adjacent.
    let toks = vec![
        id("a"),
        Tok::Punct('<', true, z()),
        Tok::Punct('=', false, z()),
        num(3),
    ];
    let got = parse_expr(&toks, 0).expect("parse");
    assert_eq!(got.0, binary(var("a"), BinOp::Le, lit(3)));
    // a < =  (not adjacent) is < followed by a failed atom.
    let toks = vec![id("a"), Tok::Punct('<', false, z()), Tok::Punct('=', false, z()), num(3)];
    assert!(matches!(parse_expr(&toks, 0), Err(ParseError::Syntax { expected: Expected::Atom, .. })));
}

// The round trip: serialize a tree, re-parse it, get the same tree.
#[test]
fn round_trip_literals_and_variables() {
    let cases = vec![
        lit(42),
        Expr::LitStr("mvhd".to_string(), sp(1, 2)),
        var("flags"),
        Expr::Paren(Box::new(var("x")), sp(9, 9)),
    ];
    for e in cases {
        let toks = e.to_tokens();
        let (back, used) = parse_expr(&toks, 0).expect("re-parse");
        assert_eq!(back, e);
        assert_eq!(used, toks.len());
    }
}

#[test]
fn round_trip_nested_binary() {
    // (a + 1) << (b * (c - 2)), spans varied to check they survive.
    let e = Expr::Binary {
        left: Box::new(Expr::Paren(
            Box::new(Expr::Binary {
                left: Box::new(Expr::Variable("a".to_string(), sp(1, 1))),
                op: BinOp::Add,
                op_span: sp(1, 3),
                right: Box::new(Expr::LitInt(1, sp(1, 5))),
            }),
            sp(1, 0),
        )),
        op: BinOp::Shl,
        op_span: sp(1, 8),
        right: Box::new(Expr::Paren(
            Box::new(Expr::Binary {
                left: Box::new(Expr::Variable("b".to_string(), sp(1, 12))),
                op: BinOp::Mul,
                op_span: sp(1, 14),
                right: Box::new(Expr::Paren(
                    Box::new(Expr::Binary {
                        left: Box::new(Expr::Variable("c".to_string(), sp(1, 17))),
                        op: BinOp::Sub,
                        op_span: sp(1, 19),
                        right: Box::new(Expr::LitInt(2, sp(1, 21))),
                    }),
                    sp(1, 16),
                )),
            }),
            sp(1, 11),
        )),
    };
    let toks = e.to_tokens();
    let (back, used) = parse_expr(&toks, 0).expect("re-parse");
    assert_eq!(back, e);
    assert_eq!(used, toks.len());
}

#[test]
fn round_trip_every_operator() {
    let ops = vec![
        BinOp::Add,
        BinOp::Sub,
        BinOp::Mul,
        BinOp::Div,
        BinOp::AndAnd,
        BinOp::OrOr,
        BinOp::Le,
        BinOp::Lt,
        BinOp::Ge,
        BinOp::Gt,
        BinOp::EqEq,
        BinOp::Ne,
        BinOp::Shl,
        BinOp::Shr,
    ];
    for op in ops {
        let e = binary(var("x"), op, lit(7));
        let toks = e.to_tokens();
        let (back, used) = parse_expr(&toks, 0).expect("re-parse");
        assert_eq!(back, e);
        assert_eq!(used, toks.len());
    }
}

// Literal-only positions reject every other expression shape.
#[test]
fn parenthesized_width_is_type_error() {
    // unsigned int((8)) x
    let toks = vec![
        id("unsigned"),
        id("int"),
        paren(vec![paren(vec![num(8)])]),
        id("x"),
    ];
    assert!(matches!(parse_var_decl(&toks, 0), Err(ParseError::NotLiteral { .. })));
}

#[test]
fn get_lit_int_shapes() {
    assert_eq!(lit(12).get_lit_int(), Ok(12));
    assert!(matches!(var("x").get_lit_int(), Err(ParseError::NotLiteral { .. })));
    let wrapped = Expr::Paren(Box::new(lit(12)), z());
    assert!(matches!(wrapped.get_lit_int(), Err(ParseError::NotLiteral { .. })));
}

// The bounded-loop laws.
fn for_toks(second_var: &str, cmp: char, incr: Vec<Tok>) -> Vec<Tok> {
    let mut hdr = vec![id("i"), punct('='), num(0), punct(';')];
    hdr.push(id(second_var));
    hdr.push(punct(cmp));
    hdr.push(num(10));
    hdr.push(punct(';'));
    hdr.extend(incr);
    vec![id("for"), paren(hdr), brace(vec![])]
}

#[test]
fn for_loop_variable_must_repeat() {
    // for (i=0; j<10; i++) { }
    let toks = for_toks("j", '<', vec![id("i"), punct('+'), punct('+')]);
    match parse_stmt(&toks, 0) {
        Err(ParseError::Syntax { expected: Expected::LoopVar(v), .. }) => {
            assert_eq!(v, "i");
        }
        other => panic!("expected a loop-variable error, got {:?}", other),
    }
}

#[test]
fn for_loop_well_formed() {
    // for (i=0; i<10; i++) { }
    let toks = for_toks("i", '<', vec![id("i"), punct('+'), punct('+')]);
    match parse_stmt(&toks, 0) {
        Ok((Stmt::For(f), used)) => {
            assert_eq!(f.var, "i");
            assert_eq!(f.start, 0);
            assert_eq!(f.cmp, Some(BinOp::Lt));
            assert_eq!(f.end, Some(lit(10)));
            assert!(f.body.is_empty());
            assert_eq!(used, 3);
        }
        other => panic!("expected a loop, got {:?}", other),
    }
}

#[test]
fn for_loop_increment_must_be_plus_plus() {
    // for (i=0; i<10; i--) { }
    let toks = for_toks("i", '<', vec![id("i"), punct('-'), punct('-')]);
    assert!(matches!(
        parse_stmt(&toks, 0),
        Err(ParseError::Syntax { expected: Expected::PlusPlus, .. })
    ));
}

#[test]
fn for_loop_comparison_restricted() {
    // for (i=0; i>10; i++) { }
    let toks = for_toks("i", '>', vec![id("i"), punct('+'), punct('+')]);
    assert!(matches!(parse_stmt(&toks, 0), Err(ParseError::UnsupportedOperator { .. })));
}

#[test]
fn for_loop_empty_middle() {
    // for (i=0; ; i++) { }
    let hdr = vec![
        id("i"),
        punct('='),
        num(0),
        punct(';'),
        punct(';'),
        id("i"),
        punct('+'),
        punct('+'),
    ];
    let toks = vec![id("for"), paren(hdr), brace(vec![])];
    match parse_stmt(&toks, 0) {
        Ok((Stmt::For(f), _)) => {
            assert_eq!(f.cmp, None);
            assert_eq!(f.end, None);
        }
        other => panic!("expected a loop, got {:?}", other),
    }
}

// The annotation clause and its application.
#[test]
fn annotation_application() {
    // unsigned int(8)[16] usertype = extended_type; # optional; rust_type: Uuid
    let toks = vec![
        id("unsigned"),
        id("int"),
        paren(vec![num(8)]),
        bracket(vec![num(16)]),
        id("usertype"),
        punct('='),
        id("extended_type"),
        punct(';'),
        punct('#'),
        id("optional"),
        punct(';'),
        id("rust_type"),
        punct(':'),
        id("Uuid"),
    ];
    match parse_stmt(&toks, 0) {
        Ok((Stmt::Decl(d), used)) => {
            assert!(d.optional);
            assert_eq!(d.rust_type, Some(NativeType::Named("Uuid".to_string())));
            assert_eq!(d.kind, BaseKind::IntKind(Signedness::Unsigned));
            assert_eq!(d.size, 8);
            assert_eq!(d.array, Some(ArraySpec::Sized(lit(16))));
            assert_eq!(d.name, Some("usertype".to_string()));
            assert_eq!(d.default, DefaultVal::Value(var("extended_type")));
            assert_eq!(d.iso_type(), "optional unsigned int");
            assert_eq!(used, toks.len());
        }
        other => panic!("expected a declaration, got {:?}", other),
    }
}

#[test]
fn annotation_no_duplicate_optional_prefix() {
    // A class-typed field whose type name already contains "optional".
    let toks = vec![
        id("optionalBox"),
        id("x"),
        punct(';'),
        punct('#'),
        id("optional"),
    ];
    match parse_stmt(&toks, 0) {
        Ok((Stmt::Decl(d), _)) => {
            assert!(d.optional);
            assert_eq!(d.iso_type(), "optionalBox");
        }
        other => panic!("expected a declaration, got {:?}", other),
    }
}

#[test]
fn annotation_bad_clause() {
    let toks = vec![id("bit"), paren(vec![num(2)]), id("x"), punct(';'), punct('#'), id("wat")];
    assert!(matches!(
        parse_stmt(&toks, 0),
        Err(ParseError::Syntax { expected: Expected::AnnotationClause, .. })
    ));
}

// Extends-argument classification.
#[test]
fn extends_argument_classification() {
    // extends FullBox("mvhd", version, 0)
    let toks = vec![
        id("extends"),
        id("FullBox"),
        paren(vec![
            stri("mvhd"),
            punct(','),
            id("version"),
            punct(','),
            num(0),
        ]),
    ];
    let (e, used) = parse_extends(&toks, 0).expect("parse");
    assert_eq!(e.class, "FullBox");
    assert_eq!(used, 3);
    assert_eq!(
        e.args,
        vec![
            ExtendsArg { varname: None, value: Some(Expr::LitStr("mvhd".to_string(), z())) },
            ExtendsArg { varname: Some("version".to_string()), value: None },
            ExtendsArg { varname: None, value: Some(lit(0)) },
        ]
    );
}

#[test]
fn extends_named_value_argument() {
    // extends FullBox("pdin", version = 0, 0)
    let toks = vec![
        id("extends"),
        id("FullBox"),
        paren(vec![
            stri("pdin"),
            punct(','),
            id("version"),
            punct('='),
            num(0),
            punct(','),
            num(0),
        ]),
    ];
    let (e, _) = parse_extends(&toks, 0).expect("parse");
    assert_eq!(e.args[1].varname, Some("version".to_string()));
    assert_eq!(e.args[1].value, Some(lit(0)));
}

#[test]
fn extends_rejects_binary_value() {
    // extends Box(a + b)
    let toks = vec![
        id("extends"),
        id("Box"),
        paren(vec![id("a"), punct('+'), id("b")]),
    ];
    assert!(matches!(parse_extends(&toks, 0), Err(ParseError::NotLiteral { .. })));
}

// The empty-bracket sentinel.
#[test]
fn empty_bracket_sentinel() {
    // unsigned int(32) compatible_brands[];
    let toks = vec![
        id("unsigned"),
        id("int"),
        paren(vec![num(32)]),
        id("compatible_brands"),
        bracket(vec![]),
    ];
    let (d, used) = parse_var_decl(&toks, 0).expect("parse");
    assert_eq!(d.array, Some(ArraySpec::ToEnd(z())));
    assert_ne!(d.array, Some(ArraySpec::Sized(lit(0))));
    assert_eq!(used, toks.len());
}

#[test]
fn second_array_position_overrides() {
    // unsigned int(8)[16] name[4];  — the later suffix wins.
    let toks = vec![
        id("unsigned"),
        id("int"),
        paren(vec![num(8)]),
        bracket(vec![num(16)]),
        id("name"),
        bracket(vec![num(4)]),
    ];
    let (d, _) = parse_var_decl(&toks, 0).expect("parse");
    assert_eq!(d.array, Some(ArraySpec::Sized(lit(4))));
}

// Modifier and base-type rules.
#[test]
fn signed_must_precede_int() {
    let toks = vec![id("signed"), id("bit"), paren(vec![num(2)]), id("x")];
    assert!(matches!(
        parse_var_decl(&toks, 0),
        Err(ParseError::Syntax { expected: Expected::IntKw, .. })
    ));
}

#[test]
fn uint_resolves_to_no_native_type() {
    let toks = vec![id("uint"), paren(vec![num(8)]), id("x")];
    assert!(matches!(
        parse_var_decl(&toks, 0),
        Err(ParseError::Syntax { expected: Expected::BaseType, .. })
    ));
}

#[test]
fn bare_int_resolves_unsigned() {
    // template int(32) rate = 3
    let toks = vec![id("template"), id("int"), paren(vec![num(32)]), id("rate")];
    let (d, _) = parse_var_decl(&toks, 0).expect("parse");
    assert!(d.template);
    assert_eq!(d.kind, BaseKind::IntKind(Signedness::Unspecified));
    assert_eq!(d.rust_type, Some(NativeType::U32));
    assert_eq!(d.iso_type(), "template int");
}

#[test]
fn const_modifier_in_iso_type() {
    let toks = vec![id("const"), id("bit"), paren(vec![num(16)]), id("reserved")];
    let (d, _) = parse_var_decl(&toks, 0).expect("parse");
    assert!(d.is_const);
    assert_eq!(d.iso_type(), "const bit");
    assert_eq!(d.rust_type, Some(NativeType::U16));
}

#[test]
fn class_typed_field_with_constructor_args() {
    // DataEntryBox(entry_version, entry_flags) data_entry;
    let toks = vec![
        id("DataEntryBox"),
        paren(vec![id("entry_version"), punct(','), id("entry_flags")]),
        id("data_entry"),
    ];
    let (d, _) = parse_var_decl(&toks, 0).expect("parse");
    assert_eq!(d.kind, BaseKind::RefKind("DataEntryBox".to_string()));
    assert_eq!(d.rust_type, Some(NativeType::Named("DataEntryBox".to_string())));
    assert_eq!(d.size, 0);
    assert_eq!(d.name, Some("data_entry".to_string()));
}

#[test]
fn anonymous_class_statement() {
    // ChannelLayout();  — no field name; the `;` stays for the caller.
    let toks = vec![id("ChannelLayout"), paren(vec![]), punct(';')];
    let (d, used) = parse_var_decl(&toks, 0).expect("parse");
    assert_eq!(d.name, None);
    assert_eq!(d.rust_type, None);
    assert_eq!(used, 2);
}

#[test]
fn missing_class_keyword() {
    let toks = vec![id("Foo"), brace(vec![])];
    assert!(matches!(
        parse_class(&toks),
        Err(ParseError::Syntax { expected: Expected::ClassKw, .. })
    ));
}

#[test]
fn trailing_tokens_after_class() {
    let toks = vec![id("class"), id("A"), brace(vec![]), id("junk")];
    assert!(matches!(
        parse_class(&toks),
        Err(ParseError::Syntax { expected: Expected::End, .. })
    ));
}

#[test]
fn statement_dispatch_rejects_stray_punctuation() {
    let toks = vec![id("class"), id("A"), brace(vec![punct('+')])];
    assert!(matches!(
        parse_class(&toks),
        Err(ParseError::Syntax { expected: Expected::Stmt, .. })
    ));
}

#[test]
fn aligned_rejects_non_literal() {
    // aligned((8)) class A { }
    let toks = vec![
        id("aligned"),
        paren(vec![paren(vec![num(8)])]),
        id("class"),
        id("A"),
        brace(vec![]),
    ];
    assert!(matches!(parse_class(&toks), Err(ParseError::NotLiteral { .. })));
}

#[test]
fn annotation_requires_colon() {
    let toks = vec![
        id("bit"),
        paren(vec![num(2)]),
        id("x"),
        punct(';'),
        punct('#'),
        id("rust_type"),
        id("Uuid"),
    ];
    assert!(matches!(
        parse_stmt(&toks, 0),
        Err(ParseError::Syntax { expected: Expected::Colon, .. })
    ));
}

#[test]
fn extends_literal_before_equals_is_fatal() {
    // extends Box(1 = 2)
    let toks = vec![
        id("extends"),
        id("Box"),
        paren(vec![num(1), punct('='), num(2)]),
    ];
    assert!(parse_extends(&toks, 0).is_err());
}

#[test]
fn signed_int_declaration() {
    let toks = vec![id("signed"), id("int"), paren(vec![num(16)]), id("v")];
    let (d, _) = parse_var_decl(&toks, 0).expect("parse");
    assert_eq!(d.kind, BaseKind::IntKind(Signedness::Signed));
    assert_eq!(d.rust_type, Some(NativeType::I16));
    assert_eq!(d.iso_type(), "signed int");
}

#[test]
fn reparse_of_parsed_expression() {
    // Whatever the parser produced serializes and re-parses to itself.
    let toks = vec![
        id("a"),
        punct('+'),
        id("b"),
        punct('*'),
        paren(vec![id("c"), punct('-'), num(2)]),
    ];
    let (e, used) = parse_expr(&toks, 0).expect("parse");
    assert_eq!(used, toks.len());
    let again = e.to_tokens();
    let (back, used2) = parse_expr(&again, 0).expect("re-parse");
    assert_eq!(back, e);
    assert_eq!(used2, again.len());
}

#[test]
fn extends_empty_argument_list() {
    let toks = vec![id("extends"), id("Box"), paren(vec![])];
    let (e, _) = parse_extends(&toks, 0).expect("parse");
    assert!(e.args.is_empty());
}

#[test]
fn header_args_tolerate_trailing_comma() {
    let toks = vec![
        id("class"),
        id("A"),
        paren(vec![
            id("unsigned"),
            id("int"),
            paren(vec![num(8)]),
            id("x"),
            punct(','),
        ]),
        brace(vec![]),
    ];
    let c = parse_class(&toks).expect("parse");
    assert_eq!(c.head.args.len(), 1);
    assert_eq!(c.head.args[0].name, Some("x".to_string()));
}

#[test]
fn condition_keeps_right_recursive_chain() {
    // if (flags && version == 1) { bit(8) b; }
    let cond = vec![
        id("flags"),
        Tok::Punct('&', true, z()),
        Tok::Punct('&', false, z()),
        id("version"),
        Tok::Punct('=', true, z()),
        Tok::Punct('=', false, z()),
        num(1),
    ];
    let body = vec![id("bit"), paren(vec![num(8)]), id("b"), punct(';')];
    let toks = vec![id("if"), paren(cond), brace(body)];
    match parse_stmt(&toks, 0) {
        Ok((Stmt::If(chain), _)) => {
            let want = binary(
                var("flags"),
                BinOp::AndAnd,
                binary(var("version"), BinOp::EqEq, lit(1)),
            );
            assert_eq!(chain.cond, want);
        }
        other => panic!("expected a conditional, got {:?}", other),
    }
}
