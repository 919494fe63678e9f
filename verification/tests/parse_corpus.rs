//! Whole-definition tests: class texts from the ISO-BMFF corpus are
//! tokenized with proc-macro2 and fed to the parser.

use iso_bmff_dsl::class::{collect_warnings, parse_class, Class};
use iso_bmff_dsl::decl::{ArraySpec, BaseKind, DefaultVal, NativeType, Signedness};
use iso_bmff_dsl::error::Warning;
use iso_bmff_dsl::expr::{BinOp, Expr};
use iso_bmff_dsl::stmt::Stmt;
use iso_bmff_dsl::token::{Delim, Span, Tok};
use proc_macro2::{Delimiter, Spacing, TokenStream, TokenTree};

fn z() -> Span {
    Span { line: 0, column: 0 }
}

fn convert_stream(ts: TokenStream) -> Vec<Tok> {
    let mut out = Vec::new();
    for tt in ts {
        match tt {
            TokenTree::Ident(i) => out.push(Tok::Ident(i.to_string(), z())),
            TokenTree::Literal(l) => {
                let lit: syn::Lit = syn::parse_str(&l.to_string()).expect("literal");
                match lit {
                    syn::Lit::Int(v) => {
                        out.push(Tok::Int(v.base10_parse::<u64>().expect("int value"), z()))
                    }
                    syn::Lit::Str(s) => out.push(Tok::Str(s.value(), z())),
                    _ => panic!("unsupported literal in test input"),
                }
            }
            TokenTree::Punct(p) => {
                out.push(Tok::Punct(p.as_char(), p.spacing() == Spacing::Joint, z()))
            }
            TokenTree::Group(g) => {
                let d = match g.delimiter() {
                    Delimiter::Parenthesis => Delim::Paren,
                    Delimiter::Bracket => Delim::Bracket,
                    Delimiter::Brace => Delim::Brace,
                    Delimiter::None => panic!("unexpected transparent group"),
                };
                out.push(Tok::Group(d, convert_stream(g.stream()), z()));
            }
        }
    }
    out
}

fn toks(src: &str) -> Vec<Tok> {
    convert_stream(src.parse::<TokenStream>().expect("tokenize"))
}

fn parse(src: &str) -> Class {
    parse_class(&toks(src)).expect("parse")
}

#[test]
fn box_class_full() {
    let c = parse(
        r#"
        aligned(8) class Box (unsigned int(32) boxtype = bla, unsigned int(8)[16] extended_type) {
            unsigned int(32) size;
            unsigned int(32) type = boxtype;        # rust_type: FourCC
            if (size==1) {
                unsigned int(64) largesize;
            } else if (size==0) {
                unsigned int(16) loopy;
            } else if (size == "henk") {
                signed int(64) henkie;
            } else {
                signed int(8) keessie;
            }
            if (boxtype=="uuid") {
                unsigned int(8)[16] usertype = extended_type;   # optional; rust_type: Uuid
            }
        }
        "#,
    );
    assert_eq!(c.head.aligned, Some(8));
    assert!(!c.head.is_abstract);
    assert_eq!(c.head.name, "Box");
    assert_eq!(c.head.args.len(), 2);
    assert_eq!(c.head.args[0].name, Some("boxtype".to_string()));
    assert_eq!(
        c.head.args[0].default,
        DefaultVal::Value(Expr::Variable("bla".to_string(), z()))
    );
    assert_eq!(c.head.args[1].array, Some(ArraySpec::Sized(Expr::LitInt(16, z()))));
    assert!(c.head.extends.is_none());
    assert_eq!(c.body.statements.len(), 4);
    match &c.body.statements[1] {
        Stmt::Decl(d) => {
            assert_eq!(d.name, Some("type".to_string()));
            assert_eq!(d.rust_type, Some(NativeType::Named("FourCC".to_string())));
            assert!(!d.optional);
        }
        other => panic!("expected a declaration, got {:?}", other),
    }
    match &c.body.statements[2] {
        Stmt::If(chain) => {
            assert_eq!(
                chain.cond,
                Expr::Binary {
                    left: Box::new(Expr::Variable("size".to_string(), z())),
                    op: BinOp::EqEq,
                    op_span: z(),
                    right: Box::new(Expr::LitInt(1, z())),
                }
            );
            assert_eq!(chain.elifs.len(), 2);
            assert_eq!(chain.then_body.len(), 1);
            assert_eq!(chain.else_body.len(), 1);
            match &chain.elifs[1].cond {
                Expr::Binary { right, .. } => {
                    assert_eq!(**right, Expr::LitStr("henk".to_string(), z()));
                }
                other => panic!("expected a comparison, got {:?}", other),
            }
        }
        other => panic!("expected a conditional, got {:?}", other),
    }
    match &c.body.statements[3] {
        Stmt::If(chain) => {
            assert!(chain.elifs.is_empty());
            assert!(chain.else_body.is_empty());
            match &chain.then_body[0] {
                Stmt::Decl(d) => {
                    assert!(d.optional);
                    assert_eq!(d.rust_type, Some(NativeType::Named("Uuid".to_string())));
                    assert_eq!(d.iso_type(), "optional unsigned int");
                }
                other => panic!("expected a declaration, got {:?}", other),
            }
        }
        other => panic!("expected a conditional, got {:?}", other),
    }
    assert!(collect_warnings(&c).is_empty());
}

#[test]
fn full_box_with_bit_fields() {
    let c = parse(
        r#"
        aligned(8) class FullBox(unsigned int(32) boxtype, unsigned int(8) v, bit(24) f)
                extends Box(boxtype) {
            unsigned int(8) version = v;
            bit(24) flags = f;
        }
        "#,
    );
    let ext = c.head.extends.as_ref().expect("extends");
    assert_eq!(ext.class, "Box");
    assert_eq!(ext.args.len(), 1);
    assert_eq!(ext.args[0].varname, Some("boxtype".to_string()));
    assert_eq!(ext.args[0].value, None);
    assert_eq!(c.head.args[2].kind, BaseKind::BitKind);
    assert_eq!(c.head.args[2].rust_type, Some(NativeType::Flags));
    match &c.body.statements[1] {
        Stmt::Decl(d) => {
            assert_eq!(d.size, 24);
            assert_eq!(d.rust_type, Some(NativeType::Flags));
        }
        other => panic!("expected a declaration, got {:?}", other),
    }
}

#[test]
fn file_type_box_sentinel_array() {
    let c = parse(
        r#"
        aligned(8) class FileTypeBox extends Box("ftyp") {
            unsigned int(32) major_brand;
            unsigned int(32) minor_version;
            unsigned int(32) compatible_brands[];
        }
        "#,
    );
    let ext = c.head.extends.as_ref().expect("extends");
    assert_eq!(ext.args[0].value, Some(Expr::LitStr("ftyp".to_string(), z())));
    match &c.body.statements[2] {
        Stmt::Decl(d) => assert_eq!(d.array, Some(ArraySpec::ToEnd(z()))),
        other => panic!("expected a declaration, got {:?}", other),
    }
}

#[test]
fn progressive_download_unbounded_loop() {
    let c = parse(
        r#"
        aligned(8) class ProgressiveDownloadInfoBox
              extends FullBox("pdin", version = 0, 0) {
            for (i=0; ; i++) {
                unsigned int(32) rate;
                unsigned int(32) initial_delay;
            }
        }
        "#,
    );
    let ext = c.head.extends.as_ref().expect("extends");
    assert_eq!(ext.args.len(), 3);
    assert_eq!(ext.args[1].varname, Some("version".to_string()));
    assert_eq!(ext.args[1].value, Some(Expr::LitInt(0, z())));
    match &c.body.statements[0] {
        Stmt::For(f) => {
            assert_eq!(f.var, "i");
            assert_eq!(f.start, 0);
            assert_eq!(f.cmp, None);
            assert_eq!(f.end, None);
            assert_eq!(f.body.len(), 2);
        }
        other => panic!("expected a loop, got {:?}", other),
    }
}

#[test]
fn movie_header_with_skipped_matrix_default() {
    let c = parse(
        r#"
        aligned(8) class MovieHeaderBox extends FullBox("mvhd", version, 0) {
            if (version==1) {
                unsigned int(64) creation_time;
                unsigned int(64) modification_time;
                unsigned int(32) timescale;
                unsigned int(64) duration;
            } else {
                unsigned int(32) creation_time;
                unsigned int(32) modification_time;
                unsigned int(32) timescale;
                unsigned int(32) duration;
            }
            template int(32) rate = 0x00010000;
            template int(16) volume = 0x0100;
            const bit(16) reserved = 0;
            const unsigned int(32)[2] reserved = 0;
            template int(32)[9] matrix = { 0x00010000,0,0,0,0x00010000,0,0,0,0x40000000 };
            bit(32)[6] pre_defined = 0;
            unsigned int(32) next_track_ID;
        }
        "#,
    );
    // Hex literals arrive as plain values.
    match &c.body.statements[1] {
        Stmt::Decl(d) => {
            assert_eq!(d.default, DefaultVal::Value(Expr::LitInt(0x00010000, z())));
            assert_eq!(d.kind, BaseKind::IntKind(Signedness::Unspecified));
        }
        other => panic!("expected a declaration, got {:?}", other),
    }
    // The matrix default is a brace block: skipped, with one warning.
    match &c.body.statements[5] {
        Stmt::Decl(d) => {
            assert_eq!(d.name, Some("matrix".to_string()));
            assert_eq!(d.default, DefaultVal::Skipped(z()));
            assert_eq!(d.array, Some(ArraySpec::Sized(Expr::LitInt(9, z()))));
        }
        other => panic!("expected a declaration, got {:?}", other),
    }
    assert_eq!(collect_warnings(&c), vec![Warning::DefaultIgnored(z())]);
}

#[test]
fn bookkeeping_declarations_are_discarded() {
    let c = parse(
        r#"
        class TrackRunBox {
            int i, j;
            unsigned int(32) sample_count;
        }
        "#,
    );
    assert_eq!(c.body.statements.len(), 1);
    match &c.body.statements[0] {
        Stmt::Decl(d) => assert_eq!(d.name, Some("sample_count".to_string())),
        other => panic!("expected a declaration, got {:?}", other),
    }
}

#[test]
fn abstract_class_header() {
    let c = parse(
        r#"
        abstract class SampleEntry (unsigned int(32) format)
                extends Box(format) {
            const unsigned int(8)[6] reserved = 0;
            unsigned int(16) data_reference_index;
        }
        "#,
    );
    assert!(c.head.is_abstract);
    assert_eq!(c.head.aligned, None);
    assert_eq!(c.head.name, "SampleEntry");
}

#[test]
fn nested_conditionals_and_arithmetic_arrays() {
    let c = parse(
        r#"
        aligned(8) class CompactSampleSizeBox extends FullBox("stz2", 0, 0) {
            unsigned int(24) reserved = 0;
            unsigned int(8) field_size;
            unsigned int(32) sample_count;
            for (i=0; i < sample_count + 1; i++) {
                unsigned int(16) entry_size;
                if (field_size == 4) {
                    bit(4) reserved;
                }
            }
        }
        "#,
    );
    match &c.body.statements[3] {
        Stmt::For(f) => {
            // The bound keeps the right-recursive expression shape.
            assert_eq!(
                f.end,
                Some(Expr::Binary {
                    left: Box::new(Expr::Variable("sample_count".to_string(), z())),
                    op: BinOp::Add,
                    op_span: z(),
                    right: Box::new(Expr::LitInt(1, z())),
                })
            );
            match &f.body[1] {
                Stmt::If(chain) => {
                    assert_eq!(chain.then_body.len(), 1);
                }
                other => panic!("expected a conditional, got {:?}", other),
            }
        }
        other => panic!("expected a loop, got {:?}", other),
    }
}

#[test]
fn anonymous_embedded_class_statement() {
    let c = parse(
        r#"
        class AudioSampleEntryV1 (unsigned int(32) format) {
            ChannelLayout();
        }
        "#,
    );
    match &c.body.statements[0] {
        Stmt::Decl(d) => {
            assert_eq!(d.name, None);
            assert_eq!(d.kind, BaseKind::RefKind("ChannelLayout".to_string()));
        }
        other => panic!("expected a declaration, got {:?}", other),
    }
}
