//! The class grammar and driver: the header (alignment, abstractness,
//! name, constructor parameters, inheritance clause), the body, and the
//! single entry point that turns one class definition's token sequence
//! into a [`Class`] — or the first error.

use vstd::prelude::*;
use crate::decl::{parse_var_decl, spec_parse_var_decl, DefaultVal, VarDecl};
use crate::error::{Expected, ParseError, Warning};
use crate::expr::{end_span, parse_expr, spec_end_span, spec_parse_expr, Expr};
use crate::stmt::{
    at_span, parse_stmts, spec_at_span, spec_parse_stmts, stmts_view, IfArm, Stmt, StmtM,
};
use crate::token::{
    is_ident_text, is_punct, lemma_group_size, lemma_suffix_size_all, lemma_suffix_size_mono,
    lemma_suffix_size_step, lemma_tok_size_pos, suffix_size, tok_is_ident, tok_is_punct, Delim,
    Span, Tok,
};

verus! {

/// One argument of an `extends` clause.  A bare literal has only a
/// value; a bare identifier has only a name, meaning "forward the
/// identically-named parameter"; `name = value` has both.
#[derive(Debug, PartialEq)]
pub struct ExtendsArg {
    pub varname: Option<String>,
    pub value: Option<Expr>,
}

/// The inheritance clause: base class name and arguments.
#[derive(Debug, PartialEq)]
pub struct Extends {
    pub class: String,
    pub args: Vec<ExtendsArg>,
}

/// The header of a class definition.
#[derive(Debug, PartialEq)]
pub struct ClassHeader {
    /// The byte alignment of `aligned(n)`, if written.
    pub aligned: Option<u64>,
    pub is_abstract: bool,
    pub name: String,
    /// The constructor parameters.
    pub args: Vec<VarDecl>,
    pub extends: Option<Extends>,
}

/// The body: the statements between the braces, in layout order.
#[derive(Debug, PartialEq)]
pub struct ClassBody {
    pub statements: Vec<Stmt>,
}

/// One whole class definition.
#[derive(Debug, PartialEq)]
pub struct Class {
    pub head: ClassHeader,
    pub body: ClassBody,
}

/// The mathematical shape of an inheritance clause.
pub struct ExtendsM {
    pub class: String,
    pub args: Seq<ExtendsArg>,
}

/// The mathematical shape of a class header.
pub struct ClassHeaderM {
    pub aligned: Option<u64>,
    pub is_abstract: bool,
    pub name: String,
    pub args: Seq<VarDecl>,
    pub extends: Option<ExtendsM>,
}

/// The mathematical shape of a class definition.
pub struct ClassM {
    pub head: ClassHeaderM,
    pub body: Seq<StmtM>,
}

/// The shape of an inheritance clause.
pub open spec fn extends_view(e: Extends) -> ExtendsM {
    ExtendsM { class: e.class, args: e.args@ }
}

/// The shape of a class header.
pub open spec fn header_view(h: ClassHeader) -> ClassHeaderM {
    ClassHeaderM {
        aligned: h.aligned,
        is_abstract: h.is_abstract,
        name: h.name,
        args: h.args@,
        extends: match h.extends {
            Some(e) => Some(extends_view(e)),
            None => None,
        },
    }
}

/// The shape of a class definition.
pub open spec fn class_view(c: Class) -> ClassM {
    ClassM { head: header_view(c.head), body: stmts_view(c.body.statements@) }
}

/// The `aligned(n)` prefix: a parenthesized group holding one whole
/// expression that must be a bare integer literal.
pub open spec fn spec_parse_aligned(s: Seq<Tok>, p: int) -> Result<(u64, int), ParseError> {
    if p + 1 < s.len() && (match s[p + 1] {
        Tok::Group(Delim::Paren, _, _) => true,
        _ => false,
    }) {
        match s[p + 1] {
            Tok::Group(Delim::Paren, inner, gsp) => match spec_parse_expr(inner@, 0) {
                Ok((e, q)) => if q == inner@.len() {
                    match e.spec_get_lit_int() {
                        Ok(v) => Ok((v, p + 2)),
                        Err(err) => Err(err),
                    }
                } else {
                    Err(
                        ParseError::Syntax {
                            span: if 0 <= q < inner@.len() {
                                inner@[q].spec_span()
                            } else {
                                gsp
                            },
                            expected: Expected::End,
                        },
                    )
                },
                Err(e) => Err(e),
            },
            _ => Err(
                ParseError::Syntax { span: spec_end_span(s), expected: Expected::ParenGroup },
            ),
        }
    } else {
        Err(
            ParseError::Syntax {
                span: spec_at_span(s, p + 1, spec_end_span(s)),
                expected: Expected::ParenGroup,
            },
        )
    }
}

fn parse_aligned(toks: &Vec<Tok>, pos: usize) -> (r: Result<(u64, usize), ParseError>)
    requires
        pos <= toks@.len(),
    ensures
        (match r {
            Ok((v, np)) => spec_parse_aligned(toks@, pos as int) == Ok::<_, ParseError>(
                (v, np as int),
            ) && pos < np <= toks@.len(),
            Err(e) => spec_parse_aligned(toks@, pos as int) == Err::<(u64, int), _>(e),
        }),
{
    if pos >= toks.len() || pos + 1 >= toks.len() {
        return Err(
            ParseError::Syntax { span: end_span(toks), expected: Expected::ParenGroup },
        );
    }
    match &toks[pos + 1] {
        Tok::Group(Delim::Paren, inner, gsp) => match parse_expr(inner, 0) {
            Ok((e, q)) => if q == inner.len() {
                match e.get_lit_int() {
                    Ok(v) => Ok((v, pos + 2)),
                    Err(err) => Err(err),
                }
            } else {
                Err(
                    ParseError::Syntax {
                        span: if q < inner.len() {
                            inner[q].span()
                        } else {
                            *gsp
                        },
                        expected: Expected::End,
                    },
                )
            },
            Err(e) => Err(e),
        },
        t => Err(ParseError::Syntax { span: t.span(), expected: Expected::ParenGroup }),
    }
}

/// One argument of an `extends` clause.  A bare literal is positional;
/// a bare identifier forwards the parameter of that name; an identifier
/// with `=` takes a literal or identifier as its value; every other
/// shape — a parenthesized or binary expression in a value position —
/// is the type error of the language.
pub open spec fn spec_parse_extends_arg(s: Seq<Tok>, p: int) -> Result<
    (ExtendsArg, int),
    ParseError,
> {
    match spec_parse_expr(s, p) {
        Ok((e, q)) => match e {
            Expr::LitInt(_, _) => Ok((ExtendsArg { varname: None, value: Some(e) }, q)),
            Expr::LitStr(_, _) => Ok((ExtendsArg { varname: None, value: Some(e) }, q)),
            Expr::Variable(n, _) => if q < s.len() && is_punct(s[q], '=') {
                match spec_parse_expr(s, q + 1) {
                    Ok((e2, q2)) => match e2 {
                        Expr::LitInt(_, _) => Ok(
                            (ExtendsArg { varname: Some(n), value: Some(e2) }, q2),
                        ),
                        Expr::LitStr(_, _) => Ok(
                            (ExtendsArg { varname: Some(n), value: Some(e2) }, q2),
                        ),
                        Expr::Variable(_, _) => Ok(
                            (ExtendsArg { varname: Some(n), value: Some(e2) }, q2),
                        ),
                        _ => Err(ParseError::NotLiteral { span: e2.spec_span() }),
                    },
                    Err(err) => Err(err),
                }
            } else {
                Ok((ExtendsArg { varname: Some(n), value: None }, q))
            },
            _ => Err(ParseError::NotLiteral { span: e.spec_span() }),
        },
        Err(e) => Err(e),
    }
}

fn parse_extends_arg(toks: &Vec<Tok>, pos: usize) -> (r: Result<(ExtendsArg, usize), ParseError>)
    requires
        pos <= toks@.len(),
    ensures
        (match r {
            Ok((a, np)) => spec_parse_extends_arg(toks@, pos as int) == Ok::<_, ParseError>(
                (a, np as int),
            ) && pos < np <= toks@.len(),
            Err(e) => spec_parse_extends_arg(toks@, pos as int) == Err::<(ExtendsArg, int), _>(e),
        }),
{
    let (e, q) = match parse_expr(toks, pos) {
        Ok(x) => x,
        Err(e) => {
            return Err(e);
        },
    };
    match e {
        Expr::LitInt(_, _) => Ok((ExtendsArg { varname: None, value: Some(e) }, q)),
        Expr::LitStr(_, _) => Ok((ExtendsArg { varname: None, value: Some(e) }, q)),
        Expr::Variable(n, nsp) => {
            if q < toks.len() && tok_is_punct(&toks[q], '=') {
                let (e2, q2) = match parse_expr(toks, q + 1) {
                    Ok(x) => x,
                    Err(err) => {
                        return Err(err);
                    },
                };
                match &e2 {
                    Expr::LitInt(_, _) => Ok(
                        (ExtendsArg { varname: Some(n), value: Some(e2) }, q2),
                    ),
                    Expr::LitStr(_, _) => Ok(
                        (ExtendsArg { varname: Some(n), value: Some(e2) }, q2),
                    ),
                    Expr::Variable(_, _) => Ok(
                        (ExtendsArg { varname: Some(n), value: Some(e2) }, q2),
                    ),
                    _ => Err(ParseError::NotLiteral { span: e2.span() }),
                }
            } else {
                Ok((ExtendsArg { varname: Some(n), value: None }, q))
            }
        },
        _ => Err(ParseError::NotLiteral { span: e.span() }),
    }
}

/// The comma-separated argument list of an `extends` clause, filling
/// its whole group; empty and trailing-comma lists are accepted.
pub open spec fn spec_parse_extends_args(s: Seq<Tok>, p: int) -> Result<
    (Seq<ExtendsArg>, int),
    ParseError,
>
    decreases suffix_size(s, p),
{
    if !(0 <= p < s.len()) {
        Ok((Seq::empty(), p))
    } else {
        match spec_parse_extends_arg(s, p) {
            Ok((a, q)) => if q < s.len() {
                if is_punct(s[q], ',') {
                    if p < q + 1 <= s.len() {
                        proof {
                            lemma_suffix_size_mono(s, p, q + 1);
                        }
                        match spec_parse_extends_args(s, q + 1) {
                            Ok((rest, q2)) => Ok((seq![a] + rest, q2)),
                            Err(e) => Err(e),
                        }
                    } else {
                        // Unreachable: an argument always moves forward.
                        Err(
                            ParseError::Syntax {
                                span: spec_end_span(s),
                                expected: Expected::Comma,
                            },
                        )
                    }
                } else {
                    Err(
                        ParseError::Syntax { span: s[q].spec_span(), expected: Expected::Comma },
                    )
                }
            } else {
                Ok((seq![a], q))
            },
            Err(e) => Err(e),
        }
    }
}

fn parse_extends_args(toks: &Vec<Tok>, pos: usize) -> (r: Result<
    (Vec<ExtendsArg>, usize),
    ParseError,
>)
    requires
        pos <= toks@.len(),
    ensures
        (match r {
            Ok((v, np)) => spec_parse_extends_args(toks@, pos as int) == Ok::<_, ParseError>(
                (v@, np as int),
            ) && pos <= np <= toks@.len(),
            Err(e) => spec_parse_extends_args(toks@, pos as int) == Err::<
                (Seq<ExtendsArg>, int),
                _,
            >(e),
        }),
    decreases suffix_size(toks@, pos as int),
{
    if pos >= toks.len() {
        let v: Vec<ExtendsArg> = Vec::new();
        return Ok((v, pos));
    }
    let (a, q) = match parse_extends_arg(toks, pos) {
        Ok(x) => x,
        Err(e) => {
            return Err(e);
        },
    };
    if q < toks.len() {
        if tok_is_punct(&toks[q], ',') {
            proof {
                lemma_suffix_size_mono(toks@, pos as int, q + 1);
            }
            let (rest, q2) = match parse_extends_args(toks, q + 1) {
                Ok(x) => x,
                Err(e) => {
                    return Err(e);
                },
            };
            let ghost grest = rest@;
            let ghost ga = a;
            let mut v = rest;
            v.insert(0, a);
            proof {
                assert(v@ =~= seq![ga] + grest);
            }
            Ok((v, q2))
        } else {
            Err(
                ParseError::Syntax { span: toks[q].span(), expected: Expected::Comma },
            )
        }
    } else {
        let mut v: Vec<ExtendsArg> = Vec::new();
        let ghost ga = a;
        v.push(a);
        proof {
            assert(v@ =~= seq![ga]);
        }
        Ok((v, q))
    }
}

/// The inheritance clause: `extends`, the base class name, and the
/// parenthesized argument list.
pub open spec fn spec_parse_extends(s: Seq<Tok>, p: int) -> Result<(ExtendsM, int), ParseError> {
    if !(0 <= p < s.len() && is_ident_text(s[p], "extends"@)) {
        Err(
            ParseError::Syntax {
                span: spec_at_span(s, p, spec_end_span(s)),
                expected: Expected::Stmt,
            },
        )
    } else if !(p + 1 < s.len() && s[p + 1] is Ident) {
        Err(
            ParseError::Syntax {
                span: spec_at_span(s, p + 1, spec_end_span(s)),
                expected: Expected::Name,
            },
        )
    } else if !(p + 2 < s.len() && (match s[p + 2] {
        Tok::Group(Delim::Paren, _, _) => true,
        _ => false,
    })) {
        Err(
            ParseError::Syntax {
                span: spec_at_span(s, p + 2, spec_end_span(s)),
                expected: Expected::ParenGroup,
            },
        )
    } else {
        match s[p + 2] {
            Tok::Group(Delim::Paren, inner, _) => match spec_parse_extends_args(inner@, 0) {
                Ok((args, _)) => Ok((ExtendsM { class: s[p + 1]->Ident_0, args }, p + 3)),
                Err(e) => Err(e),
            },
            _ => Err(
                ParseError::Syntax { span: spec_end_span(s), expected: Expected::ParenGroup },
            ),
        }
    }
}

/// Parse an inheritance clause beginning at its `extends`.
pub fn parse_extends(toks: &Vec<Tok>, pos: usize) -> (r: Result<(Extends, usize), ParseError>)
    requires
        pos <= toks@.len(),
    ensures
        (match r {
            Ok((e, np)) => spec_parse_extends(toks@, pos as int) == Ok::<_, ParseError>(
                (extends_view(e), np as int),
            ) && pos < np <= toks@.len(),
            Err(e) => spec_parse_extends(toks@, pos as int) == Err::<(ExtendsM, int), _>(e),
        }),
{
    if !(pos < toks.len() && tok_is_ident(&toks[pos], "extends")) {
        return Err(
            ParseError::Syntax {
                span: at_span(toks, pos, end_span(toks)),
                expected: Expected::Stmt,
            },
        );
    }
    if pos + 1 >= toks.len() {
        return Err(
            ParseError::Syntax {
                span: at_span(toks, pos + 1, end_span(toks)),
                expected: Expected::Name,
            },
        );
    }
    let class: String = match &toks[pos + 1] {
        Tok::Ident(n, _) => n.clone(),
        t => {
            return Err(ParseError::Syntax { span: t.span(), expected: Expected::Name });
        },
    };
    if pos + 2 >= toks.len() {
        return Err(
            ParseError::Syntax {
                span: at_span(toks, pos + 2, end_span(toks)),
                expected: Expected::ParenGroup,
            },
        );
    }
    match &toks[pos + 2] {
        Tok::Group(Delim::Paren, inner, _) => match parse_extends_args(inner, 0) {
            Ok((args, _)) => Ok((Extends { class, args }, pos + 3)),
            Err(e) => Err(e),
        },
        t => Err(ParseError::Syntax { span: t.span(), expected: Expected::ParenGroup }),
    }
}

/// The comma-separated constructor-parameter list of a class header,
/// filling its whole group; empty and trailing-comma lists are
/// accepted.
pub open spec fn spec_parse_header_args(s: Seq<Tok>, p: int) -> Result<
    (Seq<VarDecl>, int),
    ParseError,
>
    decreases suffix_size(s, p),
{
    if !(0 <= p < s.len()) {
        Ok((Seq::empty(), p))
    } else {
        match spec_parse_var_decl(s, p) {
            Ok((d, q)) => if q < s.len() {
                if is_punct(s[q], ',') {
                    if p < q + 1 <= s.len() {
                        proof {
                            lemma_suffix_size_mono(s, p, q + 1);
                        }
                        match spec_parse_header_args(s, q + 1) {
                            Ok((rest, q2)) => Ok((seq![d] + rest, q2)),
                            Err(e) => Err(e),
                        }
                    } else {
                        // Unreachable: a declaration always moves forward.
                        Err(
                            ParseError::Syntax {
                                span: spec_end_span(s),
                                expected: Expected::Comma,
                            },
                        )
                    }
                } else {
                    Err(
                        ParseError::Syntax { span: s[q].spec_span(), expected: Expected::Comma },
                    )
                }
            } else {
                Ok((seq![d], q))
            },
            Err(e) => Err(e),
        }
    }
}

fn parse_header_args(toks: &Vec<Tok>, pos: usize) -> (r: Result<(Vec<VarDecl>, usize), ParseError>)
    requires
        pos <= toks@.len(),
    ensures
        (match r {
            Ok((v, np)) => spec_parse_header_args(toks@, pos as int) == Ok::<_, ParseError>(
                (v@, np as int),
            ) && pos <= np <= toks@.len(),
            Err(e) => spec_parse_header_args(toks@, pos as int) == Err::<(Seq<VarDecl>, int), _>(
                e,
            ),
        }),
    decreases suffix_size(toks@, pos as int),
{
    if pos >= toks.len() {
        let v: Vec<VarDecl> = Vec::new();
        return Ok((v, pos));
    }
    let (d, q) = match parse_var_decl(toks, pos) {
        Ok(x) => x,
        Err(e) => {
            return Err(e);
        },
    };
    if q < toks.len() {
        if tok_is_punct(&toks[q], ',') {
            proof {
                lemma_suffix_size_mono(toks@, pos as int, q + 1);
            }
            let (rest, q2) = match parse_header_args(toks, q + 1) {
                Ok(x) => x,
                Err(e) => {
                    return Err(e);
                },
            };
            let ghost grest = rest@;
            let ghost gd = d;
            let mut v = rest;
            v.insert(0, d);
            proof {
                assert(v@ =~= seq![gd] + grest);
            }
            Ok((v, q2))
        } else {
            Err(
                ParseError::Syntax { span: toks[q].span(), expected: Expected::Comma },
            )
        }
    } else {
        let mut v: Vec<VarDecl> = Vec::new();
        let ghost gd = d;
        v.push(d);
        proof {
            assert(v@ =~= seq![gd]);
        }
        Ok((v, q))
    }
}

/// The class header: optional `aligned(n)`, optional `abstract`, the
/// mandatory `class` keyword and name, an optional constructor
/// parameter list, and an optional inheritance clause.
pub open spec fn spec_parse_class_header(s: Seq<Tok>, p: int) -> Result<
    (ClassHeaderM, int),
    ParseError,
> {
    let al: Result<(Option<u64>, int), ParseError> = if 0 <= p < s.len() && is_ident_text(
        s[p],
        "aligned"@,
    ) {
        match spec_parse_aligned(s, p) {
            Ok((v, q)) => Ok((Some(v), q)),
            Err(e) => Err(e),
        }
    } else {
        Ok((None, p))
    };
    match al {
        Ok((aligned, p2)) => {
            let is_abstract = p2 < s.len() && is_ident_text(s[p2], "abstract"@);
            let p3: int = if is_abstract {
                p2 + 1
            } else {
                p2
            };
            if !(p3 < s.len() && is_ident_text(s[p3], "class"@)) {
                Err(
                    ParseError::Syntax {
                        span: spec_at_span(s, p3, spec_end_span(s)),
                        expected: Expected::ClassKw,
                    },
                )
            } else if !(p3 + 1 < s.len() && s[p3 + 1] is Ident) {
                Err(
                    ParseError::Syntax {
                        span: spec_at_span(s, p3 + 1, spec_end_span(s)),
                        expected: Expected::Name,
                    },
                )
            } else {
                let name = s[p3 + 1]->Ident_0;
                let args_r: Result<(Seq<VarDecl>, int), ParseError> = if p3 + 2 < s.len() && (
                match s[p3 + 2] {
                    Tok::Group(Delim::Paren, _, _) => true,
                    _ => false,
                }) {
                    match s[p3 + 2] {
                        Tok::Group(Delim::Paren, inner, _) => match spec_parse_header_args(
                            inner@,
                            0,
                        ) {
                            Ok((args, _)) => Ok((args, p3 + 3)),
                            Err(e) => Err(e),
                        },
                        _ => Ok((Seq::empty(), p3 + 2)),
                    }
                } else {
                    Ok((Seq::empty(), p3 + 2))
                };
                match args_r {
                    Ok((args, p4)) => if p4 < s.len() && is_ident_text(s[p4], "extends"@) {
                        match spec_parse_extends(s, p4) {
                            Ok((ext, p5)) => Ok(
                                (
                                    ClassHeaderM {
                                        aligned,
                                        is_abstract,
                                        name,
                                        args,
                                        extends: Some(ext),
                                    },
                                    p5,
                                ),
                            ),
                            Err(e) => Err(e),
                        }
                    } else {
                        Ok(
                            (
                                ClassHeaderM { aligned, is_abstract, name, args, extends: None },
                                p4,
                            ),
                        )
                    },
                    Err(e) => Err(e),
                }
            }
        },
        Err(e) => Err(e),
    }
}

/// Parse a class header.
pub fn parse_class_header(toks: &Vec<Tok>, pos: usize) -> (r: Result<
    (ClassHeader, usize),
    ParseError,
>)
    requires
        pos <= toks@.len(),
    ensures
        (match r {
            Ok((h, np)) => spec_parse_class_header(toks@, pos as int) == Ok::<_, ParseError>(
                (header_view(h), np as int),
            ) && pos <= np <= toks@.len(),
            Err(e) => spec_parse_class_header(toks@, pos as int) == Err::<(ClassHeaderM, int), _>(
                e,
            ),
        }),
{
    let (aligned, p2): (Option<u64>, usize) = if pos < toks.len() && tok_is_ident(
        &toks[pos],
        "aligned",
    ) {
        match parse_aligned(toks, pos) {
            Ok((v, q)) => (Some(v), q),
            Err(e) => {
                return Err(e);
            },
        }
    } else {
        (None, pos)
    };
    let is_abstract = p2 < toks.len() && tok_is_ident(&toks[p2], "abstract");
    let p3: usize = if is_abstract {
        p2 + 1
    } else {
        p2
    };
    if !(p3 < toks.len() && tok_is_ident(&toks[p3], "class")) {
        return Err(
            ParseError::Syntax {
                span: at_span(toks, p3, end_span(toks)),
                expected: Expected::ClassKw,
            },
        );
    }
    if p3 + 1 >= toks.len() {
        return Err(
            ParseError::Syntax {
                span: at_span(toks, p3 + 1, end_span(toks)),
                expected: Expected::Name,
            },
        );
    }
    let name: String = match &toks[p3 + 1] {
        Tok::Ident(n, _) => n.clone(),
        t => {
            return Err(ParseError::Syntax { span: t.span(), expected: Expected::Name });
        },
    };
    let mut args: Vec<VarDecl> = Vec::new();
    let mut p4: usize = p3 + 2;
    if p3 + 2 < toks.len() {
        let got = match &toks[p3 + 2] {
            Tok::Group(Delim::Paren, inner, _) => {
                match parse_header_args(inner, 0) {
                    Ok((a, _)) => Some(a),
                    Err(e) => {
                        return Err(e);
                    },
                }
            },
            _ => None,
        };
        match got {
            Some(a) => {
                args = a;
                p4 = p3 + 3;
            },
            None => {},
        }
    }
    if p4 < toks.len() && tok_is_ident(&toks[p4], "extends") {
        match parse_extends(toks, p4) {
            Ok((ext, p5)) => Ok(
                (
                    ClassHeader { aligned, is_abstract, name, args, extends: Some(ext) },
                    p5,
                ),
            ),
            Err(e) => Err(e),
        }
    } else {
        Ok((ClassHeader { aligned, is_abstract, name, args, extends: None }, p4))
    }
}

/// The class body: one brace-delimited group of statements.
pub open spec fn spec_parse_class_body(s: Seq<Tok>, p: int) -> Result<
    (Seq<StmtM>, int),
    ParseError,
> {
    if 0 <= p < s.len() && (match s[p] {
        Tok::Group(Delim::Brace, _, _) => true,
        _ => false,
    }) {
        match s[p] {
            Tok::Group(Delim::Brace, inner, _) => match spec_parse_stmts(inner@, 0) {
                Ok((body, _)) => Ok((body, p + 1)),
                Err(e) => Err(e),
            },
            _ => Err(
                ParseError::Syntax { span: spec_end_span(s), expected: Expected::BraceGroup },
            ),
        }
    } else {
        Err(
            ParseError::Syntax {
                span: spec_at_span(s, p, spec_end_span(s)),
                expected: Expected::BraceGroup,
            },
        )
    }
}

/// Parse a class body.
pub fn parse_class_body(toks: &Vec<Tok>, pos: usize) -> (r: Result<(ClassBody, usize), ParseError>)
    requires
        pos <= toks@.len(),
    ensures
        (match r {
            Ok((b, np)) => spec_parse_class_body(toks@, pos as int) == Ok::<_, ParseError>(
                (stmts_view(b.statements@), np as int),
            ) && pos < np <= toks@.len(),
            Err(e) => spec_parse_class_body(toks@, pos as int) == Err::<(Seq<StmtM>, int), _>(e),
        }),
{
    if pos >= toks.len() {
        return Err(
            ParseError::Syntax {
                span: at_span(toks, pos, end_span(toks)),
                expected: Expected::BraceGroup,
            },
        );
    }
    match &toks[pos] {
        Tok::Group(Delim::Brace, inner, _) => match parse_stmts(inner, 0) {
            Ok((statements, _)) => Ok((ClassBody { statements }, pos + 1)),
            Err(e) => Err(e),
        },
        t => Err(ParseError::Syntax { span: t.span(), expected: Expected::BraceGroup }),
    }
}

/// One whole class definition: header, body, and nothing after them.
pub open spec fn spec_parse_class(s: Seq<Tok>) -> Result<ClassM, ParseError> {
    match spec_parse_class_header(s, 0) {
        Ok((head, p)) => if 0 <= p <= s.len() {
            match spec_parse_class_body(s, p) {
                Ok((body, q)) => if q == s.len() {
                    Ok(ClassM { head, body })
                } else {
                    Err(
                        ParseError::Syntax {
                            span: spec_at_span(s, q, spec_end_span(s)),
                            expected: Expected::End,
                        },
                    )
                },
                Err(e) => Err(e),
            }
        } else {
            // Unreachable: the header grammar stays within the sequence.
            Err(
                ParseError::Syntax { span: spec_end_span(s), expected: Expected::BraceGroup },
            )
        },
        Err(e) => Err(e),
    }
}

/// The entry point: parse the full token sequence of one class
/// definition, yielding its tree or the first error.  A failed parse
/// produces no partial tree, and independent definitions are parsed by
/// independent calls.
pub fn parse_class(toks: &Vec<Tok>) -> (r: Result<Class, ParseError>)
    ensures
        (match r {
            Ok(c) => spec_parse_class(toks@) == Ok::<_, ParseError>(class_view(c)),
            Err(e) => spec_parse_class(toks@) == Err::<ClassM, _>(e),
        }),
{
    let (head, p) = match parse_class_header(toks, 0) {
        Ok(x) => x,
        Err(e) => {
            return Err(e);
        },
    };
    let (body, q) = match parse_class_body(toks, p) {
        Ok(x) => x,
        Err(e) => {
            return Err(e);
        },
    };
    if q == toks.len() {
        Ok(Class { head, body })
    } else {
        Err(
            ParseError::Syntax {
                span: at_span(toks, q, end_span(toks)),
                expected: Expected::End,
            },
        )
    }
}

/// The warnings a declaration carries: one for a skipped brace-block
/// default.
pub open spec fn spec_decl_warnings(d: VarDecl) -> Seq<Warning> {
    match d.default {
        DefaultVal::Skipped(sp) => seq![Warning::DefaultIgnored(sp)],
        _ => Seq::empty(),
    }
}

/// The warnings under one statement, in source order.
pub open spec fn spec_stmt_warnings(st: Stmt) -> Seq<Warning>
    decreases st, 0int,
{
    match st {
        Stmt::Decl(d) => spec_decl_warnings(d),
        Stmt::If(c) => spec_stmts_warnings(c.then_body@, 0) + spec_arms_warnings(c.elifs@, 0)
            + spec_stmts_warnings(c.else_body@, 0),
        Stmt::For(f) => spec_stmts_warnings(f.body@, 0),
    }
}

/// The warnings under the statements from `i` on.
pub open spec fn spec_stmts_warnings(v: Seq<Stmt>, i: int) -> Seq<Warning>
    decreases v, v.len() - i,
{
    if 0 <= i < v.len() {
        spec_stmt_warnings(v[i]) + spec_stmts_warnings(v, i + 1)
    } else {
        Seq::empty()
    }
}

/// The warnings under the conditional arms from `i` on.
pub open spec fn spec_arms_warnings(v: Seq<IfArm>, i: int) -> Seq<Warning>
    decreases v, v.len() - i,
{
    if 0 <= i < v.len() {
        spec_stmts_warnings(v[i].body@, 0) + spec_arms_warnings(v, i + 1)
    } else {
        Seq::empty()
    }
}

/// The warnings under the declarations from `i` on.
pub open spec fn spec_decls_warnings(v: Seq<VarDecl>, i: int) -> Seq<Warning>
    decreases v.len() - i,
{
    if 0 <= i < v.len() {
        spec_decl_warnings(v[i]) + spec_decls_warnings(v, i + 1)
    } else {
        Seq::empty()
    }
}

/// Every warning a successful parse gathered, in source order: the
/// constructor parameters' first, then the body's.
pub open spec fn spec_class_warnings(c: Class) -> Seq<Warning> {
    spec_decls_warnings(c.head.args@, 0) + spec_stmts_warnings(c.body.statements@, 0)
}

fn push_decl_warnings(d: &VarDecl, out: &mut Vec<Warning>)
    ensures
        final(out)@ == old(out)@ + spec_decl_warnings(*d),
{
    match &d.default {
        DefaultVal::Skipped(sp) => {
            out.push(Warning::DefaultIgnored(*sp));
            proof {
                assert(out@ =~= old(out)@ + spec_decl_warnings(*d));
            }
        },
        _ => {
            proof {
                assert(out@ =~= old(out)@ + spec_decl_warnings(*d));
            }
        },
    }
}

fn push_stmt_warnings(st: &Stmt, out: &mut Vec<Warning>)
    ensures
        final(out)@ == old(out)@ + spec_stmt_warnings(*st),
    decreases *st, 0int,
{
    match st {
        Stmt::Decl(d) => {
            push_decl_warnings(d, out);
        },
        Stmt::If(c) => {
            push_stmts_warnings(&c.then_body, 0, out);
            push_arms_warnings(&c.elifs, 0, out);
            push_stmts_warnings(&c.else_body, 0, out);
            proof {
                assert(out@ =~= old(out)@ + spec_stmt_warnings(*st));
            }
        },
        Stmt::For(f) => {
            push_stmts_warnings(&f.body, 0, out);
        },
    }
}

fn push_stmts_warnings(v: &Vec<Stmt>, i: usize, out: &mut Vec<Warning>)
    requires
        i <= v@.len(),
    ensures
        final(out)@ == old(out)@ + spec_stmts_warnings(v@, i as int),
    decreases v@, v@.len() - i,
{
    if i < v.len() {
        push_stmt_warnings(&v[i], out);
        push_stmts_warnings(v, i + 1, out);
        proof {
            assert(out@ =~= old(out)@ + spec_stmts_warnings(v@, i as int));
        }
    }
}

fn push_arms_warnings(v: &Vec<IfArm>, i: usize, out: &mut Vec<Warning>)
    requires
        i <= v@.len(),
    ensures
        final(out)@ == old(out)@ + spec_arms_warnings(v@, i as int),
    decreases v@, v@.len() - i,
{
    if i < v.len() {
        push_stmts_warnings(&v[i].body, 0, out);
        push_arms_warnings(v, i + 1, out);
        proof {
            assert(out@ =~= old(out)@ + spec_arms_warnings(v@, i as int));
        }
    }
}

fn push_decls_warnings(v: &Vec<VarDecl>, i: usize, out: &mut Vec<Warning>)
    requires
        i <= v@.len(),
    ensures
        final(out)@ == old(out)@ + spec_decls_warnings(v@, i as int),
    decreases v@.len() - i,
{
    if i < v.len() {
        push_decl_warnings(&v[i], out);
        push_decls_warnings(v, i + 1, out);
        proof {
            assert(out@ =~= old(out)@ + spec_decls_warnings(v@, i as int));
        }
    }
}

/// Gather the non-fatal diagnostics of a successful parse, in source
/// order: one warning for every default value that was skipped as an
/// opaque brace block.
pub fn collect_warnings(c: &Class) -> (r: Vec<Warning>)
    ensures
        r@ == spec_class_warnings(*c),
{
    let mut out: Vec<Warning> = Vec::new();
    push_decls_warnings(&c.head.args, 0, &mut out);
    push_stmts_warnings(&c.body.statements, 0, &mut out);
    proof {
        assert(out@ =~= spec_class_warnings(*c));
    }
    out
}


/// A successful argument run of an `extends` clause consumes its whole
/// group: no argument is silently dropped.
pub proof fn lemma_extends_args_consume_all(s: Seq<Tok>, p: int)
    requires
        0 <= p <= s.len(),
    ensures
        (match spec_parse_extends_args(s, p) {
            Ok((_, q)) => q == s.len(),
            Err(_) => true,
        }),
    decreases suffix_size(s, p),
{
    if p < s.len() {
        match spec_parse_expr(s, p) {
            Ok((e, q1)) => {
                crate::expr::lemma_parse_expr_bounds(s, p);
                match e {
                    Expr::Variable(_, _) => {
                        if q1 < s.len() && is_punct(s[q1], '=') {
                            crate::expr::lemma_parse_expr_bounds(s, q1 + 1);
                        }
                    },
                    _ => {},
                }
            },
            Err(_) => {},
        }
        match spec_parse_extends_arg(s, p) {
            Ok((_, q)) => {
                if q < s.len() && is_punct(s[q], ',') && p < q + 1 <= s.len() {
                    lemma_suffix_size_mono(s, p, q + 1);
                    lemma_extends_args_consume_all(s, q + 1);
                }
            },
            Err(_) => {},
        }
    }
}

/// A successful constructor-parameter run of a class header consumes
/// its whole group: no parameter is silently dropped.
pub proof fn lemma_header_args_consume_all(s: Seq<Tok>, p: int)
    requires
        0 <= p <= s.len(),
    ensures
        (match spec_parse_header_args(s, p) {
            Ok((_, q)) => q == s.len(),
            Err(_) => true,
        }),
    decreases suffix_size(s, p),
{
    if p < s.len() {
        crate::decl::lemma_var_decl_bounds(s, p);
        match spec_parse_var_decl(s, p) {
            Ok((_, q)) => {
                if q < s.len() && is_punct(s[q], ',') && p < q + 1 <= s.len() {
                    lemma_suffix_size_mono(s, p, q + 1);
                    lemma_header_args_consume_all(s, q + 1);
                }
            },
            Err(_) => {},
        }
    }
}

} // verus!
