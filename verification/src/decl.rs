//! The type and field grammar: modifiers, base types, width resolution,
//! arrays, defaults, and the trailing annotation clause.  Its product is
//! the [`VarDecl`] field declaration.

use vstd::prelude::*;
use crate::error::{Expected, ParseError, SizedBase};
use crate::expr::{spec_parse_expr, parse_expr, Expr};
use crate::strutil::{contains_seq, contains_substr, str_eqs};
use vstd::string::StringExecFns;
use crate::token::{
    is_punct, lemma_suffix_size_mono, suffix_size, tok_is_punct, Delim, Span, Tok,
};

verus! {

/// Whether a declaration wrote `signed`, `unsigned`, or neither.  A bare
/// `int` resolves as unsigned; the distinction is kept for diagnostics.
#[derive(Clone, Copy, Debug, PartialEq, Eq, Structural)]
pub enum Signedness {
    Signed,
    Unsigned,
    Unspecified,
}

/// The base kind of a declared field.
#[derive(Debug, PartialEq, Eq)]
pub enum BaseKind {
    /// `int(width)`, optionally preceded by `signed` or `unsigned`.
    IntKind(Signedness),
    /// `bit(width)`.
    BitKind,
    /// Any other identifier: a reference to another class, or a
    /// primitive keyword such as `string`.  Resolution is deferred to a
    /// later linking pass.
    RefKind(String),
}

/// The native scalar a sized declaration resolves to, or the name an
/// unsized one keeps.
#[derive(Debug, PartialEq, Eq)]
pub enum NativeType {
    I8,
    I16,
    I32,
    I64,
    U8,
    U16,
    U32,
    U64,
    /// `bit(1)`.
    Bool,
    /// `bit(24)`, the dedicated 24-bit flags kind.
    Flags,
    /// A class reference, or the identifier of a `rust_type` annotation.
    Named(String),
}

/// An array suffix of a declaration.
#[derive(Debug, PartialEq)]
pub enum ArraySpec {
    /// Empty brackets: read to the end of the enclosing container.
    /// Distinct from an array of length zero.
    ToEnd(Span),
    /// A bracketed size expression: a literal, a variable, or arithmetic
    /// over earlier fields.
    Sized(Expr),
}

/// The default value of a declaration.
#[derive(Debug, PartialEq)]
pub enum DefaultVal {
    /// No `=` clause.
    NoDefault,
    /// `= expr`.
    Value(Expr),
    /// A brace-block default: skipped as opaque text, with a warning.
    Skipped(Span),
}

/// One field declaration.
#[derive(Debug, PartialEq)]
pub struct VarDecl {
    /// Set by the `# optional` annotation.
    pub optional: bool,
    /// The `template` modifier.
    pub template: bool,
    /// The `const` modifier.
    pub is_const: bool,
    /// The base kind of the declared type.
    pub kind: BaseKind,
    /// The declared width in bits; zero for unsized kinds.
    pub size: u64,
    /// The resolved native type; absent for the anonymous form.
    pub rust_type: Option<NativeType>,
    /// The array suffix, if any.
    pub array: Option<ArraySpec>,
    /// The field name; absent for an anonymous embedded-class statement.
    pub name: Option<String>,
    /// The default value clause.
    pub default: DefaultVal,
}

/// The modifier flags gathered in front of a base type.
#[derive(Clone, Copy, Debug, PartialEq, Eq, Structural)]
pub struct Mods {
    pub template: bool,
    pub is_const: bool,
    pub signed: bool,
    pub unsigned: bool,
}

/// The width table.  For every supported `(kind, signedness, width)`
/// combination this gives exactly the native kind of the table; any
/// width outside the listed ranges is the unsupported-width error naming
/// that width.
pub open spec fn spec_resolve_scalar(
    base: SizedBase,
    signed: bool,
    width: u64,
    wsp: Span,
) -> Result<NativeType, ParseError> {
    match base {
        SizedBase::IntBase => if signed {
            if 1 <= width <= 8 {
                Ok(NativeType::I8)
            } else if 9 <= width <= 16 {
                Ok(NativeType::I16)
            } else if 17 <= width <= 32 {
                Ok(NativeType::I32)
            } else if 33 <= width <= 64 {
                Ok(NativeType::I64)
            } else {
                Err(ParseError::UnsupportedWidth { span: wsp, base, width })
            }
        } else {
            if 1 <= width <= 8 {
                Ok(NativeType::U8)
            } else if 9 <= width <= 16 {
                Ok(NativeType::U16)
            } else if 17 <= width <= 32 {
                Ok(NativeType::U32)
            } else if 33 <= width <= 64 {
                Ok(NativeType::U64)
            } else {
                Err(ParseError::UnsupportedWidth { span: wsp, base, width })
            }
        },
        SizedBase::BitBase => if width == 1 {
            Ok(NativeType::Bool)
        } else if 2 <= width <= 8 {
            Ok(NativeType::U8)
        } else if 9 <= width <= 16 {
            Ok(NativeType::U16)
        } else if 17 <= width <= 23 {
            Ok(NativeType::U32)
        } else if width == 24 {
            Ok(NativeType::Flags)
        } else if 25 <= width <= 32 {
            Ok(NativeType::U32)
        } else if 33 <= width <= 64 {
            Ok(NativeType::U64)
        } else {
            Err(ParseError::UnsupportedWidth { span: wsp, base, width })
        },
    }
}

/// Resolve a declared width against the width table.
pub fn resolve_scalar(base: SizedBase, signed: bool, width: u64, wsp: Span) -> (r: Result<
    NativeType,
    ParseError,
>)
    ensures
        r == spec_resolve_scalar(base, signed, width, wsp),
{
    match base {
        SizedBase::IntBase => if signed {
            if 1 <= width && width <= 8 {
                Ok(NativeType::I8)
            } else if 9 <= width && width <= 16 {
                Ok(NativeType::I16)
            } else if 17 <= width && width <= 32 {
                Ok(NativeType::I32)
            } else if 33 <= width && width <= 64 {
                Ok(NativeType::I64)
            } else {
                Err(ParseError::UnsupportedWidth { span: wsp, base, width })
            }
        } else {
            if 1 <= width && width <= 8 {
                Ok(NativeType::U8)
            } else if 9 <= width && width <= 16 {
                Ok(NativeType::U16)
            } else if 17 <= width && width <= 32 {
                Ok(NativeType::U32)
            } else if 33 <= width && width <= 64 {
                Ok(NativeType::U64)
            } else {
                Err(ParseError::UnsupportedWidth { span: wsp, base, width })
            }
        },
        SizedBase::BitBase => if width == 1 {
            Ok(NativeType::Bool)
        } else if 2 <= width && width <= 8 {
            Ok(NativeType::U8)
        } else if 9 <= width && width <= 16 {
            Ok(NativeType::U16)
        } else if 17 <= width && width <= 23 {
            Ok(NativeType::U32)
        } else if width == 24 {
            Ok(NativeType::Flags)
        } else if 25 <= width && width <= 32 {
            Ok(NativeType::U32)
        } else if 33 <= width && width <= 64 {
            Ok(NativeType::U64)
        } else {
            Err(ParseError::UnsupportedWidth { span: wsp, base, width })
        },
    }
}

/// The width-table law, stated whole: every supported width resolves to
/// exactly the listed native kind, and every width outside the listed
/// ranges — zero, or above sixty-four — fails with the unsupported-width
/// error citing that width.
pub proof fn lemma_width_table(wsp: Span)
    ensures
        forall|w: u64|
            1 <= w <= 64 ==> #[trigger] spec_resolve_scalar(SizedBase::IntBase, true, w, wsp)
                == Ok::<NativeType, ParseError>(
                if w <= 8 {
                    NativeType::I8
                } else if w <= 16 {
                    NativeType::I16
                } else if w <= 32 {
                    NativeType::I32
                } else {
                    NativeType::I64
                },
            ),
        forall|w: u64|
            1 <= w <= 64 ==> #[trigger] spec_resolve_scalar(SizedBase::IntBase, false, w, wsp)
                == Ok::<NativeType, ParseError>(
                if w <= 8 {
                    NativeType::U8
                } else if w <= 16 {
                    NativeType::U16
                } else if w <= 32 {
                    NativeType::U32
                } else {
                    NativeType::U64
                },
            ),
        forall|s: bool|
            #[trigger] spec_resolve_scalar(SizedBase::BitBase, s, 1, wsp)
                == Ok::<NativeType, ParseError>(NativeType::Bool),
        forall|s: bool|
            #[trigger] spec_resolve_scalar(SizedBase::BitBase, s, 24, wsp)
                == Ok::<NativeType, ParseError>(NativeType::Flags),
        forall|w: u64, s: bool|
            2 <= w <= 64 && w != 24 ==> #[trigger] spec_resolve_scalar(
                SizedBase::BitBase,
                s,
                w,
                wsp,
            ) == Ok::<NativeType, ParseError>(
                if w <= 8 {
                    NativeType::U8
                } else if w <= 16 {
                    NativeType::U16
                } else if w <= 32 {
                    NativeType::U32
                } else {
                    NativeType::U64
                },
            ),
        forall|b: SizedBase, s: bool, w: u64|
            (w == 0 || w > 64) ==> #[trigger] spec_resolve_scalar(b, s, w, wsp)
                == Err::<NativeType, ParseError>(
                ParseError::UnsupportedWidth { span: wsp, base: b, width: w },
            ),
{
}

/// The text of a base kind in the diagnostic type string.
pub open spec fn spec_base_text(kind: BaseKind) -> Seq<char> {
    match kind {
        BaseKind::IntKind(_) => "int"@,
        BaseKind::BitKind => "bit"@,
        BaseKind::RefKind(n) => n@,
    }
}

/// The diagnostic type string before any `optional` prefix: the
/// modifiers that were written, then the base type's text.
pub open spec fn spec_iso_type_base(d: VarDecl) -> Seq<char> {
    let s0 = if d.is_const {
        "const "@
    } else {
        Seq::<char>::empty()
    };
    let s1 = if d.template {
        s0 + "template "@
    } else {
        s0
    };
    let s2 = match d.kind {
        BaseKind::IntKind(Signedness::Signed) => s1 + "signed "@,
        BaseKind::IntKind(Signedness::Unsigned) => s1 + "unsigned "@,
        _ => s1,
    };
    s2 + spec_base_text(d.kind)
}

/// The diagnostic type string: prefixed with `optional` when the
/// annotation set the flag and the word is not already present.
pub open spec fn spec_iso_type(d: VarDecl) -> Seq<char> {
    let base = spec_iso_type_base(d);
    if d.optional && !contains_seq(base, "optional"@) {
        "optional "@ + base
    } else {
        base
    }
}

impl VarDecl {
    /// The human-readable type string used in diagnostics, such as
    /// `optional unsigned int`.
    pub fn iso_type(&self) -> (r: String)
        ensures
            r@ == spec_iso_type(*self),
    {
        let mut s = String::new();
        if self.is_const {
            s.append("const ");
        }
        if self.template {
            s.append("template ");
        }
        match &self.kind {
            BaseKind::IntKind(Signedness::Signed) => {
                s.append("signed ");
            },
            BaseKind::IntKind(Signedness::Unsigned) => {
                s.append("unsigned ");
            },
            _ => {},
        }
        match &self.kind {
            BaseKind::IntKind(_) => {
                s.append("int");
            },
            BaseKind::BitKind => {
                s.append("bit");
            },
            BaseKind::RefKind(n) => {
                s.append(n.as_str());
            },
        }
        proof {
            assert(s@ =~= spec_iso_type_base(*self));
        }
        if self.optional {
            if !contains_substr(s.as_str(), "optional") {
                let mut pre = String::new();
                pre.append("optional ");
                pre.append(s.as_str());
                return pre;
            }
        }
        s
    }
}

/// Gather the run of modifiers — `template`, `const`, `signed`,
/// `unsigned`, in any order — in front of a base type.
pub open spec fn spec_parse_mods(s: Seq<Tok>, p: int, m: Mods) -> (Mods, int)
    decreases suffix_size(s, p),
{
    if 0 <= p < s.len() {
        match s[p] {
            Tok::Ident(n, _) => {
                proof {
                    lemma_suffix_size_mono(s, p, p + 1);
                    crate::token::lemma_tok_size_pos(s[p]);
                    crate::token::lemma_suffix_size_step(s, p);
                }
                if n@ == "template"@ {
                    spec_parse_mods(s, p + 1, Mods { template: true, ..m })
                } else if n@ == "const"@ {
                    spec_parse_mods(s, p + 1, Mods { is_const: true, ..m })
                } else if n@ == "signed"@ {
                    spec_parse_mods(s, p + 1, Mods { signed: true, ..m })
                } else if n@ == "unsigned"@ {
                    spec_parse_mods(s, p + 1, Mods { unsigned: true, ..m })
                } else {
                    (m, p)
                }
            },
            _ => (m, p),
        }
    } else {
        (m, p)
    }
}

fn parse_mods(toks: &Vec<Tok>, pos: usize, m: Mods) -> (r: (Mods, usize))
    requires
        pos <= toks@.len(),
    ensures
        (r.0, r.1 as int) == spec_parse_mods(toks@, pos as int, m),
        pos <= r.1 <= toks@.len(),
    decreases suffix_size(toks@, pos as int),
{
    if pos >= toks.len() {
        return (m, pos);
    }
    let t = &toks[pos];
    match t {
        Tok::Ident(n, _) => {
            proof {
                lemma_suffix_size_mono(toks@, pos as int, pos + 1);
                crate::token::lemma_tok_size_pos(toks@[pos as int]);
                crate::token::lemma_suffix_size_step(toks@, pos as int);
            }
            if str_eqs(n.as_str(), "template") {
                parse_mods(toks, pos + 1, Mods { template: true, ..m })
            } else if str_eqs(n.as_str(), "const") {
                parse_mods(toks, pos + 1, Mods { is_const: true, ..m })
            } else if str_eqs(n.as_str(), "signed") {
                parse_mods(toks, pos + 1, Mods { signed: true, ..m })
            } else if str_eqs(n.as_str(), "unsigned") {
                parse_mods(toks, pos + 1, Mods { unsigned: true, ..m })
            } else {
                (m, pos)
            }
        },
        _ => (m, pos),
    }
}

/// The mandatory width group of a sized type: a parenthesized group
/// holding one whole expression that must be a bare integer literal.
/// The result carries the width and the expression's position.
pub open spec fn spec_parse_width(s: Seq<Tok>, p: int) -> Result<((u64, Span), int), ParseError> {
    if 0 <= p < s.len() {
        match s[p] {
            Tok::Group(Delim::Paren, inner, gsp) => match spec_parse_expr(inner@, 0) {
                Ok((e, q)) => if q == inner@.len() {
                    match e.spec_get_lit_int() {
                        Ok(w) => Ok(((w, e.spec_span()), p + 1)),
                        Err(err) => Err(err),
                    }
                } else {
                    Err(
                        ParseError::Syntax {
                            span: if 0 <= q < inner@.len() {
                                inner@[q].spec_span()
                            } else {
                                gsp
                            },
                            expected: Expected::End,
                        },
                    )
                },
                Err(e) => Err(e),
            },
            _ => Err(
                ParseError::Syntax { span: s[p].spec_span(), expected: Expected::ParenGroup },
            ),
        }
    } else {
        Err(
            ParseError::Syntax {
                span: crate::expr::spec_end_span(s),
                expected: Expected::ParenGroup,
            },
        )
    }
}

fn parse_width(toks: &Vec<Tok>, pos: usize) -> (r: Result<((u64, Span), usize), ParseError>)
    requires
        pos <= toks@.len(),
    ensures
        (match r {
            Ok((w, np)) => spec_parse_width(toks@, pos as int) == Ok::<_, ParseError>(
                (w, np as int),
            ) && pos < np <= toks@.len(),
            Err(e) => spec_parse_width(toks@, pos as int) == Err::<((u64, Span), int), _>(e),
        }),
{
    if pos >= toks.len() {
        return Err(
            ParseError::Syntax {
                span: crate::expr::end_span(toks),
                expected: Expected::ParenGroup,
            },
        );
    }
    let t = &toks[pos];
    match t {
        Tok::Group(Delim::Paren, inner, gsp) => match parse_expr(inner, 0) {
            Ok((e, q)) => if q == inner.len() {
                match e.get_lit_int() {
                    Ok(w) => {
                        let wsp = e.span();
                        Ok(((w, wsp), pos + 1))
                    },
                    Err(err) => Err(err),
                }
            } else {
                Err(
                    ParseError::Syntax {
                        span: if q < inner.len() {
                            inner[q].span()
                        } else {
                            *gsp
                        },
                        expected: Expected::End,
                    },
                )
            },
            Err(e) => Err(e),
        },
        _ => Err(ParseError::Syntax { span: t.span(), expected: Expected::ParenGroup }),
    }
}

/// An optional array suffix: nothing, empty brackets (the "to end of
/// container" sentinel), or a bracketed size expression.
pub open spec fn spec_parse_array_suffix(s: Seq<Tok>, p: int) -> Result<
    (Option<ArraySpec>, int),
    ParseError,
> {
    if 0 <= p < s.len() {
        match s[p] {
            Tok::Group(Delim::Bracket, inner, bsp) => if inner@.len() == 0 {
                Ok((Some(ArraySpec::ToEnd(bsp)), p + 1))
            } else {
                match spec_parse_expr(inner@, 0) {
                    Ok((e, q)) => if q == inner@.len() {
                        Ok((Some(ArraySpec::Sized(e)), p + 1))
                    } else {
                        Err(
                            ParseError::Syntax {
                                span: if 0 <= q < inner@.len() {
                                    inner@[q].spec_span()
                                } else {
                                    bsp
                                },
                                expected: Expected::End,
                            },
                        )
                    },
                    Err(e) => Err(e),
                }
            },
            _ => Ok((None, p)),
        }
    } else {
        Ok((None, p))
    }
}

fn parse_array_suffix(toks: &Vec<Tok>, pos: usize) -> (r: Result<
    (Option<ArraySpec>, usize),
    ParseError,
>)
    requires
        pos <= toks@.len(),
    ensures
        (match r {
            Ok((a, np)) => spec_parse_array_suffix(toks@, pos as int) == Ok::<_, ParseError>(
                (a, np as int),
            ) && pos <= np <= toks@.len(),
            Err(e) => spec_parse_array_suffix(toks@, pos as int) == Err::<
                (Option<ArraySpec>, int),
                _,
            >(e),
        }),
{
    if pos >= toks.len() {
        return Ok((None, pos));
    }
    let t = &toks[pos];
    match t {
        Tok::Group(Delim::Bracket, inner, bsp) => if inner.len() == 0 {
            Ok((Some(ArraySpec::ToEnd(*bsp)), pos + 1))
        } else {
            match parse_expr(inner, 0) {
                Ok((e, q)) => if q == inner.len() {
                    Ok((Some(ArraySpec::Sized(e)), pos + 1))
                } else {
                    Err(
                        ParseError::Syntax {
                            span: if q < inner.len() {
                                inner[q].span()
                            } else {
                                *bsp
                            },
                            expected: Expected::End,
                        },
                    )
                },
                Err(e) => Err(e),
            }
        },
        _ => Ok((None, pos)),
    }
}

/// Skip forward to the next `;` at this nesting level, or to the end.
/// The terminator itself is not consumed.
pub open spec fn spec_skip_to_semi(s: Seq<Tok>, p: int) -> int
    decreases suffix_size(s, p),
{
    if 0 <= p < s.len() {
        if is_punct(s[p], ';') {
            p
        } else {
            proof {
                lemma_suffix_size_mono(s, p, p + 1);
                crate::token::lemma_tok_size_pos(s[p]);
                crate::token::lemma_suffix_size_step(s, p);
            }
            spec_skip_to_semi(s, p + 1)
        }
    } else {
        p
    }
}

fn skip_to_semi(toks: &Vec<Tok>, pos: usize) -> (r: usize)
    requires
        pos <= toks@.len(),
    ensures
        r as int == spec_skip_to_semi(toks@, pos as int),
        pos <= r <= toks@.len(),
    decreases suffix_size(toks@, pos as int),
{
    if pos >= toks.len() {
        return pos;
    }
    if tok_is_punct(&toks[pos], ';') {
        pos
    } else {
        proof {
            lemma_suffix_size_mono(toks@, pos as int, pos + 1);
            crate::token::lemma_tok_size_pos(toks@[pos as int]);
            crate::token::lemma_suffix_size_step(toks@, pos as int);
        }
        skip_to_semi(toks, pos + 1)
    }
}

/// What follows the base type of a declaration: an optional array
/// suffix, then either the bare `;` of an anonymous embedded-class
/// statement, or the field name, a second (overriding) array suffix,
/// and an optional default.  The statement terminator is not consumed.
pub open spec fn spec_parse_decl_tail(
    s: Seq<Tok>,
    p: int,
    m: Mods,
    kind: BaseKind,
    size: u64,
    rust_type: Option<NativeType>,
) -> Result<(VarDecl, int), ParseError> {
    match spec_parse_array_suffix(s, p) {
        Ok((arr1, p1)) => if 0 <= p1 < s.len() && is_punct(s[p1], ';') {
            Ok(
                (
                    VarDecl {
                        optional: false,
                        template: m.template,
                        is_const: m.is_const,
                        kind,
                        size,
                        rust_type: None,
                        array: arr1,
                        name: None,
                        default: DefaultVal::NoDefault,
                    },
                    p1,
                ),
            )
        } else if 0 <= p1 < s.len() && s[p1] is Ident {
            let name = s[p1]->Ident_0;
            match spec_parse_array_suffix(s, p1 + 1) {
                Ok((arr2, p2)) => {
                    let arr = if arr2 is Some {
                        arr2
                    } else {
                        arr1
                    };
                    if 0 <= p2 < s.len() && is_punct(s[p2], '=') {
                        if p2 + 1 < s.len() && (match s[p2 + 1] {
                            Tok::Group(Delim::Brace, _, _) => true,
                            _ => false,
                        }) {
                            let bsp = s[p2 + 1].spec_span();
                            let p3 = spec_skip_to_semi(s, p2 + 2);
                            Ok(
                                (
                                    VarDecl {
                                        optional: false,
                                        template: m.template,
                                        is_const: m.is_const,
                                        kind,
                                        size,
                                        rust_type,
                                        array: arr,
                                        name: Some(name),
                                        default: DefaultVal::Skipped(bsp),
                                    },
                                    p3,
                                ),
                            )
                        } else {
                            match spec_parse_expr(s, p2 + 1) {
                                Ok((e, p3)) => Ok(
                                    (
                                        VarDecl {
                                            optional: false,
                                            template: m.template,
                                            is_const: m.is_const,
                                            kind,
                                            size,
                                            rust_type,
                                            array: arr,
                                            name: Some(name),
                                            default: DefaultVal::Value(e),
                                        },
                                        p3,
                                    ),
                                ),
                                Err(e) => Err(e),
                            }
                        }
                    } else {
                        Ok(
                            (
                                VarDecl {
                                    optional: false,
                                    template: m.template,
                                    is_const: m.is_const,
                                    kind,
                                    size,
                                    rust_type,
                                    array: arr,
                                    name: Some(name),
                                    default: DefaultVal::NoDefault,
                                },
                                p2,
                            ),
                        )
                    }
                },
                Err(e) => Err(e),
            }
        } else {
            Err(
                ParseError::Syntax {
                    span: if 0 <= p1 < s.len() {
                        s[p1].spec_span()
                    } else {
                        crate::expr::spec_end_span(s)
                    },
                    expected: Expected::Name,
                },
            )
        },
        Err(e) => Err(e),
    }
}

fn parse_decl_tail(
    toks: &Vec<Tok>,
    pos: usize,
    m: Mods,
    kind: BaseKind,
    size: u64,
    rust_type: Option<NativeType>,
) -> (r: Result<(VarDecl, usize), ParseError>)
    requires
        pos <= toks@.len(),
    ensures
        (match r {
            Ok((d, np)) => spec_parse_decl_tail(toks@, pos as int, m, kind, size, rust_type)
                == Ok::<_, ParseError>((d, np as int)) && pos <= np <= toks@.len(),
            Err(e) => spec_parse_decl_tail(toks@, pos as int, m, kind, size, rust_type) == Err::<
                (VarDecl, int),
                _,
            >(e),
        }),
{
    let ghost gkind = kind;
    let ghost grt = rust_type;
    let (arr1, p1) = match parse_array_suffix(toks, pos) {
        Ok(x) => x,
        Err(e) => {
            return Err(e);
        },
    };
    if p1 < toks.len() && tok_is_punct(&toks[p1], ';') {
        return Ok(
            (
                VarDecl {
                    optional: false,
                    template: m.template,
                    is_const: m.is_const,
                    kind,
                    size,
                    rust_type: None,
                    array: arr1,
                    name: None,
                    default: DefaultVal::NoDefault,
                },
                p1,
            ),
        );
    }
    if p1 >= toks.len() {
        return Err(
            ParseError::Syntax { span: crate::expr::end_span(toks), expected: Expected::Name },
        );
    }
    let name: String = match &toks[p1] {
        Tok::Ident(n, _) => n.clone(),
        t => {
            return Err(ParseError::Syntax { span: t.span(), expected: Expected::Name });
        },
    };
    let (arr2, p2) = match parse_array_suffix(toks, p1 + 1) {
        Ok(x) => x,
        Err(e) => {
            return Err(e);
        },
    };
    let arr = match arr2 {
        Some(a) => Some(a),
        None => arr1,
    };
    if p2 < toks.len() && tok_is_punct(&toks[p2], '=') {
        if p2 + 1 < toks.len() {
            let is_brace_block = match &toks[p2 + 1] {
                Tok::Group(Delim::Brace, _, _) => true,
                _ => false,
            };
            if is_brace_block {
                let bsp = toks[p2 + 1].span();
                let p3 = skip_to_semi(toks, p2 + 2);
                return Ok(
                    (
                        VarDecl {
                            optional: false,
                            template: m.template,
                            is_const: m.is_const,
                            kind,
                            size,
                            rust_type,
                            array: arr,
                            name: Some(name),
                            default: DefaultVal::Skipped(bsp),
                        },
                        p3,
                    ),
                );
            }
        }
        match parse_expr(toks, p2 + 1) {
            Ok((e, p3)) => Ok(
                (
                    VarDecl {
                        optional: false,
                        template: m.template,
                        is_const: m.is_const,
                        kind,
                        size,
                        rust_type,
                        array: arr,
                        name: Some(name),
                        default: DefaultVal::Value(e),
                    },
                    p3,
                ),
            ),
            Err(e) => Err(e),
        }
    } else {
        Ok(
            (
                VarDecl {
                    optional: false,
                    template: m.template,
                    is_const: m.is_const,
                    kind,
                    size,
                    rust_type,
                    array: arr,
                    name: Some(name),
                    default: DefaultVal::NoDefault,
                },
                p2,
            ),
        )
    }
}

/// The declaration grammar: a modifier run, a base type, the width
/// group of a sized type (with the width table applied), then the tail.
/// `signed` and `unsigned` may only precede `int`; `uint` is recognized
/// but resolves to no native type; any other identifier declares an
/// embedded class or primitive, whose optional constructor-argument
/// group is consumed and discarded.  The terminating `;` is left for
/// the statement grammar.
pub open spec fn spec_parse_var_decl(s: Seq<Tok>, p: int) -> Result<(VarDecl, int), ParseError> {
    let (m, p1) = spec_parse_mods(s, p, Mods { template: false, is_const: false, signed: false, unsigned: false });
    if !(0 <= p1 < s.len()) {
        Err(
            ParseError::Syntax {
                span: crate::expr::spec_end_span(s),
                expected: Expected::BaseType,
            },
        )
    } else {
        match s[p1] {
            Tok::Ident(n, nsp) => if (m.signed || m.unsigned) && n@ != "int"@ {
                Err(ParseError::Syntax { span: nsp, expected: Expected::IntKw })
            } else if n@ == "int"@ || n@ == "uint"@ || n@ == "bit"@ {
                match spec_parse_width(s, p1 + 1) {
                    Ok(((w, wsp), p2)) => if n@ == "uint"@ {
                        Err(ParseError::Syntax { span: nsp, expected: Expected::BaseType })
                    } else {
                        let base = if n@ == "bit"@ {
                            SizedBase::BitBase
                        } else {
                            SizedBase::IntBase
                        };
                        let kind = if n@ == "bit"@ {
                            BaseKind::BitKind
                        } else if m.signed {
                            BaseKind::IntKind(Signedness::Signed)
                        } else if m.unsigned {
                            BaseKind::IntKind(Signedness::Unsigned)
                        } else {
                            BaseKind::IntKind(Signedness::Unspecified)
                        };
                        match spec_resolve_scalar(base, m.signed, w, wsp) {
                            Ok(nt) => spec_parse_decl_tail(s, p2, m, kind, w, Some(nt)),
                            Err(e) => Err(e),
                        }
                    },
                    Err(e) => Err(e),
                }
            } else {
                // An embedded class or primitive keyword; a constructor
                // argument group, if present, carries no layout meaning
                // here and is discarded.
                let p2 = if p1 + 1 < s.len() && (match s[p1 + 1] {
                    Tok::Group(Delim::Paren, _, _) => true,
                    _ => false,
                }) {
                    p1 + 2
                } else {
                    p1 + 1
                };
                spec_parse_decl_tail(
                    s,
                    p2,
                    m,
                    BaseKind::RefKind(n),
                    0,
                    Some(NativeType::Named(n)),
                )
            },
            _ => Err(
                ParseError::Syntax { span: s[p1].spec_span(), expected: Expected::BaseType },
            ),
        }
    }
}

/// Parse one field declaration starting at `pos`.
pub fn parse_var_decl(toks: &Vec<Tok>, pos: usize) -> (r: Result<(VarDecl, usize), ParseError>)
    requires
        pos <= toks@.len(),
    ensures
        (match r {
            Ok((d, np)) => spec_parse_var_decl(toks@, pos as int) == Ok::<_, ParseError>(
                (d, np as int),
            ) && pos <= np <= toks@.len(),
            Err(e) => spec_parse_var_decl(toks@, pos as int) == Err::<(VarDecl, int), _>(e),
        }),
{
    let (m, p1) = parse_mods(
        toks,
        pos,
        Mods { template: false, is_const: false, signed: false, unsigned: false },
    );
    if p1 >= toks.len() {
        return Err(
            ParseError::Syntax {
                span: crate::expr::end_span(toks),
                expected: Expected::BaseType,
            },
        );
    }
    let (n, nsp): (String, Span) = match &toks[p1] {
        Tok::Ident(n, nsp) => (n.clone(), *nsp),
        t => {
            return Err(ParseError::Syntax { span: t.span(), expected: Expected::BaseType });
        },
    };
    if (m.signed || m.unsigned) && !str_eqs(n.as_str(), "int") {
        return Err(ParseError::Syntax { span: nsp, expected: Expected::IntKw });
    }
    let is_int = str_eqs(n.as_str(), "int");
    let is_uint = str_eqs(n.as_str(), "uint");
    let is_bit = str_eqs(n.as_str(), "bit");
    if is_int || is_uint || is_bit {
        let ((w, wsp), p2) = match parse_width(toks, p1 + 1) {
            Ok(x) => x,
            Err(e) => {
                return Err(e);
            },
        };
        if is_uint {
            return Err(ParseError::Syntax { span: nsp, expected: Expected::BaseType });
        }
        let base = if is_bit {
            SizedBase::BitBase
        } else {
            SizedBase::IntBase
        };
        let kind = if is_bit {
            BaseKind::BitKind
        } else if m.signed {
            BaseKind::IntKind(Signedness::Signed)
        } else if m.unsigned {
            BaseKind::IntKind(Signedness::Unsigned)
        } else {
            BaseKind::IntKind(Signedness::Unspecified)
        };
        match resolve_scalar(base, m.signed, w, wsp) {
            Ok(nt) => parse_decl_tail(toks, p2, m, kind, w, Some(nt)),
            Err(e) => Err(e),
        }
    } else {
        let mut p2 = p1 + 1;
        if p2 < toks.len() {
            let is_ctor_group = match &toks[p2] {
                Tok::Group(Delim::Paren, _, _) => true,
                _ => false,
            };
            if is_ctor_group {
                p2 = p2 + 1;
            }
        }
        parse_decl_tail(
            toks,
            p2,
            m,
            BaseKind::RefKind(n.clone()),
            0,
            Some(NativeType::Named(n)),
        )
    }
}

/// The content of a trailing annotation: `# optional` and/or
/// `# rust_type : Identifier`, semicolon-separated, in any order.
#[derive(Debug, PartialEq, Eq)]
pub struct Annotation {
    pub optional: bool,
    pub rust_type: Option<String>,
}

/// The clauses after the `#`: each is `optional` or `rust_type : Name`;
/// a `;` after a clause demands another clause.
pub open spec fn spec_parse_annot_clauses(s: Seq<Tok>, p: int, a: Annotation) -> Result<
    (Annotation, int),
    ParseError,
>
    decreases suffix_size(s, p),
{
    if !(0 <= p < s.len()) {
        Err(
            ParseError::Syntax {
                span: crate::expr::spec_end_span(s),
                expected: Expected::AnnotationClause,
            },
        )
    } else {
        match s[p] {
            Tok::Ident(n, nsp) => if n@ == "optional"@ {
                let a2 = Annotation { optional: true, ..a };
                if p + 1 < s.len() && is_punct(s[p + 1], ';') {
                    proof {
                        lemma_suffix_size_mono(s, p, p + 2);
                    }
                    spec_parse_annot_clauses(s, p + 2, a2)
                } else {
                    Ok((a2, p + 1))
                }
            } else if n@ == "rust_type"@ {
                if !(p + 1 < s.len() && is_punct(s[p + 1], ':')) {
                    Err(
                        ParseError::Syntax {
                            span: if p + 1 < s.len() {
                                s[p + 1].spec_span()
                            } else {
                                crate::expr::spec_end_span(s)
                            },
                            expected: Expected::Colon,
                        },
                    )
                } else if p + 2 < s.len() && s[p + 2] is Ident {
                    let a2 = Annotation { rust_type: Some(s[p + 2]->Ident_0), ..a };
                    if p + 3 < s.len() && is_punct(s[p + 3], ';') {
                        proof {
                            lemma_suffix_size_mono(s, p, p + 4);
                        }
                        spec_parse_annot_clauses(s, p + 4, a2)
                    } else {
                        Ok((a2, p + 3))
                    }
                } else {
                    Err(
                        ParseError::Syntax {
                            span: if p + 2 < s.len() {
                                s[p + 2].spec_span()
                            } else {
                                crate::expr::spec_end_span(s)
                            },
                            expected: Expected::RustTypeIdent,
                        },
                    )
                }
            } else {
                Err(ParseError::Syntax { span: nsp, expected: Expected::AnnotationClause })
            },
            _ => Err(
                ParseError::Syntax {
                    span: s[p].spec_span(),
                    expected: Expected::AnnotationClause,
                },
            ),
        }
    }
}

/// A whole annotation: the `#`, then its clauses.
pub open spec fn spec_parse_annotation(s: Seq<Tok>, p: int) -> Result<
    (Annotation, int),
    ParseError,
> {
    if 0 <= p < s.len() && is_punct(s[p], '#') {
        spec_parse_annot_clauses(s, p + 1, Annotation { optional: false, rust_type: None })
    } else {
        Err(
            ParseError::Syntax {
                span: if 0 <= p < s.len() {
                    s[p].spec_span()
                } else {
                    crate::expr::spec_end_span(s)
                },
                expected: Expected::AnnotationClause,
            },
        )
    }
}

fn parse_annot_clauses(toks: &Vec<Tok>, pos: usize, a: Annotation) -> (r: Result<
    (Annotation, usize),
    ParseError,
>)
    requires
        pos <= toks@.len(),
    ensures
        (match r {
            Ok((a2, np)) => spec_parse_annot_clauses(toks@, pos as int, a) == Ok::<_, ParseError>(
                (a2, np as int),
            ) && pos < np <= toks@.len(),
            Err(e) => spec_parse_annot_clauses(toks@, pos as int, a) == Err::<
                (Annotation, int),
                _,
            >(e),
        }),
    decreases suffix_size(toks@, pos as int),
{
    if pos >= toks.len() {
        return Err(
            ParseError::Syntax {
                span: crate::expr::end_span(toks),
                expected: Expected::AnnotationClause,
            },
        );
    }
    let (n, nsp): (String, Span) = match &toks[pos] {
        Tok::Ident(n, nsp) => (n.clone(), *nsp),
        t => {
            return Err(
                ParseError::Syntax { span: t.span(), expected: Expected::AnnotationClause },
            );
        },
    };
    if str_eqs(n.as_str(), "optional") {
        let a2 = Annotation { optional: true, ..a };
        if pos + 1 < toks.len() && tok_is_punct(&toks[pos + 1], ';') {
            proof {
                lemma_suffix_size_mono(toks@, pos as int, pos + 2);
            }
            parse_annot_clauses(toks, pos + 2, a2)
        } else {
            Ok((a2, pos + 1))
        }
    } else if str_eqs(n.as_str(), "rust_type") {
        if !(pos + 1 < toks.len() && tok_is_punct(&toks[pos + 1], ':')) {
            return Err(
                ParseError::Syntax {
                    span: if pos + 1 < toks.len() {
                        toks[pos + 1].span()
                    } else {
                        crate::expr::end_span(toks)
                    },
                    expected: Expected::Colon,
                },
            );
        }
        if pos + 2 < toks.len() {
            let rt: Option<String> = match &toks[pos + 2] {
                Tok::Ident(rt, _) => Some(rt.clone()),
                _ => None,
            };
            match rt {
                Some(rt) => {
                    let a2 = Annotation { rust_type: Some(rt), ..a };
                    if pos + 3 < toks.len() && tok_is_punct(&toks[pos + 3], ';') {
                        proof {
                            lemma_suffix_size_mono(toks@, pos as int, pos + 4);
                        }
                        parse_annot_clauses(toks, pos + 4, a2)
                    } else {
                        Ok((a2, pos + 3))
                    }
                },
                None => Err(
                    ParseError::Syntax {
                        span: toks[pos + 2].span(),
                        expected: Expected::RustTypeIdent,
                    },
                ),
            }
        } else {
            Err(
                ParseError::Syntax {
                    span: crate::expr::end_span(toks),
                    expected: Expected::RustTypeIdent,
                },
            )
        }
    } else {
        Err(ParseError::Syntax { span: nsp, expected: Expected::AnnotationClause })
    }
}

/// Parse a trailing annotation beginning with `#`.
pub fn parse_annotation(toks: &Vec<Tok>, pos: usize) -> (r: Result<
    (Annotation, usize),
    ParseError,
>)
    requires
        pos <= toks@.len(),
    ensures
        (match r {
            Ok((a, np)) => spec_parse_annotation(toks@, pos as int) == Ok::<_, ParseError>(
                (a, np as int),
            ) && pos < np <= toks@.len(),
            Err(e) => spec_parse_annotation(toks@, pos as int) == Err::<(Annotation, int), _>(e),
        }),
{
    if pos < toks.len() && tok_is_punct(&toks[pos], '#') {
        parse_annot_clauses(toks, pos + 1, Annotation { optional: false, rust_type: None })
    } else {
        Err(
            ParseError::Syntax {
                span: if pos < toks.len() {
                    toks[pos].span()
                } else {
                    crate::expr::end_span(toks)
                },
                expected: Expected::AnnotationClause,
            },
        )
    }
}

/// How an annotation mutates the declaration it follows: `optional`
/// sets the flag (the diagnostic string picks up its prefix from the
/// flag), and `rust_type` overrides the resolved native type.
pub open spec fn spec_apply_annotation(d: VarDecl, a: Annotation) -> VarDecl {
    VarDecl {
        optional: d.optional || a.optional,
        rust_type: match a.rust_type {
            Some(n) => Some(NativeType::Named(n)),
            None => d.rust_type,
        },
        ..d
    }
}

/// Apply a trailing annotation to the declaration it follows.
pub fn apply_annotation(d: VarDecl, a: Annotation) -> (r: VarDecl)
    ensures
        r == spec_apply_annotation(d, a),
{
    let mut d = d;
    if a.optional {
        d.optional = true;
    }
    match a.rust_type {
        Some(n) => {
            d.rust_type = Some(NativeType::Named(n));
        },
        None => {},
    }
    d
}


/// The modifier run stays within its sequence.
pub proof fn lemma_parse_mods_bounds(s: Seq<Tok>, p: int, m: Mods)
    requires
        0 <= p <= s.len(),
    ensures
        p <= spec_parse_mods(s, p, m).1 <= s.len(),
    decreases suffix_size(s, p),
{
    if 0 <= p < s.len() {
        match s[p] {
            Tok::Ident(n, _) => {
                lemma_suffix_size_mono(s, p, p + 1);
                crate::token::lemma_tok_size_pos(s[p]);
                crate::token::lemma_suffix_size_step(s, p);
                if n@ == "template"@ {
                    lemma_parse_mods_bounds(s, p + 1, Mods { template: true, ..m });
                } else if n@ == "const"@ {
                    lemma_parse_mods_bounds(s, p + 1, Mods { is_const: true, ..m });
                } else if n@ == "signed"@ {
                    lemma_parse_mods_bounds(s, p + 1, Mods { signed: true, ..m });
                } else if n@ == "unsigned"@ {
                    lemma_parse_mods_bounds(s, p + 1, Mods { unsigned: true, ..m });
                }
            },
            _ => {},
        }
    }
}

/// The skip to a terminator stays within its sequence.
pub proof fn lemma_skip_semi_bounds(s: Seq<Tok>, p: int)
    requires
        0 <= p <= s.len(),
    ensures
        p <= spec_skip_to_semi(s, p) <= s.len(),
    decreases suffix_size(s, p),
{
    if 0 <= p < s.len() && !is_punct(s[p], ';') {
        lemma_suffix_size_mono(s, p, p + 1);
        crate::token::lemma_tok_size_pos(s[p]);
        crate::token::lemma_suffix_size_step(s, p);
        lemma_skip_semi_bounds(s, p + 1);
    }
}

/// The tail of a declaration stays within its sequence.
proof fn lemma_decl_tail_bounds(
    s: Seq<Tok>,
    p: int,
    m: Mods,
    kind: BaseKind,
    size: u64,
    rust_type: Option<NativeType>,
)
    requires
        0 <= p <= s.len(),
    ensures
        (match spec_parse_decl_tail(s, p, m, kind, size, rust_type) {
            Ok((_, q)) => p <= q <= s.len(),
            Err(_) => true,
        }),
{
    match spec_parse_array_suffix(s, p) {
        Ok((_, p1)) => {
            if 0 <= p1 < s.len() && !is_punct(s[p1], ';') && s[p1] is Ident {
                match spec_parse_array_suffix(s, p1 + 1) {
                    Ok((_, p2)) => {
                        if 0 <= p2 < s.len() && is_punct(s[p2], '=') {
                            if p2 + 1 < s.len() && (match s[p2 + 1] {
                                Tok::Group(Delim::Brace, _, _) => true,
                                _ => false,
                            }) {
                                lemma_skip_semi_bounds(s, p2 + 2);
                            } else {
                                crate::expr::lemma_parse_expr_bounds(s, p2 + 1);
                            }
                        }
                    },
                    Err(_) => {},
                }
            }
        },
        Err(_) => {},
    }
}

/// The declaration grammar stays within its sequence: a successful
/// parse ends at or after its starting position and never beyond the
/// end.
pub proof fn lemma_var_decl_bounds(s: Seq<Tok>, p: int)
    requires
        0 <= p <= s.len(),
    ensures
        (match spec_parse_var_decl(s, p) {
            Ok((_, q)) => p <= q <= s.len(),
            Err(_) => true,
        }),
{
    let m0 = Mods { template: false, is_const: false, signed: false, unsigned: false };
    lemma_parse_mods_bounds(s, p, m0);
    let (m, p1) = spec_parse_mods(s, p, m0);
    if 0 <= p1 < s.len() {
        match s[p1] {
            Tok::Ident(n, _) => {
                if n@ == "int"@ || n@ == "uint"@ || n@ == "bit"@ {
                    match spec_parse_width(s, p1 + 1) {
                        Ok(((w, wsp), p2)) => {
                            if n@ != "uint"@ {
                                let base = if n@ == "bit"@ {
                                    SizedBase::BitBase
                                } else {
                                    SizedBase::IntBase
                                };
                                let kind = if n@ == "bit"@ {
                                    BaseKind::BitKind
                                } else if m.signed {
                                    BaseKind::IntKind(Signedness::Signed)
                                } else if m.unsigned {
                                    BaseKind::IntKind(Signedness::Unsigned)
                                } else {
                                    BaseKind::IntKind(Signedness::Unspecified)
                                };
                                match spec_resolve_scalar(base, m.signed, w, wsp) {
                                    Ok(nt) => {
                                        lemma_decl_tail_bounds(s, p2, m, kind, w, Some(nt));
                                    },
                                    Err(_) => {},
                                }
                            }
                        },
                        Err(_) => {},
                    }
                } else {
                    let p2: int = if p1 + 1 < s.len() && (match s[p1 + 1] {
                        Tok::Group(Delim::Paren, _, _) => true,
                        _ => false,
                    }) {
                        p1 + 2
                    } else {
                        p1 + 1
                    };
                    lemma_decl_tail_bounds(
                        s,
                        p2,
                        m,
                        BaseKind::RefKind(n),
                        0,
                        Some(NativeType::Named(n)),
                    );
                }
            },
            _ => {},
        }
    }
}

} // verus!
