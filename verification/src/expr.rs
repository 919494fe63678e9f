//! The expression sub-grammar.
//!
//! An expression is one atom — a parenthesized group, a string literal,
//! an integer literal, or an identifier — optionally followed by a binary
//! operator and another whole expression on the right.  The grammar has
//! no operator precedence and no left-associativity: `a - b - c` parses
//! as `a - (b - c)`.  That shape is deliberate (widths and simple
//! comparisons, not general arithmetic) and is proved here as a law,
//! together with the round trip between an expression tree and its token
//! form.

use vstd::prelude::*;
use crate::error::{Expected, ParseError};
use crate::token::{
    lemma_group_size, lemma_suffix_size_all, lemma_suffix_size_mono, suffix_size, Delim, Span, Tok,
};

verus! {

/// The closed set of binary operators of the language.
#[derive(Clone, Copy, Debug, PartialEq, Eq, Structural)]
pub enum BinOp {
    Add,
    Sub,
    Mul,
    Div,
    AndAnd,
    OrOr,
    Le,
    Lt,
    Ge,
    Gt,
    EqEq,
    Ne,
    Shl,
    Shr,
}

/// An expression tree.  Parenthesized sub-expressions keep their explicit
/// grouping so that a tree can be turned back into tokens unchanged.
#[derive(Debug, PartialEq)]
pub enum Expr {
    /// A string literal, carrying its unquoted text.
    LitStr(String, Span),
    /// An integer literal.
    LitInt(u64, Span),
    /// An expression between parentheses.
    Paren(Box<Expr>, Span),
    /// A reference to a variable (any identifier, keywords included).
    Variable(String, Span),
    /// A binary operation; the span is the operator's.
    Binary { left: Box<Expr>, op: BinOp, op_span: Span, right: Box<Expr> },
}

impl Expr {
    /// The position of an expression: for a compound expression, the
    /// position of its leftmost part.
    pub open spec fn spec_span(&self) -> Span
        decreases self,
    {
        match self {
            Expr::LitStr(_, sp) => *sp,
            Expr::LitInt(_, sp) => *sp,
            Expr::Paren(_, sp) => *sp,
            Expr::Variable(_, sp) => *sp,
            Expr::Binary { left, .. } => left.spec_span(),
        }
    }

    pub fn span(&self) -> (s: Span)
        ensures
            s == self.spec_span(),
        decreases self,
    {
        match self {
            Expr::LitStr(_, sp) => *sp,
            Expr::LitInt(_, sp) => *sp,
            Expr::Paren(_, sp) => *sp,
            Expr::Variable(_, sp) => *sp,
            Expr::Binary { left, .. } => left.span(),
        }
    }

    /// A fresh integer-literal node.
    pub fn new_lit_int(val: u64, span: Span) -> (e: Expr)
        ensures
            e == Expr::LitInt(val, span),
    {
        Expr::LitInt(val, span)
    }

    /// What the literal-integer extraction returns: the value for an
    /// integer-literal node, the type error for every other shape —
    /// a parenthesized integer included.
    pub open spec fn spec_get_lit_int(&self) -> Result<u64, ParseError> {
        match self {
            Expr::LitInt(v, _) => Ok(*v),
            _ => Err(ParseError::NotLiteral { span: self.spec_span() }),
        }
    }

    /// Extract the value of an integer-literal node; every other shape is
    /// the type error of the language.
    pub fn get_lit_int(&self) -> (r: Result<u64, ParseError>)
        ensures
            r == self.spec_get_lit_int(),
    {
        match self {
            Expr::LitInt(v, _) => Ok(*v),
            _ => Err(ParseError::NotLiteral { span: self.span() }),
        }
    }
}

/// The operator written with a single punctuation character.
pub open spec fn spec_one_char_binop(c: char) -> Option<BinOp> {
    if c == '+' {
        Some(BinOp::Add)
    } else if c == '-' {
        Some(BinOp::Sub)
    } else if c == '*' {
        Some(BinOp::Mul)
    } else if c == '/' {
        Some(BinOp::Div)
    } else if c == '<' {
        Some(BinOp::Lt)
    } else if c == '>' {
        Some(BinOp::Gt)
    } else {
        None
    }
}

/// The operator written with two adjacent punctuation characters.
pub open spec fn spec_two_char_binop(a: char, b: char) -> Option<BinOp> {
    if a == '&' && b == '&' {
        Some(BinOp::AndAnd)
    } else if a == '|' && b == '|' {
        Some(BinOp::OrOr)
    } else if a == '<' && b == '=' {
        Some(BinOp::Le)
    } else if a == '>' && b == '=' {
        Some(BinOp::Ge)
    } else if a == '=' && b == '=' {
        Some(BinOp::EqEq)
    } else if a == '!' && b == '=' {
        Some(BinOp::Ne)
    } else if a == '<' && b == '<' {
        Some(BinOp::Shl)
    } else if a == '>' && b == '>' {
        Some(BinOp::Shr)
    } else {
        None
    }
}

/// Operator lookahead: a two-character operator is recognized when its
/// first character is marked adjacent to the next token; otherwise a
/// single character may stand alone.  The result carries the operator,
/// its position, and the position after it.
pub open spec fn spec_peek_binop(s: Seq<Tok>, p: int) -> Option<(BinOp, Span, int)> {
    if 0 <= p < s.len() {
        match s[p] {
            Tok::Punct(c1, joint, sp) => {
                let two = if joint && p + 1 < s.len() {
                    match s[p + 1] {
                        Tok::Punct(c2, _, _) => spec_two_char_binop(c1, c2),
                        _ => None,
                    }
                } else {
                    None
                };
                match two {
                    Some(op) => Some((op, sp, p + 2)),
                    None => match spec_one_char_binop(c1) {
                        Some(op) => Some((op, sp, p + 1)),
                        None => None,
                    },
                }
            },
            _ => None,
        }
    } else {
        None
    }
}

fn one_char_binop(c: char) -> (r: Option<BinOp>)
    ensures
        r == spec_one_char_binop(c),
{
    if c == '+' {
        Some(BinOp::Add)
    } else if c == '-' {
        Some(BinOp::Sub)
    } else if c == '*' {
        Some(BinOp::Mul)
    } else if c == '/' {
        Some(BinOp::Div)
    } else if c == '<' {
        Some(BinOp::Lt)
    } else if c == '>' {
        Some(BinOp::Gt)
    } else {
        None
    }
}

fn two_char_binop(a: char, b: char) -> (r: Option<BinOp>)
    ensures
        r == spec_two_char_binop(a, b),
{
    if a == '&' && b == '&' {
        Some(BinOp::AndAnd)
    } else if a == '|' && b == '|' {
        Some(BinOp::OrOr)
    } else if a == '<' && b == '=' {
        Some(BinOp::Le)
    } else if a == '>' && b == '=' {
        Some(BinOp::Ge)
    } else if a == '=' && b == '=' {
        Some(BinOp::EqEq)
    } else if a == '!' && b == '=' {
        Some(BinOp::Ne)
    } else if a == '<' && b == '<' {
        Some(BinOp::Shl)
    } else if a == '>' && b == '>' {
        Some(BinOp::Shr)
    } else {
        None
    }
}

/// Look for a binary operator at `pos` without consuming anything.
pub fn peek_binop(toks: &Vec<Tok>, pos: usize) -> (r: Option<(BinOp, Span, usize)>)
    ensures
        (match r {
            Some((op, sp, np)) => spec_peek_binop(toks@, pos as int) == Some(
                (op, sp, np as int),
            ) && pos < np <= toks@.len(),
            None => spec_peek_binop(toks@, pos as int) is None,
        }),
{
    if pos >= toks.len() {
        return None;
    }
    let t = &toks[pos];
    match t {
        Tok::Punct(c1, joint, sp) => {
            if *joint && pos + 1 < toks.len() {
                let t2 = &toks[pos + 1];
                match t2 {
                    Tok::Punct(c2, _, _) => {
                        match two_char_binop(*c1, *c2) {
                            Some(op) => {
                                return Some((op, *sp, pos + 2));
                            },
                            None => {},
                        }
                    },
                    _ => {},
                }
            }
            match one_char_binop(*c1) {
                Some(op) => Some((op, *sp, pos + 1)),
                None => None,
            }
        },
        _ => None,
    }
}

/// The position an error points at when the input ran out.
pub open spec fn spec_end_span(s: Seq<Tok>) -> Span {
    if s.len() == 0 {
        Span { line: 0, column: 0 }
    } else {
        s.last().spec_span()
    }
}

pub fn end_span(toks: &Vec<Tok>) -> (sp: Span)
    ensures
        sp == spec_end_span(toks@),
{
    if toks.len() == 0 {
        Span { line: 0, column: 0 }
    } else {
        toks[toks.len() - 1].span()
    }
}

/// The atom grammar.  An atom is always exactly one token: a
/// parenthesized group (whose contents must form one whole expression),
/// a string literal, an integer literal, or any identifier.
pub open spec fn spec_parse_atom(s: Seq<Tok>, p: int) -> Result<Expr, ParseError>
    decreases suffix_size(s, p), 0int,
{
    if 0 <= p < s.len() {
        match s[p] {
            Tok::Group(Delim::Paren, inner, gsp) => {
                proof {
                    lemma_group_size(s, p, Delim::Paren, inner, gsp);
                    lemma_suffix_size_all(inner@);
                }
                match spec_parse_expr(inner@, 0) {
                    Ok((e, q)) => if q == inner@.len() {
                        Ok(Expr::Paren(Box::new(e), gsp))
                    } else {
                        Err(
                            ParseError::Syntax {
                                span: if 0 <= q < inner@.len() {
                                    inner@[q].spec_span()
                                } else {
                                    gsp
                                },
                                expected: Expected::End,
                            },
                        )
                    },
                    Err(e) => Err(e),
                }
            },
            Tok::Str(t, sp) => Ok(Expr::LitStr(t, sp)),
            Tok::Int(v, sp) => Ok(Expr::LitInt(v, sp)),
            Tok::Ident(n, sp) => Ok(Expr::Variable(n, sp)),
            Tok::Punct(_, _, sp) => Err(ParseError::Syntax { span: sp, expected: Expected::Atom }),
            Tok::Group(_, _, sp) => Err(ParseError::Syntax { span: sp, expected: Expected::Atom }),
        }
    } else {
        Err(ParseError::Syntax { span: spec_end_span(s), expected: Expected::Atom })
    }
}

/// The expression grammar: one atom, then — if an operator follows — the
/// operator and a whole expression as its right-hand side.  Every chain
/// therefore associates to the right.
pub open spec fn spec_parse_expr(s: Seq<Tok>, p: int) -> Result<(Expr, int), ParseError>
    decreases suffix_size(s, p), 1int,
{
    if !(0 <= p < s.len()) {
        // The same error the atom grammar gives on exhausted input.
        Err(ParseError::Syntax { span: spec_end_span(s), expected: Expected::Atom })
    } else {
        match spec_parse_atom(s, p) {
        Ok(left) => match spec_peek_binop(s, p + 1) {
            Some((op, osp, p2)) => {
                proof {
                    lemma_suffix_size_mono(s, p, p2);
                }
                match spec_parse_expr(s, p2) {
                    Ok((right, p3)) => Ok(
                        (
                            Expr::Binary {
                                left: Box::new(left),
                                op,
                                op_span: osp,
                                right: Box::new(right),
                            },
                            p3,
                        ),
                    ),
                    Err(e) => Err(e),
                }
            },
            None => Ok((left, p + 1)),
        },
            Err(e) => Err(e),
        }
    }
}

/// Parse one atom at `pos`; an atom occupies exactly the one token there.
pub fn parse_atom(toks: &Vec<Tok>, pos: usize) -> (r: Result<Expr, ParseError>)
    ensures
        r == spec_parse_atom(toks@, pos as int),
    decreases suffix_size(toks@, pos as int), 0int,
{
    if pos >= toks.len() {
        return Err(ParseError::Syntax { span: end_span(toks), expected: Expected::Atom });
    }
    let t = &toks[pos];
    match t {
        Tok::Group(Delim::Paren, inner, gsp) => {
            proof {
                lemma_group_size(toks@, pos as int, Delim::Paren, *inner, *gsp);
                lemma_suffix_size_all(inner@);
            }
            match parse_expr(inner, 0) {
                Ok((e, q)) => if q == inner.len() {
                    Ok(Expr::Paren(Box::new(e), *gsp))
                } else {
                    Err(
                        ParseError::Syntax {
                            span: if q < inner.len() {
                                inner[q].span()
                            } else {
                                *gsp
                            },
                            expected: Expected::End,
                        },
                    )
                },
                Err(e) => Err(e),
            }
        },
        Tok::Str(t, sp) => Ok(Expr::LitStr(t.clone(), *sp)),
        Tok::Int(v, sp) => Ok(Expr::LitInt(*v, *sp)),
        Tok::Ident(n, sp) => Ok(Expr::Variable(n.clone(), *sp)),
        Tok::Punct(_, _, sp) => Err(ParseError::Syntax { span: *sp, expected: Expected::Atom }),
        Tok::Group(_, _, sp) => Err(ParseError::Syntax { span: *sp, expected: Expected::Atom }),
    }
}

/// Parse a whole expression starting at `pos`; on success the second
/// component is the position after the expression.
pub fn parse_expr(toks: &Vec<Tok>, pos: usize) -> (r: Result<(Expr, usize), ParseError>)
    ensures
        (match r {
            Ok((e, np)) => spec_parse_expr(toks@, pos as int) == Ok::<_, ParseError>(
                (e, np as int),
            ) && pos < np <= toks@.len(),
            Err(e) => spec_parse_expr(toks@, pos as int) == Err::<(Expr, int), _>(e),
        }),
    decreases suffix_size(toks@, pos as int), 1int,
{
    if pos >= toks.len() {
        return Err(ParseError::Syntax { span: end_span(toks), expected: Expected::Atom });
    }
    let left = match parse_atom(toks, pos) {
        Ok(e) => e,
        Err(e) => {
            return Err(e);
        },
    };
    match peek_binop(toks, pos + 1) {
        Some((op, osp, p2)) => {
            proof {
                lemma_suffix_size_mono(toks@, pos as int, p2 as int);
            }
            match parse_expr(toks, p2) {
                Ok((right, p3)) => Ok(
                    (
                        Expr::Binary {
                            left: Box::new(left),
                            op,
                            op_span: osp,
                            right: Box::new(right),
                        },
                        p3,
                    ),
                ),
                Err(e) => Err(e),
            }
        },
        None => Ok((left, pos + 1)),
    }
}

/// The token form of an operator: one punctuation token, or two marked
/// adjacent for the two-character operators.
pub open spec fn op_toks(op: BinOp, sp: Span) -> Seq<Tok> {
    match op {
        BinOp::Add => seq![Tok::Punct('+', false, sp)],
        BinOp::Sub => seq![Tok::Punct('-', false, sp)],
        BinOp::Mul => seq![Tok::Punct('*', false, sp)],
        BinOp::Div => seq![Tok::Punct('/', false, sp)],
        BinOp::Lt => seq![Tok::Punct('<', false, sp)],
        BinOp::Gt => seq![Tok::Punct('>', false, sp)],
        BinOp::AndAnd => seq![Tok::Punct('&', true, sp), Tok::Punct('&', false, sp)],
        BinOp::OrOr => seq![Tok::Punct('|', true, sp), Tok::Punct('|', false, sp)],
        BinOp::Le => seq![Tok::Punct('<', true, sp), Tok::Punct('=', false, sp)],
        BinOp::Ge => seq![Tok::Punct('>', true, sp), Tok::Punct('=', false, sp)],
        BinOp::EqEq => seq![Tok::Punct('=', true, sp), Tok::Punct('=', false, sp)],
        BinOp::Ne => seq![Tok::Punct('!', true, sp), Tok::Punct('=', false, sp)],
        BinOp::Shl => seq![Tok::Punct('<', true, sp), Tok::Punct('<', false, sp)],
        BinOp::Shr => seq![Tok::Punct('>', true, sp), Tok::Punct('>', false, sp)],
    }
}


/// How many tokens the token form of `e` occupies.  Every atom is one
/// token; a binary node is its two sides with the operator between them.
pub open spec fn expr_toks_len(e: Expr) -> nat
    decreases e,
{
    match e {
        Expr::Binary { left, op, op_span, right } => expr_toks_len(*left) + op_toks(
            op,
            op_span,
        ).len() + expr_toks_len(*right),
        _ => 1,
    }
}

/// `s` is the token form of the expression `e`.
pub open spec fn is_expr_toks(e: Expr, s: Seq<Tok>) -> bool
    decreases e,
{
    match e {
        Expr::LitStr(t, sp) => s == seq![Tok::Str(t, sp)],
        Expr::LitInt(v, sp) => s == seq![Tok::Int(v, sp)],
        Expr::Variable(n, sp) => s == seq![Tok::Ident(n, sp)],
        Expr::Paren(inner, sp) => s.len() == 1 && (match s[0] {
            Tok::Group(d, v, gsp) => d == Delim::Paren && gsp == sp && is_expr_toks(*inner, v@),
            _ => false,
        }),
        Expr::Binary { left, op, op_span, right } => {
            let ll = expr_toks_len(*left) as int;
            let ol = op_toks(op, op_span).len() as int;
            &&& s.len() == ll + ol + expr_toks_len(*right)
            &&& is_expr_toks(*left, s.subrange(0, ll))
            &&& s.subrange(ll, ll + ol) == op_toks(op, op_span)
            &&& is_expr_toks(*right, s.subrange(ll + ol, s.len() as int))
        },
    }
}

/// The shape of every tree the parser itself produces: the left side of
/// a binary node is always a single atom, never another binary node.
pub open spec fn parser_shaped(e: Expr) -> bool
    decreases e,
{
    match e {
        Expr::Paren(inner, _) => parser_shaped(*inner),
        Expr::Binary { left, right, .. } => !(*left is Binary) && parser_shaped(*left)
            && parser_shaped(*right),
        _ => true,
    }
}

/// Append the token form of an operator.
fn push_op_tokens(op: BinOp, sp: Span, out: &mut Vec<Tok>)
    ensures
        final(out)@ == old(out)@ + op_toks(op, sp),
{
    let pair: (char, Option<char>) = match op {
        BinOp::Add => ('+', None),
        BinOp::Sub => ('-', None),
        BinOp::Mul => ('*', None),
        BinOp::Div => ('/', None),
        BinOp::Lt => ('<', None),
        BinOp::Gt => ('>', None),
        BinOp::AndAnd => ('&', Some('&')),
        BinOp::OrOr => ('|', Some('|')),
        BinOp::Le => ('<', Some('=')),
        BinOp::Ge => ('>', Some('=')),
        BinOp::EqEq => ('=', Some('=')),
        BinOp::Ne => ('!', Some('=')),
        BinOp::Shl => ('<', Some('<')),
        BinOp::Shr => ('>', Some('>')),
    };
    match pair.1 {
        None => {
            out.push(Tok::Punct(pair.0, false, sp));
        },
        Some(c2) => {
            out.push(Tok::Punct(pair.0, true, sp));
            out.push(Tok::Punct(c2, false, sp));
        },
    }
    proof {
        assert(out@ =~= old(out)@ + op_toks(op, sp));
    }
}

impl Expr {
    /// Turn the tree back into token form.  Every leaf and operator is
    /// emitted with the position stored in the tree, so a re-parse
    /// rebuilds the tree exactly (see `lemma_expr_round_trip`).
    pub fn to_tokens(&self) -> (r: Vec<Tok>)
        ensures
            is_expr_toks(*self, r@),
            r@.len() == expr_toks_len(*self),
        decreases self,
    {
        match self {
            Expr::LitStr(t, sp) => {
                let mut out: Vec<Tok> = Vec::new();
                out.push(Tok::Str(t.clone(), *sp));
                proof {
                    assert(out@ =~= seq![Tok::Str(*t, *sp)]);
                }
                out
            },
            Expr::LitInt(v, sp) => {
                let mut out: Vec<Tok> = Vec::new();
                out.push(Tok::Int(*v, *sp));
                proof {
                    assert(out@ =~= seq![Tok::Int(*v, *sp)]);
                }
                out
            },
            Expr::Variable(n, sp) => {
                let mut out: Vec<Tok> = Vec::new();
                out.push(Tok::Ident(n.clone(), *sp));
                proof {
                    assert(out@ =~= seq![Tok::Ident(*n, *sp)]);
                }
                out
            },
            Expr::Paren(inner, sp) => {
                let v = inner.to_tokens();
                let ghost gv = v;
                let mut out: Vec<Tok> = Vec::new();
                out.push(Tok::Group(Delim::Paren, v, *sp));
                proof {
                    assert(out@ =~= seq![Tok::Group(Delim::Paren, gv, *sp)]);
                    assert(out@[0] == Tok::Group(Delim::Paren, gv, *sp));
                }
                out
            },
            Expr::Binary { left, op, op_span, right } => {
                let mut out = left.to_tokens();
                let ghost sl = out@;
                push_op_tokens(*op, *op_span, &mut out);
                let mut r = right.to_tokens();
                let ghost sr = r@;
                out.append(&mut r);
                proof {
                    let ll = expr_toks_len(**left) as int;
                    let ol = op_toks(*op, *op_span).len() as int;
                    assert(out@ == sl + op_toks(*op, *op_span) + sr);
                    assert(out@.subrange(0, ll) =~= sl);
                    assert(out@.subrange(ll, ll + ol) =~= op_toks(*op, *op_span));
                    assert(out@.subrange(ll + ol, out@.len() as int) =~= sr);
                }
                out
            },
        }
    }
}

/// A serialized operator is recognized by the lookahead, wherever it
/// stands in a larger sequence.
proof fn lemma_peek_op_toks(s: Seq<Tok>, p: int, op: BinOp, osp: Span)
    requires
        0 <= p,
        p + op_toks(op, osp).len() <= s.len(),
        s.subrange(p, p + op_toks(op, osp).len() as int) == op_toks(op, osp),
    ensures
        spec_peek_binop(s, p) == Some((op, osp, p + op_toks(op, osp).len())),
{
    let ot = op_toks(op, osp);
    assert(s[p] == ot[0]) by {
        assert(s.subrange(p, p + ot.len() as int)[0] == ot[0]);
    }
    if ot.len() == 2 {
        assert(s[p + 1] == ot[1]) by {
            assert(s.subrange(p, p + ot.len() as int)[1] == ot[1]);
        }
    }
}

/// The token form of anything but a binary node is a single token.
proof fn lemma_atom_toks_len(e: Expr, t: Seq<Tok>)
    requires
        !(e is Binary),
        is_expr_toks(e, t),
    ensures
        t.len() == 1,
        expr_toks_len(e) == 1,
{
}

/// Re-parsing the token form of an atom yields that atom.
proof fn lemma_atom_round_trip(e: Expr, s: Seq<Tok>, p: int)
    requires
        parser_shaped(e),
        !(e is Binary),
        0 <= p < s.len(),
        is_expr_toks(e, seq![s[p]]),
    ensures
        spec_parse_atom(s, p) == Ok::<Expr, ParseError>(e),
    decreases e, 0int,
{
    match e {
        Expr::Paren(inner, sp) => {
            assert(seq![s[p]][0] == s[p]);
            match s[p] {
                Tok::Group(d, v, gsp) => {
                    assert(d == Delim::Paren && gsp == sp);
                    assert(is_expr_toks(*inner, v@));
                    assert(v@.subrange(0, v@.len() as int) =~= v@);
                    lemma_expr_round_trip_at(*inner, v@, 0);
                },
                _ => {
                    assert(false);
                },
            }
        },
        _ => {
            assert(seq![s[p]][0] == s[p]);
        },
    }
}

/// Re-parsing a token form that fills the rest of `s` from `p` on yields
/// the original tree and consumes everything.
proof fn lemma_expr_round_trip_at(e: Expr, s: Seq<Tok>, p: int)
    requires
        parser_shaped(e),
        0 <= p <= s.len(),
        is_expr_toks(e, s.subrange(p, s.len() as int)),
    ensures
        spec_parse_expr(s, p) == Ok::<(Expr, int), ParseError>((e, s.len() as int)),
    decreases e, 1int,
{
    let suf = s.subrange(p, s.len() as int);
    match e {
        Expr::Binary { left, op, op_span, right } => {
            let ll = expr_toks_len(*left) as int;
            let ol = op_toks(op, op_span).len() as int;
            lemma_atom_toks_len(*left, suf.subrange(0, ll));
            assert(ll == 1);
            assert(p < s.len());
            assert(seq![s[p]] =~= suf.subrange(0, 1));
            lemma_atom_round_trip(*left, s, p);
            assert(s.subrange(p + 1, p + 1 + ol) =~= suf.subrange(1, 1 + ol));
            lemma_peek_op_toks(s, p + 1, op, op_span);
            assert(s.subrange(p + 1 + ol, s.len() as int) =~= suf.subrange(
                1 + ol,
                suf.len() as int,
            ));
            lemma_expr_round_trip_at(*right, s, p + 1 + ol);
        },
        _ => {
            lemma_atom_toks_len(e, suf);
            assert(p == s.len() - 1);
            assert(seq![s[p]] =~= suf);
            lemma_atom_round_trip(e, s, p);
            assert(spec_peek_binop(s, p + 1) is None);
        },
    }
}

/// Whatever the expression grammar accepts has the parser's shape:
/// the left side of every binary node is a single atom.  Together with
/// the round-trip law this closes the loop: serializing any parsed
/// expression and re-parsing it yields the same tree.
pub proof fn lemma_parse_expr_shaped(s: Seq<Tok>, p: int)
    ensures
        (match spec_parse_expr(s, p) {
            Ok((e, _)) => parser_shaped(e),
            Err(_) => true,
        }),
        (match spec_parse_atom(s, p) {
            Ok(e) => parser_shaped(e) && !(e is Binary),
            Err(_) => true,
        }),
    decreases suffix_size(s, p),
{
    if 0 <= p < s.len() {
        match s[p] {
            Tok::Group(Delim::Paren, inner, gsp) => {
                lemma_group_size(s, p, Delim::Paren, inner, gsp);
                lemma_suffix_size_all(inner@);
                lemma_parse_expr_shaped(inner@, 0);
            },
            _ => {},
        }
        assert(match spec_parse_atom(s, p) {
            Ok(e) => parser_shaped(e) && !(e is Binary),
            Err(_) => true,
        });
        match spec_peek_binop(s, p + 1) {
            Some((op, osp, p2)) => {
                lemma_suffix_size_mono(s, p, p2);
                lemma_parse_expr_shaped(s, p2);
            },
            None => {},
        }
    }
}

/// The expression grammar stays within its sequence: a successful
/// parse ends after its starting position and never beyond the end.
pub proof fn lemma_parse_expr_bounds(s: Seq<Tok>, p: int)
    ensures
        (match spec_parse_expr(s, p) {
            Ok((_, q)) => p < q <= s.len(),
            Err(_) => true,
        }),
    decreases suffix_size(s, p),
{
    if 0 <= p < s.len() {
        match spec_peek_binop(s, p + 1) {
            Some((op, osp, p2)) => {
                lemma_suffix_size_mono(s, p, p2);
                lemma_parse_expr_bounds(s, p2);
            },
            None => {},
        }
    }
}

/// The round-trip law: re-parsing the token form of any tree the parser
/// can produce yields that tree, structurally identical, and consumes
/// the whole token sequence.
pub proof fn lemma_expr_round_trip(e: Expr, s: Seq<Tok>)
    requires
        parser_shaped(e),
        is_expr_toks(e, s),
    ensures
        spec_parse_expr(s, 0) == Ok::<(Expr, int), ParseError>((e, s.len() as int)),
{
    assert(s.subrange(0, s.len() as int) =~= s);
    lemma_expr_round_trip_at(e, s, 0);
}

/// The associativity law: an operator chain `a OP1 b OP2 c` over three
/// identifiers always parses right-recursively, as `a OP1 (b OP2 c)` —
/// never as the left-associative grouping.
pub proof fn lemma_parse_right_associative(
    n1: String,
    sp1: Span,
    op1: BinOp,
    osp1: Span,
    n2: String,
    sp2: Span,
    op2: BinOp,
    osp2: Span,
    n3: String,
    sp3: Span,
    s: Seq<Tok>,
)
    requires
        s == seq![Tok::Ident(n1, sp1)] + op_toks(op1, osp1) + seq![Tok::Ident(n2, sp2)] + op_toks(
            op2,
            osp2,
        ) + seq![Tok::Ident(n3, sp3)],
    ensures
        spec_parse_expr(s, 0) == Ok::<(Expr, int), ParseError>(
            (
                Expr::Binary {
                    left: Box::new(Expr::Variable(n1, sp1)),
                    op: op1,
                    op_span: osp1,
                    right: Box::new(
                        Expr::Binary {
                            left: Box::new(Expr::Variable(n2, sp2)),
                            op: op2,
                            op_span: osp2,
                            right: Box::new(Expr::Variable(n3, sp3)),
                        },
                    ),
                },
                s.len() as int,
            ),
        ),
{
    reveal_with_fuel(is_expr_toks, 3);
    reveal_with_fuel(expr_toks_len, 3);
    reveal_with_fuel(parser_shaped, 3);
    let inner = Expr::Binary {
        left: Box::new(Expr::Variable(n2, sp2)),
        op: op2,
        op_span: osp2,
        right: Box::new(Expr::Variable(n3, sp3)),
    };
    let e = Expr::Binary {
        left: Box::new(Expr::Variable(n1, sp1)),
        op: op1,
        op_span: osp1,
        right: Box::new(inner),
    };
    let s_inner = seq![Tok::Ident(n2, sp2)] + op_toks(op2, osp2) + seq![Tok::Ident(n3, sp3)];
    let ol2 = op_toks(op2, osp2).len() as int;
    assert(s_inner.subrange(0, 1) =~= seq![Tok::Ident(n2, sp2)]);
    assert(s_inner.subrange(1, 1 + ol2) =~= op_toks(op2, osp2));
    assert(s_inner.subrange(1 + ol2, s_inner.len() as int) =~= seq![Tok::Ident(n3, sp3)]);
    assert(is_expr_toks(inner, s_inner));
    let ol1 = op_toks(op1, osp1).len() as int;
    assert(s.subrange(0, 1) =~= seq![Tok::Ident(n1, sp1)]);
    assert(s.subrange(1, 1 + ol1) =~= op_toks(op1, osp1));
    assert(s.subrange(1 + ol1, s.len() as int) =~= s_inner);
    assert(is_expr_toks(e, s));
    lemma_expr_round_trip(e, s);
}

} // verus!
