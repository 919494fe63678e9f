//! The control-flow and statement grammar: conditional chains, the
//! deliberately restricted bounded loop, bookkeeping declarations that
//! are recognized and discarded, and the statement dispatcher.

use vstd::prelude::*;
use crate::decl::{
    parse_annotation, parse_var_decl, spec_apply_annotation, spec_parse_annotation,
    spec_parse_var_decl, VarDecl,
};
use crate::error::{Expected, ParseError};
use crate::expr::{
    end_span, parse_expr, peek_binop, spec_end_span, spec_parse_expr, spec_peek_binop, BinOp, Expr,
};
use crate::strutil::str_eqs;
use crate::token::{
    is_ident_text, is_punct, lemma_group_size, lemma_suffix_size_all, lemma_suffix_size_mono,
    lemma_suffix_size_step, lemma_tok_size_pos, suffix_size, tok_is_ident, tok_is_punct, Delim,
    Span, Tok,
};

verus! {

/// One `else if` arm of a conditional chain.
#[derive(Debug, PartialEq)]
pub struct IfArm {
    pub cond: Expr,
    pub body: Vec<Stmt>,
}

/// A full conditional chain: the `if`, its `else if` arms, and the
/// `else` body — empty when no `else` is written.
#[derive(Debug, PartialEq)]
pub struct IfChain {
    pub cond: Expr,
    pub then_body: Vec<Stmt>,
    pub elifs: Vec<IfArm>,
    pub else_body: Vec<Stmt>,
}

/// The bounded loop.  The middle clause may be absent, meaning "iterate
/// to the end of the enclosing container"; when present its comparison
/// is `<` or `<=` and its variable repeats the induction variable.
#[derive(Debug, PartialEq)]
pub struct ForLoop {
    /// The induction variable.
    pub var: String,
    /// The literal initializer.
    pub start: u64,
    /// The comparison of the middle clause, if one is written.
    pub cmp: Option<BinOp>,
    /// The bound of the middle clause, if one is written.
    pub end: Option<Expr>,
    pub body: Vec<Stmt>,
}

/// One statement of a class body.
#[derive(Debug, PartialEq)]
pub enum Stmt {
    Decl(VarDecl),
    If(IfChain),
    For(ForLoop),
}

/// The mathematical shape of an `else if` arm.
pub struct IfArmM {
    pub cond: Expr,
    pub body: Seq<StmtM>,
}

/// The mathematical shape of a conditional chain.
pub struct IfChainM {
    pub cond: Expr,
    pub then_body: Seq<StmtM>,
    pub elifs: Seq<IfArmM>,
    pub else_body: Seq<StmtM>,
}

/// The mathematical shape of a bounded loop.
pub struct ForLoopM {
    pub var: String,
    pub start: u64,
    pub cmp: Option<BinOp>,
    pub end: Option<Expr>,
    pub body: Seq<StmtM>,
}

/// The mathematical shape of a statement, with sequences where the tree
/// holds vectors.
pub enum StmtM {
    Decl(VarDecl),
    If(IfChainM),
    For(ForLoopM),
}

/// The shape of a statement.
pub open spec fn stmt_view(st: Stmt) -> StmtM
    decreases st,
{
    match st {
        Stmt::Decl(d) => StmtM::Decl(d),
        Stmt::If(c) => StmtM::If(
            IfChainM {
                cond: c.cond,
                then_body: stmts_view(c.then_body@),
                elifs: arms_view(c.elifs@),
                else_body: stmts_view(c.else_body@),
            },
        ),
        Stmt::For(f) => StmtM::For(
            ForLoopM {
                var: f.var,
                start: f.start,
                cmp: f.cmp,
                end: f.end,
                body: stmts_view(f.body@),
            },
        ),
    }
}

/// The shape of a statement sequence.
pub open spec fn stmts_view(v: Seq<Stmt>) -> Seq<StmtM>
    decreases v,
{
    if v.len() == 0 {
        Seq::empty()
    } else {
        seq![stmt_view(v[0])] + stmts_view(v.drop_first())
    }
}

/// The shape of an arm sequence.
pub open spec fn arms_view(v: Seq<IfArm>) -> Seq<IfArmM>
    decreases v,
{
    if v.len() == 0 {
        Seq::empty()
    } else {
        seq![IfArmM { cond: v[0].cond, body: stmts_view(v[0].body@) }] + arms_view(v.drop_first())
    }
}

/// The span of the token at `q`, or a fallback once the input is out.
pub open spec fn spec_at_span(s: Seq<Tok>, q: int, fb: Span) -> Span {
    if 0 <= q < s.len() {
        s[q].spec_span()
    } else {
        fb
    }
}

pub fn at_span(toks: &Vec<Tok>, q: usize, fb: Span) -> (r: Span)
    ensures
        r == spec_at_span(toks@, q as int, fb),
{
    if q < toks.len() {
        toks[q].span()
    } else {
        fb
    }
}

/// A bookkeeping declaration `int i, j;`: identifiers separated by
/// commas, closed by `;`.  Consumed and discarded; the result is the
/// position after the `;`.
pub open spec fn spec_parse_int_list(s: Seq<Tok>, p: int) -> Result<int, ParseError>
    decreases suffix_size(s, p),
{
    if 0 <= p < s.len() && s[p] is Ident {
        if p + 1 < s.len() && is_punct(s[p + 1], ',') {
            proof {
                lemma_suffix_size_mono(s, p, p + 2);
                lemma_tok_size_pos(s[p]);
                lemma_suffix_size_step(s, p);
            }
            spec_parse_int_list(s, p + 2)
        } else if p + 1 < s.len() && is_punct(s[p + 1], ';') {
            Ok(p + 2)
        } else {
            Err(
                ParseError::Syntax {
                    span: spec_at_span(s, p + 1, spec_end_span(s)),
                    expected: Expected::Semi,
                },
            )
        }
    } else {
        Err(
            ParseError::Syntax {
                span: spec_at_span(s, p, spec_end_span(s)),
                expected: Expected::Name,
            },
        )
    }
}

fn parse_int_list(toks: &Vec<Tok>, pos: usize) -> (r: Result<usize, ParseError>)
    requires
        pos <= toks@.len(),
    ensures
        (match r {
            Ok(q) => spec_parse_int_list(toks@, pos as int) == Ok::<int, ParseError>(q as int)
                && pos < q <= toks@.len(),
            Err(e) => spec_parse_int_list(toks@, pos as int) == Err::<int, ParseError>(e),
        }),
    decreases suffix_size(toks@, pos as int),
{
    if pos >= toks.len() {
        return Err(
            ParseError::Syntax { span: end_span(toks), expected: Expected::Name },
        );
    }
    let is_id = match &toks[pos] {
        Tok::Ident(_, _) => true,
        _ => false,
    };
    if !is_id {
        return Err(
            ParseError::Syntax { span: toks[pos].span(), expected: Expected::Name },
        );
    }
    if pos + 1 < toks.len() && tok_is_punct(&toks[pos + 1], ',') {
        proof {
            lemma_suffix_size_mono(toks@, pos as int, pos + 2);
            lemma_tok_size_pos(toks@[pos as int]);
            lemma_suffix_size_step(toks@, pos as int);
        }
        parse_int_list(toks, pos + 2)
    } else if pos + 1 < toks.len() && tok_is_punct(&toks[pos + 1], ';') {
        Ok(pos + 2)
    } else {
        Err(
            ParseError::Syntax {
                span: at_span(toks, pos + 1, end_span(toks)),
                expected: Expected::Semi,
            },
        )
    }
}

/// The header of a bounded loop, inside its parentheses: an optional
/// `int` keyword, the induction variable, `=`, a literal start, `;`, an
/// optional comparison clause, `;`, the variable again, and `++` — with
/// nothing after it.
pub open spec fn spec_parse_for_header(hdr: Seq<Tok>, gsp: Span) -> Result<
    (String, u64, Option<BinOp>, Option<Expr>),
    ParseError,
> {
    let q0: int = if hdr.len() > 0 && is_ident_text(hdr[0], "int"@) {
        1
    } else {
        0
    };
    if !(q0 < hdr.len() && hdr[q0] is Ident) {
        Err(
            ParseError::Syntax { span: spec_at_span(hdr, q0, gsp), expected: Expected::Name },
        )
    } else {
        let var = hdr[q0]->Ident_0;
        if !(q0 + 1 < hdr.len() && is_punct(hdr[q0 + 1], '=')) {
            Err(
                ParseError::Syntax {
                    span: spec_at_span(hdr, q0 + 1, gsp),
                    expected: Expected::EqSign,
                },
            )
        } else {
            match spec_parse_expr(hdr, q0 + 2) {
                Ok((e, q1)) => match e.spec_get_lit_int() {
                    Ok(start) => if !(q1 < hdr.len() && is_punct(hdr[q1], ';')) {
                        Err(
                            ParseError::Syntax {
                                span: spec_at_span(hdr, q1, gsp),
                                expected: Expected::Semi,
                            },
                        )
                    } else {
                        let q2 = q1 + 1;
                        if q2 < hdr.len() && is_punct(hdr[q2], ';') {
                            spec_parse_for_incr(hdr, q2 + 1, var, start, None, None, gsp)
                        } else if q2 < hdr.len() && hdr[q2] is Ident {
                            if hdr[q2]->Ident_0@ != var@ {
                                Err(
                                    ParseError::Syntax {
                                        span: hdr[q2].spec_span(),
                                        expected: Expected::LoopVar(var),
                                    },
                                )
                            } else {
                                match spec_peek_binop(hdr, q2 + 1) {
                                    Some((op, osp, q3)) => if op == BinOp::Le || op == BinOp::Lt {
                                        match spec_parse_expr(hdr, q3) {
                                            Ok((endx, q4)) => if q4 < hdr.len() && is_punct(
                                                hdr[q4],
                                                ';',
                                            ) {
                                                spec_parse_for_incr(
                                                    hdr,
                                                    q4 + 1,
                                                    var,
                                                    start,
                                                    Some(op),
                                                    Some(endx),
                                                    gsp,
                                                )
                                            } else {
                                                Err(
                                                    ParseError::Syntax {
                                                        span: spec_at_span(hdr, q4, gsp),
                                                        expected: Expected::Semi,
                                                    },
                                                )
                                            },
                                            Err(e) => Err(e),
                                        }
                                    } else {
                                        Err(ParseError::UnsupportedOperator { span: osp })
                                    },
                                    None => Err(
                                        ParseError::Syntax {
                                            span: spec_at_span(hdr, q2 + 1, gsp),
                                            expected: Expected::Operator,
                                        },
                                    ),
                                }
                            }
                        } else {
                            Err(
                                ParseError::Syntax {
                                    span: spec_at_span(hdr, q2, gsp),
                                    expected: Expected::Name,
                                },
                            )
                        }
                    },
                    Err(err) => Err(err),
                },
                Err(e) => Err(e),
            }
        }
    }
}

/// The increment clause: the induction variable again, exactly `++`,
/// and the end of the header.
pub open spec fn spec_parse_for_incr(
    hdr: Seq<Tok>,
    q: int,
    var: String,
    start: u64,
    cmp: Option<BinOp>,
    end: Option<Expr>,
    gsp: Span,
) -> Result<(String, u64, Option<BinOp>, Option<Expr>), ParseError> {
    if !(q < hdr.len() && hdr[q] is Ident) {
        Err(
            ParseError::Syntax { span: spec_at_span(hdr, q, gsp), expected: Expected::Name },
        )
    } else if hdr[q]->Ident_0@ != var@ {
        Err(
            ParseError::Syntax { span: hdr[q].spec_span(), expected: Expected::LoopVar(var) },
        )
    } else if !(q + 1 < hdr.len() && is_punct(hdr[q + 1], '+') && q + 2 < hdr.len() && is_punct(
        hdr[q + 2],
        '+',
    )) {
        Err(
            ParseError::Syntax {
                span: spec_at_span(hdr, q + 1, gsp),
                expected: Expected::PlusPlus,
            },
        )
    } else if q + 3 != hdr.len() {
        Err(
            ParseError::Syntax { span: spec_at_span(hdr, q + 3, gsp), expected: Expected::End },
        )
    } else {
        Ok((var, start, cmp, end))
    }
}

fn parse_for_header(hdr: &Vec<Tok>, gsp: Span) -> (r: Result<
    (String, u64, Option<BinOp>, Option<Expr>),
    ParseError,
>)
    ensures
        r == spec_parse_for_header(hdr@, gsp),
{
    let q0: usize = if hdr.len() > 0 && tok_is_ident(&hdr[0], "int") {
        1
    } else {
        0
    };
    if q0 >= hdr.len() {
        return Err(
            ParseError::Syntax { span: at_span(hdr, q0, gsp), expected: Expected::Name },
        );
    }
    let var: String = match &hdr[q0] {
        Tok::Ident(n, _) => n.clone(),
        t => {
            return Err(ParseError::Syntax { span: t.span(), expected: Expected::Name });
        },
    };
    if !(q0 + 1 < hdr.len() && tok_is_punct(&hdr[q0 + 1], '=')) {
        return Err(
            ParseError::Syntax { span: at_span(hdr, q0 + 1, gsp), expected: Expected::EqSign },
        );
    }
    let (e, q1) = match parse_expr(hdr, q0 + 2) {
        Ok(x) => x,
        Err(e) => {
            return Err(e);
        },
    };
    let start = match e.get_lit_int() {
        Ok(v) => v,
        Err(err) => {
            return Err(err);
        },
    };
    if !(q1 < hdr.len() && tok_is_punct(&hdr[q1], ';')) {
        return Err(
            ParseError::Syntax { span: at_span(hdr, q1, gsp), expected: Expected::Semi },
        );
    }
    let q2 = q1 + 1;
    if q2 < hdr.len() && tok_is_punct(&hdr[q2], ';') {
        return parse_for_incr(hdr, q2 + 1, var, start, None, None, gsp);
    }
    if q2 >= hdr.len() {
        return Err(
            ParseError::Syntax { span: at_span(hdr, q2, gsp), expected: Expected::Name },
        );
    }
    let v2: String = match &hdr[q2] {
        Tok::Ident(n, _) => n.clone(),
        _ => {
            return Err(
                ParseError::Syntax { span: at_span(hdr, q2, gsp), expected: Expected::Name },
            );
        },
    };
    if !str_eqs(v2.as_str(), var.as_str()) {
        return Err(
            ParseError::Syntax { span: hdr[q2].span(), expected: Expected::LoopVar(var) },
        );
    }
    match peek_binop(hdr, q2 + 1) {
        Some((op, osp, q3)) => {
            if !(op == BinOp::Le || op == BinOp::Lt) {
                return Err(ParseError::UnsupportedOperator { span: osp });
            }
            let (endx, q4) = match parse_expr(hdr, q3) {
                Ok(x) => x,
                Err(e) => {
                    return Err(e);
                },
            };
            if q4 < hdr.len() && tok_is_punct(&hdr[q4], ';') {
                parse_for_incr(hdr, q4 + 1, var, start, Some(op), Some(endx), gsp)
            } else {
                Err(
                    ParseError::Syntax { span: at_span(hdr, q4, gsp), expected: Expected::Semi },
                )
            }
        },
        None => Err(
            ParseError::Syntax {
                span: at_span(hdr, q2 + 1, gsp),
                expected: Expected::Operator,
            },
        ),
    }
}

fn parse_for_incr(
    hdr: &Vec<Tok>,
    q: usize,
    var: String,
    start: u64,
    cmp: Option<BinOp>,
    end: Option<Expr>,
    gsp: Span,
) -> (r: Result<(String, u64, Option<BinOp>, Option<Expr>), ParseError>)
    ensures
        r == spec_parse_for_incr(hdr@, q as int, var, start, cmp, end, gsp),
{
    if q >= hdr.len() {
        return Err(
            ParseError::Syntax { span: at_span(hdr, q, gsp), expected: Expected::Name },
        );
    }
    let v3: String = match &hdr[q] {
        Tok::Ident(n, _) => n.clone(),
        _ => {
            return Err(
                ParseError::Syntax { span: at_span(hdr, q, gsp), expected: Expected::Name },
            );
        },
    };
    if !str_eqs(v3.as_str(), var.as_str()) {
        return Err(
            ParseError::Syntax { span: hdr[q].span(), expected: Expected::LoopVar(var) },
        );
    }
    if !(q + 1 < hdr.len() && tok_is_punct(&hdr[q + 1], '+') && q + 2 < hdr.len() && tok_is_punct(
        &hdr[q + 2],
        '+',
    )) {
        return Err(
            ParseError::Syntax { span: at_span(hdr, q + 1, gsp), expected: Expected::PlusPlus },
        );
    }
    if q + 3 != hdr.len() {
        return Err(
            ParseError::Syntax { span: at_span(hdr, q + 3, gsp), expected: Expected::End },
        );
    }
    Ok((var, start, cmp, end))
}

/// A bookkeeping declaration makes progress: on success the position
/// after the `;` lies beyond the starting position.
pub proof fn lemma_int_list_progress(s: Seq<Tok>, p: int)
    ensures
        (match spec_parse_int_list(s, p) {
            Ok(q) => p < q <= s.len(),
            Err(_) => true,
        }),
    decreases suffix_size(s, p),
{
    if 0 <= p < s.len() && s[p] is Ident {
        if p + 1 < s.len() && is_punct(s[p + 1], ',') {
            lemma_suffix_size_mono(s, p, p + 2);
            lemma_tok_size_pos(s[p]);
            lemma_suffix_size_step(s, p);
            lemma_int_list_progress(s, p + 2);
        }
    }
}

/// One arm of a conditional: the parenthesized condition — one whole
/// expression — and the brace-delimited body.
pub open spec fn spec_parse_if_arm(s: Seq<Tok>, p: int) -> Result<
    ((Expr, Seq<StmtM>), int),
    ParseError,
>
    decreases suffix_size(s, p), 0int,
{
    if !(0 <= p < s.len()) {
        Err(
            ParseError::Syntax { span: spec_end_span(s), expected: Expected::ParenGroup },
        )
    } else {
        match s[p] {
            Tok::Group(Delim::Paren, ci, csp) => match spec_parse_expr(ci@, 0) {
                Ok((cond, cq)) => if cq == ci@.len() {
                    if p + 1 < s.len() && (match s[p + 1] {
                        Tok::Group(Delim::Brace, _, _) => true,
                        _ => false,
                    }) {
                        match s[p + 1] {
                            Tok::Group(Delim::Brace, bi, _) => {
                                proof {
                                    lemma_group_size(s, p + 1, Delim::Brace, bi, s[p + 1].spec_span());
                                    lemma_suffix_size_all(bi@);
                                    lemma_suffix_size_mono(s, p, p + 1);
                                }
                                match spec_parse_stmts(bi@, 0) {
                                    Ok((body, _)) => Ok(((cond, body), p + 2)),
                                    Err(e) => Err(e),
                                }
                            },
                            _ => Err(
                                ParseError::Syntax {
                                    span: spec_end_span(s),
                                    expected: Expected::BraceGroup,
                                },
                            ),
                        }
                    } else {
                        Err(
                            ParseError::Syntax {
                                span: spec_at_span(s, p + 1, spec_end_span(s)),
                                expected: Expected::BraceGroup,
                            },
                        )
                    }
                } else {
                    Err(
                        ParseError::Syntax {
                            span: if 0 <= cq < ci@.len() {
                                ci@[cq].spec_span()
                            } else {
                                csp
                            },
                            expected: Expected::End,
                        },
                    )
                },
                Err(e) => Err(e),
            },
            _ => Err(
                ParseError::Syntax { span: s[p].spec_span(), expected: Expected::ParenGroup },
            ),
        }
    }
}

/// The `else` tail of a conditional chain: zero or more `else if` arms
/// and at most one final `else` block, which ends the chain.  A missing
/// `else` leaves an empty false branch; it is not an error.
pub open spec fn spec_parse_else_tail(s: Seq<Tok>, p: int) -> Result<
    ((Seq<IfArmM>, Seq<StmtM>), int),
    ParseError,
>
    decreases suffix_size(s, p), 1int,
{
    if 0 <= p < s.len() && is_ident_text(s[p], "else"@) {
        if p + 1 < s.len() && is_ident_text(s[p + 1], "if"@) {
            proof {
                lemma_suffix_size_mono(s, p, p + 2);
                lemma_tok_size_pos(s[p]);
                lemma_suffix_size_step(s, p);
            }
            match spec_parse_if_arm(s, p + 2) {
                Ok(((c, b), q)) => if p < q <= s.len() {
                    proof {
                        lemma_suffix_size_mono(s, p, q);
                    }
                    match spec_parse_else_tail(s, q) {
                        Ok(((arms, els), q2)) => Ok(
                            ((seq![IfArmM { cond: c, body: b }] + arms, els), q2),
                        ),
                        Err(e) => Err(e),
                    }
                } else {
                    // The arm grammar always moves forward; this branch is
                    // unreachable and only closes the termination argument.
                    Err(
                        ParseError::Syntax {
                            span: spec_end_span(s),
                            expected: Expected::ElseBlock,
                        },
                    )
                },
                Err(e) => Err(e),
            }
        } else if p + 1 < s.len() && (match s[p + 1] {
            Tok::Group(Delim::Brace, _, _) => true,
            _ => false,
        }) {
            match s[p + 1] {
                Tok::Group(Delim::Brace, bi, _) => {
                    proof {
                        lemma_group_size(s, p + 1, Delim::Brace, bi, s[p + 1].spec_span());
                        lemma_suffix_size_all(bi@);
                        lemma_suffix_size_mono(s, p, p + 1);
                    }
                    match spec_parse_stmts(bi@, 0) {
                        Ok((els, _)) => Ok(((Seq::empty(), els), p + 2)),
                        Err(e) => Err(e),
                    }
                },
                _ => Err(
                    ParseError::Syntax {
                        span: spec_end_span(s),
                        expected: Expected::ElseBlock,
                    },
                ),
            }
        } else {
            Err(
                ParseError::Syntax {
                    span: spec_at_span(s, p + 1, spec_end_span(s)),
                    expected: Expected::ElseBlock,
                },
            )
        }
    } else {
        Ok(((Seq::empty(), Seq::empty()), p))
    }
}

/// A conditional chain: `if ( cond ) { body }`, then its `else` tail.
pub open spec fn spec_parse_if_chain(s: Seq<Tok>, p: int) -> Result<(IfChainM, int), ParseError>
    decreases suffix_size(s, p), 2int,
{
    if !(0 <= p < s.len() && is_ident_text(s[p], "if"@)) {
        Err(
            ParseError::Syntax {
                span: spec_at_span(s, p, spec_end_span(s)),
                expected: Expected::Stmt,
            },
        )
    } else {
        proof {
            lemma_suffix_size_mono(s, p, p + 1);
            lemma_tok_size_pos(s[p]);
            lemma_suffix_size_step(s, p);
        }
        match spec_parse_if_arm(s, p + 1) {
            Ok(((cond, then_body), q)) => if p < q <= s.len() {
                proof {
                    lemma_suffix_size_mono(s, p, q);
                }
                match spec_parse_else_tail(s, q) {
                    Ok(((elifs, else_body), q2)) => Ok(
                        (IfChainM { cond, then_body, elifs, else_body }, q2),
                    ),
                    Err(e) => Err(e),
                }
            } else {
                // Unreachable: the arm grammar always moves forward.
                Err(
                    ParseError::Syntax { span: spec_end_span(s), expected: Expected::ElseBlock },
                )
            },
            Err(e) => Err(e),
        }
    }
}

/// A bounded loop: `for`, the header in parentheses, and the body.
pub open spec fn spec_parse_for(s: Seq<Tok>, p: int) -> Result<(ForLoopM, int), ParseError>
    decreases suffix_size(s, p), 2int,
{
    if !(0 <= p < s.len() && is_ident_text(s[p], "for"@)) {
        Err(
            ParseError::Syntax {
                span: spec_at_span(s, p, spec_end_span(s)),
                expected: Expected::Stmt,
            },
        )
    } else if !(p + 1 < s.len() && (match s[p + 1] {
        Tok::Group(Delim::Paren, _, _) => true,
        _ => false,
    })) {
        Err(
            ParseError::Syntax {
                span: spec_at_span(s, p + 1, spec_end_span(s)),
                expected: Expected::ParenGroup,
            },
        )
    } else {
        match s[p + 1] {
            Tok::Group(Delim::Paren, hdr, gsp) => match spec_parse_for_header(hdr@, gsp) {
                Ok((var, start, cmp, end)) => if p + 2 < s.len() && (match s[p + 2] {
                    Tok::Group(Delim::Brace, _, _) => true,
                    _ => false,
                }) {
                    match s[p + 2] {
                        Tok::Group(Delim::Brace, bi, _) => {
                            proof {
                                lemma_group_size(s, p + 2, Delim::Brace, bi, s[p + 2].spec_span());
                                lemma_suffix_size_all(bi@);
                                lemma_suffix_size_mono(s, p, p + 2);
                            }
                            match spec_parse_stmts(bi@, 0) {
                                Ok((body, _)) => Ok(
                                    (ForLoopM { var, start, cmp, end, body }, p + 3),
                                ),
                                Err(e) => Err(e),
                            }
                        },
                        _ => Err(
                            ParseError::Syntax {
                                span: spec_end_span(s),
                                expected: Expected::BraceGroup,
                            },
                        ),
                    }
                } else {
                    Err(
                        ParseError::Syntax {
                            span: spec_at_span(s, p + 2, spec_end_span(s)),
                            expected: Expected::BraceGroup,
                        },
                    )
                },
                Err(e) => Err(e),
            },
            _ => Err(
                ParseError::Syntax {
                    span: spec_at_span(s, p + 1, spec_end_span(s)),
                    expected: Expected::ParenGroup,
                },
            ),
        }
    }
}

/// The statement dispatcher.  Bookkeeping `int i, j;` declarations are
/// recognized and silently discarded first; then the next token
/// decides: `if` begins a conditional chain, `for` a bounded loop, any
/// other identifier a field declaration with its mandatory `;` and an
/// optional trailing annotation; anything else is an error.
pub open spec fn spec_parse_stmt(s: Seq<Tok>, p: int) -> Result<(StmtM, int), ParseError>
    decreases suffix_size(s, p), 3int,
{
    if !(0 <= p < s.len()) {
        Err(
            ParseError::Syntax { span: spec_end_span(s), expected: Expected::Stmt },
        )
    } else if is_ident_text(s[p], "int"@) && p + 1 < s.len() && s[p + 1] is Ident {
        match spec_parse_int_list(s, p + 1) {
            Ok(q) => {
                proof {
                    lemma_int_list_progress(s, p + 1);
                    lemma_suffix_size_mono(s, p, q);
                }
                spec_parse_stmt(s, q)
            },
            Err(e) => Err(e),
        }
    } else if is_ident_text(s[p], "if"@) {
        match spec_parse_if_chain(s, p) {
            Ok((c, q)) => Ok((StmtM::If(c), q)),
            Err(e) => Err(e),
        }
    } else if is_ident_text(s[p], "for"@) {
        match spec_parse_for(s, p) {
            Ok((f, q)) => Ok((StmtM::For(f), q)),
            Err(e) => Err(e),
        }
    } else if s[p] is Ident {
        match spec_parse_var_decl(s, p) {
            Ok((d, q)) => if q < s.len() && is_punct(s[q], ';') {
                if q + 1 < s.len() && is_punct(s[q + 1], '#') {
                    match spec_parse_annotation(s, q + 1) {
                        Ok((a, q3)) => Ok((StmtM::Decl(spec_apply_annotation(d, a)), q3)),
                        Err(e) => Err(e),
                    }
                } else {
                    Ok((StmtM::Decl(d), q + 1))
                }
            } else {
                Err(
                    ParseError::Syntax {
                        span: spec_at_span(s, q, spec_end_span(s)),
                        expected: Expected::Semi,
                    },
                )
            },
            Err(e) => Err(e),
        }
    } else {
        Err(
            ParseError::Syntax { span: s[p].spec_span(), expected: Expected::Stmt },
        )
    }
}

/// A run of statements filling the whole sequence.
pub open spec fn spec_parse_stmts(s: Seq<Tok>, p: int) -> Result<(Seq<StmtM>, int), ParseError>
    decreases suffix_size(s, p), 4int,
{
    if !(0 <= p < s.len()) {
        Ok((Seq::empty(), p))
    } else {
        match spec_parse_stmt(s, p) {
            Ok((st, q)) => if p < q <= s.len() {
                proof {
                    lemma_suffix_size_mono(s, p, q);
                }
                match spec_parse_stmts(s, q) {
                    Ok((rest, q2)) => Ok((seq![st] + rest, q2)),
                    Err(e) => Err(e),
                }
            } else {
                // Unreachable: the statement grammar always moves forward.
                Err(
                    ParseError::Syntax { span: spec_end_span(s), expected: Expected::Stmt },
                )
            },
            Err(e) => Err(e),
        }
    }
}

/// Parse one conditional arm: `( cond ) { body }`.
fn parse_if_arm(toks: &Vec<Tok>, pos: usize) -> (r: Result<((Expr, Vec<Stmt>), usize), ParseError>)
    requires
        pos <= toks@.len(),
    ensures
        (match r {
            Ok(((cond, v), q)) => spec_parse_if_arm(toks@, pos as int) == Ok::<_, ParseError>(
                ((cond, stmts_view(v@)), q as int),
            ) && pos < q <= toks@.len(),
            Err(e) => spec_parse_if_arm(toks@, pos as int) == Err::<((Expr, Seq<StmtM>), int), _>(
                e,
            ),
        }),
    decreases suffix_size(toks@, pos as int), 0int,
{
    if pos >= toks.len() {
        return Err(
            ParseError::Syntax { span: end_span(toks), expected: Expected::ParenGroup },
        );
    }
    match &toks[pos] {
        Tok::Group(Delim::Paren, ci, csp) => {
            let (cond, cq) = match parse_expr(ci, 0) {
                Ok(x) => x,
                Err(e) => {
                    return Err(e);
                },
            };
            if cq != ci.len() {
                return Err(
                    ParseError::Syntax {
                        span: if cq < ci.len() {
                            ci[cq].span()
                        } else {
                            *csp
                        },
                        expected: Expected::End,
                    },
                );
            }
            if pos + 1 < toks.len() {
                match &toks[pos + 1] {
                    Tok::Group(Delim::Brace, bi, bsp) => {
                        proof {
                            lemma_group_size(
                                toks@,
                                pos + 1,
                                Delim::Brace,
                                *bi,
                                toks@[pos as int + 1].spec_span(),
                            );
                            lemma_suffix_size_all(bi@);
                            lemma_suffix_size_mono(toks@, pos as int, pos + 1);
                        }
                        match parse_stmts(bi, 0) {
                            Ok((body, _)) => Ok(((cond, body), pos + 2)),
                            Err(e) => Err(e),
                        }
                    },
                    t => Err(
                        ParseError::Syntax { span: t.span(), expected: Expected::BraceGroup },
                    ),
                }
            } else {
                Err(
                    ParseError::Syntax {
                        span: at_span(toks, pos + 1, end_span(toks)),
                        expected: Expected::BraceGroup,
                    },
                )
            }
        },
        t => Err(ParseError::Syntax { span: t.span(), expected: Expected::ParenGroup }),
    }
}

/// Parse the `else` tail of a conditional chain.
fn parse_else_tail(toks: &Vec<Tok>, pos: usize) -> (r: Result<
    ((Vec<IfArm>, Vec<Stmt>), usize),
    ParseError,
>)
    requires
        pos <= toks@.len(),
    ensures
        (match r {
            Ok(((arms, els), q)) => spec_parse_else_tail(toks@, pos as int) == Ok::<_, ParseError>(
                ((arms_view(arms@), stmts_view(els@)), q as int),
            ) && pos <= q <= toks@.len(),
            Err(e) => spec_parse_else_tail(toks@, pos as int) == Err::<
                ((Seq<IfArmM>, Seq<StmtM>), int),
                _,
            >(e),
        }),
    decreases suffix_size(toks@, pos as int), 1int,
{
    if !(pos < toks.len() && tok_is_ident(&toks[pos], "else")) {
        let arms: Vec<IfArm> = Vec::new();
        let els: Vec<Stmt> = Vec::new();
        return Ok(((arms, els), pos));
    }
    if pos + 1 < toks.len() && tok_is_ident(&toks[pos + 1], "if") {
        proof {
            lemma_suffix_size_mono(toks@, pos as int, pos + 2);
            lemma_tok_size_pos(toks@[pos as int]);
            lemma_suffix_size_step(toks@, pos as int);
        }
        let ((c, b), q) = match parse_if_arm(toks, pos + 2) {
            Ok(x) => x,
            Err(e) => {
                return Err(e);
            },
        };
        proof {
            lemma_suffix_size_mono(toks@, pos as int, q as int);
        }
        let ((rest_arms, els), q2) = match parse_else_tail(toks, q) {
            Ok(x) => x,
            Err(e) => {
                return Err(e);
            },
        };
        let ghost grest = rest_arms@;
        let mut arms = rest_arms;
        let arm = IfArm { cond: c, body: b };
        let ghost garm = arm;
        arms.insert(0, arm);
        proof {
            assert(arms@ =~= seq![garm] + grest);
            assert(arms@[0] == garm);
            assert(arms@.drop_first() =~= grest);
            assert(arms_view(arms@) =~= seq![IfArmM { cond: garm.cond, body: stmts_view(garm.body@) }]
                + arms_view(grest));
        }
        Ok(((arms, els), q2))
    } else if pos + 1 < toks.len() {
        match &toks[pos + 1] {
            Tok::Group(Delim::Brace, bi, _) => {
                proof {
                    lemma_group_size(
                        toks@,
                        pos + 1,
                        Delim::Brace,
                        *bi,
                        toks@[pos as int + 1].spec_span(),
                    );
                    lemma_suffix_size_all(bi@);
                    lemma_suffix_size_mono(toks@, pos as int, pos + 1);
                }
                match parse_stmts(bi, 0) {
                    Ok((els, _)) => {
                        let arms: Vec<IfArm> = Vec::new();
                        Ok(((arms, els), pos + 2))
                    },
                    Err(e) => Err(e),
                }
            },
            t => Err(ParseError::Syntax { span: t.span(), expected: Expected::ElseBlock }),
        }
    } else {
        Err(
            ParseError::Syntax {
                span: at_span(toks, pos + 1, end_span(toks)),
                expected: Expected::ElseBlock,
            },
        )
    }
}

/// Parse a whole conditional chain beginning at its `if`.
pub fn parse_if_chain(toks: &Vec<Tok>, pos: usize) -> (r: Result<(IfChain, usize), ParseError>)
    requires
        pos <= toks@.len(),
    ensures
        (match r {
            Ok((c, q)) => spec_parse_if_chain(toks@, pos as int) == Ok::<_, ParseError>(
                (
                    IfChainM {
                        cond: c.cond,
                        then_body: stmts_view(c.then_body@),
                        elifs: arms_view(c.elifs@),
                        else_body: stmts_view(c.else_body@),
                    },
                    q as int,
                ),
            ) && pos < q <= toks@.len(),
            Err(e) => spec_parse_if_chain(toks@, pos as int) == Err::<(IfChainM, int), _>(e),
        }),
    decreases suffix_size(toks@, pos as int), 2int,
{
    if !(pos < toks.len() && tok_is_ident(&toks[pos], "if")) {
        return Err(
            ParseError::Syntax {
                span: at_span(toks, pos, end_span(toks)),
                expected: Expected::Stmt,
            },
        );
    }
    proof {
        lemma_suffix_size_mono(toks@, pos as int, pos + 1);
        lemma_tok_size_pos(toks@[pos as int]);
        lemma_suffix_size_step(toks@, pos as int);
    }
    let ((cond, then_body), q) = match parse_if_arm(toks, pos + 1) {
        Ok(x) => x,
        Err(e) => {
            return Err(e);
        },
    };
    proof {
        lemma_suffix_size_mono(toks@, pos as int, q as int);
    }
    match parse_else_tail(toks, q) {
        Ok(((elifs, else_body), q2)) => Ok(
            (IfChain { cond, then_body, elifs, else_body }, q2),
        ),
        Err(e) => Err(e),
    }
}

/// Parse a bounded loop beginning at its `for`.
pub fn parse_for(toks: &Vec<Tok>, pos: usize) -> (r: Result<(ForLoop, usize), ParseError>)
    requires
        pos <= toks@.len(),
    ensures
        (match r {
            Ok((f, q)) => spec_parse_for(toks@, pos as int) == Ok::<_, ParseError>(
                (
                    ForLoopM {
                        var: f.var,
                        start: f.start,
                        cmp: f.cmp,
                        end: f.end,
                        body: stmts_view(f.body@),
                    },
                    q as int,
                ),
            ) && pos < q <= toks@.len(),
            Err(e) => spec_parse_for(toks@, pos as int) == Err::<(ForLoopM, int), _>(e),
        }),
    decreases suffix_size(toks@, pos as int), 2int,
{
    if !(pos < toks.len() && tok_is_ident(&toks[pos], "for")) {
        return Err(
            ParseError::Syntax {
                span: at_span(toks, pos, end_span(toks)),
                expected: Expected::Stmt,
            },
        );
    }
    if pos + 1 >= toks.len() {
        return Err(
            ParseError::Syntax {
                span: at_span(toks, pos + 1, end_span(toks)),
                expected: Expected::ParenGroup,
            },
        );
    }
    let (var, start, cmp, end) = match &toks[pos + 1] {
        Tok::Group(Delim::Paren, hdr, gsp) => match parse_for_header(hdr, *gsp) {
            Ok(x) => x,
            Err(e) => {
                return Err(e);
            },
        },
        t => {
            return Err(
                ParseError::Syntax { span: t.span(), expected: Expected::ParenGroup },
            );
        },
    };
    if pos + 2 >= toks.len() {
        return Err(
            ParseError::Syntax {
                span: at_span(toks, pos + 2, end_span(toks)),
                expected: Expected::BraceGroup,
            },
        );
    }
    match &toks[pos + 2] {
        Tok::Group(Delim::Brace, bi, _) => {
            proof {
                lemma_group_size(
                    toks@,
                    pos + 2,
                    Delim::Brace,
                    *bi,
                    toks@[pos as int + 2].spec_span(),
                );
                lemma_suffix_size_all(bi@);
                lemma_suffix_size_mono(toks@, pos as int, pos + 2);
            }
            match parse_stmts(bi, 0) {
                Ok((body, _)) => Ok((ForLoop { var, start, cmp, end, body }, pos + 3)),
                Err(e) => Err(e),
            }
        },
        t => Err(ParseError::Syntax { span: t.span(), expected: Expected::BraceGroup }),
    }
}

/// Parse one statement: the dispatcher of the class-body grammar.
pub fn parse_stmt(toks: &Vec<Tok>, pos: usize) -> (r: Result<(Stmt, usize), ParseError>)
    requires
        pos <= toks@.len(),
    ensures
        (match r {
            Ok((st, q)) => spec_parse_stmt(toks@, pos as int) == Ok::<_, ParseError>(
                (stmt_view(st), q as int),
            ) && pos < q <= toks@.len(),
            Err(e) => spec_parse_stmt(toks@, pos as int) == Err::<(StmtM, int), _>(e),
        }),
    decreases suffix_size(toks@, pos as int), 3int,
{
    if pos >= toks.len() {
        return Err(
            ParseError::Syntax { span: end_span(toks), expected: Expected::Stmt },
        );
    }
    let next_is_ident = pos + 1 < toks.len() && (match &toks[pos + 1] {
        Tok::Ident(_, _) => true,
        _ => false,
    });
    if tok_is_ident(&toks[pos], "int") && next_is_ident {
        let q = match parse_int_list(toks, pos + 1) {
            Ok(q) => q,
            Err(e) => {
                return Err(e);
            },
        };
        proof {
            lemma_int_list_progress(toks@, pos + 1);
            lemma_suffix_size_mono(toks@, pos as int, q as int);
        }
        parse_stmt(toks, q)
    } else if tok_is_ident(&toks[pos], "if") {
        match parse_if_chain(toks, pos) {
            Ok((c, q)) => Ok((Stmt::If(c), q)),
            Err(e) => Err(e),
        }
    } else if tok_is_ident(&toks[pos], "for") {
        match parse_for(toks, pos) {
            Ok((f, q)) => Ok((Stmt::For(f), q)),
            Err(e) => Err(e),
        }
    } else {
        let is_id = match &toks[pos] {
            Tok::Ident(_, _) => true,
            _ => false,
        };
        if !is_id {
            return Err(
                ParseError::Syntax { span: toks[pos].span(), expected: Expected::Stmt },
            );
        }
        let (d, q) = match parse_var_decl(toks, pos) {
            Ok(x) => x,
            Err(e) => {
                return Err(e);
            },
        };
        if !(q < toks.len() && tok_is_punct(&toks[q], ';')) {
            return Err(
                ParseError::Syntax {
                    span: at_span(toks, q, end_span(toks)),
                    expected: Expected::Semi,
                },
            );
        }
        if q + 1 < toks.len() && tok_is_punct(&toks[q + 1], '#') {
            match parse_annotation(toks, q + 1) {
                Ok((a, q3)) => Ok((Stmt::Decl(crate::decl::apply_annotation(d, a)), q3)),
                Err(e) => Err(e),
            }
        } else {
            Ok((Stmt::Decl(d), q + 1))
        }
    }
}

/// Parse statements until the sequence is exhausted.
pub fn parse_stmts(toks: &Vec<Tok>, pos: usize) -> (r: Result<(Vec<Stmt>, usize), ParseError>)
    requires
        pos <= toks@.len(),
    ensures
        (match r {
            Ok((v, q)) => spec_parse_stmts(toks@, pos as int) == Ok::<_, ParseError>(
                (stmts_view(v@), q as int),
            ) && pos <= q <= toks@.len(),
            Err(e) => spec_parse_stmts(toks@, pos as int) == Err::<(Seq<StmtM>, int), _>(e),
        }),
    decreases suffix_size(toks@, pos as int), 4int,
{
    if pos >= toks.len() {
        let v: Vec<Stmt> = Vec::new();
        return Ok((v, pos));
    }
    let (st, q) = match parse_stmt(toks, pos) {
        Ok(x) => x,
        Err(e) => {
            return Err(e);
        },
    };
    proof {
        lemma_suffix_size_mono(toks@, pos as int, q as int);
    }
    let (rest, q2) = match parse_stmts(toks, q) {
        Ok(x) => x,
        Err(e) => {
            return Err(e);
        },
    };
    let ghost grest = rest@;
    let ghost gst = st;
    let mut v = rest;
    v.insert(0, st);
    proof {
        assert(v@ =~= seq![gst] + grest);
        assert(v@[0] == gst);
        assert(v@.drop_first() =~= grest);
        assert(stmts_view(v@) =~= seq![stmt_view(gst)] + stmts_view(grest));
    }
    Ok((v, q2))
}


/// A successful statement run never stops early: it consumes every
/// token of the sequence it was given.  The class-body and branch
/// grammars hand whole groups to the statement run, so nothing inside a
/// brace group is silently dropped.
pub proof fn lemma_stmts_consume_all(s: Seq<Tok>, p: int)
    requires
        0 <= p <= s.len(),
    ensures
        (match spec_parse_stmts(s, p) {
            Ok((_, q)) => q == s.len(),
            Err(_) => true,
        }),
    decreases suffix_size(s, p),
{
    if p < s.len() {
        match spec_parse_stmt(s, p) {
            Ok((_, q)) => {
                if p < q <= s.len() {
                    lemma_suffix_size_mono(s, p, q);
                    lemma_stmts_consume_all(s, q);
                }
            },
            Err(_) => {},
        }
    }
}

} // verus!
