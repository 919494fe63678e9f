//! The token model of the box-description language.
//!
//! A class definition arrives as a sequence of tokens: identifiers, integer
//! and string literals, punctuation characters, and matched delimiter groups
//! whose contents are again token sequences.  Producing this sequence from
//! source text is the tokenizer's job and happens outside the library; the
//! grammar here consumes it.

use vstd::prelude::*;

verus! {

/// A source position carried by every token, used only for diagnostics.
/// Positions take no part in the meaning of a parse.
#[derive(Clone, Copy, Debug, PartialEq, Eq, Structural)]
pub struct Span {
    pub line: u32,
    pub column: u32,
}

/// The delimiter of a token group.
#[derive(Clone, Copy, Debug, PartialEq, Eq, Structural)]
pub enum Delim {
    Paren,
    Bracket,
    Brace,
}

/// One token of a class definition.
///
/// A punctuation token records whether the next token follows with no
/// space between them (`joint`), which is what lets the grammar tell a
/// two-character operator such as `<=` from `<` followed by `=`.
#[derive(Debug, PartialEq)]
pub enum Tok {
    /// An identifier or keyword, as tokenized text.
    Ident(String, Span),
    /// An integer literal, already converted to its value.
    Int(u64, Span),
    /// A string literal, carrying the unquoted text.
    Str(String, Span),
    /// A punctuation character; the flag is true when the following token
    /// is adjacent with no intervening space.
    Punct(char, bool, Span),
    /// A matched delimiter group and the tokens inside it.
    Group(Delim, Vec<Tok>, Span),
}

impl Tok {
    /// The position of the token, for diagnostics.
    pub fn span(&self) -> (s: Span)
        ensures
            s == self.spec_span(),
    {
        match self {
            Tok::Ident(_, sp) => *sp,
            Tok::Int(_, sp) => *sp,
            Tok::Str(_, sp) => *sp,
            Tok::Punct(_, _, sp) => *sp,
            Tok::Group(_, _, sp) => *sp,
        }
    }

    pub open spec fn spec_span(&self) -> Span {
        match self {
            Tok::Ident(_, sp) => *sp,
            Tok::Int(_, sp) => *sp,
            Tok::Str(_, sp) => *sp,
            Tok::Punct(_, _, sp) => *sp,
            Tok::Group(_, _, sp) => *sp,
        }
    }
}

/// The token is the given punctuation character.
pub open spec fn is_punct(t: Tok, c: char) -> bool {
    match t {
        Tok::Punct(c2, _, _) => c2 == c,
        _ => false,
    }
}

/// Test a token against a punctuation character.
pub fn tok_is_punct(t: &Tok, c: char) -> (r: bool)
    ensures
        r == is_punct(*t, c),
{
    match t {
        Tok::Punct(c2, _, _) => *c2 == c,
        _ => false,
    }
}

/// The token is an identifier with the given text.
pub open spec fn is_ident_text(t: Tok, w: Seq<char>) -> bool {
    match t {
        Tok::Ident(n, _) => n@ == w,
        _ => false,
    }
}

/// Test a token against an identifier's text.
pub fn tok_is_ident(t: &Tok, w: &str) -> (r: bool)
    ensures
        r == is_ident_text(*t, w@),
{
    match t {
        Tok::Ident(n, _) => crate::strutil::str_eqs(n.as_str(), w),
        _ => false,
    }
}

/// The size of one token: groups count themselves plus their contents.
/// Every recursive descent of the grammar walks down this measure.
pub open spec fn tok_size(t: Tok) -> nat
    decreases t,
{
    match t {
        Tok::Group(_, inner, _) => 1 + toks_size(inner@),
        _ => 1,
    }
}

/// The summed size of a token sequence.
pub open spec fn toks_size(s: Seq<Tok>) -> nat
    decreases s,
{
    if s.len() == 0 {
        0
    } else {
        tok_size(s[0]) + toks_size(s.drop_first())
    }
}

/// The size of the part of `s` from position `p` on: the termination
/// measure of every parsing function.
pub open spec fn suffix_size(s: Seq<Tok>, p: int) -> nat {
    toks_size(s.subrange(p, s.len() as int))
}

/// A suffix that starts at the beginning is the whole sequence.
pub proof fn lemma_suffix_size_all(s: Seq<Tok>)
    ensures
        suffix_size(s, 0) == toks_size(s),
{
    assert(s.subrange(0, s.len() as int) =~= s);
}

pub proof fn lemma_tok_size_pos(t: Tok)
    ensures
        tok_size(t) >= 1,
{
}

/// Peeling one token off the front of a suffix.
pub proof fn lemma_suffix_size_step(s: Seq<Tok>, p: int)
    requires
        0 <= p < s.len(),
    ensures
        suffix_size(s, p) == tok_size(s[p]) + suffix_size(s, p + 1),
{
    let tail = s.subrange(p, s.len() as int);
    assert(tail.len() > 0);
    assert(tail[0] == s[p]);
    assert(tail.drop_first() =~= s.subrange(p + 1, s.len() as int));
}

/// Moving the start of a suffix right can only shrink the measure, and
/// shrinks it strictly when a token is passed over.
pub proof fn lemma_suffix_size_mono(s: Seq<Tok>, p: int, q: int)
    requires
        0 <= p <= q <= s.len(),
    ensures
        suffix_size(s, q) + (q - p) <= suffix_size(s, p),
    decreases q - p,
{
    if p < q {
        lemma_suffix_size_step(s, p);
        lemma_tok_size_pos(s[p]);
        lemma_suffix_size_mono(s, p + 1, q);
    } else {
        assert(s.subrange(p, s.len() as int) =~= s.subrange(q, s.len() as int));
    }
}

/// The contents of a group at position `p` are strictly smaller than the
/// suffix that starts at `p`.
pub proof fn lemma_group_size(s: Seq<Tok>, p: int, d: Delim, inner: Vec<Tok>, sp: Span)
    requires
        0 <= p < s.len(),
        s[p] == Tok::Group(d, inner, sp),
    ensures
        toks_size(inner@) < suffix_size(s, p),
{
    lemma_suffix_size_step(s, p);
    assert(tok_size(s[p]) == 1 + toks_size(inner@));
}

} // verus!
