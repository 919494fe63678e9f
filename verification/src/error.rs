//! Errors and warnings of the grammar.
//!
//! A parse fails fast: the first error aborts the whole class definition
//! and no partial tree is produced.  Every error carries the source
//! position of the token that provoked it.  The one soft condition — a
//! default value written as a brace block, which the grammar skips rather
//! than parses — is reported as a [`Warning`], not an error.

use vstd::prelude::*;
use crate::token::Span;

verus! {

/// The construct a syntax error was looking for when it gave up.
#[derive(Debug, PartialEq, Eq)]
pub enum Expected {
    /// The `class` keyword of a class header.
    ClassKw,
    /// The `int` keyword that must follow `signed` or `unsigned`.
    IntKw,
    /// A base type: `int`, `uint`, `bit`, `class`, or a class name.
    BaseType,
    /// An identifier.
    Name,
    /// The `;` that ends a declaration.
    Semi,
    /// The `,` between list items.
    Comma,
    /// The `=` of a loop initializer.
    EqSign,
    /// The `:` of a `rust_type` annotation clause.
    Colon,
    /// The `++` increment of a bounded loop.
    PlusPlus,
    /// A parenthesized group.
    ParenGroup,
    /// A brace-delimited block.
    BraceGroup,
    /// A value: a parenthesized group, a literal, or an identifier.
    Atom,
    /// A binary operator.
    Operator,
    /// An annotation clause: `optional` or `rust_type`.
    AnnotationClause,
    /// The identifier naming a native type in a `rust_type` clause.
    RustTypeIdent,
    /// After `else`: another `if`, or a brace block.
    ElseBlock,
    /// A statement: a conditional, a loop, or a declaration.
    Stmt,
    /// The end of the input or of the enclosing group.
    End,
    /// The induction variable of a bounded loop, which must be repeated
    /// under exactly this name.
    LoopVar(String),
}

/// The two base kinds that carry a width.
#[derive(Clone, Copy, Debug, PartialEq, Eq, Structural)]
pub enum SizedBase {
    IntBase,
    BitBase,
}

/// A fatal parse error.  The first one aborts the class definition.
#[derive(Debug, PartialEq, Eq)]
pub enum ParseError {
    /// An expected token or construct was not found.
    Syntax { span: Span, expected: Expected },
    /// A sized type asked for a width outside the supported table; the
    /// offending width is named.
    UnsupportedWidth { span: Span, base: SizedBase, width: u64 },
    /// The type error of the language: a position that admits only a bare
    /// integer literal received some other expression.
    NotLiteral { span: Span },
    /// A bounded loop's comparison used an operator other than `<` or `<=`.
    UnsupportedOperator { span: Span },
}

impl ParseError {
    /// The source position the error points at.
    pub fn span(&self) -> (s: Span)
        ensures
            s == self.spec_span(),
    {
        match self {
            ParseError::Syntax { span, .. } => *span,
            ParseError::UnsupportedWidth { span, .. } => *span,
            ParseError::NotLiteral { span } => *span,
            ParseError::UnsupportedOperator { span } => *span,
        }
    }

    pub open spec fn spec_span(&self) -> Span {
        match self {
            ParseError::Syntax { span, .. } => *span,
            ParseError::UnsupportedWidth { span, .. } => *span,
            ParseError::NotLiteral { span } => *span,
            ParseError::UnsupportedOperator { span } => *span,
        }
    }
}

/// A non-fatal diagnostic gathered during a successful parse.
#[derive(Debug, PartialEq, Eq)]
pub enum Warning {
    /// A default value written as a brace block was skipped, not parsed.
    DefaultIgnored(Span),
}

} // verus!
