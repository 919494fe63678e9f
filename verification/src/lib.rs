//! A parser for the pseudocode language that ISO/IEC 14496-12 uses to
//! describe binary "box" record formats.
//!
//! One textual class description — already tokenized into [`token::Tok`]
//! values — is turned into a [`class::Class`] syntax tree by
//! [`class::parse_class`], or rejected with a single [`error::ParseError`]
//! carrying a source position.  The tree is meant for a downstream code
//! generator; nothing here evaluates expressions or resolves references
//! to other classes.
//!
//! Every parsing function is specified against a mathematical mirror of
//! the grammar, written as `spec` functions over token sequences, and the
//! laws the grammar obeys (the width table, right-associativity of
//! expressions, the expression round trip) are proved from those mirrors.

pub mod class;
pub mod decl;
pub mod error;
pub mod expr;
pub mod stmt;
pub mod strutil;
pub mod token;
