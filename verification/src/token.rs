//! Tokens: classified, span-tagged fragments of source text.

use crate::span::Span;
use vstd::prelude::*;

verus! {

/// What a token is. The set is closed: every character of a source text
/// belongs to a token of exactly one of these kinds.
#[derive(Clone, Copy, Debug, PartialEq, Eq, Structural)]
pub enum TokenKind {
    Comment,
    Whitespace,
    Newline,
    OpenParen,
    CloseParen,
    OpenBracket,
    CloseBracket,
    Colon,
    Equals,
    Comma,
    Pipe,
    Add,
    Sub,
    Mul,
    Div,
    Pow,
    Rem,
    And,
    Or,
    Not,
    Ident,
    LetKw,
    FnKw,
    IfKw,
    ElseKw,
    ForKw,
    InKw,
    WhileKw,
    StringTy,
    IntTy,
    FloatTy,
    BoolTy,
    SizeTy,
    DurationTy,
    DateTy,
    TimeTy,
    DateTimeTy,
    String,
    Int,
    Float,
    Bool,
    Size,
    Duration,
    Unknown,
}

/// A fragment of the source text together with its kind.
#[derive(Clone, Copy, Debug, PartialEq, Eq, Structural)]
pub struct Token {
    pub kind: TokenKind,
    pub span: Span,
}

} // verus!
