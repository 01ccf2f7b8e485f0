use vstd::prelude::*;

verus! {

/// The kinds of tokens and syntax nodes.
#[derive(Debug, Clone, Copy, PartialEq, Eq, Hash, Structural)]
pub enum SyntaxKind {
    Root,
    Indicator,
    Identifier,
    Whitespace,
    LeftParen,
    RightParen,
    LeftBrace,
    RightBrace,
    LeftBracket,
    RightBracket,
    Comma,
    Colon,
    Semicolon,
    Dot,
    Plus,
    Minus,
    Star,
    Slash,
    Equal,
    EqualEqual,
    Bang,
    BangEqual,
    IntegerLiteral,
    StringLiteral,
    KeywordIndicator,
    KeywordIf,
    KeywordElse,
    KeywordWhile,
    KeywordReturn,
    Unknown,
    EndOfFile,
}

} // verus!
