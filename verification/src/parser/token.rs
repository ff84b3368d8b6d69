//! Tokens: what the lexer hands the parser.
use vstd::prelude::*;
use crate::source::Span;

verus! {

/// The kinds of tokens. A number is held as the text it was written with.
#[derive(Debug, Clone)]
pub enum TokenKind {
    Number(String),
    String(String),
    Identifier(String),
    Ampersand,
    And,
    Arrow,
    As,
    Async,
    At,
    Await,
    Bang,
    BangEquals,
    Catch,
    Colon,
    ColonColon,
    Comma,
    Dot,
    DoubleArrow,
    Else,
    Enum,
    Eof,
    Equals,
    EqualsEquals,
    Export,
    False,
    Finally,
    Fn,
    For,
    From,
    Greater,
    GreaterEquals,
    If,
    Impl,
    Import,
    In,
    LeftBrace,
    LeftBracket,
    LeftParen,
    Less,
    LessEquals,
    Let,
    Match,
    Minus,
    Mut,
    Newline,
    Or,
    Percent,
    Pipe,
    Plus,
    Question,
    Return,
    RightBrace,
    RightBracket,
    RightParen,
    Semicolon,
    Slash,
    Star,
    Struct,
    True,
    Try,
    Underscore,
    Where,
    While,
}

/// A token and where it stands in the source.
#[derive(Debug, Clone)]
pub struct Token {
    pub kind: TokenKind,
    pub span: Span,
}

/// A number for each kind of token, the same for all tokens of one
/// variant whatever they carry.
pub open spec fn kind_tag(k: TokenKind) -> u8 {
    match k {
        TokenKind::Number(_) => 0u8,
        TokenKind::String(_) => 1u8,
        TokenKind::Identifier(_) => 2u8,
        TokenKind::Ampersand => 3u8,
        TokenKind::And => 4u8,
        TokenKind::Arrow => 5u8,
        TokenKind::As => 6u8,
        TokenKind::Async => 7u8,
        TokenKind::At => 8u8,
        TokenKind::Await => 9u8,
        TokenKind::Bang => 10u8,
        TokenKind::BangEquals => 11u8,
        TokenKind::Catch => 12u8,
        TokenKind::Colon => 13u8,
        TokenKind::ColonColon => 14u8,
        TokenKind::Comma => 15u8,
        TokenKind::Dot => 16u8,
        TokenKind::DoubleArrow => 17u8,
        TokenKind::Else => 18u8,
        TokenKind::Enum => 19u8,
        TokenKind::Eof => 20u8,
        TokenKind::Equals => 21u8,
        TokenKind::EqualsEquals => 22u8,
        TokenKind::Export => 23u8,
        TokenKind::False => 24u8,
        TokenKind::Finally => 25u8,
        TokenKind::Fn => 26u8,
        TokenKind::For => 27u8,
        TokenKind::From => 28u8,
        TokenKind::Greater => 29u8,
        TokenKind::GreaterEquals => 30u8,
        TokenKind::If => 31u8,
        TokenKind::Impl => 32u8,
        TokenKind::Import => 33u8,
        TokenKind::In => 34u8,
        TokenKind::LeftBrace => 35u8,
        TokenKind::LeftBracket => 36u8,
        TokenKind::LeftParen => 37u8,
        TokenKind::Less => 38u8,
        TokenKind::LessEquals => 39u8,
        TokenKind::Let => 40u8,
        TokenKind::Match => 41u8,
        TokenKind::Minus => 42u8,
        TokenKind::Mut => 43u8,
        TokenKind::Newline => 44u8,
        TokenKind::Or => 45u8,
        TokenKind::Percent => 46u8,
        TokenKind::Pipe => 47u8,
        TokenKind::Plus => 48u8,
        TokenKind::Question => 49u8,
        TokenKind::Return => 50u8,
        TokenKind::RightBrace => 51u8,
        TokenKind::RightBracket => 52u8,
        TokenKind::RightParen => 53u8,
        TokenKind::Semicolon => 54u8,
        TokenKind::Slash => 55u8,
        TokenKind::Star => 56u8,
        TokenKind::Struct => 57u8,
        TokenKind::True => 58u8,
        TokenKind::Try => 59u8,
        TokenKind::Underscore => 60u8,
        TokenKind::Where => 61u8,
        TokenKind::While => 62u8,
    }
}

impl TokenKind {
    /// The variant number of this kind.
    pub fn tag(&self) -> (t: u8)
        ensures
            t == kind_tag(*self),
    {
        match self {
            TokenKind::Number(_) => 0u8,
            TokenKind::String(_) => 1u8,
            TokenKind::Identifier(_) => 2u8,
            TokenKind::Ampersand => 3u8,
            TokenKind::And => 4u8,
            TokenKind::Arrow => 5u8,
            TokenKind::As => 6u8,
            TokenKind::Async => 7u8,
            TokenKind::At => 8u8,
            TokenKind::Await => 9u8,
            TokenKind::Bang => 10u8,
            TokenKind::BangEquals => 11u8,
            TokenKind::Catch => 12u8,
            TokenKind::Colon => 13u8,
            TokenKind::ColonColon => 14u8,
            TokenKind::Comma => 15u8,
            TokenKind::Dot => 16u8,
            TokenKind::DoubleArrow => 17u8,
            TokenKind::Else => 18u8,
            TokenKind::Enum => 19u8,
            TokenKind::Eof => 20u8,
            TokenKind::Equals => 21u8,
            TokenKind::EqualsEquals => 22u8,
            TokenKind::Export => 23u8,
            TokenKind::False => 24u8,
            TokenKind::Finally => 25u8,
            TokenKind::Fn => 26u8,
            TokenKind::For => 27u8,
            TokenKind::From => 28u8,
            TokenKind::Greater => 29u8,
            TokenKind::GreaterEquals => 30u8,
            TokenKind::If => 31u8,
            TokenKind::Impl => 32u8,
            TokenKind::Import => 33u8,
            TokenKind::In => 34u8,
            TokenKind::LeftBrace => 35u8,
            TokenKind::LeftBracket => 36u8,
            TokenKind::LeftParen => 37u8,
            TokenKind::Less => 38u8,
            TokenKind::LessEquals => 39u8,
            TokenKind::Let => 40u8,
            TokenKind::Match => 41u8,
            TokenKind::Minus => 42u8,
            TokenKind::Mut => 43u8,
            TokenKind::Newline => 44u8,
            TokenKind::Or => 45u8,
            TokenKind::Percent => 46u8,
            TokenKind::Pipe => 47u8,
            TokenKind::Plus => 48u8,
            TokenKind::Question => 49u8,
            TokenKind::Return => 50u8,
            TokenKind::RightBrace => 51u8,
            TokenKind::RightBracket => 52u8,
            TokenKind::RightParen => 53u8,
            TokenKind::Semicolon => 54u8,
            TokenKind::Slash => 55u8,
            TokenKind::Star => 56u8,
            TokenKind::Struct => 57u8,
            TokenKind::True => 58u8,
            TokenKind::Try => 59u8,
            TokenKind::Underscore => 60u8,
            TokenKind::Where => 61u8,
            TokenKind::While => 62u8,
        }
    }

    /// Whether two kinds are the same variant, whatever they carry.
    pub fn same_variant(&self, other: &TokenKind) -> (b: bool)
        ensures
            b == (kind_tag(*self) == kind_tag(*other)),
    {
        self.tag() == other.tag()
    }
}

impl Token {
    /// A token of the given kind at the given place.
    pub fn new(kind: TokenKind, span: Span) -> (t: Token)
        ensures
            t.kind == kind,
            t.span == span,
    {
        Token { kind, span }
    }
}

} // verus!
