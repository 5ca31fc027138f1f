//! Tokens produced by the lexer.
use vstd::prelude::*;
use crate::utils::Span;

verus! {

/// A token: what was read and where.
#[derive(Debug, Clone)]
pub struct Token {
    pub span: Span,
    pub kind: TokenKind,
}

impl Token {
    pub fn new(span: Span, kind: TokenKind) -> (t: Self)
        ensures
            t.span == span,
            t.kind == kind,
    {
        Self { span, kind }
    }

    pub fn kind(&self) -> (k: TokenKind)
        ensures
            k == self.kind,
    {
        self.kind.duplicate()
    }

    pub fn span(&self) -> (s: Span)
        ensures
            s == self.span,
    {
        self.span
    }

    pub fn start(&self) -> (s: usize)
        ensures
            s == self.span.start,
    {
        self.span.start
    }

    pub fn end(&self) -> (e: usize)
        ensures
            e == self.span.end,
    {
        self.span.end
    }
}

/// What went wrong while reading a token.
#[derive(Debug, Clone, PartialEq)]
pub enum LexingError {
    InvalidInteger(String),
    InvalidFloat(String),
    InvalidUnsignedInteger(String),
    InvalidBool(String),
    /// Input that starts no token (also an unterminated string literal).
    NonAsciiChar,
}

/// The kinds of tokens of the Atlas77 language.
#[derive(Debug, Clone, PartialEq)]
pub enum TokenKind {
    /// A double-quoted string, escapes resolved.
    StringLiteral(String),
    Char(char),
    Identifier(String),
    Integer(i64),
    /// A floating-point literal, held as the decimal text that denotes its value
    /// (`1.5` for `1.5`, `123` for `123f`).
    Float(String),
    UnsignedInteger(u64),
    Bool(bool),
    /// A `//` line comment or a `/* */` block comment, delimiters included.
    Comments(String),
    /// A `//!` doc comment, without the `//!` and one separating space.
    Docs(String),
    LParen,
    RParen,
    LBrace,
    RBrace,
    LBracket,
    RBracket,
    Comma,
    Plus,
    OpAssignAdd,
    Minus,
    OpAssignSub,
    Slash,
    OpAssignDiv,
    Star,
    OpAssignMul,
    Percent,
    OpAssignMod,
    OpAssign,
    BackSlash,
    Semicolon,
    Quote,
    Interrogation,
    EqEq,
    NEq,
    Bang,
    DoubleDot,
    Dot,
    Hash,
    DoubleColon,
    Colon,
    RArrow,
    LArrow,
    LFatArrow,
    LAngle,
    OpGreaterThanEq,
    RAngle,
    OpAnd,
    Ampersand,
    OpOr,
    Pipe,
    RFatArrow,
    Tilde,
    KwThis,
    KwOperator,
    KwClass,
    KwDelete,
    KwFunc,
    KwWhere,
    KwNull,
    KwExtern,
    KwStruct,
    KwConcept,
    KwEnum,
    KwUnion,
    KwImport,
    KwPublic,
    KwPrivate,
    KwIf,
    KwElse,
    KwMatch,
    KwWhile,
    KwBreak,
    KwContinue,
    KwReturn,
    KwLet,
    KwConst,
    KwAs,
    Int64Ty,
    Int32Ty,
    Int16Ty,
    Int8Ty,
    Float64Ty,
    Float32Ty,
    UInt64Ty,
    UInt32Ty,
    UInt16Ty,
    UInt8Ty,
    UnitTy,
    CharTy,
    BoolTy,
    ThisTy,
    StrTy,
    KwComptime,
    KwThen,
    /// End of input.
    EoI,
}


impl TokenKind {
    /// A copy of this kind.
    pub fn duplicate(&self) -> (r: TokenKind)
        ensures
            r == *self,
    {
        match self {
            TokenKind::StringLiteral(s) => TokenKind::StringLiteral(s.clone()),
            TokenKind::Char(x) => TokenKind::Char(*x),
            TokenKind::Identifier(s) => TokenKind::Identifier(s.clone()),
            TokenKind::Integer(x) => TokenKind::Integer(*x),
            TokenKind::Float(s) => TokenKind::Float(s.clone()),
            TokenKind::UnsignedInteger(x) => TokenKind::UnsignedInteger(*x),
            TokenKind::Bool(x) => TokenKind::Bool(*x),
            TokenKind::Comments(s) => TokenKind::Comments(s.clone()),
            TokenKind::Docs(s) => TokenKind::Docs(s.clone()),
            TokenKind::LParen => TokenKind::LParen,
            TokenKind::RParen => TokenKind::RParen,
            TokenKind::LBrace => TokenKind::LBrace,
            TokenKind::RBrace => TokenKind::RBrace,
            TokenKind::LBracket => TokenKind::LBracket,
            TokenKind::RBracket => TokenKind::RBracket,
            TokenKind::Comma => TokenKind::Comma,
            TokenKind::Plus => TokenKind::Plus,
            TokenKind::OpAssignAdd => TokenKind::OpAssignAdd,
            TokenKind::Minus => TokenKind::Minus,
            TokenKind::OpAssignSub => TokenKind::OpAssignSub,
            TokenKind::Slash => TokenKind::Slash,
            TokenKind::OpAssignDiv => TokenKind::OpAssignDiv,
            TokenKind::Star => TokenKind::Star,
            TokenKind::OpAssignMul => TokenKind::OpAssignMul,
            TokenKind::Percent => TokenKind::Percent,
            TokenKind::OpAssignMod => TokenKind::OpAssignMod,
            TokenKind::OpAssign => TokenKind::OpAssign,
            TokenKind::BackSlash => TokenKind::BackSlash,
            TokenKind::Semicolon => TokenKind::Semicolon,
            TokenKind::Quote => TokenKind::Quote,
            TokenKind::Interrogation => TokenKind::Interrogation,
            TokenKind::EqEq => TokenKind::EqEq,
            TokenKind::NEq => TokenKind::NEq,
            TokenKind::Bang => TokenKind::Bang,
            TokenKind::DoubleDot => TokenKind::DoubleDot,
            TokenKind::Dot => TokenKind::Dot,
            TokenKind::Hash => TokenKind::Hash,
            TokenKind::DoubleColon => TokenKind::DoubleColon,
            TokenKind::Colon => TokenKind::Colon,
            TokenKind::RArrow => TokenKind::RArrow,
            TokenKind::LArrow => TokenKind::LArrow,
            TokenKind::LFatArrow => TokenKind::LFatArrow,
            TokenKind::LAngle => TokenKind::LAngle,
            TokenKind::OpGreaterThanEq => TokenKind::OpGreaterThanEq,
            TokenKind::RAngle => TokenKind::RAngle,
            TokenKind::OpAnd => TokenKind::OpAnd,
            TokenKind::Ampersand => TokenKind::Ampersand,
            TokenKind::OpOr => TokenKind::OpOr,
            TokenKind::Pipe => TokenKind::Pipe,
            TokenKind::RFatArrow => TokenKind::RFatArrow,
            TokenKind::Tilde => TokenKind::Tilde,
            TokenKind::KwThis => TokenKind::KwThis,
            TokenKind::KwOperator => TokenKind::KwOperator,
            TokenKind::KwClass => TokenKind::KwClass,
            TokenKind::KwDelete => TokenKind::KwDelete,
            TokenKind::KwFunc => TokenKind::KwFunc,
            TokenKind::KwWhere => TokenKind::KwWhere,
            TokenKind::KwNull => TokenKind::KwNull,
            TokenKind::KwExtern => TokenKind::KwExtern,
            TokenKind::KwStruct => TokenKind::KwStruct,
            TokenKind::KwConcept => TokenKind::KwConcept,
            TokenKind::KwEnum => TokenKind::KwEnum,
            TokenKind::KwUnion => TokenKind::KwUnion,
            TokenKind::KwImport => TokenKind::KwImport,
            TokenKind::KwPublic => TokenKind::KwPublic,
            TokenKind::KwPrivate => TokenKind::KwPrivate,
            TokenKind::KwIf => TokenKind::KwIf,
            TokenKind::KwElse => TokenKind::KwElse,
            TokenKind::KwMatch => TokenKind::KwMatch,
            TokenKind::KwWhile => TokenKind::KwWhile,
            TokenKind::KwBreak => TokenKind::KwBreak,
            TokenKind::KwContinue => TokenKind::KwContinue,
            TokenKind::KwReturn => TokenKind::KwReturn,
            TokenKind::KwLet => TokenKind::KwLet,
            TokenKind::KwConst => TokenKind::KwConst,
            TokenKind::KwAs => TokenKind::KwAs,
            TokenKind::Int64Ty => TokenKind::Int64Ty,
            TokenKind::Int32Ty => TokenKind::Int32Ty,
            TokenKind::Int16Ty => TokenKind::Int16Ty,
            TokenKind::Int8Ty => TokenKind::Int8Ty,
            TokenKind::Float64Ty => TokenKind::Float64Ty,
            TokenKind::Float32Ty => TokenKind::Float32Ty,
            TokenKind::UInt64Ty => TokenKind::UInt64Ty,
            TokenKind::UInt32Ty => TokenKind::UInt32Ty,
            TokenKind::UInt16Ty => TokenKind::UInt16Ty,
            TokenKind::UInt8Ty => TokenKind::UInt8Ty,
            TokenKind::UnitTy => TokenKind::UnitTy,
            TokenKind::CharTy => TokenKind::CharTy,
            TokenKind::BoolTy => TokenKind::BoolTy,
            TokenKind::ThisTy => TokenKind::ThisTy,
            TokenKind::StrTy => TokenKind::StrTy,
            TokenKind::KwComptime => TokenKind::KwComptime,
            TokenKind::KwThen => TokenKind::KwThen,
            TokenKind::EoI => TokenKind::EoI,
        }
    }
}

/// A literal value of the language.
#[derive(Debug, Clone, PartialEq)]
pub enum Literal {
    Integer(i64),
    /// Decimal text of the value.
    Float(String),
    UnsignedInteger(u64),
    Bool(bool),
    Char(char),
    Identifier(String),
    StringLiteral(String),
}

} // verus!
