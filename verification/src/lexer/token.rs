//! Tokens and source spans.
use vstd::prelude::*;

verus! {

/// A region of source text: byte offsets `start..end`, and the line and
/// column where it begins.
#[derive(Debug, Clone, Copy, PartialEq, Eq, Structural, Hash)]
pub struct Span {
    pub start: usize,
    pub end: usize,
    pub line: u32,
    pub column: u32,
}

impl Span {
    pub fn new(start: usize, end: usize, line: u32, column: u32) -> (r: Span)
        ensures
            r == (Span { start, end, line, column }),
    {
        Span { start, end, line, column }
    }
}

/// The type suffix of a numeric literal.
#[derive(Debug, Clone, Copy, PartialEq, Eq, Structural)]
pub enum NumericSuffix {
    I8,
    I16,
    I32,
    I64,
    U,
    U8,
    U16,
    U32,
    U64,
    ISize,
    USize,
    F32,
    F64,
}

/// How a numeric suffix is written.
pub open spec fn suffix_text(s: NumericSuffix) -> Seq<char> {
    match s {
        NumericSuffix::I8 => "i8"@,
        NumericSuffix::I16 => "i16"@,
        NumericSuffix::I32 => "i32"@,
        NumericSuffix::I64 => "i64"@,
        NumericSuffix::U => "u"@,
        NumericSuffix::U8 => "u8"@,
        NumericSuffix::U16 => "u16"@,
        NumericSuffix::U32 => "u32"@,
        NumericSuffix::U64 => "u64"@,
        NumericSuffix::ISize => "isize"@,
        NumericSuffix::USize => "usize"@,
        NumericSuffix::F32 => "f32"@,
        NumericSuffix::F64 => "f64"@,
    }
}

/// The text of a numeric suffix.
pub fn suffix_str(s: NumericSuffix) -> (r: &'static str)
    ensures
        r@ == suffix_text(s),
{
    match s {
        NumericSuffix::I8 => "i8",
        NumericSuffix::I16 => "i16",
        NumericSuffix::I32 => "i32",
        NumericSuffix::I64 => "i64",
        NumericSuffix::U => "u",
        NumericSuffix::U8 => "u8",
        NumericSuffix::U16 => "u16",
        NumericSuffix::U32 => "u32",
        NumericSuffix::U64 => "u64",
        NumericSuffix::ISize => "isize",
        NumericSuffix::USize => "usize",
        NumericSuffix::F32 => "f32",
        NumericSuffix::F64 => "f64",
    }
}

/// The kind of a token.
#[derive(Debug, Clone)]
pub enum TokenKind {
    Identifier(String),
    TypeIdentifier(String),
    IntLiteral(i64, Option<NumericSuffix>),
    /// A float literal, held as the text `Display` gives for its value.
    FloatLiteral(String, Option<NumericSuffix>),
    StringLiteral(String),
    CharLiteral(char),
    DocComment(String),
    Lifetime(String),
    Dot,
    Comma,
    Colon,
    ColonColon,
    Semicolon,
    Plus,
    Minus,
    Star,
    Slash,
    Percent,
    EqEq,
    NotEq,
    Lt,
    Gt,
    LtEq,
    GtEq,
    AmpAmp,
    PipePipe,
    Bang,
    Amp,
    Pipe,
    Caret,
    Shl,
    Shr,
    Eq,
    Arrow,
    DotDot,
    DotDotEq,
    Question,
    QuestionDot,
    At,
    AmpMut,
    LParen,
    RParen,
    LBracket,
    RBracket,
    LBrace,
    RBrace,
    True,
    False,
    SelfValue,
    SelfType,
    Newline,
    Eof,
    Let,
    Mut,
    If,
    Else,
    Match,
    Return,
    While,
    For,
    In,
    Do,
    End,
    Def,
    Class,
    Pub,
    NoneKw,
    SomeKw,
    OkKw,
    ErrKw,
    Null,
    As,
}

/// A token and where it stands in the source.
#[derive(Debug, Clone)]
pub struct Token {
    pub kind: TokenKind,
    pub span: Span,
}

/// A piece of an interpolated string: literal text, or the tokens of an embedded expression.
#[derive(Debug, Clone)]
pub enum StringPart {
    Literal(String),
    Expr(Vec<Token>),
}

/// The source form of a fixed token.
pub open spec fn fixed_token_text(k: TokenKind) -> Seq<char> {
    match k {
        TokenKind::Dot => "."@,
        TokenKind::Comma => ","@,
        TokenKind::Colon => ":"@,
        TokenKind::ColonColon => "::"@,
        TokenKind::Semicolon => ";"@,
        TokenKind::Plus => "+"@,
        TokenKind::Minus => "-"@,
        TokenKind::Star => "*"@,
        TokenKind::Slash => "/"@,
        TokenKind::Percent => "%"@,
        TokenKind::EqEq => "=="@,
        TokenKind::NotEq => "!="@,
        TokenKind::Lt => "<"@,
        TokenKind::Gt => ">"@,
        TokenKind::LtEq => "<="@,
        TokenKind::GtEq => ">="@,
        TokenKind::AmpAmp => "&&"@,
        TokenKind::PipePipe => "||"@,
        TokenKind::Bang => "!"@,
        TokenKind::Amp => "&"@,
        TokenKind::Pipe => "|"@,
        TokenKind::Caret => "^"@,
        TokenKind::Shl => "<<"@,
        TokenKind::Shr => ">>"@,
        TokenKind::Eq => "="@,
        TokenKind::Arrow => "->"@,
        TokenKind::DotDot => ".."@,
        TokenKind::DotDotEq => "..="@,
        TokenKind::Question => "?"@,
        TokenKind::QuestionDot => "?."@,
        TokenKind::At => "@"@,
        TokenKind::AmpMut => "&mut"@,
        TokenKind::LParen => "("@,
        TokenKind::RParen => ")"@,
        TokenKind::LBracket => "["@,
        TokenKind::RBracket => "]"@,
        TokenKind::LBrace => "{"@,
        TokenKind::RBrace => "}"@,
        TokenKind::True => "true"@,
        TokenKind::False => "false"@,
        TokenKind::SelfValue => "self"@,
        TokenKind::SelfType => "Self"@,
        TokenKind::Newline => ""@,
        TokenKind::Eof => ""@,
        TokenKind::Let => "let"@,
        TokenKind::Mut => "mut"@,
        TokenKind::If => "if"@,
        TokenKind::Else => "else"@,
        TokenKind::Match => "match"@,
        TokenKind::Return => "return"@,
        TokenKind::While => "while"@,
        TokenKind::For => "for"@,
        TokenKind::In => "in"@,
        TokenKind::Do => "do"@,
        TokenKind::End => "end"@,
        TokenKind::Def => "def"@,
        TokenKind::Class => "class"@,
        TokenKind::Pub => "pub"@,
        TokenKind::NoneKw => "None"@,
        TokenKind::SomeKw => "Some"@,
        TokenKind::OkKw => "Ok"@,
        TokenKind::ErrKw => "Err"@,
        TokenKind::Null => "null"@,
        TokenKind::As => "as"@,
        _ => ""@,
    }
}

/// The source form of a fixed token.
pub fn fixed_token_str(k: &TokenKind) -> (r: &'static str)
    ensures
        r@ == fixed_token_text(*k),
{
    match k {
        TokenKind::Dot => ".",
        TokenKind::Comma => ",",
        TokenKind::Colon => ":",
        TokenKind::ColonColon => "::",
        TokenKind::Semicolon => ";",
        TokenKind::Plus => "+",
        TokenKind::Minus => "-",
        TokenKind::Star => "*",
        TokenKind::Slash => "/",
        TokenKind::Percent => "%",
        TokenKind::EqEq => "==",
        TokenKind::NotEq => "!=",
        TokenKind::Lt => "<",
        TokenKind::Gt => ">",
        TokenKind::LtEq => "<=",
        TokenKind::GtEq => ">=",
        TokenKind::AmpAmp => "&&",
        TokenKind::PipePipe => "||",
        TokenKind::Bang => "!",
        TokenKind::Amp => "&",
        TokenKind::Pipe => "|",
        TokenKind::Caret => "^",
        TokenKind::Shl => "<<",
        TokenKind::Shr => ">>",
        TokenKind::Eq => "=",
        TokenKind::Arrow => "->",
        TokenKind::DotDot => "..",
        TokenKind::DotDotEq => "..=",
        TokenKind::Question => "?",
        TokenKind::QuestionDot => "?.",
        TokenKind::At => "@",
        TokenKind::AmpMut => "&mut",
        TokenKind::LParen => "(",
        TokenKind::RParen => ")",
        TokenKind::LBracket => "[",
        TokenKind::RBracket => "]",
        TokenKind::LBrace => "{",
        TokenKind::RBrace => "}",
        TokenKind::True => "true",
        TokenKind::False => "false",
        TokenKind::SelfValue => "self",
        TokenKind::SelfType => "Self",
        TokenKind::Newline => "",
        TokenKind::Eof => "",
        TokenKind::Let => "let",
        TokenKind::Mut => "mut",
        TokenKind::If => "if",
        TokenKind::Else => "else",
        TokenKind::Match => "match",
        TokenKind::Return => "return",
        TokenKind::While => "while",
        TokenKind::For => "for",
        TokenKind::In => "in",
        TokenKind::Do => "do",
        TokenKind::End => "end",
        TokenKind::Def => "def",
        TokenKind::Class => "class",
        TokenKind::Pub => "pub",
        TokenKind::NoneKw => "None",
        TokenKind::SomeKw => "Some",
        TokenKind::OkKw => "Ok",
        TokenKind::ErrKw => "Err",
        TokenKind::Null => "null",
        TokenKind::As => "as",
        _ => "",
    }
}

} // verus!
