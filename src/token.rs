use vstd::prelude::*;

use crate::text::spells;

verus! {

/// A token: its kind, the text it stands for, and where it was read.
#[derive(Debug, Clone, PartialEq)]
pub struct Token {
    pub kind: TokenKind,
    pub lexeme: String,
    pub line: usize,
    pub column: usize,
}

impl Token {
    pub fn new(kind: TokenKind, lexeme: String, line: usize, column: usize) -> (r: Self)
        ensures
            r.kind == kind,
            r.lexeme == lexeme,
            r.line == line,
            r.column == column,
    {
        Self { kind, lexeme, line, column }
    }
}

#[derive(Debug, Clone, PartialEq, Eq, Hash)]
pub enum TokenKind {
    // Keywords
    Let,
    Fn,
    Struct,
    Enum,
    Impl,
    Trait,
    Component,
    Extern,
    Return,
    Server,
    Client,
    Async,
    Await,
    Use,
    True,
    False,
    If,
    Else,
    While,
    For,
    In,
    Match,
    Mut,
    // Identifiers and literals
    Identifier,
    /// A lifetime such as `'a`, named without its quote.
    Lifetime(String),
    /// The value of an integer literal; zero where it does not fit in `i64`.
    Integer(i64),
    /// A float literal, kept as its text.
    Float(String),
    /// A string literal with its escapes resolved.
    String(String),
    Bool(bool),
    /// The style macro `css!`.
    CssMacro,
    // Punctuation and operators
    At,
    Assign,
    Semicolon,
    Colon,
    Comma,
    Dot,
    DotDot,
    DotDotEq,
    DotDotDot,
    Plus,
    Minus,
    Star,
    Percent,
    Bang,
    Question,
    Ampersand,
    AmpAmp,
    Pipe,
    PipePipe,
    Arrow,
    FatArrow,
    DoubleColon,
    Eq,
    NotEq,
    LtEq,
    GtEq,
    // Grouping
    LParen,
    RParen,
    LBrace,
    RBrace,
    LBracket,
    RBracket,
    // Angle brackets and slash, shared by comparisons and markup tags
    LAngle,
    RAngle,
    Slash,
    // Markup
    /// A trimmed run of markup text.
    JsxText(String),
    JsxSelfClose,
    /// `{` opening an expression hole.
    JsxOpenBrace,
    /// `}` closing an expression hole.
    JsxCloseBrace,
    // Style
    CssSelector(String),
    CssProperty(String),
    CssValue(String),
    CssMedia,
    CssKeyframes,
    // Meta
    Eof,
    Illegal(char),
}

/// A token kind with its text payload, if any, as a sequence of characters.
pub enum KindModel {
    /// A kind that carries no text.
    Plain(TokenKind),
    Lifetime(Seq<char>),
    Float(Seq<char>),
    Str(Seq<char>),
    Text(Seq<char>),
    Selector(Seq<char>),
    Property(Seq<char>),
    Value(Seq<char>),
}

impl View for TokenKind {
    type V = KindModel;

    open spec fn view(&self) -> KindModel {
        match self {
            TokenKind::Lifetime(s) => KindModel::Lifetime(s@),
            TokenKind::Float(s) => KindModel::Float(s@),
            TokenKind::String(s) => KindModel::Str(s@),
            TokenKind::JsxText(s) => KindModel::Text(s@),
            TokenKind::CssSelector(s) => KindModel::Selector(s@),
            TokenKind::CssProperty(s) => KindModel::Property(s@),
            TokenKind::CssValue(s) => KindModel::Value(s@),
            _ => KindModel::Plain(*self),
        }
    }
}

/// A token as values.
pub struct TokenModel {
    pub kind: KindModel,
    pub lexeme: Seq<char>,
    pub line: int,
    pub column: int,
}

impl View for Token {
    type V = TokenModel;

    open spec fn view(&self) -> TokenModel {
        TokenModel {
            kind: self.kind@,
            lexeme: self.lexeme@,
            line: self.line as int,
            column: self.column as int,
        }
    }
}

/// The kind of a word read as an identifier: a boolean literal, a reserved
/// word, or a plain identifier.
pub open spec fn word_kind(w: Seq<char>) -> TokenKind {
    if w == "true"@ {
        TokenKind::Bool(true)
    } else if w == "false"@ {
        TokenKind::Bool(false)
    } else if w == "let"@ {
        TokenKind::Let
    } else if w == "fn"@ {
        TokenKind::Fn
    } else if w == "struct"@ {
        TokenKind::Struct
    } else if w == "enum"@ {
        TokenKind::Enum
    } else if w == "impl"@ {
        TokenKind::Impl
    } else if w == "trait"@ {
        TokenKind::Trait
    } else if w == "component"@ {
        TokenKind::Component
    } else if w == "extern"@ {
        TokenKind::Extern
    } else if w == "return"@ {
        TokenKind::Return
    } else if w == "server"@ {
        TokenKind::Server
    } else if w == "client"@ {
        TokenKind::Client
    } else if w == "async"@ {
        TokenKind::Async
    } else if w == "await"@ {
        TokenKind::Await
    } else if w == "use"@ {
        TokenKind::Use
    } else if w == "if"@ {
        TokenKind::If
    } else if w == "else"@ {
        TokenKind::Else
    } else if w == "while"@ {
        TokenKind::While
    } else if w == "for"@ {
        TokenKind::For
    } else if w == "in"@ {
        TokenKind::In
    } else if w == "match"@ {
        TokenKind::Match
    } else if w == "mut"@ {
        TokenKind::Mut
    } else {
        TokenKind::Identifier
    }
}

/// The kind of the word `cs[from .. to]`.
pub fn classify_word(cs: &[char], from: usize, to: usize) -> (r: TokenKind)
    requires
        from <= to <= cs@.len(),
    ensures
        r == word_kind(cs@.subrange(from as int, to as int)),
{
    if spells(cs, from, to, "true") {
        TokenKind::Bool(true)
    } else if spells(cs, from, to, "false") {
        TokenKind::Bool(false)
    } else if spells(cs, from, to, "let") {
        TokenKind::Let
    } else if spells(cs, from, to, "fn") {
        TokenKind::Fn
    } else if spells(cs, from, to, "struct") {
        TokenKind::Struct
    } else if spells(cs, from, to, "enum") {
        TokenKind::Enum
    } else if spells(cs, from, to, "impl") {
        TokenKind::Impl
    } else if spells(cs, from, to, "trait") {
        TokenKind::Trait
    } else if spells(cs, from, to, "component") {
        TokenKind::Component
    } else if spells(cs, from, to, "extern") {
        TokenKind::Extern
    } else if spells(cs, from, to, "return") {
        TokenKind::Return
    } else if spells(cs, from, to, "server") {
        TokenKind::Server
    } else if spells(cs, from, to, "client") {
        TokenKind::Client
    } else if spells(cs, from, to, "async") {
        TokenKind::Async
    } else if spells(cs, from, to, "await") {
        TokenKind::Await
    } else if spells(cs, from, to, "use") {
        TokenKind::Use
    } else if spells(cs, from, to, "if") {
        TokenKind::If
    } else if spells(cs, from, to, "else") {
        TokenKind::Else
    } else if spells(cs, from, to, "while") {
        TokenKind::While
    } else if spells(cs, from, to, "for") {
        TokenKind::For
    } else if spells(cs, from, to, "in") {
        TokenKind::In
    } else if spells(cs, from, to, "match") {
        TokenKind::Match
    } else if spells(cs, from, to, "mut") {
        TokenKind::Mut
    } else {
        TokenKind::Identifier
    }
}

} // verus!
