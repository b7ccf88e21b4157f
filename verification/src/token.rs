//! Tokens: what the lexer hands to the parser.
use vstd::prelude::*;
use vstd::string::*;
use crate::number::Number;
use crate::text::{debug_quoted, quoted};

verus! {

/// The start and end column of a token.
pub type Span = (usize, usize);

/// The kind of a token: a keyword, a literal with its payload, a punctuation
/// mark or operator, or the end of the input.
#[derive(Debug, PartialEq)]
pub enum TokenKind {
    Fn,
    Let,
    If,
    Else,
    While,
    Return,
    Break,
    Continue,
    Import,
    From,
    True,
    False,
    Identifier(String),
    String(String),
    Number(Number),
    Colon,
    DoubleColon,
    SemiColon,
    Comma,
    Dot,
    Arrow,
    LeftParen,
    RightParen,
    LeftBrace,
    RightBrace,
    LeftBracket,
    RightBracket,
    Plus,
    Minus,
    Asterisk,
    Slash,
    Percent,
    DoubleAsterisk,
    And,
    Or,
    Equals,
    PlusEquals,
    MinusEquals,
    AsteriskEquals,
    SlashEquals,
    EqualsEquals,
    NotEquals,
    GreaterThan,
    GreaterThanEquals,
    LessThan,
    LessThanEquals,
    Not,
    Eof,
}

/// A token kind as a mathematical value: payloads are sequences of characters.
pub enum Kind {
    Fn,
    Let,
    If,
    Else,
    While,
    Return,
    Break,
    Continue,
    Import,
    From,
    True,
    False,
    Identifier(Seq<char>),
    String(Seq<char>),
    Number(Seq<char>),
    Colon,
    DoubleColon,
    SemiColon,
    Comma,
    Dot,
    Arrow,
    LeftParen,
    RightParen,
    LeftBrace,
    RightBrace,
    LeftBracket,
    RightBracket,
    Plus,
    Minus,
    Asterisk,
    Slash,
    Percent,
    DoubleAsterisk,
    And,
    Or,
    Equals,
    PlusEquals,
    MinusEquals,
    AsteriskEquals,
    SlashEquals,
    EqualsEquals,
    NotEquals,
    GreaterThan,
    GreaterThanEquals,
    LessThan,
    LessThanEquals,
    Not,
    Eof,
}

impl View for TokenKind {
    type V = Kind;

    open spec fn view(&self) -> Kind {
        match self {
            TokenKind::Fn => Kind::Fn,
            TokenKind::Let => Kind::Let,
            TokenKind::If => Kind::If,
            TokenKind::Else => Kind::Else,
            TokenKind::While => Kind::While,
            TokenKind::Return => Kind::Return,
            TokenKind::Break => Kind::Break,
            TokenKind::Continue => Kind::Continue,
            TokenKind::Import => Kind::Import,
            TokenKind::From => Kind::From,
            TokenKind::True => Kind::True,
            TokenKind::False => Kind::False,
            TokenKind::Identifier(x) => Kind::Identifier(x@),
            TokenKind::String(x) => Kind::String(x@),
            TokenKind::Number(x) => Kind::Number(x@),
            TokenKind::Colon => Kind::Colon,
            TokenKind::DoubleColon => Kind::DoubleColon,
            TokenKind::SemiColon => Kind::SemiColon,
            TokenKind::Comma => Kind::Comma,
            TokenKind::Dot => Kind::Dot,
            TokenKind::Arrow => Kind::Arrow,
            TokenKind::LeftParen => Kind::LeftParen,
            TokenKind::RightParen => Kind::RightParen,
            TokenKind::LeftBrace => Kind::LeftBrace,
            TokenKind::RightBrace => Kind::RightBrace,
            TokenKind::LeftBracket => Kind::LeftBracket,
            TokenKind::RightBracket => Kind::RightBracket,
            TokenKind::Plus => Kind::Plus,
            TokenKind::Minus => Kind::Minus,
            TokenKind::Asterisk => Kind::Asterisk,
            TokenKind::Slash => Kind::Slash,
            TokenKind::Percent => Kind::Percent,
            TokenKind::DoubleAsterisk => Kind::DoubleAsterisk,
            TokenKind::And => Kind::And,
            TokenKind::Or => Kind::Or,
            TokenKind::Equals => Kind::Equals,
            TokenKind::PlusEquals => Kind::PlusEquals,
            TokenKind::MinusEquals => Kind::MinusEquals,
            TokenKind::AsteriskEquals => Kind::AsteriskEquals,
            TokenKind::SlashEquals => Kind::SlashEquals,
            TokenKind::EqualsEquals => Kind::EqualsEquals,
            TokenKind::NotEquals => Kind::NotEquals,
            TokenKind::GreaterThan => Kind::GreaterThan,
            TokenKind::GreaterThanEquals => Kind::GreaterThanEquals,
            TokenKind::LessThan => Kind::LessThan,
            TokenKind::LessThanEquals => Kind::LessThanEquals,
            TokenKind::Not => Kind::Not,
            TokenKind::Eof => Kind::Eof,
        }
    }
}

impl Clone for TokenKind {
    fn clone(&self) -> (k: TokenKind)
        ensures
            k@ == self@,
    {
        match self {
            TokenKind::Fn => TokenKind::Fn,
            TokenKind::Let => TokenKind::Let,
            TokenKind::If => TokenKind::If,
            TokenKind::Else => TokenKind::Else,
            TokenKind::While => TokenKind::While,
            TokenKind::Return => TokenKind::Return,
            TokenKind::Break => TokenKind::Break,
            TokenKind::Continue => TokenKind::Continue,
            TokenKind::Import => TokenKind::Import,
            TokenKind::From => TokenKind::From,
            TokenKind::True => TokenKind::True,
            TokenKind::False => TokenKind::False,
            TokenKind::Identifier(x) => TokenKind::Identifier(x.clone()),
            TokenKind::String(x) => TokenKind::String(x.clone()),
            TokenKind::Number(x) => TokenKind::Number(x.clone()),
            TokenKind::Colon => TokenKind::Colon,
            TokenKind::DoubleColon => TokenKind::DoubleColon,
            TokenKind::SemiColon => TokenKind::SemiColon,
            TokenKind::Comma => TokenKind::Comma,
            TokenKind::Dot => TokenKind::Dot,
            TokenKind::Arrow => TokenKind::Arrow,
            TokenKind::LeftParen => TokenKind::LeftParen,
            TokenKind::RightParen => TokenKind::RightParen,
            TokenKind::LeftBrace => TokenKind::LeftBrace,
            TokenKind::RightBrace => TokenKind::RightBrace,
            TokenKind::LeftBracket => TokenKind::LeftBracket,
            TokenKind::RightBracket => TokenKind::RightBracket,
            TokenKind::Plus => TokenKind::Plus,
            TokenKind::Minus => TokenKind::Minus,
            TokenKind::Asterisk => TokenKind::Asterisk,
            TokenKind::Slash => TokenKind::Slash,
            TokenKind::Percent => TokenKind::Percent,
            TokenKind::DoubleAsterisk => TokenKind::DoubleAsterisk,
            TokenKind::And => TokenKind::And,
            TokenKind::Or => TokenKind::Or,
            TokenKind::Equals => TokenKind::Equals,
            TokenKind::PlusEquals => TokenKind::PlusEquals,
            TokenKind::MinusEquals => TokenKind::MinusEquals,
            TokenKind::AsteriskEquals => TokenKind::AsteriskEquals,
            TokenKind::SlashEquals => TokenKind::SlashEquals,
            TokenKind::EqualsEquals => TokenKind::EqualsEquals,
            TokenKind::NotEquals => TokenKind::NotEquals,
            TokenKind::GreaterThan => TokenKind::GreaterThan,
            TokenKind::GreaterThanEquals => TokenKind::GreaterThanEquals,
            TokenKind::LessThan => TokenKind::LessThan,
            TokenKind::LessThanEquals => TokenKind::LessThanEquals,
            TokenKind::Not => TokenKind::Not,
            TokenKind::Eof => TokenKind::Eof,
        }
    }
}

/// The position of a kind's variant in the declaration of the kinds.
pub open spec fn variant_index(kind: Kind) -> nat {
    match kind {
        Kind::Fn => 0,
        Kind::Let => 1,
        Kind::If => 2,
        Kind::Else => 3,
        Kind::While => 4,
        Kind::Return => 5,
        Kind::Break => 6,
        Kind::Continue => 7,
        Kind::Import => 8,
        Kind::From => 9,
        Kind::True => 10,
        Kind::False => 11,
        Kind::Identifier(_) => 12,
        Kind::String(_) => 13,
        Kind::Number(_) => 14,
        Kind::Colon => 15,
        Kind::DoubleColon => 16,
        Kind::SemiColon => 17,
        Kind::Comma => 18,
        Kind::Dot => 19,
        Kind::Arrow => 20,
        Kind::LeftParen => 21,
        Kind::RightParen => 22,
        Kind::LeftBrace => 23,
        Kind::RightBrace => 24,
        Kind::LeftBracket => 25,
        Kind::RightBracket => 26,
        Kind::Plus => 27,
        Kind::Minus => 28,
        Kind::Asterisk => 29,
        Kind::Slash => 30,
        Kind::Percent => 31,
        Kind::DoubleAsterisk => 32,
        Kind::And => 33,
        Kind::Or => 34,
        Kind::Equals => 35,
        Kind::PlusEquals => 36,
        Kind::MinusEquals => 37,
        Kind::AsteriskEquals => 38,
        Kind::SlashEquals => 39,
        Kind::EqualsEquals => 40,
        Kind::NotEquals => 41,
        Kind::GreaterThan => 42,
        Kind::GreaterThanEquals => 43,
        Kind::LessThan => 44,
        Kind::LessThanEquals => 45,
        Kind::Not => 46,
        Kind::Eof => 47,
    }
}

/// Whether two kinds are the same variant, whatever their payloads.
pub open spec fn same_variant(a: Kind, b: Kind) -> bool {
    variant_index(a) == variant_index(b)
}

/// The name of a kind's variant.
pub open spec fn variant_name(kind: Kind) -> Seq<char> {
    match kind {
        Kind::Fn => "Fn"@,
        Kind::Let => "Let"@,
        Kind::If => "If"@,
        Kind::Else => "Else"@,
        Kind::While => "While"@,
        Kind::Return => "Return"@,
        Kind::Break => "Break"@,
        Kind::Continue => "Continue"@,
        Kind::Import => "Import"@,
        Kind::From => "From"@,
        Kind::True => "True"@,
        Kind::False => "False"@,
        Kind::Identifier(_) => "Identifier"@,
        Kind::String(_) => "String"@,
        Kind::Number(_) => "Number"@,
        Kind::Colon => "Colon"@,
        Kind::DoubleColon => "DoubleColon"@,
        Kind::SemiColon => "SemiColon"@,
        Kind::Comma => "Comma"@,
        Kind::Dot => "Dot"@,
        Kind::Arrow => "Arrow"@,
        Kind::LeftParen => "LeftParen"@,
        Kind::RightParen => "RightParen"@,
        Kind::LeftBrace => "LeftBrace"@,
        Kind::RightBrace => "RightBrace"@,
        Kind::LeftBracket => "LeftBracket"@,
        Kind::RightBracket => "RightBracket"@,
        Kind::Plus => "Plus"@,
        Kind::Minus => "Minus"@,
        Kind::Asterisk => "Asterisk"@,
        Kind::Slash => "Slash"@,
        Kind::Percent => "Percent"@,
        Kind::DoubleAsterisk => "DoubleAsterisk"@,
        Kind::And => "And"@,
        Kind::Or => "Or"@,
        Kind::Equals => "Equals"@,
        Kind::PlusEquals => "PlusEquals"@,
        Kind::MinusEquals => "MinusEquals"@,
        Kind::AsteriskEquals => "AsteriskEquals"@,
        Kind::SlashEquals => "SlashEquals"@,
        Kind::EqualsEquals => "EqualsEquals"@,
        Kind::NotEquals => "NotEquals"@,
        Kind::GreaterThan => "GreaterThan"@,
        Kind::GreaterThanEquals => "GreaterThanEquals"@,
        Kind::LessThan => "LessThan"@,
        Kind::LessThanEquals => "LessThanEquals"@,
        Kind::Not => "Not"@,
        Kind::Eof => "Eof"@,
    }
}

/// How a kind reads in an error: the variant's name, and for a literal its
/// payload in brackets, a string payload quoted.
pub open spec fn description(kind: Kind) -> Seq<char> {
    match kind {
        Kind::Identifier(s) => "Identifier"@ + "("@ + quoted(s) + ")"@,
        Kind::String(s) => "String"@ + "("@ + quoted(s) + ")"@,
        Kind::Number(n) => "Number"@ + "("@ + n + ")"@,
        _ => variant_name(kind),
    }
}

impl TokenKind {
    fn index(&self) -> (i: u8)
        ensures
            i == variant_index(self@),
    {
        match self {
            TokenKind::Fn => 0,
            TokenKind::Let => 1,
            TokenKind::If => 2,
            TokenKind::Else => 3,
            TokenKind::While => 4,
            TokenKind::Return => 5,
            TokenKind::Break => 6,
            TokenKind::Continue => 7,
            TokenKind::Import => 8,
            TokenKind::From => 9,
            TokenKind::True => 10,
            TokenKind::False => 11,
            TokenKind::Identifier(_) => 12,
            TokenKind::String(_) => 13,
            TokenKind::Number(_) => 14,
            TokenKind::Colon => 15,
            TokenKind::DoubleColon => 16,
            TokenKind::SemiColon => 17,
            TokenKind::Comma => 18,
            TokenKind::Dot => 19,
            TokenKind::Arrow => 20,
            TokenKind::LeftParen => 21,
            TokenKind::RightParen => 22,
            TokenKind::LeftBrace => 23,
            TokenKind::RightBrace => 24,
            TokenKind::LeftBracket => 25,
            TokenKind::RightBracket => 26,
            TokenKind::Plus => 27,
            TokenKind::Minus => 28,
            TokenKind::Asterisk => 29,
            TokenKind::Slash => 30,
            TokenKind::Percent => 31,
            TokenKind::DoubleAsterisk => 32,
            TokenKind::And => 33,
            TokenKind::Or => 34,
            TokenKind::Equals => 35,
            TokenKind::PlusEquals => 36,
            TokenKind::MinusEquals => 37,
            TokenKind::AsteriskEquals => 38,
            TokenKind::SlashEquals => 39,
            TokenKind::EqualsEquals => 40,
            TokenKind::NotEquals => 41,
            TokenKind::GreaterThan => 42,
            TokenKind::GreaterThanEquals => 43,
            TokenKind::LessThan => 44,
            TokenKind::LessThanEquals => 45,
            TokenKind::Not => 46,
            TokenKind::Eof => 47,
        }
    }

    /// Whether `self` and `other` are the same variant.
    pub fn same_variant(&self, other: &TokenKind) -> (b: bool)
        ensures
            b == same_variant(self@, other@),
    {
        self.index() == other.index()
    }

    /// The name of the variant.
    pub fn name(&self) -> (s: &'static str)
        ensures
            s@ == variant_name(self@),
    {
        match self {
            TokenKind::Fn => "Fn",
            TokenKind::Let => "Let",
            TokenKind::If => "If",
            TokenKind::Else => "Else",
            TokenKind::While => "While",
            TokenKind::Return => "Return",
            TokenKind::Break => "Break",
            TokenKind::Continue => "Continue",
            TokenKind::Import => "Import",
            TokenKind::From => "From",
            TokenKind::True => "True",
            TokenKind::False => "False",
            TokenKind::Identifier(_) => "Identifier",
            TokenKind::String(_) => "String",
            TokenKind::Number(_) => "Number",
            TokenKind::Colon => "Colon",
            TokenKind::DoubleColon => "DoubleColon",
            TokenKind::SemiColon => "SemiColon",
            TokenKind::Comma => "Comma",
            TokenKind::Dot => "Dot",
            TokenKind::Arrow => "Arrow",
            TokenKind::LeftParen => "LeftParen",
            TokenKind::RightParen => "RightParen",
            TokenKind::LeftBrace => "LeftBrace",
            TokenKind::RightBrace => "RightBrace",
            TokenKind::LeftBracket => "LeftBracket",
            TokenKind::RightBracket => "RightBracket",
            TokenKind::Plus => "Plus",
            TokenKind::Minus => "Minus",
            TokenKind::Asterisk => "Asterisk",
            TokenKind::Slash => "Slash",
            TokenKind::Percent => "Percent",
            TokenKind::DoubleAsterisk => "DoubleAsterisk",
            TokenKind::And => "And",
            TokenKind::Or => "Or",
            TokenKind::Equals => "Equals",
            TokenKind::PlusEquals => "PlusEquals",
            TokenKind::MinusEquals => "MinusEquals",
            TokenKind::AsteriskEquals => "AsteriskEquals",
            TokenKind::SlashEquals => "SlashEquals",
            TokenKind::EqualsEquals => "EqualsEquals",
            TokenKind::NotEquals => "NotEquals",
            TokenKind::GreaterThan => "GreaterThan",
            TokenKind::GreaterThanEquals => "GreaterThanEquals",
            TokenKind::LessThan => "LessThan",
            TokenKind::LessThanEquals => "LessThanEquals",
            TokenKind::Not => "Not",
            TokenKind::Eof => "Eof",
        }
    }

    /// The text that stands for this kind in an error.
    pub fn describe(&self) -> (s: String)
        ensures
            s@ == description(self@),
    {
        let mut s = String::from_str(self.name());
        match self {
            TokenKind::Identifier(text) => {
                s.append("(");
                let q = debug_quoted(text.as_str());
                s.append(q.as_str());
                s.append(")");
            },
            TokenKind::String(text) => {
                s.append("(");
                let q = debug_quoted(text.as_str());
                s.append(q.as_str());
                s.append(")");
            },
            TokenKind::Number(n) => {
                s.append("(");
                let t = n.text();
                s.append(t.as_str());
                s.append(")");
            },
            _ => {},
        }
        s
    }
}

/// The text and the name of a kind, for the kinds that a listing of tokens
/// shows: the literals, `fn`, and the three pairs of brackets.
pub open spec fn listed(kind: Kind) -> Option<(Seq<char>, Seq<char>)> {
    match kind {
        Kind::Identifier(s) => Some((s, "Identifier"@)),
        Kind::String(s) => Some((s, "String"@)),
        Kind::Number(n) => Some((n, "Number"@)),
        Kind::Fn => Some(("fn"@, "Fn"@)),
        Kind::LeftParen => Some(("("@, "LeftParen"@)),
        Kind::RightParen => Some((")"@, "RightParen"@)),
        Kind::LeftBracket => Some(("["@, "LeftBracket"@)),
        Kind::RightBracket => Some(("]"@, "RightBracket"@)),
        Kind::LeftBrace => Some(("{"@, "LeftBrace"@)),
        Kind::RightBrace => Some(("}"@, "RightBrace"@)),
        _ => None,
    }
}

impl TokenKind {
    /// The text and the name of the kind, where a listing of tokens shows it.
    pub fn pair(&self) -> (r: Option<(String, String)>)
        ensures
            match r {
                Some((text, name)) => listed(self@) == Some((text@, name@)),
                None => listed(self@) is None,
            },
    {
        let text = match self {
            TokenKind::Identifier(s) => s.clone(),
            TokenKind::String(s) => s.clone(),
            TokenKind::Number(n) => n.text(),
            TokenKind::Fn => String::from_str("fn"),
            TokenKind::LeftParen => String::from_str("("),
            TokenKind::RightParen => String::from_str(")"),
            TokenKind::LeftBracket => String::from_str("["),
            TokenKind::RightBracket => String::from_str("]"),
            TokenKind::LeftBrace => String::from_str("{"),
            TokenKind::RightBrace => String::from_str("}"),
            _ => {
                return None;
            },
        };
        Some((text, String::from_str(self.name())))
    }
}

/// A token: its kind, the line on which it starts, and its start and end column.
#[derive(Debug)]
pub struct Token {
    pub kind: TokenKind,
    pub line: usize,
    pub span: Span,
}

/// A token as a mathematical value.
pub struct TokenView {
    pub kind: Kind,
    pub line: nat,
    pub span: (nat, nat),
}

/// The token that stands for the end of the input.
pub open spec fn eof() -> TokenView {
    TokenView { kind: Kind::Eof, line: 0, span: (0, 0) }
}

impl View for Token {
    type V = TokenView;

    open spec fn view(&self) -> TokenView {
        TokenView {
            kind: self.kind@,
            line: self.line as nat,
            span: (self.span.0 as nat, self.span.1 as nat),
        }
    }
}

impl Token {
    /// A token of the given kind, line and span.
    pub fn new(kind: TokenKind, line: usize, span: Span) -> (t: Token)
        ensures
            t.kind == kind,
            t.line == line,
            t.span == span,
    {
        Token { kind, line, span }
    }

    /// The token that stands for the end of the input.
    pub fn eof() -> (t: Token)
        ensures
            t@ == eof(),
    {
        Token { kind: TokenKind::Eof, line: 0, span: (0, 0) }
    }
}

impl Clone for Token {
    fn clone(&self) -> (t: Token)
        ensures
            t@ == self@,
    {
        Token { kind: self.kind.clone(), line: self.line, span: (self.span.0, self.span.1) }
    }
}

impl Default for Token {
    fn default() -> (t: Token)
        ensures
            t@ == eof(),
    {
        Token::eof()
    }
}

} // verus!
