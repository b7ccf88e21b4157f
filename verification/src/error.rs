//! The errors of the parser.
use vstd::prelude::*;
use vstd::string::*;
use crate::lexer::{LexError, LexErrorKind};
use crate::token::Span;

verus! {

/// Why a parse failed.
#[derive(Debug)]
pub enum ParserErrorType {
    /// `break` outside the body of a `while`.
    InvalidBreakableScope,
    /// `continue` outside the body of a `while`.
    InvalidContinuableScope,
    /// The token found, and the one that was expected where one was.
    UnexpectedToken(String, Option<String>),
    /// `fn` inside the body of a function.
    NestedFunctionDefinition,
    /// An identifier was expected.
    ExpectedIdentifier,
    /// The lexer gave up.
    Lexical(LexErrorKind),
}

/// A failure of the parser: its kind, and the line and span of the token at
/// which it came.
#[derive(Debug)]
pub struct ParserError {
    pub line: usize,
    pub span: Span,
    pub err: ParserErrorType,
}

/// Why a parse failed, as a mathematical value.
pub enum ParseFault {
    InvalidBreakableScope,
    InvalidContinuableScope,
    UnexpectedToken(Seq<char>, Option<Seq<char>>),
    NestedFunctionDefinition,
    ExpectedIdentifier,
    Lexical(LexErrorKind),
}

/// A failure of the parser as a mathematical value.
pub struct ParserErrorView {
    pub line: nat,
    pub span: (nat, nat),
    pub err: ParseFault,
}

impl View for ParserErrorType {
    type V = ParseFault;

    open spec fn view(&self) -> ParseFault {
        match self {
            ParserErrorType::InvalidBreakableScope => ParseFault::InvalidBreakableScope,
            ParserErrorType::InvalidContinuableScope => ParseFault::InvalidContinuableScope,
            ParserErrorType::UnexpectedToken(found, expected) => ParseFault::UnexpectedToken(
                found@,
                match expected {
                    Some(e) => Some(e@),
                    None => None,
                },
            ),
            ParserErrorType::NestedFunctionDefinition => ParseFault::NestedFunctionDefinition,
            ParserErrorType::ExpectedIdentifier => ParseFault::ExpectedIdentifier,
            ParserErrorType::Lexical(kind) => ParseFault::Lexical(*kind),
        }
    }
}

impl View for ParserError {
    type V = ParserErrorView;

    open spec fn view(&self) -> ParserErrorView {
        ParserErrorView {
            line: self.line as nat,
            span: (self.span.0 as nat, self.span.1 as nat),
            err: self.err@,
        }
    }
}

impl Clone for ParserErrorType {
    fn clone(&self) -> (e: ParserErrorType)
        ensures
            e@ == self@,
    {
        match self {
            ParserErrorType::InvalidBreakableScope => ParserErrorType::InvalidBreakableScope,
            ParserErrorType::InvalidContinuableScope => ParserErrorType::InvalidContinuableScope,
            ParserErrorType::UnexpectedToken(found, expected) => ParserErrorType::UnexpectedToken(
                found.clone(),
                match expected {
                    Some(e) => Some(e.clone()),
                    None => None,
                },
            ),
            ParserErrorType::NestedFunctionDefinition => ParserErrorType::NestedFunctionDefinition,
            ParserErrorType::ExpectedIdentifier => ParserErrorType::ExpectedIdentifier,
            ParserErrorType::Lexical(kind) => ParserErrorType::Lexical(*kind),
        }
    }
}

impl Clone for ParserError {
    fn clone(&self) -> (e: ParserError)
        ensures
            e@ == self@,
    {
        ParserError { line: self.line, span: (self.span.0, self.span.1), err: self.err.clone() }
    }
}

/// The failure of the lexer `e` as a failure of the parser: at its line, and at
/// its column from start to end.
pub open spec fn lexical(e: LexError) -> ParserErrorView {
    ParserErrorView {
        line: e.line as nat,
        span: (e.column as nat, e.column as nat),
        err: ParseFault::Lexical(e.kind),
    }
}

impl ParserError {
    /// The failure of the lexer `e` as a failure of the parser.
    pub fn lexical(e: LexError) -> (r: ParserError)
        ensures
            r@ == lexical(e),
    {
        ParserError {
            line: e.line,
            span: (e.column, e.column),
            err: ParserErrorType::Lexical(e.kind),
        }
    }
}

} // verus!
