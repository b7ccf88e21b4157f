//! A compiler from the Sol scripting language to JavaScript text: a lexer, a
//! Pratt parser, a hoisting pass and an emitter, each with its contract.
use vstd::prelude::*;

pub mod text;
pub mod number;
pub mod token;
pub mod lexer;
pub mod ast;
pub mod error;
pub mod grammar;
pub mod parser;
pub mod passes;
pub mod invariants;
pub mod js;
pub mod compiler;

pub use ast::{Expression, Op, Parameter, Statement, Type};
pub use error::{ParserError, ParserErrorType};
pub use lexer::{LexError, LexErrorKind, Lexer};
pub use number::Number;
pub use parser::{Parser, Program};
pub use token::{Span, Token, TokenKind};

verus! {

/// The views of a sequence of tokens.
pub open spec fn token_views(tokens: Seq<Token>) -> Seq<token::TokenView> {
    Seq::new(tokens.len(), |i: int| tokens[i]@)
}

/// What parsing a source yields: the program with its functions hoisted, or the
/// first failure.
pub open spec fn parse_source(src: Seq<char>) -> Result<
    Seq<ast::StatementView>,
    error::ParserErrorView,
> {
    match grammar::program(lexer::lex_source(src), grammar::start()) {
        Ok((statements, _)) => Ok(passes::hoisted(statements)),
        Err(e) => Err(e),
    }
}

/// What compiling a source yields: the JavaScript text of the parsed program,
/// or the first failure.
pub open spec fn compile_source(src: Seq<char>) -> Result<Seq<char>, error::ParserErrorView> {
    match parse_source(src) {
        Ok(program) => Ok(compiler::emit(program)),
        Err(e) => Err(e),
    }
}

/// Parses a source into a program and hoists its functions.
pub fn parse(source: &str) -> (r: Result<Vec<Statement>, ParserError>)
    ensures
        match parse_source(source@) {
            Ok(program) => r is Ok && ast::statement_views(r->Ok_0@) == program,
            Err(e) => r is Err && r->Err_0@ == e,
        },
{
    let lexer = Lexer::new(source);
    let mut parser = Parser::new(lexer);
    match parser.parse() {
        Ok(mut program) => {
            passes::pass(&mut program);
            Ok(program)
        },
        Err(e) => Err(e),
    }
}

/// Compiles a source to JavaScript text.
pub fn compile(source: &str) -> (r: Result<String, ParserError>)
    ensures
        match compile_source(source@) {
            Ok(text) => r is Ok && r->Ok_0@ == text,
            Err(e) => r is Err && r->Err_0@ == e,
        },
{
    match parse(source) {
        Ok(program) => {
            let mut compiler = compiler::Compiler::new(program);
            let text = compiler.compile();
            proof {
                assert(Seq::<char>::empty() + compiler::emit(ast::statement_views(program@))
                    =~= compiler::emit(ast::statement_views(program@)));
            }
            Ok(text)
        },
        Err(e) => Err(e),
    }
}

/// All the tokens of a source, or the failure of the lexer.
pub fn lex(source: &str) -> (r: Result<Vec<Token>, LexError>)
    ensures
        match lexer::lex_source(source@).failure {
            None => r is Ok && token_views(r->Ok_0@) == lexer::lex_source(source@).tokens,
            Some(e) => r == Err::<Vec<Token>, LexError>(e),
        },
{
    let mut lexer = Lexer::new(source);
    let mut tokens: Vec<Token> = Vec::new();
    let ghost all = lexer::lex_source(source@);
    proof {
        assert(token_views(tokens@) + lexer.pending().tokens =~= all.tokens);
    }
    loop
        invariant
            lexer.wf(),
            lexer.pending().failure == all.failure,
            token_views(tokens@) + lexer.pending().tokens == all.tokens,
            all == lexer::lex_source(source@),
        decreases lexer.pending().tokens.len(),
    {
        let ghost before = token_views(tokens@);
        let ghost rest = lexer.pending().tokens;
        match lexer.next() {
            Ok(Some(token)) => {
                proof {
                    assert(token_views(tokens@.push(token)) + rest.drop_first() =~= before
                        + rest);
                }
                tokens.push(token);
            },
            Ok(None) => {
                proof {
                    assert(before + rest =~= before);
                }
                return Ok(tokens);
            },
            Err(e) => {
                return Err(e);
            },
        }
    }
}

} // verus!
