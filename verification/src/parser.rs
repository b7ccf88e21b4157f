//! The parser: a lexer's tokens in, a program out.
use vstd::prelude::*;
use vstd::string::*;
use crate::ast::{
    entry_views, expression_views, lemma_expression_view, lemma_statement_view, parameter_views,
    statement_views, string_views, Expression, ExpressionView, Op, Parameter, ParameterView,
    Statement, StatementView, Type,
};
use crate::error::{ParseFault, ParserError, ParserErrorType, ParserErrorView};
use crate::grammar;
use crate::grammar::{remaining, token_or_eof, Parsed, State};
use crate::lexer::{Lexer, Stream};
use crate::token::{Kind, Token, TokenKind, TokenView};

verus! {

/// A program: its statements in order.
pub type Program = Vec<Statement>;

/// Whether what a parser function returned, and the state it left, are what
/// the grammar yields; `view_of` gives the view of the value returned.
pub open spec fn agrees<T, V>(
    r: Result<T, ParserError>,
    view_of: spec_fn(T) -> V,
    after: State,
    expected: Parsed<V>,
) -> bool {
    match expected {
        Ok((v, st)) => r is Ok && view_of(r->Ok_0) == v && after == st,
        Err(e) => r is Err && r->Err_0@ == e,
    }
}

/// As `agrees`, for a function that only moves.
pub open spec fn moves(
    r: Result<(), ParserError>,
    after: State,
    expected: Result<State, ParserErrorView>,
) -> bool {
    match expected {
        Ok(st) => r is Ok && after == st,
        Err(e) => r is Err && r->Err_0@ == e,
    }
}

/// What every rule keeps on success: the depth stays, and no token comes
/// back; where `strictly`, at least one token was read.
pub open spec fn onward(input: Stream, before: State, after: State, strictly: bool) -> bool {
    &&& after.depth == before.depth
    &&& if strictly {
        remaining(input, after) < remaining(input, before)
    } else {
        remaining(input, after) <= remaining(input, before)
    }
}

/// The view of an optional type.
pub open spec fn type_view(ty: Option<Type>) -> Option<Seq<char>> {
    match ty {
        Some(t) => Some(t@),
        None => None,
    }
}

/// The tokens from index `from` on.
pub open spec fn tokens_from(tokens: Seq<TokenView>, from: int) -> Seq<TokenView> {
    if 0 <= from <= tokens.len() {
        tokens.skip(from)
    } else {
        Seq::empty()
    }
}

/// Whether a kind is a prefix operator.
pub fn is_prefix(kind: &TokenKind) -> (b: bool)
    ensures
        b == grammar::prefix_binding(kind@) is Some,
{
    match kind {
        TokenKind::Minus | TokenKind::Not => true,
        _ => false,
    }
}

/// The right binding power of a prefix operator.
pub fn prefix_binding_power(kind: &TokenKind) -> (r: Option<u8>)
    ensures
        match r {
            Some(rbp) => grammar::prefix_binding(kind@) == Some(rbp as nat),
            None => grammar::prefix_binding(kind@) is None,
        },
{
    match kind {
        TokenKind::Minus | TokenKind::Not => Some(99),
        _ => None,
    }
}

/// The left and right binding power of an infix operator.
pub fn infix_binding_power(kind: &TokenKind) -> (r: Option<(u8, u8)>)
    ensures
        match r {
            Some((lbp, rbp)) => grammar::infix_binding(kind@) == Some((lbp as nat, rbp as nat)),
            None => grammar::infix_binding(kind@) is None,
        },
{
    match kind {
        TokenKind::Asterisk | TokenKind::Slash | TokenKind::Percent
        | TokenKind::DoubleAsterisk => Some((13, 14)),
        TokenKind::Plus | TokenKind::Minus => Some((11, 12)),
        TokenKind::GreaterThan | TokenKind::GreaterThanEquals | TokenKind::LessThan
        | TokenKind::LessThanEquals => Some((9, 10)),
        TokenKind::EqualsEquals | TokenKind::NotEquals => Some((7, 8)),
        TokenKind::And => Some((5, 6)),
        TokenKind::Or => Some((3, 4)),
        TokenKind::Equals | TokenKind::PlusEquals | TokenKind::MinusEquals
        | TokenKind::AsteriskEquals | TokenKind::SlashEquals => Some((2, 1)),
        _ => None,
    }
}

/// The left binding power of a postfix operator.
pub fn postfix_binding_power(kind: &TokenKind) -> (r: Option<u8>)
    ensures
        match r {
            Some(lbp) => grammar::postfix_binding(kind@) == Some(lbp as nat),
            None => grammar::postfix_binding(kind@) is None,
        },
{
    match kind {
        TokenKind::LeftParen | TokenKind::LeftBracket | TokenKind::Dot => Some(19),
        _ => None,
    }
}

/// The prefix expression of the operator of `kind` and `operand`.
pub fn prefix(kind: &TokenKind, operand: Expression) -> (e: Expression)
    requires
        grammar::prefix_binding(kind@) is Some,
    ensures
        e@ == ExpressionView::Prefix(
            crate::ast::operator_of(kind@)->0,
            Box::new(operand@),
        ),
{
    let op = match kind {
        TokenKind::Minus => Op::Subtract,
        _ => Op::Not,
    };
    Expression::Prefix(op, Box::new(operand))
}

/// The expression that the infix operator of `kind` makes of `left` and `right`.
pub fn infix(left: Expression, kind: &TokenKind, right: Expression) -> (e: Expression)
    requires
        kind@ is Equals || crate::ast::operator_of(kind@) is Some,
    ensures
        e@ == grammar::infix(left@, kind@, right@),
{
    match Op::from(kind) {
        Some(Op::Assign) | None => Expression::Assign(Box::new(left), Box::new(right)),
        Some(op) => Expression::Infix(Box::new(left), op, Box::new(right)),
    }
}

proof fn lemma_insert_entry(
    entries: Seq<(Seq<char>, ExpressionView)>,
    key: Seq<char>,
    value: ExpressionView,
    i: int,
)
    requires
        0 <= i <= entries.len(),
        forall|j: int| 0 <= j < i ==> entries[j].0 != key,
        i < entries.len() ==> entries[i].0 == key,
    ensures
        grammar::insert_entry(entries, key, value) == if i < entries.len() {
            entries.update(i, (key, value))
        } else {
            entries.push((key, value))
        },
    decreases entries.len(),
{
    if entries.len() == 0 {
        assert(seq![(key, value)] =~= entries.push((key, value)));
    } else if i == 0 {
        assert(seq![(key, value)] + entries.drop_first() =~= entries.update(0, (key, value)));
    } else {
        let rest = entries.drop_first();
        lemma_insert_entry(rest, key, value, i - 1);
        if i < entries.len() {
            assert(seq![entries[0]] + rest.update(i - 1, (key, value)) =~= entries.update(
                i,
                (key, value),
            ));
        } else {
            assert(seq![entries[0]] + rest.push((key, value)) =~= entries.push((key, value)));
        }
    }
}

/// Sets `key` to `value` in the entries of a map literal: in the place of the
/// entry that held the key, or else at the end.
pub fn insert_member(entries: &mut Vec<(String, Expression)>, key: String, value: Expression)
    ensures
        entry_views(final(entries)@) == grammar::insert_entry(
            entry_views(old(entries)@),
            key@,
            value@,
        ),
{
    let ghost before = entry_views(entries@);
    let mut i: usize = 0;
    while i < entries.len() && !(entries[i].0 == key)
        invariant
            i <= entries.len(),
            entries == old(entries),
            forall|j: int| 0 <= j < i ==> before[j].0 != key@,
            before == entry_views(entries@),
        decreases entries.len() - i,
    {
        i += 1;
    }
    proof {
        lemma_insert_entry(before, key@, value@, i as int);
    }
    if i < entries.len() {
        entries.remove(i);
        entries.insert(i, (key, value));
        assert(entry_views(entries@) =~= before.update(i as int, (key@, value@)));
    } else {
        entries.push((key, value));
        assert(entry_views(entries@) =~= before.push((key@, value@)));
    }
}

/// The parser: the lexer, the current token and the one after it, whether
/// `break` and `continue` are allowed, and how many function bodies enclose
/// the current token.
pub struct Parser {
    lexer: Lexer,
    current: Token,
    peek: Token,
    in_breakable_scope: bool,
    scope_depth: usize,
    input: Ghost<Stream>,
    pos: Ghost<int>,
}

impl Parser {
    /// The two tokens held are those of the stream at the position, and the
    /// lexer has yet to hand out the ones after them.
    pub closed spec fn wf(&self) -> bool {
        &&& self.lexer.wf()
        &&& self.pos@ >= -2
        &&& self.current@ == token_or_eof(self.input@.tokens, self.pos@)
        &&& self.peek@ == token_or_eof(self.input@.tokens, self.pos@ + 1)
        &&& self.lexer.pending().failure == self.input@.failure
        &&& self.lexer.pending().tokens == tokens_from(self.input@.tokens, self.pos@ + 2)
        &&& self.input@.failure is Some ==> self.pos@ + 2 <= self.input@.tokens.len()
    }

    /// The stream of tokens that the parser reads.
    pub closed spec fn input(&self) -> Stream {
        self.input@
    }

    /// Where the parser stands.
    pub closed spec fn state(&self) -> State {
        State {
            pos: self.pos@,
            breakable: self.in_breakable_scope,
            depth: self.scope_depth as nat,
        }
    }

    /// A parser that reads what `lexer` has yet to hand out.
    pub fn new(lexer: Lexer) -> (parser: Parser)
        requires
            lexer.wf(),
        ensures
            parser.wf(),
            parser.input() == lexer.pending(),
            parser.state() == grammar::start(),
    {
        let ghost input = lexer.pending();
        proof {
            assert(input.tokens.skip(0) =~= input.tokens);
        }
        Parser {
            lexer,
            current: Token::eof(),
            peek: Token::eof(),
            in_breakable_scope: false,
            scope_depth: 0,
            input: Ghost(input),
            pos: Ghost(-2),
        }
    }

    /// Moves to the next token: the one after the current becomes the current,
    /// and the lexer's next token, or the end of the input, comes after it.
    pub fn read(&mut self) -> (r: Result<(), ParserError>)
        requires
            old(self).wf(),
        ensures
            final(self).wf(),
            final(self).input() == old(self).input(),
            moves(r, final(self).state(), grammar::advance(old(self).input(), old(self).state())),
            r is Err ==> final(self).state() == old(self).state(),
    {
        let ghost tokens = self.input@.tokens;
        let ghost pulled = self.pos@ + 2;
        match self.lexer.next() {
            Err(e) => {
                proof {
                    assert(self.lexer.pending().tokens =~= tokens_from(tokens, pulled));
                }
                Err(ParserError::lexical(e))
            },
            Ok(next) => {
                let token = match next {
                    Some(token) => token,
                    None => Token::eof(),
                };
                proof {
                    if pulled < tokens.len() {
                        assert(tokens.skip(pulled).drop_first() =~= tokens.skip(pulled + 1));
                        assert(tokens.skip(pulled)[0] == tokens[pulled]);
                    }
                    assert(self.lexer.pending().tokens =~= tokens_from(tokens, pulled + 1));
                }
                std::mem::swap(&mut self.current, &mut self.peek);
                self.peek = token;
                self.pos = Ghost(self.pos@ + 1);
                Ok(())
            },
        }
    }

    /// The failure `err` at the current token.
    fn error(&self, err: ParserErrorType) -> (e: ParserError)
        requires
            self.wf(),
        ensures
            e@ == grammar::fault(self.input(), self.state(), err@),
    {
        ParserError { line: self.current.line, span: (self.current.span.0, self.current.span.1), err }
    }

    /// The failure for a current token that cannot stand where it stands.
    fn unexpected(&self, expected: Option<String>) -> (e: ParserError)
        requires
            self.wf(),
        ensures
            e@ == grammar::unexpected(
                self.input(),
                self.state(),
                match expected {
                    Some(text) => Some(text@),
                    None => None,
                },
            ),
    {
        let found = self.current.kind.describe();
        self.error(ParserErrorType::UnexpectedToken(found, expected))
    }

    fn expect(&mut self, kind: TokenKind) -> (r: Result<(), ParserError>)
        requires
            old(self).wf(),
        ensures
            final(self).wf(),
            final(self).input() == old(self).input(),
            moves(
                r,
                final(self).state(),
                grammar::expect(old(self).input(), old(self).state(), kind@),
            ),
    {
        if kind.same_variant(&self.current.kind) {
            self.read()
        } else {
            Err(self.unexpected(Some(kind.describe())))
        }
    }

    fn optional_comma(&mut self) -> (r: Result<(), ParserError>)
        requires
            old(self).wf(),
        ensures
            final(self).wf(),
            final(self).input() == old(self).input(),
            moves(
                r,
                final(self).state(),
                grammar::optional_comma(old(self).input(), old(self).state()),
            ),
    {
        match self.current.kind {
            TokenKind::Comma => self.read(),
            _ => Ok(()),
        }
    }

    fn string(&mut self) -> (r: Result<String, ParserError>)
        requires
            old(self).wf(),
        ensures
            final(self).wf(),
            final(self).input() == old(self).input(),
            agrees(
                r,
                |s: String| s@,
                final(self).state(),
                grammar::string_literal(old(self).input(), old(self).state()),
            ),
    {
        match self.current.kind.clone() {
            TokenKind::String(text) => match self.read() {
                Ok(()) => Ok(text),
                Err(e) => Err(e),
            },
            _ => Err(self.unexpected(Some(String::from_str("String")))),
        }
    }

    fn identifier(&mut self) -> (r: Result<String, ParserError>)
        requires
            old(self).wf(),
        ensures
            final(self).wf(),
            final(self).input() == old(self).input(),
            agrees(
                r,
                |s: String| s@,
                final(self).state(),
                grammar::identifier(old(self).input(), old(self).state()),
            ),
    {
        match self.current.kind.clone() {
            TokenKind::Identifier(name) => match self.read() {
                Ok(()) => Ok(name),
                Err(e) => Err(e),
            },
            _ => Err(self.error(ParserErrorType::ExpectedIdentifier)),
        }
    }

    fn type_annotation(&mut self) -> (r: Result<Option<Type>, ParserError>)
        requires
            old(self).wf(),
        ensures
            final(self).wf(),
            final(self).input() == old(self).input(),
            agrees(
                r,
                |ty: Option<Type>| type_view(ty),
                final(self).state(),
                grammar::type_annotation(old(self).input(), old(self).state()),
            ),
    {
        match self.current.kind {
            TokenKind::Colon | TokenKind::DoubleColon => {
                match self.read() {
                    Err(e) => {
                        return Err(e);
                    },
                    Ok(()) => {},
                }
                match self.identifier() {
                    Ok(name) => Ok(Some(Type(name))),
                    Err(e) => Err(e),
                }
            },
            _ => Ok(None),
        }
    }

    fn parameters(&mut self) -> (r: Result<Vec<Parameter>, ParserError>)
        requires
            old(self).wf(),
        ensures
            final(self).wf(),
            final(self).input() == old(self).input(),
            agrees(
                r,
                |v: Vec<Parameter>| parameter_views(v@),
                final(self).state(),
                grammar::parameters(old(self).input(), old(self).state(), Seq::empty()),
            ),
            r is Ok ==> onward(old(self).input(), old(self).state(), final(self).state(), false),
    {
        let mut parameters: Vec<Parameter> = Vec::new();
        let ghost input = self.input();
        let ghost start = self.state();
        proof {
            assert(parameter_views(parameters@) =~= Seq::empty());
        }
        loop
            invariant
                self.wf(),
                self.input() == input,
                input == old(self).input(),
                start == old(self).state(),
                onward(input, start, self.state(), false),
                grammar::parameters(input, start, Seq::empty()) == grammar::parameters(
                    input,
                    self.state(),
                    parameter_views(parameters@),
                ),
            decreases remaining(input, self.state()),
        {
            match self.current.kind {
                TokenKind::RightParen => {
                    return Ok(parameters);
                },
                _ => {},
            }
            let name = match self.identifier() {
                Ok(name) => name,
                Err(e) => {
                    return Err(e);
                },
            };
            let ty = match self.type_annotation() {
                Ok(ty) => ty,
                Err(e) => {
                    return Err(e);
                },
            };
            match self.optional_comma() {
                Ok(()) => {},
                Err(e) => {
                    return Err(e);
                },
            }
            let ghost before = parameter_views(parameters@);
            let parameter = Parameter { name, ty };
            proof {
                assert(parameter_views(parameters@.push(parameter)) =~= before.push(parameter@));
            }
            parameters.push(parameter);
        }
    }

    fn import_names(&mut self) -> (r: Result<Vec<String>, ParserError>)
        requires
            old(self).wf(),
        ensures
            final(self).wf(),
            final(self).input() == old(self).input(),
            agrees(
                r,
                |v: Vec<String>| string_views(v@),
                final(self).state(),
                grammar::import_names(old(self).input(), old(self).state(), Seq::empty()),
            ),
            r is Ok ==> onward(old(self).input(), old(self).state(), final(self).state(), false),
    {
        let mut imports: Vec<String> = Vec::new();
        let ghost input = self.input();
        let ghost start = self.state();
        proof {
            assert(string_views(imports@) =~= Seq::empty());
        }
        loop
            invariant
                self.wf(),
                self.input() == input,
                input == old(self).input(),
                start == old(self).state(),
                onward(input, start, self.state(), false),
                grammar::import_names(input, start, Seq::empty()) == grammar::import_names(
                    input,
                    self.state(),
                    string_views(imports@),
                ),
            decreases remaining(input, self.state()),
        {
            match self.current.kind {
                TokenKind::From => {
                    return Ok(imports);
                },
                _ => {},
            }
            if imports.len() > 0 {
                match self.expect(TokenKind::Comma) {
                    Ok(()) => {},
                    Err(e) => {
                        return Err(e);
                    },
                }
            }
            let name = match self.identifier() {
                Ok(name) => name,
                Err(e) => {
                    return Err(e);
                },
            };
            let ghost before = string_views(imports@);
            proof {
                assert(string_views(imports@.push(name)) =~= before.push(name@));
            }
            imports.push(name);
        }
    }

    fn parse_import(&mut self) -> (r: Result<Statement, ParserError>)
        requires
            old(self).wf(),
        ensures
            final(self).wf(),
            final(self).input() == old(self).input(),
            agrees(
                r,
                |s: Statement| s@,
                final(self).state(),
                grammar::import(old(self).input(), old(self).state()),
            ),
            r is Ok ==> onward(old(self).input(), old(self).state(), final(self).state(), true),
    {
        match self.read() {
            Ok(()) => {},
            Err(e) => {
                return Err(e);
            },
        }
        let imports = match self.import_names() {
            Ok(imports) => imports,
            Err(e) => {
                return Err(e);
            },
        };
        match self.expect(TokenKind::From) {
            Ok(()) => {},
            Err(e) => {
                return Err(e);
            },
        }
        let module = match self.string() {
            Ok(module) => module,
            Err(e) => {
                return Err(e);
            },
        };
        let statement = Statement::Use { module, imports };
        proof {
            lemma_statement_view(statement);
        }
        Ok(statement)
    }
    /// Expressions up to a token of the variant of `closer`, a comma after each
    /// allowed: the items of an array, the arguments of a call.
    fn list(&mut self, closer: &TokenKind) -> (r: Result<Vec<Expression>, ParserError>)
        requires
            old(self).wf(),
        ensures
            final(self).wf(),
            final(self).input() == old(self).input(),
            agrees(
                r,
                |v: Vec<Expression>| expression_views(v@),
                final(self).state(),
                grammar::list(old(self).input(), old(self).state(), closer@, Seq::empty()),
            ),
            r is Ok ==> onward(old(self).input(), old(self).state(), final(self).state(), false),
        decreases remaining(old(self).input(), old(self).state()), 3nat,
    {
        let mut items: Vec<Expression> = Vec::new();
        let ghost input = self.input();
        let ghost start = self.state();
        proof {
            assert(expression_views(items@) =~= Seq::empty());
        }
        loop
            invariant
                self.wf(),
                self.input() == input,
                input == old(self).input(),
                start == old(self).state(),
                onward(input, start, self.state(), false),
                grammar::list(input, start, closer@, Seq::empty()) == grammar::list(
                    input,
                    self.state(),
                    closer@,
                    expression_views(items@),
                ),
            decreases remaining(input, self.state()),
        {
            if closer.same_variant(&self.current.kind) {
                return Ok(items);
            }
            let item = match self.expression(0) {
                Ok(item) => item,
                Err(e) => {
                    return Err(e);
                },
            };
            match self.optional_comma() {
                Ok(()) => {},
                Err(e) => {
                    return Err(e);
                },
            }
            let ghost before = expression_views(items@);
            proof {
                assert(expression_views(items@.push(item)) =~= before.push(item@));
            }
            items.push(item);
        }
    }

    /// The entries of a map literal up to the closing brace.
    fn entries(&mut self) -> (r: Result<Vec<(String, Expression)>, ParserError>)
        requires
            old(self).wf(),
        ensures
            final(self).wf(),
            final(self).input() == old(self).input(),
            agrees(
                r,
                |v: Vec<(String, Expression)>| entry_views(v@),
                final(self).state(),
                grammar::entries(old(self).input(), old(self).state(), Seq::empty()),
            ),
            r is Ok ==> onward(old(self).input(), old(self).state(), final(self).state(), false),
        decreases remaining(old(self).input(), old(self).state()), 3nat,
    {
        let mut members: Vec<(String, Expression)> = Vec::new();
        let ghost input = self.input();
        let ghost start = self.state();
        proof {
            assert(entry_views(members@) =~= Seq::empty());
        }
        loop
            invariant
                self.wf(),
                self.input() == input,
                input == old(self).input(),
                start == old(self).state(),
                onward(input, start, self.state(), false),
                grammar::entries(input, start, Seq::empty()) == grammar::entries(
                    input,
                    self.state(),
                    entry_views(members@),
                ),
            decreases remaining(input, self.state()),
        {
            match self.current.kind {
                TokenKind::RightBrace => {
                    return Ok(members);
                },
                _ => {},
            }
            let key = match self.string() {
                Ok(key) => key,
                Err(e) => {
                    return Err(e);
                },
            };
            match self.expect(TokenKind::Colon) {
                Ok(()) => {},
                Err(e) => {
                    return Err(e);
                },
            }
            let value = match self.expression(0) {
                Ok(value) => value,
                Err(e) => {
                    return Err(e);
                },
            };
            match self.optional_comma() {
                Ok(()) => {},
                Err(e) => {
                    return Err(e);
                },
            }
            insert_member(&mut members, key, value);
        }
    }

    /// A closure, from `fn` on.
    fn closure(&mut self) -> (r: Result<Expression, ParserError>)
        requires
            old(self).wf(),
        ensures
            final(self).wf(),
            final(self).input() == old(self).input(),
            agrees(
                r,
                |e: Expression| e@,
                final(self).state(),
                grammar::closure(old(self).input(), old(self).state()),
            ),
            r is Ok ==> onward(old(self).input(), old(self).state(), final(self).state(), true),
        decreases remaining(old(self).input(), old(self).state()), 0nat,
    {
        match self.expect(TokenKind::Fn) {
            Ok(()) => {},
            Err(e) => {
                return Err(e);
            },
        }
        match self.expect(TokenKind::LeftParen) {
            Ok(()) => {},
            Err(e) => {
                return Err(e);
            },
        }
        let params = match self.parameters() {
            Ok(params) => params,
            Err(e) => {
                return Err(e);
            },
        };
        match self.expect(TokenKind::RightParen) {
            Ok(()) => {},
            Err(e) => {
                return Err(e);
            },
        }
        let arrow = match self.current.kind {
            TokenKind::Arrow => true,
            _ => false,
        };
        let body = if arrow {
            match self.read() {
                Ok(()) => {},
                Err(e) => {
                    return Err(e);
                },
            }
            let expression = match self.expression(0) {
                Ok(expression) => expression,
                Err(e) => {
                    return Err(e);
                },
            };
            let statement = Statement::Return { expression };
            proof {
                lemma_statement_view(statement);
            }
            let mut body: Vec<Statement> = Vec::new();
            body.push(statement);
            proof {
                assert(statement_views(body@) =~= seq![statement@]);
            }
            body
        } else {
            match self.expect(TokenKind::LeftBrace) {
                Ok(()) => {},
                Err(e) => {
                    return Err(e);
                },
            }
            let body = match self.block() {
                Ok(body) => body,
                Err(e) => {
                    return Err(e);
                },
            };
            match self.expect(TokenKind::RightBrace) {
                Ok(()) => {},
                Err(e) => {
                    return Err(e);
                },
            }
            body
        };
        let closure = Expression::Closure(params, body);
        proof {
            lemma_expression_view(closure);
        }
        Ok(closure)
    }

    /// What an expression starts with.
    fn primary(&mut self) -> (r: Result<Expression, ParserError>)
        requires
            old(self).wf(),
        ensures
            final(self).wf(),
            final(self).input() == old(self).input(),
            agrees(
                r,
                |e: Expression| e@,
                final(self).state(),
                grammar::primary(old(self).input(), old(self).state()),
            ),
            r is Ok ==> onward(old(self).input(), old(self).state(), final(self).state(), true),
        decreases remaining(old(self).input(), old(self).state()), 1nat,
    {
        let kind = self.current.kind.clone();
        match kind {
            TokenKind::Number(n) => match self.read() {
                Ok(()) => Ok(Expression::Number(n)),
                Err(e) => Err(e),
            },
            TokenKind::True => match self.read() {
                Ok(()) => Ok(Expression::Bool(true)),
                Err(e) => Err(e),
            },
            TokenKind::False => match self.read() {
                Ok(()) => Ok(Expression::Bool(false)),
                Err(e) => Err(e),
            },
            TokenKind::String(s) => match self.read() {
                Ok(()) => Ok(Expression::String(s)),
                Err(e) => Err(e),
            },
            TokenKind::Identifier(i) => match self.read() {
                Ok(()) => Ok(Expression::Identifier(i)),
                Err(e) => Err(e),
            },
            TokenKind::LeftBracket => {
                match self.read() {
                    Ok(()) => {},
                    Err(e) => {
                        return Err(e);
                    },
                }
                let items = match self.list(&TokenKind::RightBracket) {
                    Ok(items) => items,
                    Err(e) => {
                        return Err(e);
                    },
                };
                match self.expect(TokenKind::RightBracket) {
                    Ok(()) => {},
                    Err(e) => {
                        return Err(e);
                    },
                }
                let array = Expression::Array(items);
                proof {
                    lemma_expression_view(array);
                }
                Ok(array)
            },
            TokenKind::LeftBrace => {
                match self.read() {
                    Ok(()) => {},
                    Err(e) => {
                        return Err(e);
                    },
                }
                let members = match self.entries() {
                    Ok(members) => members,
                    Err(e) => {
                        return Err(e);
                    },
                };
                match self.expect(TokenKind::RightBrace) {
                    Ok(()) => {},
                    Err(e) => {
                        return Err(e);
                    },
                }
                let mapping = Expression::Mapping(members);
                proof {
                    lemma_expression_view(mapping);
                }
                Ok(mapping)
            },
            TokenKind::Fn => self.closure(),
            TokenKind::LeftParen => {
                match self.read() {
                    Ok(()) => {},
                    Err(e) => {
                        return Err(e);
                    },
                }
                let expression = match self.expression(0) {
                    Ok(expression) => expression,
                    Err(e) => {
                        return Err(e);
                    },
                };
                match self.expect(TokenKind::RightParen) {
                    Ok(()) => Ok(expression),
                    Err(e) => Err(e),
                }
            },
            _ => match prefix_binding_power(&kind) {
                Some(rbp) => {
                    match self.read() {
                        Ok(()) => {},
                        Err(e) => {
                            return Err(e);
                        },
                    }
                    match self.expression(rbp) {
                        Ok(operand) => Ok(prefix(&kind, operand)),
                        Err(e) => Err(e),
                    }
                },
                None => Err(self.unexpected(None)),
            },
        }
    }

    /// What follows a postfix operator that has been read.
    fn postfix(&mut self, left: Expression, kind: &TokenKind) -> (r: Result<
        Expression,
        ParserError,
    >)
        requires
            old(self).wf(),
        ensures
            final(self).wf(),
            final(self).input() == old(self).input(),
            agrees(
                r,
                |e: Expression| e@,
                final(self).state(),
                grammar::postfix(old(self).input(), old(self).state(), left@, kind@),
            ),
            r is Ok ==> onward(old(self).input(), old(self).state(), final(self).state(), false),
        decreases remaining(old(self).input(), old(self).state()), 4nat,
    {
        match kind {
            TokenKind::LeftParen => {
                let arguments = match self.list(&TokenKind::RightParen) {
                    Ok(arguments) => arguments,
                    Err(e) => {
                        return Err(e);
                    },
                };
                match self.read() {
                    Ok(()) => {},
                    Err(e) => {
                        return Err(e);
                    },
                }
                let call = Expression::Call(Box::new(left), arguments);
                proof {
                    lemma_expression_view(call);
                }
                Ok(call)
            },
            TokenKind::LeftBracket => {
                let append = match self.current.kind {
                    TokenKind::RightBracket => true,
                    _ => false,
                };
                if append {
                    match self.read() {
                        Ok(()) => Ok(Expression::Index(Box::new(left), None)),
                        Err(e) => Err(e),
                    }
                } else {
                    let index = match self.expression(0) {
                        Ok(index) => index,
                        Err(e) => {
                            return Err(e);
                        },
                    };
                    match self.expect(TokenKind::RightBracket) {
                        Ok(()) => Ok(Expression::Index(Box::new(left), Some(Box::new(index)))),
                        Err(e) => Err(e),
                    }
                }
            },
            _ => match self.expression(19) {
                Ok(property) => Ok(Expression::Dot(Box::new(left), Box::new(property))),
                Err(e) => Err(e),
            },
        }
    }

    /// The postfix and infix operators after `left`, as long as they bind at
    /// least as tightly as `bp`.
    fn operators(&mut self, left: Expression, bp: u8) -> (r: Result<Expression, ParserError>)
        requires
            old(self).wf(),
        ensures
            final(self).wf(),
            final(self).input() == old(self).input(),
            agrees(
                r,
                |e: Expression| e@,
                final(self).state(),
                grammar::operators(old(self).input(), old(self).state(), left@, bp as nat),
            ),
            r is Ok ==> onward(old(self).input(), old(self).state(), final(self).state(), false),
        decreases remaining(old(self).input(), old(self).state()), 4nat,
    {
        let mut whole = left;
        let ghost input = self.input();
        let ghost start = self.state();
        let ghost first = whole@;
        loop
            invariant
                self.wf(),
                self.input() == input,
                input == old(self).input(),
                start == old(self).state(),
                onward(input, start, self.state(), false),
                first == left@,
                grammar::operators(input, start, first, bp as nat) == grammar::operators(
                    input,
                    self.state(),
                    whole@,
                    bp as nat,
                ),
            decreases remaining(input, self.state()),
        {
            let kind = self.current.kind.clone();
            match kind {
                TokenKind::Eof => {
                    return Ok(whole);
                },
                _ => {},
            }
            match postfix_binding_power(&kind) {
                Some(lbp) => {
                    if lbp < bp {
                        return Ok(whole);
                    }
                    match self.read() {
                        Ok(()) => {},
                        Err(e) => {
                            return Err(e);
                        },
                    }
                    whole = match self.postfix(whole, &kind) {
                        Ok(whole) => whole,
                        Err(e) => {
                            return Err(e);
                        },
                    };
                },
                None => match infix_binding_power(&kind) {
                    Some((lbp, rbp)) => {
                        if lbp < bp {
                            return Ok(whole);
                        }
                        let known = match kind {
                            TokenKind::Equals => true,
                            _ => Op::from(&kind).is_some(),
                        };
                        if !known {
                            return Err(self.unexpected(None));
                        }
                        match self.read() {
                            Ok(()) => {},
                            Err(e) => {
                                return Err(e);
                            },
                        }
                        let right = match self.expression(rbp) {
                            Ok(right) => right,
                            Err(e) => {
                                return Err(e);
                            },
                        };
                        whole = infix(whole, &kind, right);
                    },
                    None => {
                        return Ok(whole);
                    },
                },
            }
        }
    }

    /// An expression whose operators bind at least as tightly as `bp`.
    fn expression(&mut self, bp: u8) -> (r: Result<Expression, ParserError>)
        requires
            old(self).wf(),
        ensures
            final(self).wf(),
            final(self).input() == old(self).input(),
            agrees(
                r,
                |e: Expression| e@,
                final(self).state(),
                grammar::expression(old(self).input(), old(self).state(), bp as nat),
            ),
            r is Ok ==> onward(old(self).input(), old(self).state(), final(self).state(), true),
        decreases remaining(old(self).input(), old(self).state()), 2nat,
    {
        let left = match self.primary() {
            Ok(left) => left,
            Err(e) => {
                return Err(e);
            },
        };
        self.operators(left, bp)
    }

    /// Statements up to a closing brace.
    fn block(&mut self) -> (r: Result<Vec<Statement>, ParserError>)
        requires
            old(self).wf(),
        ensures
            final(self).wf(),
            final(self).input() == old(self).input(),
            agrees(
                r,
                |v: Vec<Statement>| statement_views(v@),
                final(self).state(),
                grammar::block(old(self).input(), old(self).state(), Seq::empty()),
            ),
            r is Ok ==> onward(old(self).input(), old(self).state(), final(self).state(), false),
        decreases remaining(old(self).input(), old(self).state()), 6nat,
    {
        let mut block: Vec<Statement> = Vec::new();
        let ghost input = self.input();
        let ghost start = self.state();
        proof {
            assert(statement_views(block@) =~= Seq::empty());
        }
        loop
            invariant
                self.wf(),
                self.input() == input,
                input == old(self).input(),
                start == old(self).state(),
                onward(input, start, self.state(), false),
                grammar::block(input, start, Seq::empty()) == grammar::block(
                    input,
                    self.state(),
                    statement_views(block@),
                ),
            decreases remaining(input, self.state()),
        {
            match self.current.kind {
                TokenKind::RightBrace => {
                    return Ok(block);
                },
                _ => {},
            }
            let statement = match self.parse_statement() {
                Ok(statement) => statement,
                Err(e) => {
                    return Err(e);
                },
            };
            let ghost before = statement_views(block@);
            proof {
                assert(statement_views(block@.push(statement)) =~= before.push(statement@));
            }
            block.push(statement);
        }
    }

    /// One statement, chosen by the current token.
    fn parse_statement(&mut self) -> (r: Result<Statement, ParserError>)
        requires
            old(self).wf(),
        ensures
            final(self).wf(),
            final(self).input() == old(self).input(),
            agrees(
                r,
                |s: Statement| s@,
                final(self).state(),
                grammar::statement(old(self).input(), old(self).state()),
            ),
            r is Ok ==> onward(old(self).input(), old(self).state(), final(self).state(), true),
        decreases remaining(old(self).input(), old(self).state()), 5nat,
    {
        match self.current.kind {
            TokenKind::Let => self.parse_let(),
            TokenKind::Fn => self.parse_fn(),
            TokenKind::If => self.parse_if(),
            TokenKind::While => self.parse_while(),
            TokenKind::Import => self.parse_import(),
            TokenKind::Break => {
                if !self.in_breakable_scope {
                    return Err(self.error(ParserErrorType::InvalidBreakableScope));
                }
                match self.read() {
                    Ok(()) => Ok(Statement::Break),
                    Err(e) => Err(e),
                }
            },
            TokenKind::Continue => {
                if !self.in_breakable_scope {
                    return Err(self.error(ParserErrorType::InvalidContinuableScope));
                }
                match self.read() {
                    Ok(()) => Ok(Statement::Continue),
                    Err(e) => Err(e),
                }
            },
            TokenKind::Return => {
                match self.read() {
                    Ok(()) => {},
                    Err(e) => {
                        return Err(e);
                    },
                }
                match self.expression(0) {
                    Ok(expression) => Ok(Statement::Return { expression }),
                    Err(e) => Err(e),
                }
            },
            _ => match self.expression(0) {
                Ok(expression) => Ok(Statement::Expression { expression }),
                Err(e) => Err(e),
            },
        }
    }

    fn parse_let(&mut self) -> (r: Result<Statement, ParserError>)
        requires
            old(self).wf(),
        ensures
            final(self).wf(),
            final(self).input() == old(self).input(),
            agrees(
                r,
                |s: Statement| s@,
                final(self).state(),
                grammar::binding(old(self).input(), old(self).state()),
            ),
            r is Ok ==> onward(old(self).input(), old(self).state(), final(self).state(), true),
        decreases remaining(old(self).input(), old(self).state()), 4nat,
    {
        match self.read() {
            Ok(()) => {},
            Err(e) => {
                return Err(e);
            },
        }
        let identifier = match self.identifier() {
            Ok(identifier) => identifier,
            Err(e) => {
                return Err(e);
            },
        };
        match self.type_annotation() {
            Ok(_) => {},
            Err(e) => {
                return Err(e);
            },
        }
        match self.expect(TokenKind::Equals) {
            Ok(()) => {},
            Err(e) => {
                return Err(e);
            },
        }
        match self.expression(0) {
            Ok(initial) => Ok(Statement::Let { identifier, initial }),
            Err(e) => Err(e),
        }
    }

    fn parse_fn(&mut self) -> (r: Result<Statement, ParserError>)
        requires
            old(self).wf(),
        ensures
            final(self).wf(),
            final(self).input() == old(self).input(),
            agrees(
                r,
                |s: Statement| s@,
                final(self).state(),
                grammar::function(old(self).input(), old(self).state()),
            ),
            r is Ok ==> onward(old(self).input(), old(self).state(), final(self).state(), true),
        decreases remaining(old(self).input(), old(self).state()), 4nat,
    {
        if self.scope_depth > 0 {
            return Err(self.error(ParserErrorType::NestedFunctionDefinition));
        }
        self.scope_depth += 1;
        match self.read() {
            Ok(()) => {},
            Err(e) => {
                return Err(e);
            },
        }
        let identifier = match self.identifier() {
            Ok(identifier) => identifier,
            Err(e) => {
                return Err(e);
            },
        };
        match self.expect(TokenKind::LeftParen) {
            Ok(()) => {},
            Err(e) => {
                return Err(e);
            },
        }
        let parameters = match self.parameters() {
            Ok(parameters) => parameters,
            Err(e) => {
                return Err(e);
            },
        };
        match self.expect(TokenKind::RightParen) {
            Ok(()) => {},
            Err(e) => {
                return Err(e);
            },
        }
        let return_type = match self.type_annotation() {
            Ok(return_type) => return_type,
            Err(e) => {
                return Err(e);
            },
        };
        match self.expect(TokenKind::LeftBrace) {
            Ok(()) => {},
            Err(e) => {
                return Err(e);
            },
        }
        let body = match self.block() {
            Ok(body) => body,
            Err(e) => {
                return Err(e);
            },
        };
        match self.expect(TokenKind::RightBrace) {
            Ok(()) => {},
            Err(e) => {
                return Err(e);
            },
        }
        self.scope_depth -= 1;
        let function = Statement::Function { identifier, parameters, return_type, body };
        proof {
            lemma_statement_view(function);
        }
        Ok(function)
    }

    fn parse_if(&mut self) -> (r: Result<Statement, ParserError>)
        requires
            old(self).wf(),
        ensures
            final(self).wf(),
            final(self).input() == old(self).input(),
            agrees(
                r,
                |s: Statement| s@,
                final(self).state(),
                grammar::conditional(old(self).input(), old(self).state()),
            ),
            r is Ok ==> onward(old(self).input(), old(self).state(), final(self).state(), true),
        decreases remaining(old(self).input(), old(self).state()), 4nat,
    {
        match self.read() {
            Ok(()) => {},
            Err(e) => {
                return Err(e);
            },
        }
        let condition = match self.expression(0) {
            Ok(condition) => condition,
            Err(e) => {
                return Err(e);
            },
        };
        match self.expect(TokenKind::LeftBrace) {
            Ok(()) => {},
            Err(e) => {
                return Err(e);
            },
        }
        let then = match self.block() {
            Ok(then) => then,
            Err(e) => {
                return Err(e);
            },
        };
        match self.expect(TokenKind::RightBrace) {
            Ok(()) => {},
            Err(e) => {
                return Err(e);
            },
        }
        let mut otherwise: Vec<Statement> = Vec::new();
        proof {
            assert(statement_views(otherwise@) =~= Seq::empty());
        }
        let has_else = match self.current.kind {
            TokenKind::Else => true,
            _ => false,
        };
        if has_else {
            match self.read() {
                Ok(()) => {},
                Err(e) => {
                    return Err(e);
                },
            }
            let chained = match self.current.kind {
                TokenKind::If => true,
                _ => false,
            };
            if chained {
                let nested = match self.parse_if() {
                    Ok(nested) => nested,
                    Err(e) => {
                        return Err(e);
                    },
                };
                otherwise.push(nested);
                proof {
                    assert(statement_views(otherwise@) =~= seq![nested@]);
                }
            } else {
                match self.expect(TokenKind::LeftBrace) {
                    Ok(()) => {},
                    Err(e) => {
                        return Err(e);
                    },
                }
                otherwise = match self.block() {
                    Ok(otherwise) => otherwise,
                    Err(e) => {
                        return Err(e);
                    },
                };
                match self.expect(TokenKind::RightBrace) {
                    Ok(()) => {},
                    Err(e) => {
                        return Err(e);
                    },
                }
            }
        }
        let conditional = Statement::If { condition, then, otherwise };
        proof {
            lemma_statement_view(conditional);
        }
        Ok(conditional)
    }

    fn parse_while(&mut self) -> (r: Result<Statement, ParserError>)
        requires
            old(self).wf(),
        ensures
            final(self).wf(),
            final(self).input() == old(self).input(),
            agrees(
                r,
                |s: Statement| s@,
                final(self).state(),
                grammar::repetition(old(self).input(), old(self).state()),
            ),
            r is Ok ==> onward(old(self).input(), old(self).state(), final(self).state(), true),
        decreases remaining(old(self).input(), old(self).state()), 4nat,
    {
        match self.read() {
            Ok(()) => {},
            Err(e) => {
                return Err(e);
            },
        }
        let condition = match self.expression(0) {
            Ok(condition) => condition,
            Err(e) => {
                return Err(e);
            },
        };
        match self.expect(TokenKind::LeftBrace) {
            Ok(()) => {},
            Err(e) => {
                return Err(e);
            },
        }
        self.in_breakable_scope = true;
        let then = match self.block() {
            Ok(then) => then,
            Err(e) => {
                return Err(e);
            },
        };
        match self.expect(TokenKind::RightBrace) {
            Ok(()) => {},
            Err(e) => {
                return Err(e);
            },
        }
        self.in_breakable_scope = false;
        let repetition = Statement::While { condition, then };
        proof {
            lemma_statement_view(repetition);
        }
        Ok(repetition)
    }

    /// Statements up to the end of the input.
    fn statements(&mut self) -> (r: Result<Vec<Statement>, ParserError>)
        requires
            old(self).wf(),
        ensures
            final(self).wf(),
            final(self).input() == old(self).input(),
            agrees(
                r,
                |v: Vec<Statement>| statement_views(v@),
                final(self).state(),
                grammar::statements(old(self).input(), old(self).state(), Seq::empty()),
            ),
    {
        let mut program: Vec<Statement> = Vec::new();
        let ghost input = self.input();
        let ghost start = self.state();
        proof {
            assert(statement_views(program@) =~= Seq::empty());
        }
        loop
            invariant
                self.wf(),
                self.input() == input,
                input == old(self).input(),
                start == old(self).state(),
                grammar::statements(input, start, Seq::empty()) == grammar::statements(
                    input,
                    self.state(),
                    statement_views(program@),
                ),
            decreases remaining(input, self.state()),
        {
            match self.current.kind {
                TokenKind::Eof => {
                    return Ok(program);
                },
                _ => {},
            }
            let statement = match self.parse_statement() {
                Ok(statement) => statement,
                Err(e) => {
                    return Err(e);
                },
            };
            let ghost before = statement_views(program@);
            proof {
                assert(statement_views(program@.push(statement)) =~= before.push(statement@));
            }
            program.push(statement);
        }
    }

    /// Parses a whole program.
    pub fn parse(&mut self) -> (r: Result<Program, ParserError>)
        requires
            old(self).wf(),
        ensures
            final(self).wf(),
            final(self).input() == old(self).input(),
            agrees(
                r,
                |v: Vec<Statement>| statement_views(v@),
                final(self).state(),
                grammar::program(old(self).input(), old(self).state()),
            ),
    {
        match self.read() {
            Ok(()) => {},
            Err(e) => {
                return Err(e);
            },
        }
        match self.read() {
            Ok(()) => {},
            Err(e) => {
                return Err(e);
            },
        }
        self.statements()
    }
}

} // verus!
