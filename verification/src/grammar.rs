//! The grammar of the language, as functions from a stream of tokens and a
//! state to a syntax tree and the state after it.
use vstd::prelude::*;
use crate::ast::{operator_of, ExpressionView, Op, ParameterView, StatementView};
use crate::error::{lexical, ParseFault, ParserErrorView};
use crate::lexer::Stream;
use crate::token::{description, eof, same_variant, Kind, TokenView};

verus! {

/// Where the parser stands: the index of its current token, whether `break` and
/// `continue` are allowed, and how many function bodies enclose it.
pub struct State {
    pub pos: int,
    pub breakable: bool,
    pub depth: nat,
}

/// What a rule of the grammar yields: a value and the state after it, or the
/// failure.
pub type Parsed<T> = Result<(T, State), ParserErrorView>;

/// The token at index `i`; past the last token, and before the first, the end of
/// the input.
pub open spec fn token_or_eof(tokens: Seq<TokenView>, i: int) -> TokenView {
    if 0 <= i < tokens.len() {
        tokens[i]
    } else {
        eof()
    }
}

/// The current token.
pub open spec fn current(input: Stream, st: State) -> TokenView {
    token_or_eof(input.tokens, st.pos)
}

/// How many tokens lie at and after the current one.
pub open spec fn remaining(input: Stream, st: State) -> nat {
    if st.pos < input.tokens.len() {
        (input.tokens.len() - st.pos) as nat
    } else {
        0
    }
}

/// Moves to the next token. The parser looks two tokens ahead, so the move
/// fails where the lexer fails on the token two places on.
pub open spec fn advance(input: Stream, st: State) -> Result<State, ParserErrorView> {
    if input.failure is Some && st.pos + 2 >= input.tokens.len() {
        Err(lexical(input.failure->0))
    } else {
        Ok(State { pos: st.pos + 1, breakable: st.breakable, depth: st.depth })
    }
}

/// The failure `err` at the current token.
pub open spec fn fault(input: Stream, st: State, err: ParseFault) -> ParserErrorView {
    ParserErrorView { line: current(input, st).line, span: current(input, st).span, err }
}

/// The failure for a current token that cannot stand where it stands.
pub open spec fn unexpected(input: Stream, st: State, expected: Option<Seq<char>>) -> ParserErrorView {
    fault(input, st, ParseFault::UnexpectedToken(description(current(input, st).kind), expected))
}

/// Moves past the current token if it is of the variant of `kind`.
pub open spec fn expect(input: Stream, st: State, kind: Kind) -> Result<State, ParserErrorView> {
    if same_variant(current(input, st).kind, kind) {
        advance(input, st)
    } else {
        Err(unexpected(input, st, Some(description(kind))))
    }
}

/// `value`, if the parser can move past the current token.
pub open spec fn shift<T>(input: Stream, st: State, value: T) -> Parsed<T> {
    match advance(input, st) {
        Ok(st1) => Ok((value, st1)),
        Err(e) => Err(e),
    }
}

/// An identifier: its name.
pub open spec fn identifier(input: Stream, st: State) -> Parsed<Seq<char>> {
    match current(input, st).kind {
        Kind::Identifier(name) => shift(input, st, name),
        _ => Err(fault(input, st, ParseFault::ExpectedIdentifier)),
    }
}

/// A string literal: its text.
pub open spec fn string_literal(input: Stream, st: State) -> Parsed<Seq<char>> {
    match current(input, st).kind {
        Kind::String(text) => shift(input, st, text),
        _ => Err(unexpected(input, st, Some("String"@))),
    }
}

/// A type annotation, where one stands: `:` or `::` and a name.
pub open spec fn type_annotation(input: Stream, st: State) -> Parsed<Option<Seq<char>>> {
    if current(input, st).kind is Colon || current(input, st).kind is DoubleColon {
        match advance(input, st) {
            Err(e) => Err(e),
            Ok(st1) => match identifier(input, st1) {
                Err(e) => Err(e),
                Ok((name, st2)) => Ok((Some(name), st2)),
            },
        }
    } else {
        Ok((None, st))
    }
}

/// Moves past a comma, if one stands there.
pub open spec fn optional_comma(input: Stream, st: State) -> Result<State, ParserErrorView> {
    if current(input, st).kind is Comma {
        advance(input, st)
    } else {
        Ok(st)
    }
}

/// `r`, where it leaves fewer tokens than `from` did. Every rule that this is
/// applied to does so; the other case only lets the definitions below be seen to
/// end.
pub open spec fn ahead<T>(input: Stream, from: State, r: Parsed<T>) -> Parsed<T> {
    match r {
        Ok((_, st)) => if remaining(input, st) < remaining(input, from) {
            r
        } else {
            Err(fault(input, from, ParseFault::ExpectedIdentifier))
        },
        Err(_) => r,
    }
}

/// `r`, where it leaves no more tokens than `from` did: as `ahead`, for rules
/// that may read nothing.
pub open spec fn not_behind<T>(input: Stream, from: State, r: Parsed<T>) -> Parsed<T> {
    match r {
        Ok((_, st)) => if remaining(input, st) <= remaining(input, from) {
            r
        } else {
            Err(fault(input, from, ParseFault::ExpectedIdentifier))
        },
        Err(_) => r,
    }
}

/// The left and right binding power of an infix operator.
pub open spec fn infix_binding(kind: Kind) -> Option<(nat, nat)> {
    match kind {
        Kind::Asterisk | Kind::Slash | Kind::Percent | Kind::DoubleAsterisk => Some((13, 14)),
        Kind::Plus | Kind::Minus => Some((11, 12)),
        Kind::GreaterThan | Kind::GreaterThanEquals | Kind::LessThan | Kind::LessThanEquals => Some(
            (9, 10),
        ),
        Kind::EqualsEquals | Kind::NotEquals => Some((7, 8)),
        Kind::And => Some((5, 6)),
        Kind::Or => Some((3, 4)),
        Kind::Equals | Kind::PlusEquals | Kind::MinusEquals | Kind::AsteriskEquals
        | Kind::SlashEquals => Some((2, 1)),
        _ => None,
    }
}

/// The left binding power of a postfix operator: a call, an index or a dot.
pub open spec fn postfix_binding(kind: Kind) -> Option<nat> {
    match kind {
        Kind::LeftParen | Kind::LeftBracket | Kind::Dot => Some(19),
        _ => None,
    }
}

/// The right binding power of a prefix operator.
pub open spec fn prefix_binding(kind: Kind) -> Option<nat> {
    match kind {
        Kind::Minus | Kind::Not => Some(99),
        _ => None,
    }
}

/// The entries of a map literal with `key` set to `value`: in the place of the
/// entry that held the key, or else at the end.
pub open spec fn insert_entry(
    entries: Seq<(Seq<char>, ExpressionView)>,
    key: Seq<char>,
    value: ExpressionView,
) -> Seq<(Seq<char>, ExpressionView)>
    decreases entries.len(),
{
    if entries.len() == 0 {
        seq![(key, value)]
    } else if entries[0].0 == key {
        seq![(key, value)] + entries.drop_first()
    } else {
        seq![entries[0]] + insert_entry(entries.drop_first(), key, value)
    }
}

/// Parameters up to a closing parenthesis: each a name and an optional type, a
/// comma after each allowed.
pub open spec fn parameters(input: Stream, st: State, acc: Seq<ParameterView>) -> Parsed<
    Seq<ParameterView>,
>
    decreases remaining(input, st),
{
    if current(input, st).kind is RightParen {
        Ok((acc, st))
    } else {
        match identifier(input, st) {
            Err(e) => Err(e),
            Ok((name, st1)) => match type_annotation(input, st1) {
                Err(e) => Err(e),
                Ok((ty, st2)) => match optional_comma(input, st2) {
                    Err(e) => Err(e),
                    Ok(st3) => parameters(input, st3, acc.push(ParameterView { name, ty })),
                },
            },
        }
    }
}

/// The names of an import up to `from`, a comma before each but the first.
pub open spec fn import_names(input: Stream, st: State, acc: Seq<Seq<char>>) -> Parsed<
    Seq<Seq<char>>,
>
    decreases remaining(input, st),
{
    if current(input, st).kind is From {
        Ok((acc, st))
    } else {
        let separated = if acc.len() > 0 {
            expect(input, st, Kind::Comma)
        } else {
            Ok(st)
        };
        match separated {
            Err(e) => Err(e),
            Ok(st1) => match identifier(input, st1) {
                Err(e) => Err(e),
                Ok((name, st2)) => import_names(input, st2, acc.push(name)),
            },
        }
    }
}

/// `import A, B from "module"`, from the keyword on.
pub open spec fn import(input: Stream, st: State) -> Parsed<StatementView> {
    match advance(input, st) {
        Err(e) => Err(e),
        Ok(st1) => match import_names(input, st1, Seq::empty()) {
            Err(e) => Err(e),
            Ok((imports, st2)) => match expect(input, st2, Kind::From) {
                Err(e) => Err(e),
                Ok(st3) => match string_literal(input, st3) {
                    Err(e) => Err(e),
                    Ok((module, st4)) => Ok((StatementView::Use { module, imports }, st4)),
                },
            },
        },
    }
}

/// An expression whose operators bind at least as tightly as `bp`.
pub open spec fn expression(input: Stream, st: State, bp: nat) -> Parsed<ExpressionView>
    decreases remaining(input, st), 2nat,
{
    match ahead(input, st, primary(input, st)) {
        Err(e) => Err(e),
        Ok((left, st1)) => operators(input, st1, left, bp),
    }
}

/// What an expression starts with: a literal, an array, a map, a closure, an
/// expression in parentheses, or a prefix operator and its operand.
pub open spec fn primary(input: Stream, st: State) -> Parsed<ExpressionView>
    decreases remaining(input, st), 1nat,
{
    match current(input, st).kind {
        Kind::Number(n) => shift(input, st, ExpressionView::Number(n)),
        Kind::True => shift(input, st, ExpressionView::Bool(true)),
        Kind::False => shift(input, st, ExpressionView::Bool(false)),
        Kind::String(s) => shift(input, st, ExpressionView::String(s)),
        Kind::Identifier(i) => shift(input, st, ExpressionView::Identifier(i)),
        Kind::LeftBracket => match advance(input, st) {
            Err(e) => Err(e),
            Ok(st1) => match list(input, st1, Kind::RightBracket, Seq::empty()) {
                Err(e) => Err(e),
                Ok((items, st2)) => match expect(input, st2, Kind::RightBracket) {
                    Err(e) => Err(e),
                    Ok(st3) => Ok((ExpressionView::Array(items), st3)),
                },
            },
        },
        Kind::LeftBrace => match advance(input, st) {
            Err(e) => Err(e),
            Ok(st1) => match entries(input, st1, Seq::empty()) {
                Err(e) => Err(e),
                Ok((members, st2)) => match expect(input, st2, Kind::RightBrace) {
                    Err(e) => Err(e),
                    Ok(st3) => Ok((ExpressionView::Mapping(members), st3)),
                },
            },
        },
        Kind::Fn => closure(input, st),
        Kind::LeftParen => match advance(input, st) {
            Err(e) => Err(e),
            Ok(st1) => match expression(input, st1, 0) {
                Err(e) => Err(e),
                Ok((inner, st2)) => match expect(input, st2, Kind::RightParen) {
                    Err(e) => Err(e),
                    Ok(st3) => Ok((inner, st3)),
                },
            },
        },
        Kind::Minus | Kind::Not => match advance(input, st) {
            Err(e) => Err(e),
            Ok(st1) => match expression(
                input,
                st1,
                prefix_binding(current(input, st).kind)->0,
            ) {
                Err(e) => Err(e),
                Ok((operand, st2)) => Ok(
                    (
                        ExpressionView::Prefix(
                            operator_of(current(input, st).kind)->0,
                            Box::new(operand),
                        ),
                        st2,
                    ),
                ),
            },
        },
        _ => Err(unexpected(input, st, None)),
    }
}

/// A closure, from `fn` on: parameters in parentheses, then `->` and an
/// expression, which the closure returns, or a block in braces.
pub open spec fn closure(input: Stream, st: State) -> Parsed<ExpressionView>
    decreases remaining(input, st), 0nat,
{
    match expect(input, st, Kind::Fn) {
        Err(e) => Err(e),
        Ok(st1) => match expect(input, st1, Kind::LeftParen) {
            Err(e) => Err(e),
            Ok(st2) => match not_behind(input, st2, parameters(input, st2, Seq::empty())) {
                Err(e) => Err(e),
                Ok((params, st3)) => match expect(input, st3, Kind::RightParen) {
                    Err(e) => Err(e),
                    Ok(st4) => if current(input, st4).kind is Arrow {
                        match advance(input, st4) {
                            Err(e) => Err(e),
                            Ok(st5) => match expression(input, st5, 0) {
                                Err(e) => Err(e),
                                Ok((value, st6)) => Ok(
                                    (
                                        ExpressionView::Closure(
                                            params,
                                            seq![StatementView::Return { expression: value }],
                                        ),
                                        st6,
                                    ),
                                ),
                            },
                        }
                    } else {
                        match expect(input, st4, Kind::LeftBrace) {
                            Err(e) => Err(e),
                            Ok(st5) => match block(input, st5, Seq::empty()) {
                                Err(e) => Err(e),
                                Ok((body, st6)) => match expect(input, st6, Kind::RightBrace) {
                                    Err(e) => Err(e),
                                    Ok(st7) => Ok((ExpressionView::Closure(params, body), st7)),
                                },
                            },
                        }
                    },
                },
            },
        },
    }
}

/// The postfix and infix operators after `left`, as long as they bind at least
/// as tightly as `bp`.
pub open spec fn operators(input: Stream, st: State, left: ExpressionView, bp: nat) -> Parsed<
    ExpressionView,
>
    decreases remaining(input, st), 4nat,
{
    let kind = current(input, st).kind;
    if kind is Eof {
        Ok((left, st))
    } else if postfix_binding(kind) is Some {
        if postfix_binding(kind)->0 < bp {
            Ok((left, st))
        } else {
            match advance(input, st) {
                Err(e) => Err(e),
                Ok(st1) => match not_behind(input, st1, postfix(input, st1, left, kind)) {
                    Err(e) => Err(e),
                    Ok((whole, st2)) => operators(input, st2, whole, bp),
                },
            }
        }
    } else if infix_binding(kind) is Some {
        let (lbp, rbp) = infix_binding(kind)->0;
        if lbp < bp {
            Ok((left, st))
        } else if !(kind is Equals) && operator_of(kind) is None {
            Err(unexpected(input, st, None))
        } else {
            match advance(input, st) {
                Err(e) => Err(e),
                Ok(st1) => match not_behind(input, st1, expression(input, st1, rbp)) {
                    Err(e) => Err(e),
                    Ok((right, st2)) => operators(input, st2, infix(left, kind, right), bp),
                },
            }
        }
    } else {
        Ok((left, st))
    }
}

/// The expression that an infix operator makes: an assignment for `=`, and for
/// the others an infix expression with the operator of the token.
pub open spec fn infix(left: ExpressionView, kind: Kind, right: ExpressionView) -> ExpressionView {
    if kind is Equals {
        ExpressionView::Assign(Box::new(left), Box::new(right))
    } else {
        ExpressionView::Infix(Box::new(left), operator_of(kind)->0, Box::new(right))
    }
}

/// What follows a postfix operator that has been read: the arguments of a call
/// and its closing parenthesis, an index and its closing bracket (or the
/// bracket alone), or the property after a dot.
pub open spec fn postfix(input: Stream, st: State, left: ExpressionView, kind: Kind) -> Parsed<
    ExpressionView,
>
    decreases remaining(input, st), 4nat,
{
    match kind {
        Kind::LeftParen => match list(input, st, Kind::RightParen, Seq::empty()) {
            Err(e) => Err(e),
            Ok((arguments, st1)) => shift(
                input,
                st1,
                ExpressionView::Call(Box::new(left), arguments),
            ),
        },
        Kind::LeftBracket => if current(input, st).kind is RightBracket {
            shift(input, st, ExpressionView::Index(Box::new(left), None))
        } else {
            match expression(input, st, 0) {
                Err(e) => Err(e),
                Ok((index, st1)) => match expect(input, st1, Kind::RightBracket) {
                    Err(e) => Err(e),
                    Ok(st2) => Ok(
                        (ExpressionView::Index(Box::new(left), Some(Box::new(index))), st2),
                    ),
                },
            }
        },
        _ => match expression(input, st, 19) {
            Err(e) => Err(e),
            Ok((property, st1)) => Ok(
                (ExpressionView::Dot(Box::new(left), Box::new(property)), st1),
            ),
        },
    }
}

/// Expressions up to a token of the variant of `closer`, a comma after each
/// allowed.
pub open spec fn list(input: Stream, st: State, closer: Kind, acc: Seq<ExpressionView>) -> Parsed<
    Seq<ExpressionView>,
>
    decreases remaining(input, st), 3nat,
{
    if same_variant(current(input, st).kind, closer) {
        Ok((acc, st))
    } else {
        match ahead(input, st, expression(input, st, 0)) {
            Err(e) => Err(e),
            Ok((item, st1)) => match optional_comma(input, st1) {
                Err(e) => Err(e),
                Ok(st2) => list(input, st2, closer, acc.push(item)),
            },
        }
    }
}

/// The entries of a map literal up to the closing brace: a string, a colon and
/// an expression each, a comma after each allowed.
pub open spec fn entries(input: Stream, st: State, acc: Seq<(Seq<char>, ExpressionView)>) -> Parsed<
    Seq<(Seq<char>, ExpressionView)>,
>
    decreases remaining(input, st), 3nat,
{
    if current(input, st).kind is RightBrace {
        Ok((acc, st))
    } else {
        match string_literal(input, st) {
            Err(e) => Err(e),
            Ok((key, st1)) => match expect(input, st1, Kind::Colon) {
                Err(e) => Err(e),
                Ok(st2) => match not_behind(input, st2, expression(input, st2, 0)) {
                    Err(e) => Err(e),
                    Ok((value, st3)) => match optional_comma(input, st3) {
                        Err(e) => Err(e),
                        Ok(st4) => entries(input, st4, insert_entry(acc, key, value)),
                    },
                },
            },
        }
    }
}

/// Statements up to a closing brace.
pub open spec fn block(input: Stream, st: State, acc: Seq<StatementView>) -> Parsed<
    Seq<StatementView>,
>
    decreases remaining(input, st), 6nat,
{
    if current(input, st).kind is RightBrace {
        Ok((acc, st))
    } else {
        match ahead(input, st, statement(input, st)) {
            Err(e) => Err(e),
            Ok((s, st1)) => block(input, st1, acc.push(s)),
        }
    }
}

/// One statement, chosen by the current token.
pub open spec fn statement(input: Stream, st: State) -> Parsed<StatementView>
    decreases remaining(input, st), 5nat,
{
    match current(input, st).kind {
        Kind::Let => binding(input, st),
        Kind::Fn => function(input, st),
        Kind::If => conditional(input, st),
        Kind::While => repetition(input, st),
        Kind::Import => import(input, st),
        Kind::Break => if !st.breakable {
            Err(fault(input, st, ParseFault::InvalidBreakableScope))
        } else {
            shift(input, st, StatementView::Break)
        },
        Kind::Continue => if !st.breakable {
            Err(fault(input, st, ParseFault::InvalidContinuableScope))
        } else {
            shift(input, st, StatementView::Continue)
        },
        Kind::Return => match advance(input, st) {
            Err(e) => Err(e),
            Ok(st1) => match expression(input, st1, 0) {
                Err(e) => Err(e),
                Ok((value, st2)) => Ok((StatementView::Return { expression: value }, st2)),
            },
        },
        _ => match expression(input, st, 0) {
            Err(e) => Err(e),
            Ok((value, st1)) => Ok((StatementView::Expression { expression: value }, st1)),
        },
    }
}

/// `let name = value`, with an optional type after the name, which is dropped.
pub open spec fn binding(input: Stream, st: State) -> Parsed<StatementView>
    decreases remaining(input, st), 4nat,
{
    match advance(input, st) {
        Err(e) => Err(e),
        Ok(st1) => match identifier(input, st1) {
            Err(e) => Err(e),
            Ok((name, st2)) => match type_annotation(input, st2) {
                Err(e) => Err(e),
                Ok((_, st3)) => match expect(input, st3, Kind::Equals) {
                    Err(e) => Err(e),
                    Ok(st4) => match expression(input, st4, 0) {
                        Err(e) => Err(e),
                        Ok((initial, st5)) => Ok(
                            (StatementView::Let { identifier: name, initial }, st5),
                        ),
                    },
                },
            },
        },
    }
}

/// `fn name(parameters) { body }`, with an optional type before the body. It
/// fails inside the body of a function; inside its own body the depth is one
/// more.
pub open spec fn function(input: Stream, st: State) -> Parsed<StatementView>
    decreases remaining(input, st), 4nat,
{
    if st.depth > 0 {
        Err(fault(input, st, ParseFault::NestedFunctionDefinition))
    } else {
        let inside = State { pos: st.pos, breakable: st.breakable, depth: st.depth + 1 };
        match advance(input, inside) {
            Err(e) => Err(e),
            Ok(st1) => match identifier(input, st1) {
                Err(e) => Err(e),
                Ok((name, st2)) => match expect(input, st2, Kind::LeftParen) {
                    Err(e) => Err(e),
                    Ok(st3) => match not_behind(input, st3, parameters(input, st3, Seq::empty())) {
                        Err(e) => Err(e),
                        Ok((params, st4)) => match expect(input, st4, Kind::RightParen) {
                            Err(e) => Err(e),
                            Ok(st5) => match type_annotation(input, st5) {
                                Err(e) => Err(e),
                                Ok((return_type, st6)) => match expect(
                                    input,
                                    st6,
                                    Kind::LeftBrace,
                                ) {
                                    Err(e) => Err(e),
                                    Ok(st7) => match block(input, st7, Seq::empty()) {
                                        Err(e) => Err(e),
                                        Ok((body, st8)) => match expect(
                                            input,
                                            st8,
                                            Kind::RightBrace,
                                        ) {
                                            Err(e) => Err(e),
                                            Ok(st9) => Ok(
                                                (
                                                    StatementView::Function {
                                                        identifier: name,
                                                        parameters: params,
                                                        return_type,
                                                        body,
                                                    },
                                                    State {
                                                        pos: st9.pos,
                                                        breakable: st9.breakable,
                                                        depth: (st9.depth - 1) as nat,
                                                    },
                                                ),
                                            ),
                                        },
                                    },
                                },
                            },
                        },
                    },
                },
            },
        }
    }
}

/// `if condition { then }`, and after it nothing, `else { otherwise }`, or
/// `else` and another `if`, which then is all that `otherwise` holds.
pub open spec fn conditional(input: Stream, st: State) -> Parsed<StatementView>
    decreases remaining(input, st), 4nat,
{
    match advance(input, st) {
        Err(e) => Err(e),
        Ok(st1) => match not_behind(input, st1, expression(input, st1, 0)) {
            Err(e) => Err(e),
            Ok((condition, st2)) => match expect(input, st2, Kind::LeftBrace) {
                Err(e) => Err(e),
                Ok(st3) => match not_behind(input, st3, block(input, st3, Seq::empty())) {
                    Err(e) => Err(e),
                    Ok((then, st4)) => match expect(input, st4, Kind::RightBrace) {
                        Err(e) => Err(e),
                        Ok(st5) => if current(input, st5).kind is Else {
                            match advance(input, st5) {
                                Err(e) => Err(e),
                                Ok(st6) => if current(input, st6).kind is If {
                                    match conditional(input, st6) {
                                        Err(e) => Err(e),
                                        Ok((nested, st7)) => Ok(
                                            (
                                                StatementView::If {
                                                    condition,
                                                    then,
                                                    otherwise: seq![nested],
                                                },
                                                st7,
                                            ),
                                        ),
                                    }
                                } else {
                                    match expect(input, st6, Kind::LeftBrace) {
                                        Err(e) => Err(e),
                                        Ok(st7) => match block(input, st7, Seq::empty()) {
                                            Err(e) => Err(e),
                                            Ok((otherwise, st8)) => match expect(
                                                input,
                                                st8,
                                                Kind::RightBrace,
                                            ) {
                                                Err(e) => Err(e),
                                                Ok(st9) => Ok(
                                                    (
                                                        StatementView::If {
                                                            condition,
                                                            then,
                                                            otherwise,
                                                        },
                                                        st9,
                                                    ),
                                                ),
                                            },
                                        },
                                    }
                                },
                            }
                        } else {
                            Ok(
                                (
                                    StatementView::If { condition, then, otherwise: Seq::empty() },
                                    st5,
                                ),
                            )
                        },
                    },
                },
            },
        },
    }
}

/// `while condition { then }`. In the body `break` and `continue` are allowed;
/// after it they are not, whatever held before.
pub open spec fn repetition(input: Stream, st: State) -> Parsed<StatementView>
    decreases remaining(input, st), 4nat,
{
    match advance(input, st) {
        Err(e) => Err(e),
        Ok(st1) => match not_behind(input, st1, expression(input, st1, 0)) {
            Err(e) => Err(e),
            Ok((condition, st2)) => match expect(input, st2, Kind::LeftBrace) {
                Err(e) => Err(e),
                Ok(st3) => match block(
                    input,
                    State { pos: st3.pos, breakable: true, depth: st3.depth },
                    Seq::empty(),
                ) {
                    Err(e) => Err(e),
                    Ok((then, st4)) => match expect(input, st4, Kind::RightBrace) {
                        Err(e) => Err(e),
                        Ok(st5) => Ok(
                            (
                                StatementView::While { condition, then },
                                State { pos: st5.pos, breakable: false, depth: st5.depth },
                            ),
                        ),
                    },
                },
            },
        },
    }
}

/// Statements up to the end of the input.
pub open spec fn statements(input: Stream, st: State, acc: Seq<StatementView>) -> Parsed<
    Seq<StatementView>,
>
    decreases remaining(input, st), 6nat,
{
    if current(input, st).kind is Eof {
        Ok((acc, st))
    } else {
        match ahead(input, st, statement(input, st)) {
            Err(e) => Err(e),
            Ok((s, st1)) => statements(input, st1, acc.push(s)),
        }
    }
}

/// A whole program: the parser first moves twice, to fill its current token and
/// the one after it, and then reads statements to the end of the input.
pub open spec fn program(input: Stream, st: State) -> Parsed<Seq<StatementView>> {
    match advance(input, st) {
        Err(e) => Err(e),
        Ok(st1) => match advance(input, st1) {
            Err(e) => Err(e),
            Ok(st2) => statements(input, st2, Seq::empty()),
        },
    }
}

/// The state of a parser that has read nothing.
pub open spec fn start() -> State {
    State { pos: -2, breakable: false, depth: 0 }
}

} // verus!
