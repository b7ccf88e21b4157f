//! What every parsed program keeps: `break` and `continue` only in loops, no
//! function inside a function, no key twice in a map literal, and a name for
//! every function.
use vstd::prelude::*;
use crate::ast::{ExpressionView, StatementView};
use crate::error::ParseFault;
use crate::grammar::{
    advance, binding, block, closure, conditional, current, entries, expect, expression, fault,
    function, identifier, import, import_names, insert_entry, list, operators, optional_comma,
    parameters, postfix, primary, program, remaining, repetition, start, statement, statements,
    string_literal, type_annotation, State,
};
use crate::lexer::Stream;
use crate::passes::{function_test, hoisted, other_test};
use crate::token::Kind;

verus! {

/// Whether every `break` and `continue` in `e` lies in the body of a `while`;
/// with `inside`, `e` itself is taken to lie in one.
pub open spec fn enclosed_expression(e: ExpressionView, inside: bool) -> bool
    decreases e,
{
    match e {
        ExpressionView::Array(items) => forall|i: int|
            0 <= i < items.len() ==> enclosed_expression(#[trigger] items[i], inside),
        ExpressionView::Mapping(members) => forall|i: int|
            0 <= i < members.len() ==> enclosed_expression((#[trigger] members[i]).1, inside),
        ExpressionView::Prefix(_, operand) => enclosed_expression(*operand, inside),
        ExpressionView::Infix(left, _, right) => enclosed_expression(*left, inside)
            && enclosed_expression(*right, inside),
        ExpressionView::Call(callee, arguments) => enclosed_expression(*callee, inside) && forall|
            i: int,
        |
            0 <= i < arguments.len() ==> enclosed_expression(#[trigger] arguments[i], inside),
        ExpressionView::Assign(target, value) => enclosed_expression(*target, inside)
            && enclosed_expression(*value, inside),
        ExpressionView::Index(array, index) => enclosed_expression(*array, inside) && match index {
            Some(i) => enclosed_expression(*i, inside),
            None => true,
        },
        ExpressionView::Dot(object, property) => enclosed_expression(*object, inside)
            && enclosed_expression(*property, inside),
        ExpressionView::Closure(_, body) => forall|i: int|
            0 <= i < body.len() ==> enclosed_statement(#[trigger] body[i], inside),
        _ => true,
    }
}

/// Whether every `break` and `continue` in `s` lies in the body of a `while`;
/// with `inside`, `s` itself is taken to lie in one.
pub open spec fn enclosed_statement(s: StatementView, inside: bool) -> bool
    decreases s,
{
    match s {
        StatementView::Let { identifier, initial } => enclosed_expression(initial, inside),
        StatementView::Function { identifier, parameters, return_type, body } => forall|i: int|
            0 <= i < body.len() ==> enclosed_statement(#[trigger] body[i], inside),
        StatementView::If { condition, then, otherwise } => enclosed_expression(condition, inside)
            && (forall|i: int| 0 <= i < then.len() ==> enclosed_statement(#[trigger] then[i], inside))
            && (forall|i: int|
            0 <= i < otherwise.len() ==> enclosed_statement(#[trigger] otherwise[i], inside)),
        StatementView::While { condition, then } => enclosed_expression(condition, inside)
            && (forall|i: int| 0 <= i < then.len() ==> enclosed_statement(#[trigger] then[i], true)),
        StatementView::Return { expression } => enclosed_expression(expression, inside),
        StatementView::Expression { expression } => enclosed_expression(expression, inside),
        StatementView::Use { module, imports } => true,
        StatementView::Break => inside,
        StatementView::Continue => inside,
    }
}

/// Whether no function declaration in `e` lies in the body of another; with
/// `inside`, `e` itself is taken to lie in one, and so holds none.
pub open spec fn flat_expression(e: ExpressionView, inside: bool) -> bool
    decreases e,
{
    match e {
        ExpressionView::Array(items) => forall|i: int|
            0 <= i < items.len() ==> flat_expression(#[trigger] items[i], inside),
        ExpressionView::Mapping(members) => forall|i: int|
            0 <= i < members.len() ==> flat_expression((#[trigger] members[i]).1, inside),
        ExpressionView::Prefix(_, operand) => flat_expression(*operand, inside),
        ExpressionView::Infix(left, _, right) => flat_expression(*left, inside) && flat_expression(
            *right,
            inside,
        ),
        ExpressionView::Call(callee, arguments) => flat_expression(*callee, inside) && forall|
            i: int,
        |
            0 <= i < arguments.len() ==> flat_expression(#[trigger] arguments[i], inside),
        ExpressionView::Assign(target, value) => flat_expression(*target, inside)
            && flat_expression(*value, inside),
        ExpressionView::Index(array, index) => flat_expression(*array, inside) && match index {
            Some(i) => flat_expression(*i, inside),
            None => true,
        },
        ExpressionView::Dot(object, property) => flat_expression(*object, inside)
            && flat_expression(*property, inside),
        ExpressionView::Closure(_, body) => forall|i: int|
            0 <= i < body.len() ==> flat_statement(#[trigger] body[i], inside),
        _ => true,
    }
}

/// Whether no function declaration in `s` lies in the body of another; with
/// `inside`, `s` itself is taken to lie in one, and so holds none.
pub open spec fn flat_statement(s: StatementView, inside: bool) -> bool
    decreases s,
{
    match s {
        StatementView::Let { identifier, initial } => flat_expression(initial, inside),
        StatementView::Function { identifier, parameters, return_type, body } => !inside && forall|
            i: int,
        |
            0 <= i < body.len() ==> flat_statement(#[trigger] body[i], true),
        StatementView::If { condition, then, otherwise } => flat_expression(condition, inside) && (
        forall|i: int| 0 <= i < then.len() ==> flat_statement(#[trigger] then[i], inside)) && (
        forall|i: int| 0 <= i < otherwise.len() ==> flat_statement(#[trigger] otherwise[i], inside)),
        StatementView::While { condition, then } => flat_expression(condition, inside) && (forall|
            i: int,
        |
            0 <= i < then.len() ==> flat_statement(#[trigger] then[i], inside)),
        StatementView::Return { expression } => flat_expression(expression, inside),
        StatementView::Expression { expression } => flat_expression(expression, inside),
        _ => true,
    }
}

/// Whether no key stands twice among `members`.
pub open spec fn keys_distinct(members: Seq<(Seq<char>, ExpressionView)>) -> bool {
    forall|i: int, j: int|
        0 <= i < j < members.len() ==> (#[trigger] members[i]).0 != (#[trigger] members[j]).0
}

/// Whether no map literal in `e` holds a key twice.
pub open spec fn keyed_expression(e: ExpressionView) -> bool
    decreases e,
{
    match e {
        ExpressionView::Array(items) => forall|i: int|
            0 <= i < items.len() ==> keyed_expression(#[trigger] items[i]),
        ExpressionView::Mapping(members) => keys_distinct(members) && forall|i: int|
            0 <= i < members.len() ==> keyed_expression((#[trigger] members[i]).1),
        ExpressionView::Prefix(_, operand) => keyed_expression(*operand),
        ExpressionView::Infix(left, _, right) => keyed_expression(*left) && keyed_expression(
            *right,
        ),
        ExpressionView::Call(callee, arguments) => keyed_expression(*callee) && forall|i: int|
            0 <= i < arguments.len() ==> keyed_expression(#[trigger] arguments[i]),
        ExpressionView::Assign(target, value) => keyed_expression(*target) && keyed_expression(
            *value,
        ),
        ExpressionView::Index(array, index) => keyed_expression(*array) && match index {
            Some(i) => keyed_expression(*i),
            None => true,
        },
        ExpressionView::Dot(object, property) => keyed_expression(*object) && keyed_expression(
            *property,
        ),
        ExpressionView::Closure(_, body) => forall|i: int|
            0 <= i < body.len() ==> keyed_statement(#[trigger] body[i]),
        _ => true,
    }
}

/// Whether no map literal in `s` holds a key twice.
pub open spec fn keyed_statement(s: StatementView) -> bool
    decreases s,
{
    match s {
        StatementView::Let { identifier, initial } => keyed_expression(initial),
        StatementView::Function { identifier, parameters, return_type, body } => forall|i: int|
            0 <= i < body.len() ==> keyed_statement(#[trigger] body[i]),
        StatementView::If { condition, then, otherwise } => keyed_expression(condition) && (forall|
            i: int,
        |
            0 <= i < then.len() ==> keyed_statement(#[trigger] then[i])) && (forall|i: int|
            0 <= i < otherwise.len() ==> keyed_statement(#[trigger] otherwise[i])),
        StatementView::While { condition, then } => keyed_expression(condition) && (forall|i: int|
            0 <= i < then.len() ==> keyed_statement(#[trigger] then[i])),
        StatementView::Return { expression } => keyed_expression(expression),
        StatementView::Expression { expression } => keyed_expression(expression),
        _ => true,
    }
}

/// Whether every function declaration in `e` has a name of at least one
/// character.
pub open spec fn named_expression(e: ExpressionView) -> bool
    decreases e,
{
    match e {
        ExpressionView::Array(items) => forall|i: int|
            0 <= i < items.len() ==> named_expression(#[trigger] items[i]),
        ExpressionView::Mapping(members) => forall|i: int|
            0 <= i < members.len() ==> named_expression((#[trigger] members[i]).1),
        ExpressionView::Prefix(_, operand) => named_expression(*operand),
        ExpressionView::Infix(left, _, right) => named_expression(*left) && named_expression(
            *right,
        ),
        ExpressionView::Call(callee, arguments) => named_expression(*callee) && forall|i: int|
            0 <= i < arguments.len() ==> named_expression(#[trigger] arguments[i]),
        ExpressionView::Assign(target, value) => named_expression(*target) && named_expression(
            *value,
        ),
        ExpressionView::Index(array, index) => named_expression(*array) && match index {
            Some(i) => named_expression(*i),
            None => true,
        },
        ExpressionView::Dot(object, property) => named_expression(*object) && named_expression(
            *property,
        ),
        ExpressionView::Closure(_, body) => forall|i: int|
            0 <= i < body.len() ==> named_statement(#[trigger] body[i]),
        _ => true,
    }
}

/// Whether every function declaration in `s` has a name of at least one
/// character.
pub open spec fn named_statement(s: StatementView) -> bool
    decreases s,
{
    match s {
        StatementView::Let { identifier, initial } => named_expression(initial),
        StatementView::Function { identifier, parameters, return_type, body } => identifier.len()
            > 0 && forall|i: int| 0 <= i < body.len() ==> named_statement(#[trigger] body[i]),
        StatementView::If { condition, then, otherwise } => named_expression(condition) && (forall|
            i: int,
        |
            0 <= i < then.len() ==> named_statement(#[trigger] then[i])) && (forall|i: int|
            0 <= i < otherwise.len() ==> named_statement(#[trigger] otherwise[i])),
        StatementView::While { condition, then } => named_expression(condition) && (forall|i: int|
            0 <= i < then.len() ==> named_statement(#[trigger] then[i])),
        StatementView::Return { expression } => named_expression(expression),
        StatementView::Expression { expression } => named_expression(expression),
        _ => true,
    }
}

/// Whether every identifier among the tokens of `input` has at least one
/// character, as every identifier that the lexer reads has.
pub open spec fn proper(input: Stream) -> bool {
    crate::lexer::identifiers_not_empty(input.tokens)
}

/// What an expression read from the state `st` keeps.
pub open spec fn sound_expression(e: ExpressionView, st: State) -> bool {
    &&& enclosed_expression(e, true)
    &&& !st.breakable ==> enclosed_expression(e, false)
    &&& flat_expression(e, st.depth > 0)
    &&& keyed_expression(e)
    &&& named_expression(e)
}

/// What a statement read from the state `st` keeps.
pub open spec fn sound_statement(s: StatementView, st: State) -> bool {
    &&& enclosed_statement(s, true)
    &&& !st.breakable ==> enclosed_statement(s, false)
    &&& flat_statement(s, st.depth > 0)
    &&& keyed_statement(s)
    &&& named_statement(s)
}

/// What each of `items` keeps.
pub open spec fn sound_expressions(items: Seq<ExpressionView>, st: State) -> bool {
    forall|i: int| 0 <= i < items.len() ==> sound_expression(#[trigger] items[i], st)
}

/// What the value of each of `members` keeps.
pub open spec fn sound_members(members: Seq<(Seq<char>, ExpressionView)>, st: State) -> bool {
    forall|i: int| 0 <= i < members.len() ==> sound_expression((#[trigger] members[i]).1, st)
}

/// What each of `items` keeps.
pub open spec fn sound_statements(items: Seq<StatementView>, st: State) -> bool {
    forall|i: int| 0 <= i < items.len() ==> sound_statement(#[trigger] items[i], st)
}

/// How the state `after` a rule stands to the state `before` it: the depth is
/// the same, `break` is allowed only if it was, and no token came back; where
/// `strictly`, a token was read.
pub open spec fn follows(input: Stream, before: State, after: State, strictly: bool) -> bool {
    &&& after.depth == before.depth
    &&& after.breakable ==> before.breakable
    &&& if strictly {
        remaining(input, after) < remaining(input, before)
    } else {
        remaining(input, after) <= remaining(input, before)
    }
}

proof fn lemma_insert_sound(
    members: Seq<(Seq<char>, ExpressionView)>,
    key: Seq<char>,
    value: ExpressionView,
    st: State,
)
    requires
        sound_members(members, st),
        sound_expression(value, st),
        keys_distinct(members),
    ensures
        sound_members(insert_entry(members, key, value), st),
        keys_distinct(insert_entry(members, key, value)),
        forall|i: int|
            0 <= i < insert_entry(members, key, value).len() ==> (#[trigger] insert_entry(
                members,
                key,
                value,
            )[i]).0 == key || exists|j: int|
                0 <= j < members.len() && (#[trigger] members[j]).0 == insert_entry(
                    members,
                    key,
                    value,
                )[i].0,
    decreases members.len(),
{
    let out = insert_entry(members, key, value);
    if members.len() == 0 {
    } else if members[0].0 == key {
        assert(out == seq![(key, value)] + members.drop_first());
        assert forall|i: int| 0 <= i < out.len() implies sound_expression(
            (#[trigger] out[i]).1,
            st,
        ) by {
            if i > 0 {
                assert(out[i] == members[i]);
            }
        }
        assert forall|i: int, j: int| 0 <= i < j < out.len() implies (#[trigger] out[i]).0 != (
        #[trigger] out[j]).0 by {
            assert(out[j] == members[j]);
            if i > 0 {
                assert(out[i] == members[i]);
            } else {
                assert(members[0].0 != members[j].0);
            }
        }
        assert forall|i: int| 0 <= i < out.len() implies (#[trigger] out[i]).0 == key || exists|
            j: int,
        |
            0 <= j < members.len() && (#[trigger] members[j]).0 == out[i].0 by {
            if i > 0 {
                assert(out[i] == members[i]);
            }
        }
    } else {
        let tail = members.drop_first();
        assert(keys_distinct(tail)) by {
            assert forall|i: int, j: int| 0 <= i < j < tail.len() implies (#[trigger] tail[i]).0
                != (#[trigger] tail[j]).0 by {
                assert(tail[i] == members[i + 1]);
                assert(tail[j] == members[j + 1]);
            }
        }
        assert(sound_members(tail, st)) by {
            assert forall|i: int| 0 <= i < tail.len() implies sound_expression(
                (#[trigger] tail[i]).1,
                st,
            ) by {
                assert(tail[i] == members[i + 1]);
            }
        }
        lemma_insert_sound(tail, key, value, st);
        let rest = insert_entry(tail, key, value);
        assert(out == seq![members[0]] + rest);
        assert forall|i: int| 0 <= i < out.len() implies sound_expression(
            (#[trigger] out[i]).1,
            st,
        ) by {
            if i > 0 {
                assert(out[i] == rest[i - 1]);
            }
        }
        assert forall|i: int| 0 <= i < out.len() implies (#[trigger] out[i]).0 == key || exists|
            j: int,
        |
            0 <= j < members.len() && (#[trigger] members[j]).0 == out[i].0 by {
            if i > 0 {
                assert(out[i] == rest[i - 1]);
                if rest[i - 1].0 != key {
                    let j = choose|j: int|
                        0 <= j < tail.len() && (#[trigger] tail[j]).0 == rest[i - 1].0;
                    assert(tail[j] == members[j + 1]);
                }
            } else {
                assert(out[0] == members[0]);
            }
        }
        assert forall|i: int, j: int| 0 <= i < j < out.len() implies (#[trigger] out[i]).0 != (
        #[trigger] out[j]).0 by {
            assert(out[j] == rest[j - 1]);
            if i > 0 {
                assert(out[i] == rest[i - 1]);
            } else {
                assert(out[0] == members[0]);
                if rest[j - 1].0 != key {
                    let k = choose|k: int|
                        0 <= k < tail.len() && (#[trigger] tail[k]).0 == rest[j - 1].0;
                    assert(tail[k] == members[k + 1]);
                    assert(members[0].0 != members[k + 1].0);
                }
            }
        }
    }
}

proof fn lemma_parameters(input: Stream, st: State, acc: Seq<crate::ast::ParameterView>)
    ensures
        match parameters(input, st, acc) {
            Ok((_, st1)) => follows(input, st, st1, false),
            Err(_) => true,
        },
    decreases remaining(input, st),
{
    if !(current(input, st).kind is RightParen) {
        if let Ok((name, st1)) = identifier(input, st) {
            if let Ok((ty, st2)) = type_annotation(input, st1) {
                if let Ok(st3) = optional_comma(input, st2) {
                    lemma_parameters(
                        input,
                        st3,
                        acc.push(crate::ast::ParameterView { name, ty }),
                    );
                }
            }
        }
    }
}

proof fn lemma_import_names(input: Stream, st: State, acc: Seq<Seq<char>>)
    ensures
        match import_names(input, st, acc) {
            Ok((_, st1)) => follows(input, st, st1, false),
            Err(_) => true,
        },
    decreases remaining(input, st),
{
    if !(current(input, st).kind is From) {
        let separated = if acc.len() > 0 {
            expect(input, st, Kind::Comma)
        } else {
            Ok(st)
        };
        if let Ok(st1) = separated {
            if let Ok((name, st2)) = identifier(input, st1) {
                lemma_import_names(input, st2, acc.push(name));
            }
        }
    }
}

proof fn lemma_import(input: Stream, st: State)
    requires
        current(input, st).kind is Import,
    ensures
        match import(input, st) {
            Ok((s, st1)) => follows(input, st, st1, true) && sound_statement(s, st),
            Err(_) => true,
        },
{
    if let Ok(st1) = advance(input, st) {
        lemma_import_names(input, st1, Seq::empty());
    }
}

/// What every expression that the grammar reads keeps: at least one token is
/// read, the depth stays, `break` is allowed after it only if it was before,
/// and the expression keeps both scope rules.
pub proof fn lemma_expression(input: Stream, st: State, bp: nat)
    ensures
        match expression(input, st, bp) {
            Ok((e, st1)) => follows(input, st, st1, true) && (proper(input) ==> sound_expression(
                e,
                st,
            )),
            Err(_) => true,
        },
    decreases remaining(input, st), 2nat,
{
    lemma_primary(input, st);
    if let Ok((left, st1)) = primary(input, st) {
        lemma_operators(input, st1, left, bp, st);
    }
}

proof fn lemma_primary(input: Stream, st: State)
    ensures
        match primary(input, st) {
            Ok((e, st1)) => follows(input, st, st1, true) && (proper(input) ==> sound_expression(
                e,
                st,
            )),
            Err(_) => true,
        },
    decreases remaining(input, st), 1nat,
{
    match current(input, st).kind {
        Kind::LeftBracket => {
            if let Ok(st1) = advance(input, st) {
                lemma_list(input, st1, Kind::RightBracket, Seq::empty(), st);
            }
        },
        Kind::LeftBrace => {
            if let Ok(st1) = advance(input, st) {
                lemma_entries(input, st1, Seq::empty(), st);
            }
        },
        Kind::Fn => {
            lemma_closure(input, st);
        },
        Kind::LeftParen => {
            if let Ok(st1) = advance(input, st) {
                lemma_expression(input, st1, 0);
            }
        },
        Kind::Minus | Kind::Not => {
            if let Ok(st1) = advance(input, st) {
                lemma_expression(input, st1, 99);
            }
        },
        _ => {},
    }
}

proof fn lemma_closure(input: Stream, st: State)
    ensures
        match closure(input, st) {
            Ok((e, st1)) => follows(input, st, st1, true) && (proper(input) ==> sound_expression(
                e,
                st,
            )),
            Err(_) => true,
        },
    decreases remaining(input, st), 0nat,
{
    if let Ok(st1) = expect(input, st, Kind::Fn) {
        if let Ok(st2) = expect(input, st1, Kind::LeftParen) {
            lemma_parameters(input, st2, Seq::empty());
            if let Ok((params, st3)) = parameters(input, st2, Seq::empty()) {
                if let Ok(st4) = expect(input, st3, Kind::RightParen) {
                    if current(input, st4).kind is Arrow {
                        if let Ok(st5) = advance(input, st4) {
                            lemma_expression(input, st5, 0);
                            if let Ok((value, st6)) = expression(input, st5, 0) {
                                let body = seq![StatementView::Return { expression: value }];
                                assert(proper(input) ==> sound_statements(body, st));
                            }
                        }
                    } else {
                        if let Ok(st5) = expect(input, st4, Kind::LeftBrace) {
                            lemma_block(input, st5, Seq::empty(), st);
                        }
                    }
                }
            }
        }
    }
}

proof fn lemma_operators(input: Stream, st: State, left: ExpressionView, bp: nat, origin: State)
    ensures
        match operators(input, st, left, bp) {
            Ok((e, st1)) => follows(input, st, st1, false) && (proper(input) && sound_expression(
                left,
                origin,
            ) && follows(input, origin, st, false) ==> sound_expression(e, origin)),
            Err(_) => true,
        },
    decreases remaining(input, st), 4nat,
{
    let kind = current(input, st).kind;
    if kind is Eof {
    } else if crate::grammar::postfix_binding(kind) is Some {
        if !(crate::grammar::postfix_binding(kind)->0 < bp) {
            if let Ok(st1) = advance(input, st) {
                lemma_postfix(input, st1, left, kind, origin);
                if let Ok((whole, st2)) = postfix(input, st1, left, kind) {
                    lemma_operators(input, st2, whole, bp, origin);
                }
            }
        }
    } else if crate::grammar::infix_binding(kind) is Some {
        let (lbp, rbp) = crate::grammar::infix_binding(kind)->0;
        if lbp < bp {
        } else if !(kind is Equals) && crate::ast::operator_of(kind) is None {
        } else {
            if let Ok(st1) = advance(input, st) {
                lemma_expression(input, st1, rbp);
                if let Ok((right, st2)) = expression(input, st1, rbp) {
                    lemma_operators(
                        input,
                        st2,
                        crate::grammar::infix(left, kind, right),
                        bp,
                        origin,
                    );
                }
            }
        }
    }
}

proof fn lemma_postfix(input: Stream, st: State, left: ExpressionView, kind: Kind, origin: State)
    ensures
        match postfix(input, st, left, kind) {
            Ok((e, st1)) => follows(input, st, st1, false) && (proper(input) && sound_expression(
                left,
                origin,
            ) && follows(input, origin, st, false) ==> sound_expression(e, origin)),
            Err(_) => true,
        },
    decreases remaining(input, st), 4nat,
{
    match kind {
        Kind::LeftParen => {
            lemma_list(input, st, Kind::RightParen, Seq::empty(), origin);
        },
        Kind::LeftBracket => {
            if !(current(input, st).kind is RightBracket) {
                lemma_expression(input, st, 0);
            }
        },
        _ => {
            lemma_expression(input, st, 19);
        },
    }
}

proof fn lemma_list(
    input: Stream,
    st: State,
    closer: Kind,
    acc: Seq<ExpressionView>,
    origin: State,
)
    ensures
        match list(input, st, closer, acc) {
            Ok((items, st1)) => follows(input, st, st1, false) && (proper(input)
                && sound_expressions(acc, origin) && follows(input, origin, st, false)
                ==> sound_expressions(items, origin)),
            Err(_) => true,
        },
    decreases remaining(input, st), 3nat,
{
    if !crate::token::same_variant(current(input, st).kind, closer) {
        lemma_expression(input, st, 0);
        if let Ok((item, st1)) = expression(input, st, 0) {
            if let Ok(st2) = optional_comma(input, st1) {
                lemma_list(input, st2, closer, acc.push(item), origin);
            }
        }
    }
}

proof fn lemma_entries(
    input: Stream,
    st: State,
    acc: Seq<(Seq<char>, ExpressionView)>,
    origin: State,
)
    ensures
        match entries(input, st, acc) {
            Ok((members, st1)) => follows(input, st, st1, false) && (proper(input)
                && sound_members(acc, origin) && keys_distinct(acc) && follows(
                input,
                origin,
                st,
                false,
            ) ==> sound_members(members, origin) && keys_distinct(members)),
            Err(_) => true,
        },
    decreases remaining(input, st), 3nat,
{
    if !(current(input, st).kind is RightBrace) {
        if let Ok((key, st1)) = string_literal(input, st) {
            if let Ok(st2) = expect(input, st1, Kind::Colon) {
                lemma_expression(input, st2, 0);
                if let Ok((value, st3)) = expression(input, st2, 0) {
                    if let Ok(st4) = optional_comma(input, st3) {
                        if sound_members(acc, origin) && keys_distinct(acc) && sound_expression(
                            value,
                            origin,
                        ) {
                            lemma_insert_sound(acc, key, value, origin);
                        }
                        lemma_entries(input, st4, insert_entry(acc, key, value), origin);
                    }
                }
            }
        }
    }
}

proof fn lemma_block(input: Stream, st: State, acc: Seq<StatementView>, origin: State)
    ensures
        match block(input, st, acc) {
            Ok((items, st1)) => follows(input, st, st1, false) && (proper(input)
                && sound_statements(acc, origin) && st.depth == origin.depth && (st.breakable
                ==> origin.breakable) ==> sound_statements(items, origin)),
            Err(_) => true,
        },
    decreases remaining(input, st), 6nat,
{
    if !(current(input, st).kind is RightBrace) {
        lemma_statement(input, st);
        if let Ok((s, st1)) = statement(input, st) {
            lemma_block(input, st1, acc.push(s), origin);
        }
    }
}

proof fn lemma_statements(input: Stream, st: State, acc: Seq<StatementView>, origin: State)
    ensures
        match statements(input, st, acc) {
            Ok((items, st1)) => proper(input) && sound_statements(acc, origin) && st.depth
                == origin.depth && (st.breakable ==> origin.breakable) ==> sound_statements(
                items,
                origin,
            ),
            Err(_) => true,
        },
    decreases remaining(input, st), 6nat,
{
    if !(current(input, st).kind is Eof) {
        lemma_statement(input, st);
        if let Ok((s, st1)) = statement(input, st) {
            lemma_statements(input, st1, acc.push(s), origin);
        }
    }
}

/// What every statement that the grammar reads keeps: at least one token is
/// read, the depth stays, `break` is allowed after it only if it was before,
/// and the statement keeps both scope rules.
pub proof fn lemma_statement(input: Stream, st: State)
    ensures
        match statement(input, st) {
            Ok((s, st1)) => follows(input, st, st1, true) && (proper(input) ==> sound_statement(
                s,
                st,
            )),
            Err(_) => true,
        },
    decreases remaining(input, st), 5nat,
{
    match current(input, st).kind {
        Kind::Let => {
            lemma_binding(input, st);
        },
        Kind::Fn => {
            lemma_function(input, st);
        },
        Kind::If => {
            lemma_conditional(input, st);
        },
        Kind::While => {
            lemma_repetition(input, st);
        },
        Kind::Import => {
            lemma_import(input, st);
        },
        Kind::Break => {},
        Kind::Continue => {},
        Kind::Return => {
            if let Ok(st1) = advance(input, st) {
                lemma_expression(input, st1, 0);
            }
        },
        _ => {
            lemma_expression(input, st, 0);
        },
    }
}

proof fn lemma_binding(input: Stream, st: State)
    requires
        current(input, st).kind is Let,
    ensures
        match binding(input, st) {
            Ok((s, st1)) => follows(input, st, st1, true) && (proper(input) ==> sound_statement(
                s,
                st,
            )),
            Err(_) => true,
        },
    decreases remaining(input, st), 4nat,
{
    if let Ok(st1) = advance(input, st) {
        if let Ok((name, st2)) = identifier(input, st1) {
            if let Ok((_, st3)) = type_annotation(input, st2) {
                if let Ok(st4) = expect(input, st3, Kind::Equals) {
                    lemma_expression(input, st4, 0);
                }
            }
        }
    }
}

proof fn lemma_function(input: Stream, st: State)
    requires
        current(input, st).kind is Fn,
    ensures
        match function(input, st) {
            Ok((s, st1)) => follows(input, st, st1, true) && (proper(input) ==> sound_statement(
                s,
                st,
            )),
            Err(_) => true,
        },
    decreases remaining(input, st), 4nat,
{
    if st.depth == 0 {
        let inside = State { pos: st.pos, breakable: st.breakable, depth: st.depth + 1 };
        if let Ok(st1) = advance(input, inside) {
            if let Ok((name, st2)) = identifier(input, st1) {
                if let Ok(st3) = expect(input, st2, Kind::LeftParen) {
                    lemma_parameters(input, st3, Seq::empty());
                    if let Ok((params, st4)) = parameters(input, st3, Seq::empty()) {
                        if let Ok(st5) = expect(input, st4, Kind::RightParen) {
                            if let Ok((return_type, st6)) = type_annotation(input, st5) {
                                if let Ok(st7) = expect(input, st6, Kind::LeftBrace) {
                                    lemma_block(input, st7, Seq::empty(), inside);
                                }
                            }
                        }
                    }
                }
            }
        }
    }
}

proof fn lemma_conditional(input: Stream, st: State)
    requires
        current(input, st).kind is If,
    ensures
        match conditional(input, st) {
            Ok((s, st1)) => follows(input, st, st1, true) && (proper(input) ==> sound_statement(
                s,
                st,
            )),
            Err(_) => true,
        },
    decreases remaining(input, st), 4nat,
{
    if let Ok(st1) = advance(input, st) {
        lemma_expression(input, st1, 0);
        if let Ok((condition, st2)) = expression(input, st1, 0) {
            if let Ok(st3) = expect(input, st2, Kind::LeftBrace) {
                lemma_block(input, st3, Seq::empty(), st);
                if let Ok((then, st4)) = block(input, st3, Seq::empty()) {
                    if let Ok(st5) = expect(input, st4, Kind::RightBrace) {
                        if current(input, st5).kind is Else {
                            if let Ok(st6) = advance(input, st5) {
                                if current(input, st6).kind is If {
                                    lemma_conditional(input, st6);
                                    if let Ok((nested, st7)) = conditional(input, st6) {
                                        let otherwise = seq![nested];
                                        assert(proper(input) ==> sound_statements(otherwise, st));
                                    }
                                } else {
                                    if let Ok(st7) = expect(input, st6, Kind::LeftBrace) {
                                        lemma_block(input, st7, Seq::empty(), st);
                                    }
                                }
                            }
                        }
                    }
                }
            }
        }
    }
}

proof fn lemma_repetition(input: Stream, st: State)
    requires
        current(input, st).kind is While,
    ensures
        match repetition(input, st) {
            Ok((s, st1)) => follows(input, st, st1, true) && (proper(input) ==> sound_statement(
                s,
                st,
            )),
            Err(_) => true,
        },
    decreases remaining(input, st), 4nat,
{
    if let Ok(st1) = advance(input, st) {
        lemma_expression(input, st1, 0);
        if let Ok((condition, st2)) = expression(input, st1, 0) {
            if let Ok(st3) = expect(input, st2, Kind::LeftBrace) {
                let inside = State { pos: st3.pos, breakable: true, depth: st3.depth };
                lemma_block(input, inside, Seq::empty(), inside);
            }
        }
    }
}

/// The rules of the grammar move on: one that must read a token leaves fewer
/// tokens than it found, and none leaves more. So the questions that the
/// grammar asks of its own rules, `ahead` and `not_behind`, are always met.
pub proof fn lemma_rules_advance(
    input: Stream,
    st: State,
    bp: nat,
    left: ExpressionView,
    kind: Kind,
    items: Seq<StatementView>,
    parameters_read: Seq<crate::ast::ParameterView>,
)
    ensures
        crate::grammar::ahead(input, st, primary(input, st)) == primary(input, st),
        crate::grammar::ahead(input, st, expression(input, st, bp)) == expression(input, st, bp),
        crate::grammar::not_behind(input, st, expression(input, st, bp)) == expression(
            input,
            st,
            bp,
        ),
        crate::grammar::ahead(input, st, statement(input, st)) == statement(input, st),
        crate::grammar::not_behind(input, st, postfix(input, st, left, kind)) == postfix(
            input,
            st,
            left,
            kind,
        ),
        crate::grammar::not_behind(input, st, block(input, st, items)) == block(input, st, items),
        crate::grammar::not_behind(input, st, parameters(input, st, parameters_read))
            == parameters(input, st, parameters_read),
{
    lemma_primary(input, st);
    lemma_expression(input, st, bp);
    lemma_statement(input, st);
    lemma_postfix(input, st, left, kind, st);
    lemma_block(input, st, items, st);
    lemma_parameters(input, st, parameters_read);
}

/// What holds of every program that the grammar accepts from the start: each
/// of its statements keeps both scope rules, holds no key twice in a map
/// literal, and names its functions, where the identifiers among the tokens are
/// not empty.
pub proof fn lemma_program_keeps(input: Stream)
    requires
        proper(input),
    ensures
        match program(input, start()) {
            Ok((statements, _)) => forall|i: int|
                0 <= i < statements.len() ==> enclosed_statement(
                    #[trigger] statements[i],
                    false,
                ) && flat_statement(statements[i], false) && keyed_statement(statements[i])
                    && named_statement(statements[i]),
            Err(_) => true,
        },
{
    if let Ok(st1) = advance(input, start()) {
        if let Ok(st2) = advance(input, st1) {
            lemma_statements(input, st2, Seq::empty(), st2);
        }
    }
}

/// Scope enforcement, as a rule of the grammar: `break` where it is not
/// allowed fails as an invalid breakable scope, `continue` as an invalid
/// continuable scope, both at that token.
pub proof fn lemma_escape_outside_loop(input: Stream, st: State)
    requires
        !st.breakable,
    ensures
        current(input, st).kind is Break ==> statement(input, st) == Err::<
            (StatementView, State),
            _,
        >(fault(input, st, ParseFault::InvalidBreakableScope)),
        current(input, st).kind is Continue ==> statement(input, st) == Err::<
            (StatementView, State),
            _,
        >(fault(input, st, ParseFault::InvalidContinuableScope)),
{
}

/// No nested functions, as a rule of the grammar: `fn` at the start of a
/// statement inside the body of a function fails as a nested function
/// definition, at that token.
pub proof fn lemma_function_inside_function(input: Stream, st: State)
    requires
        st.depth > 0,
        current(input, st).kind is Fn,
    ensures
        statement(input, st) == Err::<(StatementView, State), _>(
            fault(input, st, ParseFault::NestedFunctionDefinition),
        ),
{
}

proof fn lemma_hoisted_members(statements: Seq<StatementView>, i: int)
    requires
        0 <= i < hoisted(statements).len(),
    ensures
        statements.contains(hoisted(statements)[i]),
{
    let f = statements.filter(function_test());
    let o = statements.filter(other_test());
    broadcast use vstd::seq_lib::group_seq_properties;

    if i < f.len() {
        assert(f.contains(f[i]));
        statements.lemma_filter_contains_rev(function_test(), f[i]);
    } else {
        assert(o.contains(o[i - f.len()]));
        statements.lemma_filter_contains_rev(other_test(), o[i - f.len()]);
    }
}

/// Scope enforcement: in a program that parses, every `break` and every
/// `continue` lies in the body of a `while`.
pub proof fn lemma_scope_enforcement(src: Seq<char>)
    ensures
        match crate::parse_source(src) {
            Ok(statements) => forall|i: int|
                0 <= i < statements.len() ==> enclosed_statement(#[trigger] statements[i], false),
            Err(_) => true,
        },
{
    let input = crate::lexer::lex_source(src);
    crate::lexer::lemma_identifiers_not_empty(src);
    lemma_program_keeps(input);
    if let Ok((parsed, _)) = program(input, start()) {
        let statements = hoisted(parsed);
        assert forall|i: int| 0 <= i < statements.len() implies enclosed_statement(
            #[trigger] statements[i],
            false,
        ) by {
            lemma_hoisted_members(parsed, i);
            let j = choose|j: int| 0 <= j < parsed.len() && parsed[j] == statements[i];
            assert(enclosed_statement(parsed[j], false));
        }
    }
}

/// No nested functions: in a program that parses, no function declaration
/// lies in the body of another.
pub proof fn lemma_no_nested_functions(src: Seq<char>)
    ensures
        match crate::parse_source(src) {
            Ok(statements) => forall|i: int|
                0 <= i < statements.len() ==> flat_statement(#[trigger] statements[i], false),
            Err(_) => true,
        },
{
    let input = crate::lexer::lex_source(src);
    crate::lexer::lemma_identifiers_not_empty(src);
    lemma_program_keeps(input);
    if let Ok((parsed, _)) = program(input, start()) {
        let statements = hoisted(parsed);
        assert forall|i: int| 0 <= i < statements.len() implies flat_statement(
            #[trigger] statements[i],
            false,
        ) by {
            lemma_hoisted_members(parsed, i);
            let j = choose|j: int| 0 <= j < parsed.len() && parsed[j] == statements[i];
            assert(flat_statement(parsed[j], false));
        }
    }
}

/// In a program that parses, no map literal holds a key twice.
pub proof fn lemma_map_keys_distinct(src: Seq<char>)
    ensures
        match crate::parse_source(src) {
            Ok(statements) => forall|i: int|
                0 <= i < statements.len() ==> keyed_statement(#[trigger] statements[i]),
            Err(_) => true,
        },
{
    let input = crate::lexer::lex_source(src);
    crate::lexer::lemma_identifiers_not_empty(src);
    lemma_program_keeps(input);
    if let Ok((parsed, _)) = program(input, start()) {
        let statements = hoisted(parsed);
        assert forall|i: int| 0 <= i < statements.len() implies keyed_statement(
            #[trigger] statements[i],
        ) by {
            lemma_hoisted_members(parsed, i);
            let j = choose|j: int| 0 <= j < parsed.len() && parsed[j] == statements[i];
            assert(keyed_statement(parsed[j]));
        }
    }
}

/// In a program that parses, every function has a name of at least one
/// character.
pub proof fn lemma_functions_named(src: Seq<char>)
    ensures
        match crate::parse_source(src) {
            Ok(statements) => forall|i: int|
                0 <= i < statements.len() ==> named_statement(#[trigger] statements[i]),
            Err(_) => true,
        },
{
    let input = crate::lexer::lex_source(src);
    crate::lexer::lemma_identifiers_not_empty(src);
    lemma_program_keeps(input);
    if let Ok((parsed, _)) = program(input, start()) {
        let statements = hoisted(parsed);
        assert forall|i: int| 0 <= i < statements.len() implies named_statement(
            #[trigger] statements[i],
        ) by {
            lemma_hoisted_members(parsed, i);
            let j = choose|j: int| 0 <= j < parsed.len() && parsed[j] == statements[i];
            assert(named_statement(parsed[j]));
        }
    }
}

} // verus!
