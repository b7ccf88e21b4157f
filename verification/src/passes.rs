//! Passes over a parsed program. There is one: function hoisting.
use vstd::prelude::*;
use crate::ast::{lemma_statement_view, statement_views, Statement, StatementView};

verus! {

/// The test for a function declaration.
pub open spec fn function_test() -> spec_fn(StatementView) -> bool {
    |s: StatementView| s is Function
}

/// The test for every other statement.
pub open spec fn other_test() -> spec_fn(StatementView) -> bool {
    |s: StatementView| !(s is Function)
}

/// The function declarations among `statements`, in their order.
pub open spec fn functions_of(statements: Seq<StatementView>) -> Seq<StatementView> {
    statements.filter(function_test())
}

/// The statements among `statements` that declare no function, in their order.
pub open spec fn others_of(statements: Seq<StatementView>) -> Seq<StatementView> {
    statements.filter(other_test())
}

/// The program with its functions hoisted: the function declarations first, then
/// the other statements, each group in the order it had.
pub open spec fn hoisted(statements: Seq<StatementView>) -> Seq<StatementView> {
    functions_of(statements) + others_of(statements)
}

proof fn lemma_filter_step<A>(s: Seq<A>, i: int, test: spec_fn(A) -> bool)
    requires
        0 <= i < s.len(),
    ensures
        s.take(i + 1).filter(test) == if test(s[i]) {
            s.take(i).filter(test).push(s[i])
        } else {
            s.take(i).filter(test)
        },
{
    reveal(Seq::filter);
    assert(s.take(i + 1).drop_last() =~= s.take(i));
}

proof fn lemma_filter_all<A>(s: Seq<A>, test: spec_fn(A) -> bool)
    requires
        forall|i: int| 0 <= i < s.len() ==> test(#[trigger] s[i]),
    ensures
        s.filter(test) == s,
    decreases s.len(),
{
    reveal(Seq::filter);
    if s.len() > 0 {
        lemma_filter_all(s.drop_last(), test);
        assert(s.drop_last().push(s.last()) =~= s);
    }
}

proof fn lemma_filter_none<A>(s: Seq<A>, test: spec_fn(A) -> bool)
    requires
        forall|i: int| 0 <= i < s.len() ==> !test(#[trigger] s[i]),
    ensures
        s.filter(test) == Seq::<A>::empty(),
    decreases s.len(),
{
    reveal(Seq::filter);
    if s.len() > 0 {
        lemma_filter_none(s.drop_last(), test);
    } else {
        assert(s =~= Seq::<A>::empty());
    }
}

proof fn lemma_split_len(s: Seq<StatementView>)
    ensures
        functions_of(s).len() + others_of(s).len() == s.len(),
    decreases s.len(),
{
    reveal(Seq::filter);
    if s.len() > 0 {
        lemma_split_len(s.drop_last());
    }
}

/// Hoisting stability: hoisting keeps the function declarations in their
/// order and the other statements in theirs, puts every function declaration
/// before every other statement, and neither adds nor drops a statement.
pub proof fn lemma_hoisting_stability(statements: Seq<StatementView>)
    ensures
        functions_of(hoisted(statements)) == functions_of(statements),
        others_of(hoisted(statements)) == others_of(statements),
        hoisted(statements).len() == statements.len(),
        forall|i: int, j: int|
            0 <= i < j < hoisted(statements).len() && hoisted(statements)[j] is Function
                ==> hoisted(statements)[i] is Function,
{
    let f = functions_of(statements);
    let o = others_of(statements);
    statements.filter_lemma(function_test());
    statements.filter_lemma(other_test());
    Seq::filter_distributes_over_add(f, o, function_test());
    Seq::filter_distributes_over_add(f, o, other_test());
    lemma_filter_all(f, function_test());
    lemma_filter_none(o, function_test());
    lemma_filter_all(o, other_test());
    lemma_filter_none(f, other_test());
    assert(f + Seq::<StatementView>::empty() =~= f);
    assert(Seq::<StatementView>::empty() + o =~= o);
    lemma_split_len(statements);
}

/// Runs the passes over a parsed program.
pub fn pass(ast: &mut Vec<Statement>)
    ensures
        statement_views(final(ast)@) == hoisted(statement_views(old(ast)@)),
{
    hoist_functions(ast);
}

/// Moves the function declarations of a program before its other statements,
/// keeping the order within both.
pub fn hoist_functions(ast: &mut Vec<Statement>)
    ensures
        statement_views(final(ast)@) == hoisted(statement_views(old(ast)@)),
{
    let ghost given = statement_views(ast@);
    let ghost n = given.len() as int;
    let mut reversed: Vec<Statement> = Vec::new();
    while ast.len() > 0
        invariant
            n == given.len(),
            ast@.len() + reversed@.len() == n,
            forall|j: int| 0 <= j < ast@.len() ==> (#[trigger] ast@[j])@ == given[j],
            forall|j: int|
                0 <= j < reversed@.len() ==> (#[trigger] reversed@[j])@ == given[n - 1 - j],
        decreases ast@.len(),
    {
        match ast.pop() {
            Some(statement) => {
                reversed.push(statement);
            },
            None => {},
        }
    }
    let mut functions: Vec<Statement> = Vec::new();
    let mut others: Vec<Statement> = Vec::new();
    proof {
        reveal(Seq::filter);
        assert(given.take(0) =~= Seq::<StatementView>::empty());
        assert(statement_views(functions@) =~= functions_of(given.take(0)));
        assert(statement_views(others@) =~= others_of(given.take(0)));
    }
    while reversed.len() > 0
        invariant
            n == given.len(),
            reversed@.len() <= n,
            forall|j: int|
                0 <= j < reversed@.len() ==> (#[trigger] reversed@[j])@ == given[n - 1 - j],
            statement_views(functions@) == functions_of(given.take(n - reversed@.len())),
            statement_views(others@) == others_of(given.take(n - reversed@.len())),
        decreases reversed@.len(),
    {
        let ghost i = n - reversed@.len();
        let ghost last = reversed@[reversed@.len() - 1];
        match reversed.pop() {
            Some(statement) => {
                proof {
                    assert(statement == last);
                    assert(statement@ == given[i]);
                    lemma_filter_step(given, i, function_test());
                    lemma_filter_step(given, i, other_test());
                    lemma_statement_view(statement);
                }
                let is_function = match &statement {
                    Statement::Function { .. } => true,
                    _ => false,
                };
                if is_function {
                    let ghost before = statement_views(functions@);
                    functions.push(statement);
                    proof {
                        assert(statement_views(functions@) =~= before.push(statement@));
                    }
                } else {
                    let ghost before = statement_views(others@);
                    others.push(statement);
                    proof {
                        assert(statement_views(others@) =~= before.push(statement@));
                    }
                }
            },
            None => {},
        }
    }
    let ghost first = statement_views(functions@);
    let ghost second = statement_views(others@);
    functions.append(&mut others);
    proof {
        assert(given.take(n) =~= given);
        assert(statement_views(functions@) =~= first + second);
    }
    *ast = functions;
}

} // verus!
