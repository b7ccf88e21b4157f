//! The emitter: a parsed program in, JavaScript text out.
use vstd::prelude::*;
use vstd::string::*;
use crate::ast::{
    entry_views, expression_views, lemma_expression_view, lemma_statement_view, parameter_views,
    statement_views, string_views, Expression, ExpressionView, Op, Parameter, ParameterView,
    Statement, StatementView,
};
use crate::js;
use crate::js::{
    function_text, if_else_text, import_text, joined, render, render_joined, render_members,
    return_text, var_text, while_text, Builder, Function, FunctionView, IfElse, IfElseView, Var,
    VarView, While, WhileView,
};

verus! {

/// How an operator is written in JavaScript. Equality and inequality are the
/// strict ones.
pub open spec fn symbol(op: Op) -> Seq<char> {
    match op {
        Op::GreaterThan => ">"@,
        Op::LessThan => "<"@,
        Op::GreaterThanEquals => ">="@,
        Op::LessThanEquals => "<="@,
        Op::Add => "+"@,
        Op::Subtract => "-"@,
        Op::Multiply => "*"@,
        Op::Divide => "/"@,
        Op::Equals => "==="@,
        Op::NotEquals => "!=="@,
        Op::And => "&&"@,
        Op::Or => "||"@,
        Op::Mod => "%"@,
        Op::AddAssign => "+="@,
        Op::SubtractAssign => "-="@,
        Op::MultiplyAssign => "*="@,
        Op::DivideAssign => "/="@,
        Op::Assign => "="@,
        Op::Not => "!"@,
    }
}

/// The names of parameters.
pub open spec fn parameter_names(parameters: Seq<ParameterView>) -> Seq<Seq<char>> {
    Seq::new(parameters.len(), |i: int| parameters[i].name)
}

/// The call that checks one parameter against its type, as a statement.
pub open spec fn assertion(name: Seq<char>, ty: Seq<char>) -> Seq<char> {
    "__sol_assert_type"@ + "("@ + (name + ", "@ + ty) + ")"@ + ";"@
}

/// The checks of the first `n` parameters: one for each that has a type.
pub open spec fn assertions(parameters: Seq<ParameterView>, n: nat) -> Seq<char>
    decreases n,
{
    if n == 0 || n > parameters.len() {
        Seq::empty()
    } else {
        assertions(parameters, (n - 1) as nat) + match parameters[n - 1].ty {
            Some(ty) => assertion(parameters[n - 1].name, ty),
            None => Seq::empty(),
        }
    }
}

/// The JavaScript text of an expression. An index without an index stands for
/// the place after the last element: the length of the array is its index.
pub open spec fn emit_expression(e: ExpressionView) -> Seq<char>
    decreases e, 0nat,
{
    match e {
        ExpressionView::String(s) => "\""@ + s + "\""@,
        ExpressionView::Number(n) => n,
        ExpressionView::Bool(b) => if b {
            "true"@
        } else {
            "false"@
        },
        ExpressionView::Array(items) => "["@ + emit_joined(items, items.len()) + "]"@,
        ExpressionView::Mapping(members) => "{\n"@ + emit_members(members, members.len())
            + "\n}"@,
        ExpressionView::Identifier(i) => i,
        ExpressionView::Infix(left, op, right) => emit_expression(*left) + " "@ + symbol(op)
            + " "@ + emit_expression(*right),
        ExpressionView::Prefix(op, operand) => symbol(op) + " "@ + emit_expression(*operand),
        ExpressionView::Call(callee, arguments) => emit_expression(*callee) + "("@ + emit_joined(
            arguments,
            arguments.len(),
        ) + ")"@,
        ExpressionView::Assign(target, value) => emit_expression(*target) + " "@ + "="@ + " "@
            + emit_expression(*value),
        ExpressionView::Index(array, index) => match index {
            Some(i) => emit_expression(*array) + "["@ + emit_expression(*i) + "]"@,
            None => emit_expression(*array) + "["@ + (emit_expression(*array) + "."@
                + "length"@) + "]"@,
        },
        ExpressionView::Dot(object, property) => emit_expression(*object) + "."@
            + emit_expression(*property),
        ExpressionView::Closure(parameters, body) => "("@ + joined(
            parameter_names(parameters),
            parameters.len(),
        ) + ") => {\n"@ + emit_statements(body, body.len()) + "\n}"@,
    }
}

/// The texts of the first `n` of `items`, with a comma and a space between them.
pub open spec fn emit_joined(items: Seq<ExpressionView>, n: nat) -> Seq<char>
    decreases items, n,
{
    if n == 0 || n > items.len() {
        Seq::empty()
    } else if n == 1 {
        emit_expression(items[0])
    } else {
        emit_joined(items, (n - 1) as nat) + ", "@ + emit_expression(items[n - 1])
    }
}

/// The texts of the first `n` entries of a map literal.
pub open spec fn emit_members(members: Seq<(Seq<char>, ExpressionView)>, n: nat) -> Seq<char>
    decreases members, n,
{
    if n == 0 || n > members.len() {
        Seq::empty()
    } else {
        emit_members(members, (n - 1) as nat) + "\""@ + members[n - 1].0 + "\": "@
            + emit_expression(members[n - 1].1) + ",\n"@
    }
}

/// The JavaScript text of a statement. A function checks its typed parameters
/// before its body; a closure does not.
pub open spec fn emit_statement(s: StatementView) -> Seq<char>
    decreases s, 0nat,
{
    match s {
        StatementView::Use { module, imports } => import_text(imports, module),
        StatementView::Let { identifier, initial } => var_text(
            VarView {
                id: identifier,
                value: Some(emit_expression(initial)),
                constant: false,
                scoped: true,
            },
        ),
        StatementView::Function { identifier, parameters, return_type, body } => function_text(
            FunctionView {
                id: identifier,
                parameters: joined(parameter_names(parameters), parameters.len()),
                body: assertions(parameters, parameters.len()) + emit_statements(
                    body,
                    body.len(),
                ),
            },
        ),
        StatementView::If { condition, then, otherwise } => if_else_text(
            IfElseView {
                condition: emit_expression(condition),
                consequent: emit_statements(then, then.len()),
                otherwise: if otherwise.len() == 0 {
                    None
                } else {
                    Some(emit_statements(otherwise, otherwise.len()))
                },
            },
        ),
        StatementView::While { condition, then } => while_text(
            WhileView {
                condition: emit_expression(condition),
                consequent: emit_statements(then, then.len()),
            },
        ),
        StatementView::Return { expression } => return_text(Some(emit_expression(expression))),
        StatementView::Expression { expression } => emit_expression(expression) + ";"@,
        StatementView::Break => "break;"@,
        StatementView::Continue => "continue;"@,
    }
}

/// The texts of the first `n` of `statements`, one after the other.
pub open spec fn emit_statements(statements: Seq<StatementView>, n: nat) -> Seq<char>
    decreases statements, n,
{
    if n == 0 || n > statements.len() {
        Seq::empty()
    } else {
        emit_statements(statements, (n - 1) as nat) + emit_statement(statements[n - 1])
    }
}

/// The JavaScript text of a program.
pub open spec fn emit(program: Seq<StatementView>) -> Seq<char> {
    emit_statements(program, program.len())
}

/// How an operator is written in JavaScript.
pub fn symbol_text(op: Op) -> (s: &'static str)
    ensures
        s@ == symbol(op),
{
    match op {
        Op::GreaterThan => ">",
        Op::LessThan => "<",
        Op::GreaterThanEquals => ">=",
        Op::LessThanEquals => "<=",
        Op::Add => "+",
        Op::Subtract => "-",
        Op::Multiply => "*",
        Op::Divide => "/",
        Op::Equals => "===",
        Op::NotEquals => "!==",
        Op::And => "&&",
        Op::Or => "||",
        Op::Mod => "%",
        Op::AddAssign => "+=",
        Op::SubtractAssign => "-=",
        Op::MultiplyAssign => "*=",
        Op::DivideAssign => "/=",
        Op::Assign => "=",
        Op::Not => "!",
    }
}

proof fn lemma_joined(out: Vec<js::Expression>, views: Seq<ExpressionView>, n: nat)
    requires
        n <= out.len() == views.len(),
        forall|j: int| 0 <= j < out.len() ==> render(#[trigger] out[j]) == emit_expression(views[j]),
    ensures
        render_joined(out, n) == emit_joined(views, n),
    decreases n,
{
    if n > 1 {
        lemma_joined(out, views, (n - 1) as nat);
    }
}

proof fn lemma_members(
    out: Vec<(String, js::Expression)>,
    views: Seq<(Seq<char>, ExpressionView)>,
    n: nat,
)
    requires
        n <= out.len() == views.len(),
        forall|j: int|
            0 <= j < out.len() ==> (#[trigger] out[j]).0@ == views[j].0 && render(out[j].1)
                == emit_expression(views[j].1),
    ensures
        render_members(out, n) == emit_members(views, n),
    decreases n,
{
    if n > 0 {
        lemma_members(out, views, (n - 1) as nat);
    }
}

proof fn lemma_names(out: Vec<js::Expression>, parameters: Seq<ParameterView>, n: nat)
    requires
        n <= out.len() == parameters.len(),
        forall|j: int| 0 <= j < out.len() ==> render(#[trigger] out[j]) == parameters[j].name,
    ensures
        render_joined(out, n) == joined(parameter_names(parameters), n),
    decreases n,
{
    if n > 1 {
        lemma_names(out, parameters, (n - 1) as nat);
    }
}

/// The parameters of a function or closure as JavaScript identifiers.
fn identifiers(parameters: &Vec<Parameter>) -> (out: Vec<js::Expression>)
    ensures
        render_joined(out, out.len() as nat) == joined(
            parameter_names(parameter_views(parameters@)),
            parameters.len() as nat,
        ),
{
    let mut out: Vec<js::Expression> = Vec::new();
    let mut i: usize = 0;
    while i < parameters.len()
        invariant
            i <= parameters.len(),
            out.len() == i,
            forall|j: int| 0 <= j < i ==> render(#[trigger] out[j]) == parameters[j].name@,
        decreases parameters.len() - i,
    {
        out.push(js::Expression::identifier(parameters[i].name.as_str()));
        i += 1;
    }
    proof {
        lemma_names(out, parameter_views(parameters@), out.len() as nat);
    }
    out
}

/// The emitter: the statements it has yet to emit, and the text emitted so far.
#[derive(Debug)]
pub struct Compiler {
    ast: Vec<Statement>,
    builder: Builder,
}

impl Compiler {
    /// The statements that `compile` has yet to emit.
    pub closed spec fn pending(&self) -> Seq<StatementView> {
        statement_views(self.ast@)
    }

    /// The text emitted so far.
    pub closed spec fn text(&self) -> Seq<char> {
        self.builder@
    }

    /// An emitter that has `ast` to emit and has emitted nothing.
    pub fn new(ast: Vec<Statement>) -> (c: Compiler)
        ensures
            c.pending() == statement_views(ast@),
            c.text() == Seq::<char>::empty(),
    {
        Compiler { ast, builder: Builder::new() }
    }

    /// Emits the checks of the typed parameters of a function.
    fn assert_types(&mut self, parameters: &Vec<Parameter>)
        ensures
            final(self).pending() == old(self).pending(),
            final(self).text() == old(self).text() + assertions(
                parameter_views(parameters@),
                parameters.len() as nat,
            ),
    {
        let ghost start = self.text();
        let ghost views = parameter_views(parameters@);
        let mut i: usize = 0;
        proof {
            assert(start + assertions(views, 0) =~= start);
        }
        while i < parameters.len()
            invariant
                i <= parameters.len(),
                views == parameter_views(parameters@),
                self.pending() == old(self).pending(),
                self.text() == start + assertions(views, i as nat),
            decreases parameters.len() - i,
        {
            let ghost before = assertions(views, i as nat);
            match &parameters[i].ty {
                Some(ty) => {
                    let mut arguments: Vec<js::Expression> = Vec::new();
                    arguments.push(js::Expression::identifier(parameters[i].name.as_str()));
                    arguments.push(js::Expression::identifier(ty.0.as_str()));
                    let call = js::Expression::Call(
                        Box::new(js::Expression::identifier("__sol_assert_type")),
                        arguments,
                    );
                    proof {
                        assert(views[i as int] == parameters[i as int]@);
                        assert(arguments.len() == 2);
                        assert(render(arguments[0]) == views[i as int].name);
                        assert(render(arguments[1]) == ty@);
                        assert(render_joined(arguments, 1) == render(arguments[0]));
                        assert(render_joined(arguments, 2) == render_joined(arguments, 1) + ", "@
                            + render(arguments[1]));
                        assert(render(call) == render(*call->Call_0) + "("@ + render_joined(
                            call->Call_1,
                            2,
                        ) + ")"@);
                        assert(render(call) =~= "__sol_assert_type"@ + "("@ + (views[i as int].name
                            + ", "@ + ty@) + ")"@);
                    }
                    self.builder.expression(call);
                    proof {
                        assert(self.text() =~= start + (before + assertion(
                            views[i as int].name,
                            ty@,
                        )));
                    }
                },
                None => {
                    proof {
                        assert(start + before =~= start + (before + Seq::<char>::empty()));
                    }
                },
            }
            i += 1;
        }
    }

    /// Emits `statements`, one after the other.
    pub fn compile_all(&mut self, statements: &Vec<Statement>)
        ensures
            final(self).pending() == old(self).pending(),
            final(self).text() == old(self).text() + emit_statements(
                statement_views(statements@),
                statements.len() as nat,
            ),
        decreases statements, 1nat,
    {
        let ghost start = self.text();
        let ghost views = statement_views(statements@);
        let mut i: usize = 0;
        proof {
            assert(start + emit_statements(views, 0) =~= start);
        }
        while i < statements.len()
            invariant
                i <= statements.len(),
                views == statement_views(statements@),
                self.pending() == old(self).pending(),
                self.text() == start + emit_statements(views, i as nat),
            decreases statements.len() - i,
        {
            proof {
                assert(decreases_to!(*statements => statements[i as int]));
            }
            let ghost before = emit_statements(views, i as nat);
            self.compile_statement(&statements[i]);
            i += 1;
            proof {
                assert(self.text() =~= start + (before + emit_statement(views[i - 1])));
            }
        }
    }

    /// Emits one statement.
    pub fn compile_statement(&mut self, statement: &Statement)
        ensures
            final(self).pending() == old(self).pending(),
            final(self).text() == old(self).text() + emit_statement(statement@),
        decreases statement, 0nat,
    {
        proof {
            lemma_statement_view(*statement);
        }
        match statement {
            Statement::Use { module, imports } => {
                let mut names: Vec<String> = Vec::new();
                let mut i: usize = 0;
                while i < imports.len()
                    invariant
                        i <= imports.len(),
                        names.len() == i,
                        forall|j: int| 0 <= j < i ==> (#[trigger] names[j])@ == imports[j]@,
                    decreases imports.len() - i,
                {
                    names.push(imports[i].clone());
                    i += 1;
                }
                proof {
                    assert(string_views(names@) =~= string_views(imports@));
                }
                self.builder.import(names, module.clone());
            },
            Statement::Let { identifier, initial } => {
                let mut var = Var::new();
                let value = self.compile_expression(initial);
                var.id(identifier.clone()).as_let().value(value);
                self.builder.var(var);
            },
            Statement::Function { identifier, parameters, return_type, body } => {
                proof {
                    assert(decreases_to!(*statement => statement->Function_body));
                }
                let mut function = Function::new();
                let mut inner = Compiler::new(Vec::new());
                inner.assert_types(parameters);
                inner.compile_all(body);
                function.id(identifier.clone()).parameters(identifiers(parameters)).body(
                    inner.builder(),
                );
                proof {
                    assert(inner.text() =~= assertions(
                        parameter_views(parameters@),
                        parameters.len() as nat,
                    ) + emit_statements(statement_views(body@), body.len() as nat));
                }
                self.builder.function(function);
            },
            Statement::Return { expression } => {
                let expression = self.compile_expression(expression);
                self.builder.return_(Some(expression));
            },
            Statement::While { condition, then } => {
                proof {
                    assert(decreases_to!(*statement => statement->While_then));
                }
                let condition = self.compile_expression(condition);
                let mut inner = Compiler::new(Vec::new());
                inner.compile_all(then);
                let mut while_ = While::new(condition);
                while_.then_body(inner.builder());
                proof {
                    assert(inner.text() =~= emit_statements(
                        statement_views(then@),
                        then.len() as nat,
                    ));
                }
                self.builder.while_loop(while_);
            },
            Statement::If { condition, then, otherwise } => {
                proof {
                    assert(decreases_to!(*statement => statement->If_then));
                    assert(decreases_to!(*statement => statement->If_otherwise));
                }
                let condition = self.compile_expression(condition);
                let mut inner = Compiler::new(Vec::new());
                inner.compile_all(then);
                let mut if_ = IfElse::new(condition);
                if_.then_body(inner.builder());
                proof {
                    assert(inner.text() =~= emit_statements(
                        statement_views(then@),
                        then.len() as nat,
                    ));
                }
                if otherwise.len() > 0 {
                    let mut other = Compiler::new(Vec::new());
                    other.compile_all(otherwise);
                    if_.otherwise(other.builder());
                    proof {
                        assert(other.text() =~= emit_statements(
                            statement_views(otherwise@),
                            otherwise.len() as nat,
                        ));
                    }
                }
                self.builder.conditional(if_);
            },
            Statement::Expression { expression } => {
                let expression = self.compile_expression(expression);
                self.builder.expression(expression);
            },
            Statement::Break => {
                self.builder.break_();
            },
            Statement::Continue => {
                self.builder.continue_();
            },
        }
    }

    /// The JavaScript expression for an expression.
    pub fn compile_expression(&self, expression: &Expression) -> (r: js::Expression)
        ensures
            render(r) == emit_expression(expression@),
        decreases expression, 1nat,
    {
        match expression {
            Expression::String(s) => js::Expression::String(s.clone()),
            Expression::Number(n) => js::Expression::Number(n.clone()),
            Expression::Bool(b) => js::Expression::Bool(*b),
            Expression::Array(items) => {
                proof {
                    lemma_expression_view(*expression);
                }
                let out = self.compile_items(items, Ghost(*expression));
                js::Expression::Array(out)
            },
            Expression::Mapping(members) => {
                proof {
                    lemma_expression_view(*expression);
                }
                let out = self.compile_members(members, Ghost(*expression));
                js::Expression::Object(out)
            },
            Expression::Identifier(i) => js::Expression::Identifier(i.clone()),
            Expression::Infix(left, op, right) => js::Expression::infix(
                self.compile_expression(left),
                symbol_text(*op),
                self.compile_expression(right),
            ),
            Expression::Call(callee, arguments) => {
                proof {
                    lemma_expression_view(*expression);
                }
                let out = self.compile_items(arguments, Ghost(*expression));
                js::Expression::Call(Box::new(self.compile_expression(callee)), out)
            },
            Expression::Assign(target, value) => js::Expression::infix(
                self.compile_expression(target),
                "=",
                self.compile_expression(value),
            ),
            Expression::Index(array, index) => match index {
                Some(index) => js::Expression::index(
                    self.compile_expression(array),
                    self.compile_expression(index),
                ),
                None => {
                    let property = js::Expression::identifier("length");
                    proof {
                        assert(render(property) == "length"@);
                    }
                    let length = js::Expression::dot(self.compile_expression(array), property);
                    proof {
                        assert(render(length) == emit_expression(array@) + "."@ + "length"@);
                    }
                    js::Expression::index(self.compile_expression(array), length)
                },
            },
            Expression::Dot(object, property) => js::Expression::dot(
                self.compile_expression(object),
                self.compile_expression(property),
            ),
            Expression::Closure(parameters, body) => {
                proof {
                    lemma_expression_view(*expression);
                    assert(decreases_to!(*expression => expression->Closure_1));
                }
                let mut inner = Compiler::new(Vec::new());
                inner.compile_all(body);
                proof {
                    assert(inner.text() =~= emit_statements(
                        statement_views(body@),
                        body.len() as nat,
                    ));
                }
                js::Expression::closure(identifiers(parameters), inner.builder())
            },
            Expression::Prefix(op, value) => js::Expression::Prefix(
                String::from_str(symbol_text(*op)),
                Box::new(self.compile_expression(value)),
            ),
        }
    }

    /// The members of a JavaScript object for the entries of a map literal,
    /// which `parent` holds.
    fn compile_members(
        &self,
        members: &Vec<(String, Expression)>,
        Ghost(parent): Ghost<Expression>,
    ) -> (out: Vec<(String, js::Expression)>)
        requires
            parent is Mapping,
            parent->Mapping_0 == *members,
        ensures
            render_members(out, out.len() as nat) == emit_members(
                entry_views(members@),
                members.len() as nat,
            ),
        decreases parent, 0nat,
    {
        let mut out: Vec<(String, js::Expression)> = Vec::new();
        let mut i: usize = 0;
        while i < members.len()
            invariant
                i <= members.len(),
                out.len() == i,
                parent is Mapping,
                parent->Mapping_0 == *members,
                forall|j: int|
                    0 <= j < i ==> (#[trigger] out[j]).0@ == members[j].0@ && render(out[j].1)
                        == emit_expression(members[j].1@),
            decreases members.len() - i,
        {
            proof {
                assert(decreases_to!(parent => parent->Mapping_0));
                assert(decreases_to!(*members => members[i as int]));
                assert(decreases_to!(members[i as int] => members[i as int].1));
            }
            let value = self.compile_expression(&members[i].1);
            out.push((members[i].0.clone(), value));
            i += 1;
        }
        proof {
            lemma_members(out, entry_views(members@), out.len() as nat);
        }
        out
    }

    /// The JavaScript expressions for the items of an array or the arguments of a
    /// call, which `parent` holds.
    fn compile_items(&self, items: &Vec<Expression>, Ghost(parent): Ghost<Expression>) -> (out:
        Vec<js::Expression>)
        requires
            (parent is Array && parent->Array_0 == *items) || (parent is Call && parent->Call_1
                == *items),
        ensures
            render_joined(out, out.len() as nat) == emit_joined(
                expression_views(items@),
                items.len() as nat,
            ),
        decreases parent, 0nat,
    {
        let mut out: Vec<js::Expression> = Vec::new();
        let mut i: usize = 0;
        while i < items.len()
            invariant
                i <= items.len(),
                out.len() == i,
                (parent is Array && parent->Array_0 == *items) || (parent is Call
                    && parent->Call_1 == *items),
                forall|j: int|
                    0 <= j < i ==> render(#[trigger] out[j]) == emit_expression(items[j]@),
            decreases items.len() - i,
        {
            proof {
                if parent is Array {
                    assert(decreases_to!(parent => parent->Array_0));
                } else {
                    assert(decreases_to!(parent => parent->Call_1));
                }
                assert(decreases_to!(*items => items[i as int]));
            }
            out.push(self.compile_expression(&items[i]));
            i += 1;
        }
        proof {
            lemma_joined(out, expression_views(items@), out.len() as nat);
        }
        out
    }

    /// Emits the statements that are yet to be emitted, and returns all the text
    /// emitted so far.
    pub fn compile(&mut self) -> (s: String)
        ensures
            final(self).text() == old(self).text() + emit(old(self).pending()),
            final(self).pending() == Seq::<StatementView>::empty(),
            s@ == final(self).text(),
    {
        let mut ast: Vec<Statement> = Vec::new();
        std::mem::swap(&mut self.ast, &mut ast);
        proof {
            assert(statement_views(self.ast@) =~= Seq::<StatementView>::empty());
        }
        self.compile_all(&ast);
        self.builder.source()
    }

    /// The text emitted so far, as a builder of its own.
    pub fn builder(&self) -> (b: Builder)
        ensures
            b@ == self.text(),
    {
        self.builder.clone()
    }
}

} // verus!
