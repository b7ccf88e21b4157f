//! The builder for JavaScript text: expressions, declarations, functions,
//! branches and loops, and the buffer that collects them.
use vstd::prelude::*;
use vstd::std_specs::convert::FromSpecImpl;
use vstd::string::*;
use crate::number::Number;

verus! {

/// A buffer of JavaScript text.
#[derive(Debug)]
pub struct Builder {
    source: String,
}

impl View for Builder {
    type V = Seq<char>;

    closed spec fn view(&self) -> Seq<char> {
        self.source@
    }
}

impl Clone for Builder {
    fn clone(&self) -> (b: Builder)
        ensures
            b@ == self@,
    {
        Builder { source: self.source.clone() }
    }
}

/// A JavaScript expression.
#[derive(Debug)]
pub enum Expression {
    String(String),
    Number(Number),
    Bool(bool),
    Null,
    Array(Vec<Expression>),
    Object(Vec<(String, Expression)>),
    Index(Box<Expression>, Box<Expression>),
    Dot(Box<Expression>, Box<Expression>),
    Infix(Box<Expression>, String, Box<Expression>),
    Prefix(String, Box<Expression>),
    Call(Box<Expression>, Vec<Expression>),
    Identifier(String),
    Closure(Vec<Expression>, Builder),
}

/// The text of an expression.
pub open spec fn render(e: Expression) -> Seq<char>
    decreases e, 0nat,
{
    match e {
        Expression::String(s) => "\""@ + s@ + "\""@,
        Expression::Number(n) => n@,
        Expression::Bool(b) => if b {
            "true"@
        } else {
            "false"@
        },
        Expression::Null => "null"@,
        Expression::Array(items) => "["@ + render_joined(items, items.len() as nat) + "]"@,
        Expression::Object(members) => "{\n"@ + render_members(members, members.len() as nat)
            + "\n}"@,
        Expression::Index(target, index) => render(*target) + "["@ + render(*index) + "]"@,
        Expression::Dot(target, property) => render(*target) + "."@ + render(*property),
        Expression::Identifier(i) => i@,
        Expression::Infix(left, op, right) => render(*left) + " "@ + op@ + " "@ + render(*right),
        Expression::Prefix(op, right) => op@ + " "@ + render(*right),
        Expression::Call(callee, arguments) => render(*callee) + "("@ + render_joined(
            arguments,
            arguments.len() as nat,
        ) + ")"@,
        Expression::Closure(parameters, body) => "("@ + render_joined(
            parameters,
            parameters.len() as nat,
        ) + ") => {\n"@ + body@ + "\n}"@,
    }
}

/// The texts of the first `n` of `items`, with a comma and a space between them.
pub open spec fn render_joined(items: Vec<Expression>, n: nat) -> Seq<char>
    decreases items, n,
{
    if n == 0 || n > items.len() {
        Seq::empty()
    } else if n == 1 {
        render(items[0])
    } else {
        render_joined(items, (n - 1) as nat) + ", "@ + render(items[n - 1])
    }
}

/// The texts of the first `n` members of an object: for each its key in double
/// quotes, a colon, its value, a comma and a newline.
pub open spec fn render_members(members: Vec<(String, Expression)>, n: nat) -> Seq<char>
    decreases members, n,
{
    if n == 0 || n > members.len() {
        Seq::empty()
    } else {
        render_members(members, (n - 1) as nat) + "\""@ + members[n - 1].0@ + "\": "@ + render(
            members[n - 1].1,
        ) + ",\n"@
    }
}

/// The texts of `items`, with a comma and a space between them.
pub fn join(items: &Vec<Expression>) -> (s: String)
    ensures
        s@ == render_joined(*items, items.len() as nat),
    decreases items, 1nat,
{
    let mut s = String::new();
    let mut i: usize = 0;
    while i < items.len()
        invariant
            i <= items.len(),
            s@ == render_joined(*items, i as nat),
        decreases items.len() - i,
    {
        if i > 0 {
            s.append(", ");
        }
        proof {
            assert(decreases_to!(*items => items[i as int]));
        }
        let item = items[i].to_string();
        let ghost before = s@;
        s.append(item.as_str());
        i += 1;
        proof {
            if i == 1 {
                assert(before + item@ =~= item@);
            }
        }
    }
    s
}

impl Expression {
    /// A number.
    pub fn number(n: Number) -> (e: Expression)
        ensures
            e == Expression::Number(n),
    {
        Expression::Number(n)
    }

    /// A string literal with the text `s`.
    pub fn string(s: &str) -> (e: Expression)
        ensures
            e is String,
            e->String_0@ == s@,
    {
        Expression::String(String::from_str(s))
    }

    /// `true` or `false`.
    pub fn bool(b: bool) -> (e: Expression)
        ensures
            e == Expression::Bool(b),
    {
        Expression::Bool(b)
    }

    /// `null`.
    pub fn null() -> (e: Expression)
        ensures
            e == Expression::Null,
    {
        Expression::Null
    }

    /// The identifier `id`.
    pub fn identifier(id: &str) -> (e: Expression)
        ensures
            e is Identifier,
            e->Identifier_0@ == id@,
    {
        Expression::Identifier(String::from_str(id))
    }

    /// `left op right`.
    pub fn infix(left: Expression, op: &str, right: Expression) -> (e: Expression)
        ensures
            e is Infix,
            e->Infix_0 == left,
            e->Infix_1@ == op@,
            e->Infix_2 == right,
    {
        Expression::Infix(Box::new(left), String::from_str(op), Box::new(right))
    }

    /// `target[index]`.
    pub fn index(target: Expression, index: Expression) -> (e: Expression)
        ensures
            e == Expression::Index(Box::new(target), Box::new(index)),
    {
        Expression::Index(Box::new(target), Box::new(index))
    }

    /// `target.property`.
    pub fn dot(target: Expression, property: Expression) -> (e: Expression)
        ensures
            e == Expression::Dot(Box::new(target), Box::new(property)),
    {
        Expression::Dot(Box::new(target), Box::new(property))
    }

    /// An arrow function with the given parameters and body.
    pub fn closure(parameters: Vec<Expression>, body: Builder) -> (e: Expression)
        ensures
            e == Expression::Closure(parameters, body),
    {
        Expression::Closure(parameters, body)
    }

    /// An object literal with the given members.
    pub fn object(members: Vec<(String, Expression)>) -> (e: Expression)
        ensures
            e == Expression::Object(members),
    {
        Expression::Object(members)
    }

    /// The text of the expression.
    pub fn to_string(&self) -> (s: String)
        ensures
            s@ == render(*self),
        decreases self, 0nat,
    {
        match self {
            Expression::String(text) => {
                let mut s = String::from_str("\"");
                s.append(text.as_str());
                s.append("\"");
                s
            },
            Expression::Number(n) => n.text(),
            Expression::Bool(b) => if *b {
                String::from_str("true")
            } else {
                String::from_str("false")
            },
            Expression::Null => String::from_str("null"),
            Expression::Array(items) => {
                proof {
                    assert(decreases_to!(*self => self->Array_0));
                }
                let mut s = String::from_str("[");
                let inner = join(items);
                s.append(inner.as_str());
                s.append("]");
                s
            },
            Expression::Object(members) => {
                let mut s = String::from_str("{\n");
                let ghost open = s@;
                let mut i: usize = 0;
                while i < members.len()
                    invariant
                        i <= members.len(),
                        *members == self->Object_0,
                        self is Object,
                        s@ == open + render_members(*members, i as nat),
                    decreases members.len() - i,
                {
                    proof {
                        assert(decreases_to!(*self => self->Object_0));
                        assert(decreases_to!(*members => members[i as int]));
                        assert(decreases_to!(members[i as int] => members[i as int].1));
                    }
                    let ghost before = render_members(*members, i as nat);
                    s.append("\"");
                    s.append(members[i].0.as_str());
                    s.append("\": ");
                    let value = members[i].1.to_string();
                    s.append(value.as_str());
                    s.append(",\n");
                    i += 1;
                    proof {
                        assert(s@ =~= open + (before + "\""@ + members[i - 1].0@ + "\": "@
                            + value@ + ",\n"@));
                    }
                }
                s.append("\n}");
                s
            },
            Expression::Index(target, index) => {
                let mut s = target.to_string();
                s.append("[");
                let inner = index.to_string();
                s.append(inner.as_str());
                s.append("]");
                s
            },
            Expression::Dot(target, property) => {
                let mut s = target.to_string();
                s.append(".");
                let inner = property.to_string();
                s.append(inner.as_str());
                s
            },
            Expression::Identifier(i) => i.clone(),
            Expression::Infix(left, op, right) => {
                let mut s = left.to_string();
                s.append(" ");
                s.append(op.as_str());
                s.append(" ");
                let inner = right.to_string();
                s.append(inner.as_str());
                s
            },
            Expression::Prefix(op, right) => {
                let mut s = op.clone();
                s.append(" ");
                let inner = right.to_string();
                s.append(inner.as_str());
                s
            },
            Expression::Call(callee, arguments) => {
                proof {
                    assert(decreases_to!(*self => self->Call_1));
                }
                let mut s = callee.to_string();
                s.append("(");
                let inner = join(arguments);
                s.append(inner.as_str());
                s.append(")");
                s
            },
            Expression::Closure(parameters, body) => {
                proof {
                    assert(decreases_to!(*self => self->Closure_0));
                }
                let mut s = String::from_str("(");
                let inner = join(parameters);
                s.append(inner.as_str());
                s.append(") => {\n");
                let text = body.source();
                s.append(text.as_str());
                s.append("\n}");
                s
            },
        }
    }
}

impl From<String> for Expression {
    fn from(s: String) -> (e: Expression) {
        Expression::String(s)
    }
}

impl FromSpecImpl<String> for Expression {
    open spec fn obeys_from_spec() -> bool {
        true
    }

    open spec fn from_spec(s: String) -> Expression {
        Expression::String(s)
    }
}

impl<'a> From<&'a str> for Expression {
    fn from(s: &'a str) -> (e: Expression)
        ensures
            e is String,
            e->String_0@ == s@,
    {
        Expression::String(String::from_str(s))
    }
}

impl<'a> FromSpecImpl<&'a str> for Expression {
    open spec fn obeys_from_spec() -> bool {
        false
    }

    open spec fn from_spec(s: &'a str) -> Expression {
        arbitrary()
    }
}

impl From<Number> for Expression {
    fn from(n: Number) -> (e: Expression) {
        Expression::Number(n)
    }
}

impl FromSpecImpl<Number> for Expression {
    open spec fn obeys_from_spec() -> bool {
        true
    }

    open spec fn from_spec(n: Number) -> Expression {
        Expression::Number(n)
    }
}

impl From<bool> for Expression {
    fn from(b: bool) -> (e: Expression) {
        Expression::Bool(b)
    }
}

impl FromSpecImpl<bool> for Expression {
    open spec fn obeys_from_spec() -> bool {
        true
    }

    open spec fn from_spec(b: bool) -> Expression {
        Expression::Bool(b)
    }
}

impl From<()> for Expression {
    fn from(unit: ()) -> (e: Expression) {
        Expression::Null
    }
}

impl FromSpecImpl<()> for Expression {
    open spec fn obeys_from_spec() -> bool {
        true
    }

    open spec fn from_spec(unit: ()) -> Expression {
        Expression::Null
    }
}

impl From<Vec<Expression>> for Expression {
    fn from(items: Vec<Expression>) -> (e: Expression) {
        Expression::Array(items)
    }
}

impl FromSpecImpl<Vec<Expression>> for Expression {
    open spec fn obeys_from_spec() -> bool {
        true
    }

    open spec fn from_spec(items: Vec<Expression>) -> Expression {
        Expression::Array(items)
    }
}

impl From<(Expression, String, Expression)> for Expression {
    fn from(parts: (Expression, String, Expression)) -> (e: Expression) {
        Expression::Infix(Box::new(parts.0), parts.1, Box::new(parts.2))
    }
}

impl FromSpecImpl<(Expression, String, Expression)> for Expression {
    open spec fn obeys_from_spec() -> bool {
        true
    }

    open spec fn from_spec(parts: (Expression, String, Expression)) -> Expression {
        Expression::Infix(Box::new(parts.0), parts.1, Box::new(parts.2))
    }
}

impl From<(Expression, Vec<Expression>)> for Expression {
    fn from(parts: (Expression, Vec<Expression>)) -> (e: Expression) {
        Expression::Call(Box::new(parts.0), parts.1)
    }
}

impl FromSpecImpl<(Expression, Vec<Expression>)> for Expression {
    open spec fn obeys_from_spec() -> bool {
        true
    }

    open spec fn from_spec(parts: (Expression, Vec<Expression>)) -> Expression {
        Expression::Call(Box::new(parts.0), parts.1)
    }
}

/// A variable declaration as a mathematical value; the value is held as its text.
pub struct VarView {
    pub id: Seq<char>,
    pub value: Option<Seq<char>>,
    pub constant: bool,
    pub scoped: bool,
}

/// The keyword of a declaration: `let` where it was asked for, else `const`
/// where that was, else `var`.
pub open spec fn var_keyword(v: VarView) -> Seq<char> {
    if v.scoped {
        "let"@
    } else if v.constant {
        "const"@
    } else {
        "var"@
    }
}

/// The text of a declaration.
pub open spec fn var_text(v: VarView) -> Seq<char> {
    var_keyword(v) + " "@ + v.id + match v.value {
        Some(value) => " = "@ + value,
        None => ""@,
    } + ";"@
}

/// A variable declaration.
#[derive(Debug)]
pub struct Var {
    id: String,
    value: Option<Expression>,
    m_const: bool,
    m_let: bool,
}

impl View for Var {
    type V = VarView;

    closed spec fn view(&self) -> VarView {
        VarView {
            id: self.id@,
            value: match self.value {
                Some(e) => Some(render(e)),
                None => None,
            },
            constant: self.m_const,
            scoped: self.m_let,
        }
    }
}

impl Var {
    /// A `var` declaration without a name or a value.
    pub fn new() -> (v: Var)
        ensures
            v@ == (VarView { id: Seq::empty(), value: None, constant: false, scoped: false }),
    {
        Var { id: String::new(), value: None, m_const: false, m_let: false }
    }

    /// Makes the declaration a `let`.
    pub fn as_let(&mut self) -> (r: &mut Self)
        ensures
            *final(self) == *final(r),
            r@ == (VarView { scoped: true, ..old(self)@ }),
    {
        self.m_let = true;
        self
    }

    /// Makes the declaration a `const`.
    pub fn as_const(&mut self) -> (r: &mut Self)
        ensures
            *final(self) == *final(r),
            r@ == (VarView { constant: true, scoped: false, ..old(self)@ }),
    {
        self.m_const = true;
        self.m_let = false;
        self
    }

    /// Sets the name.
    pub fn id(&mut self, id: String) -> (r: &mut Self)
        ensures
            *final(self) == *final(r),
            r@ == (VarView { id: id@, ..old(self)@ }),
    {
        self.id = id;
        self
    }

    /// Sets the value.
    pub fn value(&mut self, expression: Expression) -> (r: &mut Self)
        ensures
            *final(self) == *final(r),
            r@ == (VarView { value: Some(render(expression)), ..old(self)@ }),
    {
        self.value = Some(expression);
        self
    }

    fn keyword(&self) -> (s: String)
        ensures
            s@ == var_keyword(self@),
    {
        String::from_str(
            if self.m_let {
                "let"
            } else if self.m_const {
                "const"
            } else {
                "var"
            },
        )
    }

    /// The text of the declaration.
    pub fn to_string(&self) -> (s: String)
        ensures
            s@ == var_text(self@),
    {
        let mut s = self.keyword();
        s.append(" ");
        s.append(self.id.as_str());
        let ghost head = s@;
        match &self.value {
            Some(expression) => {
                s.append(" = ");
                let value = expression.to_string();
                s.append(value.as_str());
                proof {
                    assert(s@ =~= head + (" = "@ + value@));
                }
            },
            None => {
                proof {
                    reveal_strlit("");
                    assert(s@ =~= head + ""@);
                }
            },
        }
        s.append(";");
        s
    }
}

/// A function declaration as a mathematical value; parameters and body are held
/// as their text.
pub struct FunctionView {
    pub id: Seq<char>,
    pub parameters: Seq<char>,
    pub body: Seq<char>,
}

/// The text of a function declaration.
pub open spec fn function_text(f: FunctionView) -> Seq<char> {
    "function "@ + f.id + "("@ + f.parameters + ") {\n"@ + f.body + "\n}\n\n"@
}

/// A function declaration.
#[derive(Debug)]
pub struct Function {
    id: String,
    parameters: Vec<Expression>,
    body: Builder,
}

impl View for Function {
    type V = FunctionView;

    closed spec fn view(&self) -> FunctionView {
        FunctionView {
            id: self.id@,
            parameters: render_joined(self.parameters, self.parameters.len() as nat),
            body: self.body@,
        }
    }
}

impl Function {
    /// A function without a name, parameters or a body.
    pub fn new() -> (f: Function)
        ensures
            f@ == (FunctionView {
                id: Seq::empty(),
                parameters: Seq::empty(),
                body: Seq::empty(),
            }),
    {
        Function { id: String::new(), parameters: Vec::new(), body: Builder::new() }
    }

    /// Sets the name.
    pub fn id(&mut self, id: String) -> (r: &mut Self)
        ensures
            *final(self) == *final(r),
            r@ == (FunctionView { id: id@, ..old(self)@ }),
    {
        self.id = id;
        self
    }

    /// Sets the parameters.
    pub fn parameters(&mut self, parameters: Vec<Expression>) -> (r: &mut Self)
        ensures
            *final(self) == *final(r),
            r@ == (FunctionView {
                parameters: render_joined(parameters, parameters.len() as nat),
                ..old(self)@
            }),
    {
        self.parameters = parameters;
        self
    }

    /// Sets the body.
    pub fn body(&mut self, body: Builder) -> (r: &mut Self)
        ensures
            *final(self) == *final(r),
            r@ == (FunctionView { body: body@, ..old(self)@ }),
    {
        self.body = body;
        self
    }

    /// The text of the declaration.
    pub fn to_string(&self) -> (s: String)
        ensures
            s@ == function_text(self@),
    {
        let mut s = String::from_str("function ");
        s.append(self.id.as_str());
        s.append("(");
        let parameters = join(&self.parameters);
        s.append(parameters.as_str());
        s.append(") {\n");
        let body = self.body.source();
        s.append(body.as_str());
        s.append("\n}\n\n");
        s
    }
}

/// A branch as a mathematical value, its parts held as their text.
pub struct IfElseView {
    pub condition: Seq<char>,
    pub consequent: Seq<char>,
    pub otherwise: Option<Seq<char>>,
}

/// The text of a branch.
pub open spec fn if_else_text(b: IfElseView) -> Seq<char> {
    "if ("@ + b.condition + ") {\n"@ + b.consequent + "\n}"@ + match b.otherwise {
        Some(otherwise) => " else {\n"@ + otherwise + "\n}"@,
        None => ""@,
    } + "\n"@
}

/// A branch: `if`, and `else` where one was given.
#[derive(Debug)]
pub struct IfElse {
    condition: Expression,
    consequent: Builder,
    otherwise: Option<Builder>,
}

impl View for IfElse {
    type V = IfElseView;

    closed spec fn view(&self) -> IfElseView {
        IfElseView {
            condition: render(self.condition),
            consequent: self.consequent@,
            otherwise: match self.otherwise {
                Some(b) => Some(b@),
                None => None,
            },
        }
    }
}

impl IfElse {
    /// A branch on `condition` with nothing in it and no `else`.
    pub fn new(condition: Expression) -> (b: IfElse)
        ensures
            b@ == (IfElseView {
                condition: render(condition),
                consequent: Seq::empty(),
                otherwise: None,
            }),
    {
        IfElse { condition, consequent: Builder::new(), otherwise: None }
    }

    /// Sets the condition.
    pub fn condition(&mut self, condition: Expression) -> (r: &mut Self)
        ensures
            *final(self) == *final(r),
            r@ == (IfElseView { condition: render(condition), ..old(self)@ }),
    {
        self.condition = condition;
        self
    }

    /// Sets what runs where the condition holds.
    pub fn then_body(&mut self, then: Builder) -> (r: &mut Self)
        ensures
            *final(self) == *final(r),
            r@ == (IfElseView { consequent: then@, ..old(self)@ }),
    {
        self.consequent = then;
        self
    }

    /// Sets what runs where the condition does not hold.
    pub fn otherwise(&mut self, otherwise: Builder) -> (r: &mut Self)
        ensures
            *final(self) == *final(r),
            r@ == (IfElseView { otherwise: Some(otherwise@), ..old(self)@ }),
    {
        self.otherwise = Some(otherwise);
        self
    }

    /// The text of the branch.
    pub fn to_string(&self) -> (s: String)
        ensures
            s@ == if_else_text(self@),
    {
        let mut s = String::from_str("if (");
        let condition = self.condition.to_string();
        s.append(condition.as_str());
        s.append(") {\n");
        let then = self.consequent.source();
        s.append(then.as_str());
        s.append("\n}");
        let ghost head = s@;
        match &self.otherwise {
            Some(otherwise) => {
                s.append(" else {\n");
                let text = otherwise.source();
                s.append(text.as_str());
                s.append("\n}");
                proof {
                    assert(s@ =~= head + (" else {\n"@ + text@ + "\n}"@));
                }
            },
            None => {
                proof {
                    reveal_strlit("");
                    assert(s@ =~= head + ""@);
                }
            },
        }
        s.append("\n");
        s
    }
}

/// A loop as a mathematical value, its parts held as their text.
pub struct WhileView {
    pub condition: Seq<char>,
    pub consequent: Seq<char>,
}

/// The text of a loop.
pub open spec fn while_text(w: WhileView) -> Seq<char> {
    "while ("@ + w.condition + ") {\n"@ + w.consequent + "\n}"@
}

/// A `while` loop.
#[derive(Debug)]
pub struct While {
    condition: Expression,
    consequent: Builder,
}

impl View for While {
    type V = WhileView;

    closed spec fn view(&self) -> WhileView {
        WhileView { condition: render(self.condition), consequent: self.consequent@ }
    }
}

impl While {
    /// A loop on `condition` with nothing in it.
    pub fn new(condition: Expression) -> (w: While)
        ensures
            w@ == (WhileView { condition: render(condition), consequent: Seq::empty() }),
    {
        While { condition, consequent: Builder::new() }
    }

    /// Sets what runs where the condition holds.
    pub fn then_body(&mut self, then: Builder) -> (r: &mut Self)
        ensures
            *final(self) == *final(r),
            r@ == (WhileView { consequent: then@, ..old(self)@ }),
    {
        self.consequent = then;
        self
    }

    /// The text of the loop.
    pub fn to_string(&self) -> (s: String)
        ensures
            s@ == while_text(self@),
    {
        let mut s = String::from_str("while (");
        let condition = self.condition.to_string();
        s.append(condition.as_str());
        s.append(") {\n");
        let then = self.consequent.source();
        s.append(then.as_str());
        s.append("\n}");
        s
    }
}

/// The first `n` of `items`, with a comma and a space between them.
pub open spec fn joined(items: Seq<Seq<char>>, n: nat) -> Seq<char>
    decreases n,
{
    if n == 0 || n > items.len() {
        Seq::empty()
    } else if n == 1 {
        items[0]
    } else {
        joined(items, (n - 1) as nat) + ", "@ + items[n - 1]
    }
}

/// The text of an import of `items` from `module`.
pub open spec fn import_text(items: Seq<Seq<char>>, module: Seq<char>) -> Seq<char> {
    "import { "@ + joined(items, items.len()) + " } from \""@ + module + "\";\n"@
}

/// The text of a `return`, with the value where there is one.
pub open spec fn return_text(value: Option<Seq<char>>) -> Seq<char> {
    "return"@ + match value {
        Some(text) => " "@ + text,
        None => ""@,
    } + ";"@
}

impl Builder {
    /// An empty buffer.
    pub fn new() -> (b: Builder)
        ensures
            b@ == Seq::<char>::empty(),
    {
        Builder { source: String::new() }
    }

    /// Appends an import of `items` from `module`.
    pub fn import(&mut self, items: Vec<String>, module: String) -> (r: &mut Self)
        ensures
            *final(self) == *final(r),
            r@ == old(self)@ + import_text(crate::ast::string_views(items@), module@),
    {
        let ghost names = crate::ast::string_views(items@);
        let ghost start = self.source@;
        self.source.append("import { ");
        let ghost head = self.source@;
        let mut i: usize = 0;
        while i < items.len()
            invariant
                i <= items.len(),
                names == crate::ast::string_views(items@),
                self.source@ == head + joined(names, i as nat),
            decreases items.len() - i,
        {
            let ghost before = joined(names, i as nat);
            if i > 0 {
                self.source.append(", ");
            }
            self.source.append(items[i].as_str());
            i += 1;
            proof {
                if i == 1 {
                    assert(self.source@ =~= head + names[0]);
                } else {
                    assert(self.source@ =~= head + (before + ", "@ + names[i - 1]));
                }
            }
        }
        self.source.append(" } from \"");
        self.source.append(module.as_str());
        self.source.append("\";\n");
        proof {
            assert(self.source@ =~= start + import_text(names, module@));
        }
        self
    }

    /// Appends a declaration.
    pub fn var(&mut self, var: Var) -> (r: &mut Self)
        ensures
            *final(self) == *final(r),
            r@ == old(self)@ + var_text(var@),
    {
        let text = var.to_string();
        self.source.append(text.as_str());
        self
    }

    /// Appends a function declaration.
    pub fn function(&mut self, function: Function) -> (r: &mut Self)
        ensures
            *final(self) == *final(r),
            r@ == old(self)@ + function_text(function@),
    {
        let text = function.to_string();
        self.source.append(text.as_str());
        self
    }

    /// Appends a branch.
    pub fn conditional(&mut self, if_else: IfElse) -> (r: &mut Self)
        ensures
            *final(self) == *final(r),
            r@ == old(self)@ + if_else_text(if_else@),
    {
        let text = if_else.to_string();
        self.source.append(text.as_str());
        self
    }

    /// Appends a loop.
    pub fn while_loop(&mut self, while_: While) -> (r: &mut Self)
        ensures
            *final(self) == *final(r),
            r@ == old(self)@ + while_text(while_@),
    {
        let text = while_.to_string();
        self.source.append(text.as_str());
        self
    }

    /// Appends a `return`, with the value where there is one.
    pub fn return_(&mut self, expression: Option<Expression>) -> (r: &mut Self)
        ensures
            *final(self) == *final(r),
            r@ == old(self)@ + return_text(
                match expression {
                    Some(e) => Some(render(e)),
                    None => None,
                },
            ),
    {
        let ghost start = self.source@;
        self.source.append("return");
        match &expression {
            Some(e) => {
                self.source.append(" ");
                let text = e.to_string();
                self.source.append(text.as_str());
                self.source.append(";");
                proof {
                    assert(self.source@ =~= start + ("return"@ + (" "@ + text@) + ";"@));
                }
            },
            None => {
                self.source.append(";");
                proof {
                    reveal_strlit("");
                    assert(self.source@ =~= start + ("return"@ + ""@ + ";"@));
                }
            },
        }
        self
    }

    /// Appends a `break`.
    pub fn break_(&mut self) -> (r: &mut Self)
        ensures
            *final(self) == *final(r),
            r@ == old(self)@ + "break;"@,
    {
        self.source.append("break;");
        self
    }

    /// Appends a `continue`.
    pub fn continue_(&mut self) -> (r: &mut Self)
        ensures
            *final(self) == *final(r),
            r@ == old(self)@ + "continue;"@,
    {
        self.source.append("continue;");
        self
    }

    /// Appends an expression as a statement.
    pub fn expression(&mut self, expression: Expression) -> (r: &mut Self)
        ensures
            *final(self) == *final(r),
            r@ == old(self)@ + render(expression) + ";"@,
    {
        let text = expression.to_string();
        self.source.append(text.as_str());
        self.source.append(";");
        self
    }

    /// The text collected so far.
    pub fn source(&self) -> (s: String)
        ensures
            s@ == self@,
    {
        self.source.clone()
    }
}

} // verus!
