//! The syntax tree: statements, expressions, operators, parameters and types,
//! each with its mathematical view.
use vstd::prelude::*;
use vstd::std_specs::convert::FromSpecImpl;
use vstd::string::*;
use crate::number::Number;
use crate::token::{Kind, TokenKind};

verus! {

/// A type annotation: a name, and nothing more.
#[derive(Debug, PartialEq)]
pub struct Type(pub String);

impl View for Type {
    type V = Seq<char>;

    open spec fn view(&self) -> Seq<char> {
        self.0@
    }
}

impl Clone for Type {
    fn clone(&self) -> (t: Type)
        ensures
            t@ == self@,
    {
        Type(self.0.clone())
    }
}

impl From<String> for Type {
    fn from(s: String) -> (t: Type) {
        Type(s)
    }
}

impl FromSpecImpl<String> for Type {
    open spec fn obeys_from_spec() -> bool {
        true
    }

    open spec fn from_spec(s: String) -> Type {
        Type(s)
    }
}

/// The operators of prefix and infix expressions.
#[derive(Debug, PartialEq, Eq, Clone, Copy, Structural)]
pub enum Op {
    Add,
    Subtract,
    Multiply,
    Divide,
    GreaterThan,
    LessThan,
    GreaterThanEquals,
    LessThanEquals,
    Equals,
    NotEquals,
    Assign,
    AddAssign,
    SubtractAssign,
    MultiplyAssign,
    DivideAssign,
    Not,
    And,
    Or,
    Mod,
}

/// The operator that a token kind stands for, if it stands for one.
pub open spec fn operator_of(kind: Kind) -> Option<Op> {
    match kind {
        Kind::Plus => Some(Op::Add),
        Kind::Minus => Some(Op::Subtract),
        Kind::Asterisk => Some(Op::Multiply),
        Kind::Slash => Some(Op::Divide),
        Kind::GreaterThan => Some(Op::GreaterThan),
        Kind::LessThan => Some(Op::LessThan),
        Kind::GreaterThanEquals => Some(Op::GreaterThanEquals),
        Kind::LessThanEquals => Some(Op::LessThanEquals),
        Kind::EqualsEquals => Some(Op::Equals),
        Kind::NotEquals => Some(Op::NotEquals),
        Kind::Equals => Some(Op::Assign),
        Kind::Not => Some(Op::Not),
        Kind::And => Some(Op::And),
        Kind::Or => Some(Op::Or),
        Kind::Percent => Some(Op::Mod),
        Kind::PlusEquals => Some(Op::AddAssign),
        Kind::MinusEquals => Some(Op::SubtractAssign),
        Kind::AsteriskEquals => Some(Op::MultiplyAssign),
        Kind::SlashEquals => Some(Op::DivideAssign),
        _ => None,
    }
}

impl Op {
    /// The operator that a token kind stands for; `None` for a kind that stands
    /// for no operator.
    pub fn from(kind: &TokenKind) -> (op: Option<Op>)
        ensures
            op == operator_of(kind@),
    {
        match kind {
            TokenKind::Plus => Some(Op::Add),
            TokenKind::Minus => Some(Op::Subtract),
            TokenKind::Asterisk => Some(Op::Multiply),
            TokenKind::Slash => Some(Op::Divide),
            TokenKind::GreaterThan => Some(Op::GreaterThan),
            TokenKind::LessThan => Some(Op::LessThan),
            TokenKind::GreaterThanEquals => Some(Op::GreaterThanEquals),
            TokenKind::LessThanEquals => Some(Op::LessThanEquals),
            TokenKind::EqualsEquals => Some(Op::Equals),
            TokenKind::NotEquals => Some(Op::NotEquals),
            TokenKind::Equals => Some(Op::Assign),
            TokenKind::Not => Some(Op::Not),
            TokenKind::And => Some(Op::And),
            TokenKind::Or => Some(Op::Or),
            TokenKind::Percent => Some(Op::Mod),
            TokenKind::PlusEquals => Some(Op::AddAssign),
            TokenKind::MinusEquals => Some(Op::SubtractAssign),
            TokenKind::AsteriskEquals => Some(Op::MultiplyAssign),
            TokenKind::SlashEquals => Some(Op::DivideAssign),
            _ => None,
        }
    }

    /// Whether the operator is one of the four of arithmetic.
    pub fn math(&self) -> (b: bool)
        ensures
            b == (*self == Op::Add || *self == Op::Subtract || *self == Op::Multiply || *self
                == Op::Divide),
    {
        match self {
            Op::Add | Op::Subtract | Op::Multiply | Op::Divide => true,
            _ => false,
        }
    }
}

/// A parameter of a function or closure: its name and, where one was written,
/// its type.
#[derive(Debug, PartialEq)]
pub struct Parameter {
    pub name: String,
    pub ty: Option<Type>,
}

/// A parameter as a mathematical value.
pub struct ParameterView {
    pub name: Seq<char>,
    pub ty: Option<Seq<char>>,
}

impl View for Parameter {
    type V = ParameterView;

    open spec fn view(&self) -> ParameterView {
        ParameterView {
            name: self.name@,
            ty: match self.ty {
                Some(t) => Some(t@),
                None => None,
            },
        }
    }
}

impl Clone for Parameter {
    fn clone(&self) -> (p: Parameter)
        ensures
            p@ == self@,
    {
        Parameter {
            name: self.name.clone(),
            ty: match &self.ty {
                Some(t) => Some(t.clone()),
                None => None,
            },
        }
    }
}

impl Parameter {
    /// The parameter called `name`, of type `ty` where one is given.
    pub fn new(name: &str, ty: Option<Type>) -> (p: Parameter)
        ensures
            p.name@ == name@,
            p.ty == ty,
    {
        Parameter { name: String::from_str(name), ty }
    }
}

/// An expression.
#[derive(Debug, PartialEq)]
pub enum Expression {
    String(String),
    Number(Number),
    Bool(bool),
    Array(Vec<Expression>),
    /// The entries of a map literal in the order in which their keys first came;
    /// no key stands twice.
    Mapping(Vec<(String, Expression)>),
    Identifier(String),
    Prefix(Op, Box<Expression>),
    Infix(Box<Expression>, Op, Box<Expression>),
    Call(Box<Expression>, Vec<Expression>),
    Assign(Box<Expression>, Box<Expression>),
    /// An index into an array; without an index it stands for the place after
    /// the last element.
    Index(Box<Expression>, Option<Box<Expression>>),
    Dot(Box<Expression>, Box<Expression>),
    Closure(Vec<Parameter>, Vec<Statement>),
}

impl Expression {
    /// The expression in a box.
    pub fn boxed(self) -> (b: Box<Expression>)
        ensures
            *b == self,
    {
        Box::new(self)
    }
}

/// A statement.
#[derive(Debug, PartialEq)]
pub enum Statement {
    Let { identifier: String, initial: Expression },
    Function {
        identifier: String,
        parameters: Vec<Parameter>,
        return_type: Option<Type>,
        body: Vec<Statement>,
    },
    If { condition: Expression, then: Vec<Statement>, otherwise: Vec<Statement> },
    While { condition: Expression, then: Vec<Statement> },
    Return { expression: Expression },
    Expression { expression: Expression },
    Use { module: String, imports: Vec<String> },
    Break,
    Continue,
}

/// An expression as a mathematical value: strings are sequences of
/// characters, and vectors are sequences.
pub enum ExpressionView {
    String(Seq<char>),
    Number(Seq<char>),
    Bool(bool),
    Array(Seq<ExpressionView>),
    Mapping(Seq<(Seq<char>, ExpressionView)>),
    Identifier(Seq<char>),
    Prefix(Op, Box<ExpressionView>),
    Infix(Box<ExpressionView>, Op, Box<ExpressionView>),
    Call(Box<ExpressionView>, Seq<ExpressionView>),
    Assign(Box<ExpressionView>, Box<ExpressionView>),
    Index(Box<ExpressionView>, Option<Box<ExpressionView>>),
    Dot(Box<ExpressionView>, Box<ExpressionView>),
    Closure(Seq<ParameterView>, Seq<StatementView>),
}

/// A statement as a mathematical value.
pub enum StatementView {
    Let { identifier: Seq<char>, initial: ExpressionView },
    Function {
        identifier: Seq<char>,
        parameters: Seq<ParameterView>,
        return_type: Option<Seq<char>>,
        body: Seq<StatementView>,
    },
    If { condition: ExpressionView, then: Seq<StatementView>, otherwise: Seq<StatementView> },
    While { condition: ExpressionView, then: Seq<StatementView> },
    Return { expression: ExpressionView },
    Expression { expression: ExpressionView },
    Use { module: Seq<char>, imports: Seq<Seq<char>> },
    Break,
    Continue,
}

/// The view of an expression.
pub open spec fn expression_view(e: Expression) -> ExpressionView
    decreases e,
{
    match e {
        Expression::String(s) => ExpressionView::String(s@),
        Expression::Number(n) => ExpressionView::Number(n@),
        Expression::Bool(b) => ExpressionView::Bool(b),
        Expression::Array(items) => ExpressionView::Array(
            Seq::new(
                items.len() as nat,
                |i: int|
                    if 0 <= i < items.len() {
                        expression_view(items[i])
                    } else {
                        arbitrary()
                    },
            ),
        ),
        Expression::Mapping(entries) => ExpressionView::Mapping(
            Seq::new(
                entries.len() as nat,
                |i: int|
                    if 0 <= i < entries.len() {
                        (entries[i].0@, expression_view(entries[i].1))
                    } else {
                        arbitrary()
                    },
            ),
        ),
        Expression::Identifier(s) => ExpressionView::Identifier(s@),
        Expression::Prefix(op, operand) => ExpressionView::Prefix(
            op,
            Box::new(expression_view(*operand)),
        ),
        Expression::Infix(left, op, right) => ExpressionView::Infix(
            Box::new(expression_view(*left)),
            op,
            Box::new(expression_view(*right)),
        ),
        Expression::Call(callee, arguments) => ExpressionView::Call(
            Box::new(expression_view(*callee)),
            Seq::new(
                arguments.len() as nat,
                |i: int|
                    if 0 <= i < arguments.len() {
                        expression_view(arguments[i])
                    } else {
                        arbitrary()
                    },
            ),
        ),
        Expression::Assign(target, value) => ExpressionView::Assign(
            Box::new(expression_view(*target)),
            Box::new(expression_view(*value)),
        ),
        Expression::Index(array, index) => ExpressionView::Index(
            Box::new(expression_view(*array)),
            match index {
                Some(i) => Some(Box::new(expression_view(*i))),
                None => None,
            },
        ),
        Expression::Dot(object, property) => ExpressionView::Dot(
            Box::new(expression_view(*object)),
            Box::new(expression_view(*property)),
        ),
        Expression::Closure(parameters, body) => ExpressionView::Closure(
            Seq::new(parameters.len() as nat, |i: int| parameters[i]@),
            Seq::new(
                body.len() as nat,
                |i: int|
                    if 0 <= i < body.len() {
                        statement_view(body[i])
                    } else {
                        arbitrary()
                    },
            ),
        ),
    }
}

/// The view of a statement.
pub open spec fn statement_view(s: Statement) -> StatementView
    decreases s,
{
    match s {
        Statement::Let { identifier, initial } => StatementView::Let {
            identifier: identifier@,
            initial: expression_view(initial),
        },
        Statement::Function { identifier, parameters, return_type, body } => {
            StatementView::Function {
                identifier: identifier@,
                parameters: Seq::new(parameters.len() as nat, |i: int| parameters[i]@),
                return_type: match return_type {
                    Some(t) => Some(t@),
                    None => None,
                },
                body: Seq::new(
                    body.len() as nat,
                    |i: int|
                        if 0 <= i < body.len() {
                            statement_view(body[i])
                        } else {
                            arbitrary()
                        },
                ),
            }
        },
        Statement::If { condition, then, otherwise } => StatementView::If {
            condition: expression_view(condition),
            then: Seq::new(
                then.len() as nat,
                |i: int|
                    if 0 <= i < then.len() {
                        statement_view(then[i])
                    } else {
                        arbitrary()
                    },
            ),
            otherwise: Seq::new(
                otherwise.len() as nat,
                |i: int|
                    if 0 <= i < otherwise.len() {
                        statement_view(otherwise[i])
                    } else {
                        arbitrary()
                    },
            ),
        },
        Statement::While { condition, then } => StatementView::While {
            condition: expression_view(condition),
            then: Seq::new(
                then.len() as nat,
                |i: int|
                    if 0 <= i < then.len() {
                        statement_view(then[i])
                    } else {
                        arbitrary()
                    },
            ),
        },
        Statement::Return { expression } => StatementView::Return {
            expression: expression_view(expression),
        },
        Statement::Expression { expression } => StatementView::Expression {
            expression: expression_view(expression),
        },
        Statement::Use { module, imports } => StatementView::Use {
            module: module@,
            imports: Seq::new(imports.len() as nat, |i: int| imports[i]@),
        },
        Statement::Break => StatementView::Break,
        Statement::Continue => StatementView::Continue,
    }
}

impl View for Expression {
    type V = ExpressionView;

    open spec fn view(&self) -> ExpressionView {
        expression_view(*self)
    }
}

impl View for Statement {
    type V = StatementView;

    open spec fn view(&self) -> StatementView {
        statement_view(*self)
    }
}

/// The views of a sequence of expressions.
pub open spec fn expression_views(items: Seq<Expression>) -> Seq<ExpressionView> {
    Seq::new(items.len(), |i: int| items[i]@)
}

/// The views of a sequence of statements.
pub open spec fn statement_views(items: Seq<Statement>) -> Seq<StatementView> {
    Seq::new(items.len(), |i: int| items[i]@)
}

/// The views of a sequence of parameters.
pub open spec fn parameter_views(items: Seq<Parameter>) -> Seq<ParameterView> {
    Seq::new(items.len(), |i: int| items[i]@)
}

/// The views of the entries of a map literal.
pub open spec fn entry_views(entries: Seq<(String, Expression)>) -> Seq<(Seq<char>, ExpressionView)> {
    Seq::new(entries.len(), |i: int| (entries[i].0@, entries[i].1@))
}

/// The views of a sequence of strings.
pub open spec fn string_views(items: Seq<String>) -> Seq<Seq<char>> {
    Seq::new(items.len(), |i: int| items[i]@)
}

/// What the view of an expression is, with the views of its parts written by
/// the functions above.
pub proof fn lemma_expression_view(e: Expression)
    ensures
        e@ == match e {
            Expression::String(s) => ExpressionView::String(s@),
            Expression::Number(n) => ExpressionView::Number(n@),
            Expression::Bool(b) => ExpressionView::Bool(b),
            Expression::Array(items) => ExpressionView::Array(expression_views(items@)),
            Expression::Mapping(entries) => ExpressionView::Mapping(entry_views(entries@)),
            Expression::Identifier(s) => ExpressionView::Identifier(s@),
            Expression::Prefix(op, operand) => ExpressionView::Prefix(op, Box::new(operand@)),
            Expression::Infix(left, op, right) => ExpressionView::Infix(
                Box::new(left@),
                op,
                Box::new(right@),
            ),
            Expression::Call(callee, arguments) => ExpressionView::Call(
                Box::new(callee@),
                expression_views(arguments@),
            ),
            Expression::Assign(target, value) => ExpressionView::Assign(
                Box::new(target@),
                Box::new(value@),
            ),
            Expression::Index(array, index) => ExpressionView::Index(
                Box::new(array@),
                match index {
                    Some(i) => Some(Box::new(i@)),
                    None => None,
                },
            ),
            Expression::Dot(object, property) => ExpressionView::Dot(
                Box::new(object@),
                Box::new(property@),
            ),
            Expression::Closure(parameters, body) => ExpressionView::Closure(
                parameter_views(parameters@),
                statement_views(body@),
            ),
        },
{
    match e {
        Expression::Array(items) => {
            assert(e@->Array_0 =~= expression_views(items@));
        },
        Expression::Mapping(entries) => {
            assert(e@->Mapping_0 =~= entry_views(entries@));
        },
        Expression::Call(callee, arguments) => {
            assert(e@->Call_1 =~= expression_views(arguments@));
        },
        Expression::Closure(parameters, body) => {
            assert(e@->Closure_0 =~= parameter_views(parameters@));
            assert(e@->Closure_1 =~= statement_views(body@));
        },
        _ => {},
    }
}

/// What the view of a statement is, with the views of its parts written by the
/// functions above.
pub proof fn lemma_statement_view(s: Statement)
    ensures
        s@ == match s {
            Statement::Let { identifier, initial } => StatementView::Let {
                identifier: identifier@,
                initial: initial@,
            },
            Statement::Function { identifier, parameters, return_type, body } => {
                StatementView::Function {
                    identifier: identifier@,
                    parameters: parameter_views(parameters@),
                    return_type: match return_type {
                        Some(t) => Some(t@),
                        None => None,
                    },
                    body: statement_views(body@),
                }
            },
            Statement::If { condition, then, otherwise } => StatementView::If {
                condition: condition@,
                then: statement_views(then@),
                otherwise: statement_views(otherwise@),
            },
            Statement::While { condition, then } => StatementView::While {
                condition: condition@,
                then: statement_views(then@),
            },
            Statement::Return { expression } => StatementView::Return { expression: expression@ },
            Statement::Expression { expression } => StatementView::Expression {
                expression: expression@,
            },
            Statement::Use { module, imports } => StatementView::Use {
                module: module@,
                imports: string_views(imports@),
            },
            Statement::Break => StatementView::Break,
            Statement::Continue => StatementView::Continue,
        },
{
    match s {
        Statement::Function { identifier, parameters, return_type, body } => {
            assert(s@->Function_parameters =~= parameter_views(parameters@));
            assert(s@->Function_body =~= statement_views(body@));
        },
        Statement::If { condition, then, otherwise } => {
            assert(s@->If_then =~= statement_views(then@));
            assert(s@->If_otherwise =~= statement_views(otherwise@));
        },
        Statement::While { condition, then } => {
            assert(s@->While_then =~= statement_views(then@));
        },
        Statement::Use { module, imports } => {
            assert(s@->imports =~= string_views(imports@));
        },
        _ => {},
    }
}

} // verus!
