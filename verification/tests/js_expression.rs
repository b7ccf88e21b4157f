use sol::js::{Builder, Expression, Function, IfElse, Var, While};
use sol::Number;

fn number(value: f64) -> Number {
    Number::parse(&value.to_string()).unwrap()
}

#[test]
fn expression_strings() {
    assert_eq!(r##""Hello!""##, Expression::from("Hello!").to_string().as_str());
}

#[test]
fn expression_numbers() {
    assert_eq!("1234", Expression::from(number(1234.0)).to_string().as_str());
    assert_eq!("1234.5", Expression::from(number(1234.5)).to_string().as_str());
}

#[test]
fn bools() {
    assert_eq!("true", Expression::from(true).to_string().as_str());
    assert_eq!("false", Expression::from(false).to_string().as_str());
}

#[test]
fn null() {
    assert_eq!("null", Expression::from(()).to_string().as_str());
}

#[test]
fn expression_arrays() {
    assert_eq!(
        "[1, 2, 3]",
        Expression::from(vec![number(1.0).into(), number(2.0).into(), number(3.0).into()])
            .to_string()
            .as_str()
    );
}

#[test]
fn objects() {
    let mut members = Vec::new();
    members.push(("foo".to_owned(), Expression::String("bar".to_owned())));

    assert_eq!("{\n\"foo\": \"bar\",\n\n}", Expression::object(members).to_string().as_str());
}

#[test]
fn indexes() {
    assert_eq!(
        "[1][0]",
        Expression::index(
            Expression::Array(vec![Expression::Number(number(1.0))]),
            Expression::Number(number(0.0))
        )
        .to_string()
        .as_str()
    );
}

#[test]
fn dots() {
    assert_eq!(
        "foo.length",
        Expression::dot(Expression::identifier("foo"), Expression::identifier("length"))
            .to_string()
            .as_str()
    );
}

#[test]
fn infix() {
    assert_eq!(
        "1 + 2",
        Expression::from((
            Expression::from(number(1.0)),
            "+".to_string(),
            Expression::from(number(2.0))
        ))
        .to_string()
        .as_str()
    );
}

#[test]
fn calls() {
    assert_eq!(
        "foo()",
        Expression::from((Expression::identifier("foo"), vec![])).to_string().as_str()
    );

    assert_eq!(
        "foo(bar)",
        Expression::from((Expression::identifier("foo"), vec![Expression::identifier("bar")]))
            .to_string()
            .as_str()
    );
}

#[test]
fn other_expressions() {
    assert_eq!("! x", Expression::Prefix("!".into(), Box::new(Expression::identifier("x"))).to_string());
    assert_eq!("a === b", Expression::infix(Expression::identifier("a"), "===", Expression::identifier("b")).to_string());
    assert_eq!("null", Expression::null().to_string());
    assert_eq!("true", Expression::bool(true).to_string());
    assert_eq!("\"s\"", Expression::string("s").to_string());
    assert_eq!("2", Expression::number(number(2.0)).to_string());
    assert_eq!("[]", Expression::Array(vec![]).to_string());
    assert_eq!("{\n\n}", Expression::object(vec![]).to_string());
    assert_eq!("f(a, b, c)", Expression::Call(
        Box::new(Expression::identifier("f")),
        vec![Expression::identifier("a"), Expression::identifier("b"), Expression::identifier("c")],
    ).to_string());
    let mut body = Builder::new();
    body.return_(Some(Expression::identifier("a")));
    assert_eq!(
        "(a, b) => {\nreturn a;\n}",
        Expression::closure(vec![Expression::identifier("a"), Expression::identifier("b")], body).to_string()
    );
}

#[test]
fn declarations() {
    let mut var = Var::new();
    var.id("x".into());
    assert_eq!("var x;", var.to_string());
    var.as_const();
    assert_eq!("const x;", var.to_string());
    var.as_let().value(Expression::number(number(1.0)));
    assert_eq!("let x = 1;", var.to_string());
    var.as_const();
    assert_eq!("const x = 1;", var.to_string());
}

#[test]
fn functions() {
    let mut function = Function::new();
    assert_eq!("function () {\n\n}\n\n", function.to_string());
    let mut body = Builder::new();
    body.break_().continue_();
    function.id("f".into()).parameters(vec![Expression::identifier("a"), Expression::identifier("b")]).body(body);
    assert_eq!("function f(a, b) {\nbreak;continue;\n}\n\n", function.to_string());
}

#[test]
fn branches_and_loops() {
    let mut then = Builder::new();
    then.expression(Expression::identifier("a"));
    let mut if_else = IfElse::new(Expression::bool(false));
    if_else.condition(Expression::bool(true)).then_body(then.clone());
    assert_eq!("if (true) {\na;\n}\n", if_else.to_string());
    if_else.otherwise(Builder::new());
    assert_eq!("if (true) {\na;\n} else {\n\n}\n", if_else.to_string());
    let mut while_ = While::new(Expression::identifier("x"));
    assert_eq!("while (x) {\n\n}", while_.to_string());
    while_.then_body(then);
    assert_eq!("while (x) {\na;\n}", while_.to_string());
}

#[test]
fn builder_collects_text() {
    let mut builder = Builder::new();
    assert_eq!("", builder.source());
    builder.import(vec!["A".into(), "B".into()], "m".into());
    assert_eq!("import { A, B } from \"m\";\n", builder.source());
    let mut builder = Builder::new();
    builder.import(vec![], "m".into()).import(vec!["A".into()], "n".into());
    assert_eq!("import {  } from \"m\";\nimport { A } from \"n\";\n", builder.source());
    let mut builder = Builder::new();
    builder.return_(None).return_(Some(Expression::identifier("x"))).break_().continue_();
    assert_eq!("return;return x;break;continue;", builder.source());
    let mut builder = Builder::new();
    let mut var = Var::new();
    var.id("x".into()).as_let().value(Expression::null());
    builder.var(var).function(Function::new()).conditional(IfElse::new(Expression::identifier("c"))).while_loop(While::new(Expression::identifier("d"))).expression(Expression::identifier("e"));
    assert_eq!(
        "let x = null;function () {\n\n}\n\nif (c) {\n\n}\nwhile (d) {\n\n}e;",
        builder.source()
    );
}
