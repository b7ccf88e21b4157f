use sol::compiler::Compiler;
use sol::passes::pass;
use sol::{compile, parse, Expression, ParserErrorType, Statement};

fn compiled(source: &str) -> String {
    compile(source).unwrap()
}

fn identifier(name: &str) -> Expression {
    Expression::Identifier(name.to_owned())
}

#[test]
fn declarations_are_let() {
    assert_eq!(compiled("let x = 1"), "let x = 1;");
    assert_eq!(compiled("let x: Number = 1.50"), "let x = 1.5;");
}

#[test]
fn typed_parameters_are_checked() {
    assert_eq!(
        compiled("fn f(n: Number) { return n + 1 }"),
        "function f(n) {\n__sol_assert_type(n, Number);return n + 1;\n}\n\n"
    );
    assert_eq!(
        compiled("fn f(a, b :: String, c: Bool) {}"),
        "function f(a, b, c) {\n__sol_assert_type(b, String);__sol_assert_type(c, Bool);\n}\n\n"
    );
}

#[test]
fn closures_are_not_checked() {
    assert_eq!(compiled("(fn (n: Number) -> n)"), "(n) => {\nreturn n;\n};");
    assert_eq!(compiled("let f = fn (a, b) { a }"), "let f = (a, b) => {\na;\n};");
}

#[test]
fn branches() {
    assert_eq!(
        compiled("if x == 1 { return true } else { return false }"),
        "if (x === 1) {\nreturn true;\n} else {\nreturn false;\n}\n"
    );
    assert_eq!(compiled("if x { 1 }"), "if (x) {\n1;\n}\n");
    assert_eq!(
        compiled("if a { } else if b { }"),
        "if (a) {\n\n} else {\nif (b) {\n\n}\n\n}\n"
    );
}

#[test]
fn loops() {
    assert_eq!(compiled("while x < 10 { x += 1 }"), "while (x < 10) {\nx += 1;\n}");
    assert_eq!(
        compiled("while true { break continue }"),
        "while (true) {\nbreak;continue;\n}"
    );
}

#[test]
fn appending_to_an_array() {
    assert_eq!(compiled("let a = []\n a[] = 1"), "let a = [];a[a.length] = 1;");
    assert_eq!(compiled("a.b[] = 1"), "a.b[b.length] = 1;");
    assert_eq!(compiled("f(x)[] = 1"), "f(x)[f(x).length] = 1;");
}

#[test]
fn imports() {
    assert_eq!(compiled("import A, B from \"m\""), "import { A, B } from \"m\";\n");
}

#[test]
fn functions_come_first() {
    assert_eq!(
        compiled("let x = 1\nfn main() {}"),
        "function main() {\n\n}\n\nlet x = 1;"
    );
    assert_eq!(
        compiled("a\nfn f() {}\nb\nfn g() {}\nc"),
        "function f() {\n\n}\n\nfunction g() {\n\n}\n\na;b;c;"
    );
}

#[test]
fn equality_is_strict() {
    assert_eq!(compiled("a == b"), "a === b;");
    assert_eq!(compiled("a != b"), "a !== b;");
}

#[test]
fn operators_keep_their_spelling() {
    assert_eq!(compiled("a + b - c * d / e % f"), "a + b - c * d / e % f;");
    assert_eq!(compiled("a > b >= c < d <= e"), "a > b >= c < d <= e;");
    assert_eq!(compiled("a && b || c"), "a && b || c;");
    assert_eq!(compiled("a += 1\nb -= 1\nc *= 1\nd /= 1"), "a += 1;b -= 1;c *= 1;d /= 1;");
    assert_eq!(compiled("a = b"), "a = b;");
    assert_eq!(compiled("-a"), "- a;");
    assert_eq!(compiled("!a"), "! a;");
}

#[test]
fn literals_and_calls() {
    assert_eq!(compiled("\"s\""), "\"s\";");
    assert_eq!(compiled("true false"), "true;false;");
    assert_eq!(compiled("[1, \"a\", x]"), "[1, \"a\", x];");
    assert_eq!(compiled("[]"), "[];");
    assert_eq!(compiled("f(1, 2)(3).g[0]"), "f(1, 2)(3).g[0];");
    assert_eq!(compiled("{ \"a\": 1, \"b\": [2] }"), "{\n\"a\": 1,\n\"b\": [2],\n\n};");
    assert_eq!(compiled("return 007.0"), "return 7;");
}

#[test]
fn strings_are_not_escaped_again() {
    assert_eq!(compiled(r##""a\"b""##), "\"a\"b\";");
}

#[test]
fn nothing_compiles_to_nothing() {
    assert_eq!(compiled(""), "");
    assert_eq!(compiled("  \n "), "");
}

#[test]
fn failures_are_returned() {
    assert!(matches!(compile("break").unwrap_err().err, ParserErrorType::InvalidBreakableScope));
    assert!(matches!(
        compile("fn f() { fn g() {} }").unwrap_err().err,
        ParserErrorType::NestedFunctionDefinition
    ));
    assert!(matches!(compile("1.2.3").unwrap_err().err, ParserErrorType::Lexical(_)));
    assert!(matches!(parse("let").unwrap_err().err, ParserErrorType::ExpectedIdentifier));
}

#[test]
fn parse_hoists() {
    let program = parse("a\nfn f() {}\nb\nfn g() {}").unwrap();
    let names: Vec<String> = program
        .iter()
        .map(|s: &Statement| match s {
            Statement::Function { identifier, .. } => identifier.clone(),
            Statement::Expression { expression: Expression::Identifier(i) } => i.clone(),
            other => panic!("{:?}", other),
        })
        .collect();
    assert_eq!(names, vec!["f", "g", "a", "b"]);
}

#[test]
fn hoisting_keeps_the_order_in_each_group() {
    let function = |name: &str| Statement::Function {
        identifier: name.to_owned(),
        parameters: vec![],
        return_type: None,
        body: vec![],
    };
    let other = |name: &str| Statement::Expression { expression: identifier(name) };
    let mut program =
        vec![other("a"), function("f"), Statement::Break, function("g"), other("b"), function("h")];
    pass(&mut program);
    assert_eq!(
        program,
        vec![function("f"), function("g"), function("h"), other("a"), Statement::Break, other("b")]
    );
    let mut empty: Vec<Statement> = vec![];
    pass(&mut empty);
    assert!(empty.is_empty());
}

#[test]
fn the_emitter_by_hand() {
    let mut compiler = Compiler::new(vec![Statement::Break]);
    compiler.compile_statement(&Statement::Continue);
    assert_eq!(compiler.builder().source(), "continue;");
    compiler.compile_all(&vec![Statement::Return { expression: identifier("x") }]);
    assert_eq!(compiler.compile(), "continue;return x;break;");
    assert_eq!(compiler.compile(), "continue;return x;break;");
    let js = compiler.compile_expression(&Expression::Index(identifier("a").boxed(), None));
    assert_eq!(js.to_string(), "a[a.length]");
}

#[test]
fn emitted_text_is_not_source_text() {
    assert!(parse(&compiled("a == b")).is_err());
    assert!(parse(&compiled("let x = 1")).is_err());
    assert!(parse(&compiled("fn f() { return 1 }")).is_err());
    assert!(parse(&compiled("fn f() {}")).is_ok());
}
