use sol::{
    Expression, LexErrorKind, Lexer, Number, Op, Parameter, Parser, ParserError, ParserErrorType,
    Program, Statement, TokenKind, Type,
};

fn number(value: f64) -> Number {
    Number::parse(&value.to_string()).unwrap()
}

fn parse(source: &str) -> Program {
    let lexer = Lexer::new(source);

    Parser::new(lexer).parse().unwrap()
}

fn failure(source: &str) -> ParserError {
    Parser::new(Lexer::new(source)).parse().unwrap_err()
}

fn identifier(name: &str) -> Expression {
    Expression::Identifier(name.to_owned())
}

#[test]
fn short_closures() {
    assert_eq!(
        parse(
            r##"
            (fn () -> "testing")
        "##
        ),
        vec![Statement::Expression {
            expression: Expression::Closure(
                vec![],
                vec![Statement::Return { expression: Expression::String("testing".to_owned()) }]
            )
        }]
    );
}

#[test]
fn closures() {
    assert_eq!(
        parse(
            r##"
        (fn () {

        })
        "##
        ),
        vec![Statement::Expression { expression: Expression::Closure(vec![], vec![]) }]
    );

    assert_eq!(
        parse(
            r##"
            (fn (name) {

            })
        "##
        ),
        vec![Statement::Expression {
            expression: Expression::Closure(vec![Parameter::new("name", None)], vec![])
        }]
    );

    assert_eq!(
        parse(
            r##"
            (fn (name, age) {

            })
        "##
        ),
        vec![Statement::Expression {
            expression: Expression::Closure(
                vec![Parameter::new("name", None), Parameter::new("age", None),],
                vec![]
            )
        }]
    );
}

#[test]
fn uses() {
    assert_eq!(
        parse(
            r##"
            import File from "@std/fs"
            import File, Dir from "@std/fs"
        "##
        ),
        vec![
            Statement::Use { module: String::from("@std/fs"), imports: vec![String::from("File"),] },
            Statement::Use {
                module: String::from("@std/fs"),
                imports: vec![String::from("File"), String::from("Dir"),]
            }
        ]
    );
}

#[test]
fn maps() {
    assert_eq!(
        parse(
            r##"
        {
            "foo": "bar"
        }
        "##
        ),
        vec![Statement::Expression {
            expression: Expression::Mapping(vec![(
                String::from("foo"),
                Expression::String("bar".to_owned())
            )])
        }]
    )
}

#[test]
fn map_keys_stand_once() {
    assert_eq!(
        parse(r##"{ "a": 1, "b": 2, "a": 3 }"##),
        vec![Statement::Expression {
            expression: Expression::Mapping(vec![
                (String::from("a"), Expression::Number(number(3.0))),
                (String::from("b"), Expression::Number(number(2.0))),
            ])
        }]
    )
}

#[test]
fn parser_arrays() {
    assert_eq!(
        parse("[1, 2, 3,]"),
        vec![Statement::Expression {
            expression: Expression::Array(vec![
                Expression::Number(number(1.0)),
                Expression::Number(number(2.0)),
                Expression::Number(number(3.0)),
            ])
        }]
    );

    assert_eq!(
        parse("[1][0]"),
        vec![Statement::Expression {
            expression: Expression::Index(
                Expression::Array(vec![Expression::Number(number(1.0)),]).boxed(),
                Some(Expression::Number(number(0.0)).boxed())
            )
        }]
    );
}

#[test]
fn let_statements() {
    assert_eq!(
        parse("let name = 1"),
        vec![Statement::Let {
            identifier: String::from("name"),
            initial: Expression::Number(number(1.0)),
        },]
    );

    assert_eq!(
        parse("let name: number = 1"),
        vec![Statement::Let {
            identifier: String::from("name"),
            initial: Expression::Number(number(1.0)),
        },]
    );
}

#[test]
fn fn_statements() {
    assert_eq!(
        parse("fn name() {}"),
        vec![Statement::Function {
            identifier: String::from("name"),
            parameters: Vec::new(),
            return_type: None,
            body: Vec::new(),
        }]
    );

    assert_eq!(
        parse("fn name() :: Number {}"),
        vec![Statement::Function {
            identifier: String::from("name"),
            parameters: Vec::new(),
            return_type: Some(Type::from("Number".to_owned())),
            body: Vec::new(),
        }]
    );

    assert_eq!(
        parse("fn name(hello) {}"),
        vec![Statement::Function {
            identifier: String::from("name"),
            parameters: vec![Parameter::new("hello", None),],
            return_type: None,
            body: Vec::new(),
        }]
    );

    assert_eq!(
        parse("fn name(hello: String) {}"),
        vec![Statement::Function {
            identifier: String::from("name"),
            parameters: vec![Parameter::new("hello", Some(Type::from("String".to_owned()))),],
            return_type: None,
            body: Vec::new(),
        }]
    );

    assert_eq!(
        parse("fn name(hello: String) :: String {}"),
        vec![Statement::Function {
            identifier: String::from("name"),
            parameters: vec![Parameter::new("hello", Some(Type::from("String".to_owned()))),],
            return_type: Some(Type::from("String".to_owned())),
            body: Vec::new(),
        }]
    );

    assert_eq!(
        parse(
            r##"
            fn name(hello: String) :: String {
                let name = "testing"
            }"##
        ),
        vec![Statement::Function {
            identifier: String::from("name"),
            parameters: vec![Parameter::new("hello", Some(Type::from("String".to_owned()))),],
            return_type: Some(Type::from("String".to_owned())),
            body: vec![Statement::Let {
                identifier: String::from("name"),
                initial: Expression::String("testing".into())
            },],
        }]
    );
}

#[test]
fn return_statements() {
    assert_eq!(parse("return true"), vec![Statement::Return { expression: Expression::Bool(true) }]);
}

#[test]
fn if_statements() {
    assert_eq!(
        parse("if true {}"),
        vec![Statement::If { condition: Expression::Bool(true), then: vec![], otherwise: vec![] }]
    );

    assert_eq!(
        parse("if true {} else {}"),
        vec![Statement::If { condition: Expression::Bool(true), then: vec![], otherwise: vec![] }]
    );

    assert_eq!(
        parse(
            "
            if true {
                let age = 1
            }
        "
        ),
        vec![Statement::If {
            condition: Expression::Bool(true),
            then: vec![Statement::Let {
                identifier: String::from("age"),
                initial: Expression::Number(number(1.0))
            }],
            otherwise: vec![],
        }]
    );

    assert_eq!(
        parse(
            "
            if true {

            } else {
                let age = 1
            }
        "
        ),
        vec![Statement::If {
            condition: Expression::Bool(true),
            then: vec![],
            otherwise: vec![Statement::Let {
                identifier: String::from("age"),
                initial: Expression::Number(number(1.0))
            }],
        }]
    );
}

#[test]
fn else_if_chains() {
    assert_eq!(
        parse("if a {} else if b { 1 } else { 2 }"),
        vec![Statement::If {
            condition: identifier("a"),
            then: vec![],
            otherwise: vec![Statement::If {
                condition: identifier("b"),
                then: vec![Statement::Expression { expression: Expression::Number(number(1.0)) }],
                otherwise: vec![Statement::Expression {
                    expression: Expression::Number(number(2.0))
                }],
            }],
        }]
    );
}

#[test]
fn while_statements() {
    assert_eq!(
        parse("while true {}"),
        vec![Statement::While { condition: Expression::Bool(true), then: vec![] }]
    );

    assert_eq!(
        parse("while true { 1 }"),
        vec![Statement::While {
            condition: Expression::Bool(true),
            then: vec![Statement::Expression { expression: Expression::Number(number(1.0)) },]
        }]
    );

    assert_eq!(
        parse(
            "
            while true {
                break
            }
        "
        ),
        vec![Statement::While { condition: Expression::Bool(true), then: vec![Statement::Break,] }]
    );

    assert_eq!(
        parse(
            "
            while true {
                continue
            }`
        "
        ),
        vec![Statement::While {
            condition: Expression::Bool(true),
            then: vec![Statement::Continue,]
        }]
    )
}

#[test]
fn prefixes() {
    assert_eq!(
        parse("-1"),
        vec![Statement::Expression {
            expression: Expression::Prefix(Op::Subtract, Box::new(Expression::Number(number(1.0))))
        },]
    );
}

#[test]
fn prefixes_bind_tightly() {
    assert_eq!(
        parse("!a && b"),
        vec![Statement::Expression {
            expression: Expression::Infix(
                Expression::Prefix(Op::Not, identifier("a").boxed()).boxed(),
                Op::And,
                identifier("b").boxed()
            )
        },]
    );
}

fn one() -> Box<Expression> {
    Expression::Number(number(1.0)).boxed()
}

fn binary(op: Op) -> Vec<Statement> {
    vec![Statement::Expression { expression: Expression::Infix(one(), op, one()) }]
}

#[test]
fn infixes() {
    assert_eq!(parse("1 + 1"), binary(Op::Add));

    assert_eq!(parse("1 - 1"), binary(Op::Subtract));

    assert_eq!(parse("1 * 1"), binary(Op::Multiply));

    assert_eq!(parse("1 / 1"), binary(Op::Divide));

    assert_eq!(
        parse("1 + 2 * 3"),
        vec![Statement::Expression {
            expression: Expression::Infix(
                Expression::Number(number(1.0)).boxed(),
                Op::Add,
                Expression::Infix(
                    Expression::Number(number(2.0)).boxed(),
                    Op::Multiply,
                    Expression::Number(number(3.0)).boxed()
                )
                .boxed()
            )
        }]
    );

    assert_eq!(
        parse("1 + 2 * 3 / 4"),
        vec![Statement::Expression {
            expression: Expression::Infix(
                Expression::Number(number(1.0)).boxed(),
                Op::Add,
                Expression::Infix(
                    Expression::Infix(
                        Expression::Number(number(2.0)).boxed(),
                        Op::Multiply,
                        Expression::Number(number(3.0)).boxed()
                    )
                    .boxed(),
                    Op::Divide,
                    Expression::Number(number(4.0)).boxed()
                )
                .boxed()
            )
        }]
    );

    assert_eq!(parse("1 > 1"), binary(Op::GreaterThan));

    assert_eq!(parse("1 < 1"), binary(Op::LessThan));

    assert_eq!(parse("1 >= 1"), binary(Op::GreaterThanEquals));

    assert_eq!(parse("1 <= 1"), binary(Op::LessThanEquals));

    assert_eq!(parse("1 == 1"), binary(Op::Equals));

    assert_eq!(parse("1 != 1"), binary(Op::NotEquals));

    assert_eq!(
        parse("foo = 2"),
        vec![Statement::Expression {
            expression: Expression::Assign(
                Expression::Identifier("foo".to_owned()).boxed(),
                Expression::Number(number(2.0)).boxed()
            )
        }]
    );
}

#[test]
fn more_infixes() {
    assert_eq!(parse("1 % 1"), binary(Op::Mod));
    assert_eq!(parse("1 && 1"), binary(Op::And));
    assert_eq!(parse("1 || 1"), binary(Op::Or));
    assert_eq!(parse("1 += 1"), binary(Op::AddAssign));
    assert_eq!(parse("1 -= 1"), binary(Op::SubtractAssign));
    assert_eq!(parse("1 *= 1"), binary(Op::MultiplyAssign));
    assert_eq!(parse("1 /= 1"), binary(Op::DivideAssign));
}

#[test]
fn assignment_is_right_associative() {
    assert_eq!(
        parse("a = b = c"),
        vec![Statement::Expression {
            expression: Expression::Assign(
                identifier("a").boxed(),
                Expression::Assign(identifier("b").boxed(), identifier("c").boxed()).boxed()
            )
        }]
    );
}

#[test]
fn subtraction_is_left_associative() {
    assert_eq!(
        parse("a - b - c"),
        vec![Statement::Expression {
            expression: Expression::Infix(
                Expression::Infix(identifier("a").boxed(), Op::Subtract, identifier("b").boxed())
                    .boxed(),
                Op::Subtract,
                identifier("c").boxed()
            )
        }]
    );
}

#[test]
fn comparison_binds_more_loosely_than_sums() {
    assert_eq!(
        parse("a + b < c || d"),
        vec![Statement::Expression {
            expression: Expression::Infix(
                Expression::Infix(
                    Expression::Infix(identifier("a").boxed(), Op::Add, identifier("b").boxed())
                        .boxed(),
                    Op::LessThan,
                    identifier("c").boxed()
                )
                .boxed(),
                Op::Or,
                identifier("d").boxed()
            )
        }]
    );
}

#[test]
fn postfixes() {
    assert_eq!(
        parse("foo()"),
        vec![Statement::Expression {
            expression: Expression::Call(Expression::Identifier("foo".to_owned()).boxed(), vec![])
        }]
    );

    assert_eq!(
        parse("foo() + foo()"),
        vec![Statement::Expression {
            expression: Expression::Infix(
                Expression::Call(Expression::Identifier("foo".to_owned()).boxed(), Vec::new())
                    .boxed(),
                Op::Add,
                Expression::Call(Expression::Identifier("foo".to_owned()).boxed(), Vec::new())
                    .boxed(),
            )
        }]
    );

    assert_eq!(
        parse("foo(1)"),
        vec![Statement::Expression {
            expression: Expression::Call(
                Expression::Identifier("foo".to_owned()).boxed(),
                vec![Expression::Number(number(1.0)),]
            )
        }]
    );

    assert_eq!(
        parse("foo(1, 2, 3)"),
        vec![Statement::Expression {
            expression: Expression::Call(
                Expression::Identifier("foo".to_owned()).boxed(),
                vec![
                    Expression::Number(number(1.0)),
                    Expression::Number(number(2.0)),
                    Expression::Number(number(3.0)),
                ]
            )
        }]
    );

    assert_eq!(
        parse("foo(1, 2, 3,)"),
        vec![Statement::Expression {
            expression: Expression::Call(
                Expression::Identifier("foo".to_owned()).boxed(),
                vec![
                    Expression::Number(number(1.0)),
                    Expression::Number(number(2.0)),
                    Expression::Number(number(3.0)),
                ]
            )
        }]
    );
}

#[test]
fn dots_and_append() {
    assert_eq!(
        parse("a.b.c"),
        vec![Statement::Expression {
            expression: Expression::Dot(
                identifier("a").boxed(),
                Expression::Dot(identifier("b").boxed(), identifier("c").boxed()).boxed()
            )
        }]
    );
    assert_eq!(
        parse("a[] = 1"),
        vec![Statement::Expression {
            expression: Expression::Assign(
                Expression::Index(identifier("a").boxed(), None).boxed(),
                one()
            )
        }]
    );
}

#[test]
fn break_needs_a_loop() {
    let e = failure("break");
    assert!(matches!(e.err, ParserErrorType::InvalidBreakableScope));
    assert_eq!((e.line, e.span), (1, (1, 5)));
    let e = failure("if x {\n  break }");
    assert!(matches!(e.err, ParserErrorType::InvalidBreakableScope));
    assert_eq!((e.line, e.span), (2, (3, 8)));
    let e = failure("fn f() { break }");
    assert!(matches!(e.err, ParserErrorType::InvalidBreakableScope));
}

#[test]
fn continue_needs_a_loop() {
    let e = failure("continue");
    assert!(matches!(e.err, ParserErrorType::InvalidContinuableScope));
    let e = failure("while a { } continue");
    assert!(matches!(e.err, ParserErrorType::InvalidContinuableScope));
}

#[test]
fn an_inner_loop_ends_the_scope() {
    let e = failure("while a { while b { break } break }");
    assert!(matches!(e.err, ParserErrorType::InvalidBreakableScope));
    assert_eq!(
        parse("while a { break while b { continue } }"),
        vec![Statement::While {
            condition: identifier("a"),
            then: vec![
                Statement::Break,
                Statement::While { condition: identifier("b"), then: vec![Statement::Continue] }
            ]
        }]
    );
}

#[test]
fn break_inside_a_closure_inside_a_loop() {
    assert_eq!(
        parse("while a { (fn () { break }) }"),
        vec![Statement::While {
            condition: identifier("a"),
            then: vec![Statement::Expression {
                expression: Expression::Closure(vec![], vec![Statement::Break])
            }]
        }]
    );
}

#[test]
fn functions_do_not_nest() {
    let e = failure("fn f() { fn g() {} }");
    assert!(matches!(e.err, ParserErrorType::NestedFunctionDefinition));
    assert_eq!((e.line, e.span), (1, (10, 12)));
    let e = failure("fn f() { if a { while b { fn g() {} } } }");
    assert!(matches!(e.err, ParserErrorType::NestedFunctionDefinition));
    let e = failure("fn f() { (fn () { fn g() {} }) }");
    assert!(matches!(e.err, ParserErrorType::NestedFunctionDefinition));
}

#[test]
fn functions_after_functions_and_in_blocks() {
    assert_eq!(parse("fn f() {} fn g() {}").len(), 2);
    assert_eq!(parse("if a { fn g() {} }").len(), 1);
    assert_eq!(parse("fn f() { (fn () { 1 }) }").len(), 1);
}

#[test]
fn an_identifier_is_expected() {
    let e = failure("let 1 = 2");
    assert!(matches!(e.err, ParserErrorType::ExpectedIdentifier));
    assert_eq!((e.line, e.span), (1, (5, 6)));
    assert!(matches!(failure("fn (a) {}").err, ParserErrorType::ExpectedIdentifier));
    assert!(matches!(failure("let x: = 1").err, ParserErrorType::ExpectedIdentifier));
    assert!(matches!(failure("import 1 from \"m\"").err, ParserErrorType::ExpectedIdentifier));
    assert_eq!(
        parse("import from \"m\""),
        vec![Statement::Use { module: String::from("m"), imports: vec![] }]
    );
}

fn unexpected(source: &str) -> (String, Option<String>) {
    match failure(source).err {
        ParserErrorType::UnexpectedToken(found, expected) => (found, expected),
        other => panic!("{:?}", other),
    }
}

#[test]
fn unexpected_tokens() {
    assert_eq!(unexpected("let x 1"), ("Number(1)".to_owned(), Some("Equals".to_owned())));
    assert_eq!(unexpected("fn f {"), ("LeftBrace".to_owned(), Some("LeftParen".to_owned())));
    assert_eq!(unexpected("if a b"), ("Identifier(\"b\")".to_owned(), Some("LeftBrace".to_owned())));
    assert_eq!(unexpected("import a b"), ("Identifier(\"b\")".to_owned(), Some("Comma".to_owned())));
    assert_eq!(unexpected("import a from b"), ("Identifier(\"b\")".to_owned(), Some("String".to_owned())));
    assert_eq!(unexpected("{ a: 1 }"), ("Identifier(\"a\")".to_owned(), Some("String".to_owned())));
    assert_eq!(unexpected("{ \"a\" 1 }"), ("Number(1)".to_owned(), Some("Colon".to_owned())));
    assert_eq!(unexpected("(1"), ("Eof".to_owned(), Some("RightParen".to_owned())));
    assert_eq!(unexpected("a[1"), ("Eof".to_owned(), Some("RightBracket".to_owned())));
    assert_eq!(unexpected("fn f() {"), ("Eof".to_owned(), None));
    assert_eq!(unexpected("[1, 2"), ("Eof".to_owned(), None));
    assert_eq!(unexpected("f(1"), ("Eof".to_owned(), None));
    assert_eq!(unexpected("1 +"), ("Eof".to_owned(), None));
    assert_eq!(unexpected(")"), ("RightParen".to_owned(), None));
    assert_eq!(unexpected("2 ** 3"), ("DoubleAsterisk".to_owned(), None));
    assert_eq!(unexpected("return"), ("Eof".to_owned(), None));
}

#[test]
fn lexical_failures_end_the_parse() {
    let e = failure("let x = 1.2.3");
    assert!(matches!(e.err, ParserErrorType::Lexical(LexErrorKind::MultipleDecimalPoints)));
    assert_eq!((e.line, e.span), (1, (12, 12)));
    let e = failure("a & b");
    assert!(matches!(e.err, ParserErrorType::Lexical(LexErrorKind::UnknownOperator)));
    let e = failure("break 1 2 3.4.5");
    assert!(matches!(e.err, ParserErrorType::InvalidBreakableScope));
}

#[test]
fn errors_can_be_cloned() {
    let e = failure("let x 1");
    let copy = e.clone();
    assert_eq!((copy.line, copy.span), (e.line, e.span));
    assert!(matches!(copy.err, ParserErrorType::UnexpectedToken(_, _)));
}

#[test]
fn operators_from_kinds() {
    assert_eq!(Op::from(&TokenKind::Plus), Some(Op::Add));
    assert_eq!(Op::from(&TokenKind::EqualsEquals), Some(Op::Equals));
    assert_eq!(Op::from(&TokenKind::Equals), Some(Op::Assign));
    assert_eq!(Op::from(&TokenKind::Percent), Some(Op::Mod));
    assert_eq!(Op::from(&TokenKind::DoubleAsterisk), None);
    assert_eq!(Op::from(&TokenKind::Comma), None);
    assert!(Op::Add.math() && Op::Subtract.math() && Op::Multiply.math() && Op::Divide.math());
    assert!(!Op::Mod.math() && !Op::Equals.math());
}

#[test]
fn parameters_and_types() {
    let p = Parameter::new("n", Some(Type::from("Number".to_owned())));
    assert_eq!(p.name, "n");
    assert_eq!(p.ty, Some(Type("Number".to_owned())));
    assert_eq!(p.clone(), p);
}
