use sol::{lex, LexError, LexErrorKind, Lexer, Number, Token, TokenKind};

fn number(value: f64) -> Number {
    Number::parse(&value.to_string()).unwrap()
}

fn matches(source: &str, expected: Vec<TokenKind>) {
    let mut lexer = Lexer::new(source);
    let mut kinds = Vec::new();

    while let Some(t) = lexer.next().unwrap() {
        kinds.push(t.kind);
    }

    assert_eq!(expected, kinds)
}

fn positions(source: &str) -> Vec<(usize, usize, usize)> {
    lex(source).unwrap().into_iter().map(|t: Token| (t.line, t.span.0, t.span.1)).collect()
}

#[test]
fn keywords() {
    matches(
        "fn if else while return break continue let true false import from",
        vec![
            TokenKind::Fn,
            TokenKind::If,
            TokenKind::Else,
            TokenKind::While,
            TokenKind::Return,
            TokenKind::Break,
            TokenKind::Continue,
            TokenKind::Let,
            TokenKind::True,
            TokenKind::False,
            TokenKind::Import,
            TokenKind::From,
        ],
    );
}

#[test]
fn use_is_an_identifier() {
    matches("use from", vec![TokenKind::Identifier("use".into()), TokenKind::From]);
}

#[test]
fn symbols() {
    matches(
        "+ - * / % ** ( ) { } [ ] : :: ; , = == != > < >= <= . ! -> += -= *= /=",
        vec![
            TokenKind::Plus,
            TokenKind::Minus,
            TokenKind::Asterisk,
            TokenKind::Slash,
            TokenKind::Percent,
            TokenKind::DoubleAsterisk,
            TokenKind::LeftParen,
            TokenKind::RightParen,
            TokenKind::LeftBrace,
            TokenKind::RightBrace,
            TokenKind::LeftBracket,
            TokenKind::RightBracket,
            TokenKind::Colon,
            TokenKind::DoubleColon,
            TokenKind::SemiColon,
            TokenKind::Comma,
            TokenKind::Equals,
            TokenKind::EqualsEquals,
            TokenKind::NotEquals,
            TokenKind::GreaterThan,
            TokenKind::LessThan,
            TokenKind::GreaterThanEquals,
            TokenKind::LessThanEquals,
            TokenKind::Dot,
            TokenKind::Not,
            TokenKind::Arrow,
            TokenKind::PlusEquals,
            TokenKind::MinusEquals,
            TokenKind::AsteriskEquals,
            TokenKind::SlashEquals,
        ],
    );
}

#[test]
fn logical_symbols() {
    matches("a && b || c", vec![
        TokenKind::Identifier("a".into()),
        TokenKind::And,
        TokenKind::Identifier("b".into()),
        TokenKind::Or,
        TokenKind::Identifier("c".into()),
    ]);
}

#[test]
fn longest_symbol_wins() {
    matches("a==b", vec![
        TokenKind::Identifier("a".into()),
        TokenKind::EqualsEquals,
        TokenKind::Identifier("b".into()),
    ]);
    matches("===", vec![TokenKind::EqualsEquals, TokenKind::Equals]);
    matches("=>", vec![TokenKind::Equals, TokenKind::GreaterThan]);
    matches("()", vec![TokenKind::LeftParen, TokenKind::RightParen]);
}

#[test]
fn lexer_numbers() {
    matches(
        "12345 12345.6789 9876.0",
        vec![
            TokenKind::Number(number(12345.0)),
            TokenKind::Number(number(12345.6789)),
            TokenKind::Number(number(9876.0)),
        ],
    );
}

#[test]
fn numbers_are_canonical() {
    assert_eq!(Number::parse("007").unwrap().text(), "7");
    assert_eq!(Number::parse("0").unwrap().text(), "0");
    assert_eq!(Number::parse("000").unwrap().text(), "0");
    assert_eq!(Number::parse("1.50").unwrap().text(), "1.5");
    assert_eq!(Number::parse("9876.0").unwrap().text(), "9876");
    assert_eq!(Number::parse("5.").unwrap().text(), "5");
    assert_eq!(Number::parse("0.25").unwrap().text(), "0.25");
    assert_eq!(Number::parse("10.0100").unwrap().text(), "10.01");
    assert_eq!(Number::parse("12345.6789").unwrap(), number(12345.6789));
}

#[test]
fn numerals_need_digits_first() {
    assert!(Number::parse("").is_none());
    assert!(Number::parse(".5").is_none());
    assert!(Number::parse("1.2.3").is_none());
    assert!(Number::parse("1a").is_none());
    assert!(Number::parse("-1").is_none());
    assert!(Number::parse("1.5x").is_none());
}

#[test]
fn lexer_strings() {
    matches(
        r##""hello" "hello\"" "hello\n""##,
        vec![
            TokenKind::String("hello".into()),
            TokenKind::String("hello\"".into()),
            TokenKind::String("hello\n".into()),
        ],
    );
}

#[test]
fn string_escapes() {
    matches(r##""a\tb\rc\\d\qe""##, vec![TokenKind::String("a\tb\rc\\dqe".into())]);
    matches("\"two\nlines\"", vec![TokenKind::String("two\nlines".into())]);
    matches("\"open", vec![TokenKind::String("open".into())]);
    matches("\"\"", vec![TokenKind::String("".into())]);
}

#[test]
fn identifiers_hold_letters_only() {
    matches("a1", vec![TokenKind::Identifier("a".into()), TokenKind::Number(number(1.0))]);
    matches("_x $y", vec![
        TokenKind::Identifier("_x".into()),
        TokenKind::Identifier("$y".into()),
    ]);
    matches("été", vec![TokenKind::Identifier("été".into())]);
    matches("letter", vec![TokenKind::Identifier("letter".into())]);
}

#[test]
fn unknown_characters_end_the_stream() {
    matches("a ` b", vec![TokenKind::Identifier("a".into())]);
    matches("a # b", vec![TokenKind::Identifier("a".into())]);
    matches("", vec![]);
    matches("   \n\t ", vec![]);
    let mut lexer = Lexer::new("a ` b");
    assert!(lexer.next().unwrap().is_some());
    assert!(lexer.next().unwrap().is_none());
    assert!(lexer.next().unwrap().is_none());
}

#[test]
fn a_second_point_is_an_error() {
    assert_eq!(
        lex("1.2.3").unwrap_err(),
        LexError { line: 1, column: 4, kind: LexErrorKind::MultipleDecimalPoints }
    );
    assert_eq!(
        lex("x\n 1..2").unwrap_err(),
        LexError { line: 2, column: 4, kind: LexErrorKind::MultipleDecimalPoints }
    );
    let mut lexer = Lexer::new("a 1.2.3 b");
    assert!(lexer.next().unwrap().is_some());
    assert!(lexer.next().is_err());
    assert!(lexer.next().is_err());
}

#[test]
fn a_lone_ampersand_is_an_error() {
    assert_eq!(
        lex("a & b").unwrap_err(),
        LexError { line: 1, column: 3, kind: LexErrorKind::UnknownOperator }
    );
    assert_eq!(
        lex("|").unwrap_err(),
        LexError { line: 1, column: 1, kind: LexErrorKind::UnknownOperator }
    );
}

#[test]
fn a_point_then_a_name() {
    matches("1.foo", vec![
        TokenKind::Number(number(1.0)),
        TokenKind::Identifier("foo".into()),
    ]);
    matches("a.b", vec![
        TokenKind::Identifier("a".into()),
        TokenKind::Dot,
        TokenKind::Identifier("b".into()),
    ]);
}

#[test]
fn lines_and_columns() {
    assert_eq!(positions("ab cd"), vec![(1, 1, 3), (1, 4, 5)]);
    assert_eq!(positions("ab\ncd"), vec![(1, 1, 0), (2, 1, 2)]);
    assert_eq!(positions("\n\n  x = 1"), vec![(3, 3, 4), (3, 5, 6), (3, 7, 7)]);
    assert_eq!(positions("\"a\nb\" c"), vec![(1, 1, 3), (2, 4, 4)]);
    assert_eq!(positions("=="), vec![(1, 1, 2)]);
}

#[test]
fn positions_never_go_back() {
    let source = "let a = [1, 2]\n\nfn f(x) {\n  return \"a\nb\" + x\n}\nwhile true { a[] = 1.5 }";
    let tokens = lex(source).unwrap();
    assert_eq!(tokens.len(), 28);
    for pair in tokens.windows(2) {
        let end = (pair[0].line, pair[0].span.1);
        let start = (pair[1].line, pair[1].span.0);
        assert!(start >= end, "{:?} before {:?}", start, end);
    }
}

#[test]
fn lex_collects_all_tokens() {
    let kinds: Vec<TokenKind> = lex("let x = 1").unwrap().into_iter().map(|t: Token| t.kind).collect();
    assert_eq!(kinds, vec![
        TokenKind::Let,
        TokenKind::Identifier("x".into()),
        TokenKind::Equals,
        TokenKind::Number(number(1.0)),
    ]);
}

#[test]
fn descriptions_of_kinds() {
    assert_eq!(TokenKind::LeftBrace.describe(), "LeftBrace");
    assert_eq!(TokenKind::Identifier("foo".into()).describe(), "Identifier(\"foo\")");
    assert_eq!(TokenKind::String("a\"b\n".into()).describe(), "String(\"a\\\"b\\n\")");
    assert_eq!(TokenKind::Number(number(1.5)).describe(), "Number(1.5)");
    assert_eq!(TokenKind::Eof.name(), "Eof");
    assert!(TokenKind::Identifier("a".into()).same_variant(&TokenKind::Identifier("b".into())));
    assert!(!TokenKind::Identifier("a".into()).same_variant(&TokenKind::String("a".into())));
}

#[test]
fn the_end_of_the_input_as_a_token() {
    let eof = Token::eof();
    assert_eq!(eof.kind, TokenKind::Eof);
    assert_eq!((eof.line, eof.span), (0, (0, 0)));
    let other = Token::default();
    assert_eq!(other.kind, TokenKind::Eof);
    let made = Token::new(TokenKind::Comma, 3, (1, 2));
    assert_eq!((made.line, made.span), (3, (1, 2)));
}

#[test]
fn tokens_cover_a_line() {
    let source = "  let total = price * (1 + rate)  ";
    let tokens = lex(source).unwrap();
    let chars: Vec<char> = source.chars().collect();
    let mut rebuilt = String::new();
    let mut at = 0;
    for token in tokens.iter() {
        let (start, end) = (token.span.0 - 1, token.span.1 - 1);
        let gap: String = chars[at..start].iter().collect();
        assert!(gap.chars().all(|c: char| c.is_ascii_whitespace()));
        rebuilt.push_str(&gap);
        let text: String = chars[start..end].iter().collect();
        rebuilt.push_str(&text);
        at = end;
    }
    let rest: String = chars[at..].iter().collect();
    assert!(rest.chars().all(|c: char| c.is_ascii_whitespace()));
    rebuilt.push_str(&rest);
    assert_eq!(rebuilt, source);
    assert_eq!(tokens.len(), 10);
}

#[test]
fn listings_of_tokens() {
    let pairs: Vec<Option<(String, String)>> =
        lex("fn f(\"s\", 1.0) [ ] { }").unwrap().iter().map(|t: &Token| t.kind.pair()).collect();
    let pair = |text: &str, name: &str| Some((text.to_owned(), name.to_owned()));
    assert_eq!(
        pairs,
        vec![
            pair("fn", "Fn"),
            pair("f", "Identifier"),
            pair("(", "LeftParen"),
            pair("s", "String"),
            None,
            pair("1", "Number"),
            pair(")", "RightParen"),
            pair("[", "LeftBracket"),
            pair("]", "RightBracket"),
            pair("{", "LeftBrace"),
            pair("}", "RightBrace"),
        ]
    );
    assert_eq!(TokenKind::Let.pair(), None);
}
