//! The lexer: from characters to tokens, with the line and column of each.
use vstd::prelude::*;
use vstd::string::*;
use crate::number::{canonical, count_digits, digit_run, is_digit, Number};
use crate::text::{alphabetic, chars_of, is_alphabetic, string_of};
use crate::token::{Kind, Token, TokenKind, TokenView};

verus! {

/// Why the lexer gave up.
#[derive(Debug, Clone, Copy, PartialEq, Eq)]
pub enum LexErrorKind {
    /// A numeral holds a second decimal point.
    MultipleDecimalPoints,
    /// An operator character that starts no operator of the language.
    UnknownOperator,
    /// The source has more characters than the counters can count.
    SourceTooLong,
}

/// A failure of the lexer, with the line and column at which it stood.
#[derive(Debug, Clone, Copy, PartialEq, Eq)]
pub struct LexError {
    pub line: usize,
    pub column: usize,
    pub kind: LexErrorKind,
}

/// What the lexer makes of a source: the tokens in order and, where it gave up,
/// the failure that ended them.
pub struct Stream {
    pub tokens: Seq<TokenView>,
    pub failure: Option<LexError>,
}

/// Whether a character is ASCII whitespace: a space, a tab, a line feed, a form
/// feed or a carriage return.
pub open spec fn is_whitespace(c: char) -> bool {
    c == ' ' || c == '\t' || c == '\n' || c == '\x0C' || c == '\r'
}

/// Whether a character can stand in an identifier: a letter, `_` or `$`.
pub open spec fn is_identifier_char(c: char) -> bool {
    is_alphabetic(c) || c == '_' || c == '$'
}

/// Whether a character can stand in an operator or punctuation mark.
pub open spec fn is_symbol_char(c: char) -> bool {
    c == '+' || c == '-' || c == '*' || c == '/' || c == '%' || c == '{' || c == '}' || c == '('
        || c == ')' || c == '[' || c == ']' || c == ':' || c == ';' || c == ',' || c == '='
        || c == '!' || c == '>' || c == '<' || c == '.' || c == '&' || c == '|'
}

/// Whether a character opens and closes a string literal.
pub open spec fn is_string_wrapper(c: char) -> bool {
    c == '"'
}

/// The kind of the operator or punctuation mark written as `first`, or as `first`
/// and `second` together.
pub open spec fn symbol_of(first: char, second: Option<char>) -> Option<Kind> {
    match second {
        None => if first == '+' {
            Some(Kind::Plus)
        } else if first == '-' {
            Some(Kind::Minus)
        } else if first == '*' {
            Some(Kind::Asterisk)
        } else if first == '/' {
            Some(Kind::Slash)
        } else if first == '%' {
            Some(Kind::Percent)
        } else if first == '(' {
            Some(Kind::LeftParen)
        } else if first == ')' {
            Some(Kind::RightParen)
        } else if first == '{' {
            Some(Kind::LeftBrace)
        } else if first == '}' {
            Some(Kind::RightBrace)
        } else if first == '[' {
            Some(Kind::LeftBracket)
        } else if first == ']' {
            Some(Kind::RightBracket)
        } else if first == ':' {
            Some(Kind::Colon)
        } else if first == ';' {
            Some(Kind::SemiColon)
        } else if first == ',' {
            Some(Kind::Comma)
        } else if first == '=' {
            Some(Kind::Equals)
        } else if first == '>' {
            Some(Kind::GreaterThan)
        } else if first == '<' {
            Some(Kind::LessThan)
        } else if first == '.' {
            Some(Kind::Dot)
        } else if first == '!' {
            Some(Kind::Not)
        } else {
            None
        },
        Some(c) => if first == '*' && c == '*' {
            Some(Kind::DoubleAsterisk)
        } else if first == ':' && c == ':' {
            Some(Kind::DoubleColon)
        } else if first == '=' && c == '=' {
            Some(Kind::EqualsEquals)
        } else if first == '!' && c == '=' {
            Some(Kind::NotEquals)
        } else if first == '>' && c == '=' {
            Some(Kind::GreaterThanEquals)
        } else if first == '<' && c == '=' {
            Some(Kind::LessThanEquals)
        } else if first == '&' && c == '&' {
            Some(Kind::And)
        } else if first == '|' && c == '|' {
            Some(Kind::Or)
        } else if first == '-' && c == '>' {
            Some(Kind::Arrow)
        } else if first == '+' && c == '=' {
            Some(Kind::PlusEquals)
        } else if first == '-' && c == '=' {
            Some(Kind::MinusEquals)
        } else if first == '*' && c == '=' {
            Some(Kind::AsteriskEquals)
        } else if first == '/' && c == '=' {
            Some(Kind::SlashEquals)
        } else {
            None
        },
    }
}

/// The keyword that `text` spells, if it spells one.
pub open spec fn keyword_of(text: Seq<char>) -> Option<Kind> {
    if text == "fn"@ {
        Some(Kind::Fn)
    } else if text == "let"@ {
        Some(Kind::Let)
    } else if text == "if"@ {
        Some(Kind::If)
    } else if text == "else"@ {
        Some(Kind::Else)
    } else if text == "while"@ {
        Some(Kind::While)
    } else if text == "return"@ {
        Some(Kind::Return)
    } else if text == "break"@ {
        Some(Kind::Break)
    } else if text == "continue"@ {
        Some(Kind::Continue)
    } else if text == "true"@ {
        Some(Kind::True)
    } else if text == "false"@ {
        Some(Kind::False)
    } else if text == "import"@ {
        Some(Kind::Import)
    } else if text == "from"@ {
        Some(Kind::From)
    } else {
        None
    }
}

/// The kind of a word: its keyword, or else an identifier.
pub open spec fn word_kind(text: Seq<char>) -> Kind {
    match keyword_of(text) {
        Some(kind) => kind,
        None => Kind::Identifier(text),
    }
}

/// How many whitespace characters stand in `src` from index `i` on.
pub open spec fn whitespace_run(src: Seq<char>, i: int) -> nat
    decreases src.len() - i,
{
    if 0 <= i < src.len() && is_whitespace(src[i]) {
        1 + whitespace_run(src, i + 1)
    } else {
        0
    }
}

/// How many identifier characters stand in `src` from index `i` on.
pub open spec fn identifier_run(src: Seq<char>, i: int) -> nat
    decreases src.len() - i,
{
    if 0 <= i < src.len() && is_identifier_char(src[i]) {
        1 + identifier_run(src, i + 1)
    } else {
        0
    }
}

/// The character that an escape with `c` after the backslash stands for.
pub open spec fn unescape(c: char) -> char {
    if c == 't' {
        '\t'
    } else if c == 'n' {
        '\n'
    } else if c == 'r' {
        '\r'
    } else {
        c
    }
}

/// How many characters the rest of a string literal takes from index `i` on, its
/// closing quote included; `escaping` says that a backslash came just before.
/// A literal that is never closed runs to the end of the source.
pub open spec fn string_length(src: Seq<char>, i: int, escaping: bool) -> nat
    decreases src.len() - i,
{
    if !(0 <= i < src.len()) {
        0
    } else if escaping {
        1 + string_length(src, i + 1, false)
    } else if src[i] == '"' {
        1
    } else if src[i] == '\\' {
        1 + string_length(src, i + 1, true)
    } else {
        1 + string_length(src, i + 1, false)
    }
}

/// The characters that the rest of a string literal denotes from index `i` on.
pub open spec fn string_text(src: Seq<char>, i: int, escaping: bool) -> Seq<char>
    decreases src.len() - i,
{
    if !(0 <= i < src.len()) {
        Seq::empty()
    } else if escaping {
        seq![unescape(src[i])] + string_text(src, i + 1, false)
    } else if src[i] == '"' {
        Seq::empty()
    } else if src[i] == '\\' {
        string_text(src, i + 1, true)
    } else {
        seq![src[i]] + string_text(src, i + 1, false)
    }
}

/// The line and column counters when the lexer stands on index `p`: the line
/// starts at 1 and grows by one with each newline read, the column grows by one
/// with each other character read and starts again at 0 with a newline. Moving
/// past the last character changes neither.
pub open spec fn cursor(src: Seq<char>, p: nat) -> (nat, nat)
    decreases p,
{
    if src.len() == 0 {
        (1, 0)
    } else if p == 0 {
        if src[0] == '\n' {
            (2, 0)
        } else {
            (1, 1)
        }
    } else {
        let (line, column) = cursor(src, (p - 1) as nat);
        if p >= src.len() {
            (line, column)
        } else if src[p as int] == '\n' {
            (line + 1, 0)
        } else {
            (line, column + 1)
        }
    }
}

/// What the lexer finds when it looks for the next token.
pub enum Scan {
    /// A token of this kind in `src[start..end]`.
    Token { kind: Kind, start: nat, end: nat },
    /// No token: the input has ended, or a character that starts no token stands there.
    End,
    /// A failure at index `at`.
    Fail { reason: LexErrorKind, at: nat },
}

/// The next token of `src` for a lexer that stands on index `from`: whitespace is
/// skipped, then the character found decides.
pub open spec fn scan(src: Seq<char>, from: nat) -> Scan {
    scan_at(src, from as int + whitespace_run(src, from as int))
}

/// The token that starts at index `start` of `src`, where no whitespace is skipped.
pub open spec fn scan_at(src: Seq<char>, start: int) -> Scan {
    if start >= src.len() || start < 0 {
        Scan::End
    } else {
        let c = src[start];
        if is_identifier_char(c) {
            let end: int = start + 1 + identifier_run(src, start + 1);
            Scan::Token {
                kind: word_kind(src.subrange(start, end)),
                start: start as nat,
                end: end as nat,
            }
        } else if is_symbol_char(c) {
            if start + 1 < src.len() && is_symbol_char(src[start + 1]) && symbol_of(
                c,
                Some(src[start + 1]),
            ) is Some {
                Scan::Token {
                    kind: symbol_of(c, Some(src[start + 1]))->0,
                    start: start as nat,
                    end: (start + 2) as nat,
                }
            } else if symbol_of(c, None) is Some {
                Scan::Token {
                    kind: symbol_of(c, None)->0,
                    start: start as nat,
                    end: (start + 1) as nat,
                }
            } else {
                Scan::Fail { reason: LexErrorKind::UnknownOperator, at: start as nat }
            }
        } else if is_digit(c) {
            let point: int = start + 1 + digit_run(src, start + 1);
            if point < src.len() && src[point] == '.' {
                let end: int = point + 1 + digit_run(src, point + 1);
                if end < src.len() && src[end] == '.' {
                    Scan::Fail { reason: LexErrorKind::MultipleDecimalPoints, at: end as nat }
                } else {
                    Scan::Token {
                        kind: Kind::Number(
                            canonical(src.subrange(start, point), src.subrange(point + 1, end)),
                        ),
                        start: start as nat,
                        end: end as nat,
                    }
                }
            } else {
                Scan::Token {
                    kind: Kind::Number(canonical(src.subrange(start, point), Seq::empty())),
                    start: start as nat,
                    end: point as nat,
                }
            }
        } else if is_string_wrapper(c) {
            Scan::Token {
                kind: Kind::String(string_text(src, start + 1, false)),
                start: start as nat,
                end: (start + 1 + string_length(src, start + 1, false)) as nat,
            }
        } else {
            Scan::End
        }
    }
}

/// The token of kind `kind` read from `src[start..end]`: its line and start column
/// are the counters at `start`, its end column is the column counter at `end`.
pub open spec fn token_at(src: Seq<char>, kind: Kind, start: nat, end: nat) -> TokenView {
    TokenView {
        kind,
        line: cursor(src, start).0,
        span: (cursor(src, start).1, cursor(src, end).1),
    }
}

/// The failure of kind `kind` at index `at`.
pub open spec fn failure_at(src: Seq<char>, reason: LexErrorKind, at: nat) -> LexError {
    LexError {
        line: cursor(src, at).0 as usize,
        column: cursor(src, at).1 as usize,
        kind: reason,
    }
}

/// Everything the lexer produces from index `from` on.
pub open spec fn lex_from(src: Seq<char>, from: nat) -> Stream
    decreases src.len() - from,
{
    match scan(src, from) {
        Scan::Token { kind, start, end } => {
            let token = token_at(src, kind, start, end);
            if from < end <= src.len() {
                let rest = lex_from(src, end);
                Stream { tokens: seq![token] + rest.tokens, failure: rest.failure }
            } else {
                Stream { tokens: seq![token], failure: None }
            }
        },
        Scan::End => Stream { tokens: Seq::empty(), failure: None },
        Scan::Fail { reason, at } => Stream {
            tokens: Seq::empty(),
            failure: Some(failure_at(src, reason, at)),
        },
    }
}

/// Everything the lexer produces from a source.
pub open spec fn lex_source(src: Seq<char>) -> Stream {
    if src.len() >= usize::MAX {
        Stream {
            tokens: Seq::empty(),
            failure: Some(LexError { line: 1, column: 0, kind: LexErrorKind::SourceTooLong }),
        }
    } else {
        lex_from(src, 0)
    }
}

/// A run of whitespace ends inside the source, at a character that is none, and
/// holds whitespace only.
pub proof fn lemma_whitespace_run(src: Seq<char>, i: int)
    requires
        0 <= i <= src.len(),
    ensures
        i + whitespace_run(src, i) <= src.len(),
        whitespace_run(src, i + whitespace_run(src, i)) == 0,
        forall|j: int| i <= j < i + whitespace_run(src, i) ==> is_whitespace(#[trigger] src[j]),
    decreases src.len() - i,
{
    if i < src.len() && is_whitespace(src[i]) {
        lemma_whitespace_run(src, i + 1);
    }
}

/// A run of identifier characters ends inside the source.
pub proof fn lemma_identifier_run(src: Seq<char>, i: int)
    requires
        0 <= i <= src.len(),
    ensures
        i + identifier_run(src, i) <= src.len(),
    decreases src.len() - i,
{
    if i < src.len() && is_identifier_char(src[i]) {
        lemma_identifier_run(src, i + 1);
    }
}

/// A run of digits ends inside the source.
pub proof fn lemma_digit_run(src: Seq<char>, i: int)
    requires
        0 <= i <= src.len(),
    ensures
        i + digit_run(src, i) <= src.len(),
    decreases src.len() - i,
{
    if i < src.len() && is_digit(src[i]) {
        lemma_digit_run(src, i + 1);
    }
}

/// A string literal ends inside the source.
pub proof fn lemma_string_length(src: Seq<char>, i: int, escaping: bool)
    requires
        0 <= i <= src.len(),
    ensures
        i + string_length(src, i, escaping) <= src.len(),
    decreases src.len() - i,
{
    if i < src.len() {
        if escaping {
            lemma_string_length(src, i + 1, false);
        } else if src[i] == '"' {
        } else if src[i] == '\\' {
            lemma_string_length(src, i + 1, true);
        } else {
            lemma_string_length(src, i + 1, false);
        }
    }
}

/// The counters never outrun the characters read.
pub proof fn lemma_cursor_bounds(src: Seq<char>, p: nat)
    ensures
        cursor(src, p).0 <= src.len() + 1,
        cursor(src, p).0 <= p + 2,
        cursor(src, p).1 <= src.len(),
        cursor(src, p).1 <= p + 1,
        cursor(src, p).0 >= 1,
    decreases p,
{
    if src.len() != 0 && p != 0 {
        lemma_cursor_bounds(src, (p - 1) as nat);
    }
}

/// A token ends after its start and inside the source.
pub proof fn lemma_scan_bounds(src: Seq<char>, start: int)
    requires
        0 <= start,
    ensures
        match scan_at(src, start) {
            Scan::Token { kind, start: s, end } => s == start && start < end <= src.len(),
            Scan::End => true,
            Scan::Fail { reason, at } => start <= at < src.len(),
        },
{
    if start < src.len() {
        lemma_identifier_run(src, start + 1);
        lemma_digit_run(src, start + 1);
        lemma_string_length(src, start + 1, false);
        let point = start + 1 + digit_run(src, start + 1);
        if point < src.len() {
            lemma_digit_run(src, point + 1);
        }
    }
}

/// What `lex_from` yields, by what stands first.
pub proof fn lemma_lex_from(src: Seq<char>, from: nat)
    requires
        from <= src.len(),
    ensures
        match scan(src, from) {
            Scan::Token { kind, start, end } => {
                &&& from <= start < end <= src.len()
                &&& lex_from(src, from).tokens.len() > 0
                &&& lex_from(src, from).tokens[0] == token_at(src, kind, start, end)
                &&& lex_from(src, from).tokens.drop_first() == lex_from(src, end).tokens
                &&& lex_from(src, from).failure == lex_from(src, end).failure
            },
            Scan::End => lex_from(src, from) == (Stream { tokens: Seq::empty(), failure: None }),
            Scan::Fail { reason, at } => lex_from(src, from) == (Stream {
                tokens: Seq::empty(),
                failure: Some(failure_at(src, reason, at)),
            }),
        },
{
    lemma_whitespace_run(src, from as int);
    lemma_scan_bounds(src, from as int + whitespace_run(src, from as int));
    match scan(src, from) {
        Scan::Token { kind, start, end } => {
            let token = token_at(src, kind, start, end);
            let rest = lex_from(src, end);
            assert((seq![token] + rest.tokens).drop_first() =~= rest.tokens);
        },
        _ => {},
    }
}

/// Whether the counters `a` stand at or before the counters `b`: by line first,
/// then by column.
pub open spec fn at_or_before(a: (nat, nat), b: (nat, nat)) -> bool {
    a.0 < b.0 || (a.0 == b.0 && a.1 <= b.1)
}

/// The counters only move forward, and the line never goes back.
pub proof fn lemma_cursor_monotone(src: Seq<char>, p: nat, q: nat)
    requires
        p <= q,
    ensures
        at_or_before(cursor(src, p), cursor(src, q)),
        cursor(src, p).0 <= cursor(src, q).0,
    decreases q,
{
    if p < q && src.len() != 0 {
        lemma_cursor_monotone(src, p, (q - 1) as nat);
    }
}

/// Every token of `lex_from(src, from)` but the first is a token of the stream
/// that starts where the first token ends.
proof fn lemma_later_tokens(src: Seq<char>, from: nat, i: int)
    requires
        from <= src.len(),
        0 <= i,
        i + 1 < lex_from(src, from).tokens.len(),
    ensures
        scan(src, from) is Token,
        lex_from(src, from).tokens[i + 1] == lex_from(src, scan(src, from)->end).tokens[i],
        i < lex_from(src, scan(src, from)->end).tokens.len(),
{
    lemma_lex_from(src, from);
}

/// Position monotonicity from any index: of two tokens that follow each other,
/// the second starts at or after the line and end column of the first.
pub proof fn lemma_positions_from(src: Seq<char>, from: nat, i: int)
    requires
        from <= src.len(),
        0 <= i,
        i + 1 < lex_from(src, from).tokens.len(),
    ensures
        ({
            let first = lex_from(src, from).tokens[i];
            let second = lex_from(src, from).tokens[i + 1];
            at_or_before((first.line, first.span.1), (second.line, second.span.0))
        }),
    decreases i,
{
    lemma_lex_from(src, from);
    lemma_later_tokens(src, from, i);
    let end = scan(src, from)->end;
    if i == 0 {
        let start = scan(src, from)->start;
        lemma_lex_from(src, end);
        assert(scan(src, end) is Token);
        let start2 = scan(src, end)->start;
        lemma_cursor_monotone(src, end, start2);
        lemma_cursor_monotone(src, start, end);
    } else {
        lemma_later_tokens(src, from, i - 1);
        lemma_positions_from(src, end, i - 1);
    }
}

/// Position monotonicity: of two tokens of a source that follow each other, the
/// line and start column of the second are at or after the line and end column of
/// the first.
pub proof fn lemma_position_monotonicity(src: Seq<char>, i: int)
    requires
        0 <= i,
        i + 1 < lex_source(src).tokens.len(),
    ensures
        ({
            let first = lex_source(src).tokens[i];
            let second = lex_source(src).tokens[i + 1];
            at_or_before((first.line, first.span.1), (second.line, second.span.0))
        }),
{
    lemma_positions_from(src, 0, i);
}

/// Whether every identifier among `tokens` has at least one character.
pub open spec fn identifiers_not_empty(tokens: Seq<TokenView>) -> bool {
    forall|i: int|
        0 <= i < tokens.len() ==> match (#[trigger] tokens[i]).kind {
            Kind::Identifier(name) => name.len() > 0,
            _ => true,
        }
}

proof fn lemma_identifiers_from(src: Seq<char>, from: nat)
    requires
        from <= src.len(),
    ensures
        identifiers_not_empty(lex_from(src, from).tokens),
    decreases src.len() - from,
{
    lemma_lex_from(src, from);
    match scan(src, from) {
        Scan::Token { kind, start, end } => {
            lemma_identifiers_from(src, end);
            let all = lex_from(src, from).tokens;
            let rest = lex_from(src, end).tokens;
            assert forall|i: int| 0 <= i < all.len() implies match (#[trigger] all[i]).kind {
                Kind::Identifier(name) => name.len() > 0,
                _ => true,
            } by {
                if i > 0 {
                    assert(all[i] == all.drop_first()[i - 1]);
                    assert(all[i] == rest[i - 1]);
                }
            }
        },
        _ => {},
    }
}

/// Every identifier that the lexer reads has at least one character.
pub proof fn lemma_identifiers_not_empty(src: Seq<char>)
    ensures
        identifiers_not_empty(lex_source(src).tokens),
{
    if src.len() < usize::MAX {
        lemma_identifiers_from(src, 0);
    }
}

/// Whether the lexer, from index `from` on, reads `src` to its end: it never
/// fails, and it stops only where nothing but whitespace is left.
pub open spec fn reads_to_end(src: Seq<char>, from: nat) -> bool
    decreases src.len() - from,
{
    match scan(src, from) {
        Scan::Token { kind, start, end } => from < end <= src.len() && reads_to_end(src, end),
        Scan::End => from + whitespace_run(src, from as int) >= src.len(),
        Scan::Fail { reason, at } => false,
    }
}

/// The whitespace that the lexer skips and the text of the tokens that it
/// reads, from index `from` on, put together in the order in which they come.
pub open spec fn reassembled(src: Seq<char>, from: nat) -> Seq<char>
    decreases src.len() - from,
{
    let skipped = src.subrange(from as int, from as int + whitespace_run(src, from as int));
    match scan(src, from) {
        Scan::Token { kind, start, end } => if from < end <= src.len() {
            skipped + src.subrange(start as int, end as int) + reassembled(src, end)
        } else {
            skipped
        },
        _ => skipped,
    }
}

/// Tokens cover the input from any index: where the lexer reads the source to
/// its end, what it skipped and what it read make up the rest of the source.
pub proof fn lemma_cover_from(src: Seq<char>, from: nat)
    requires
        from <= src.len(),
        reads_to_end(src, from),
    ensures
        reassembled(src, from) == src.subrange(from as int, src.len() as int),
    decreases src.len() - from,
{
    lemma_whitespace_run(src, from as int);
    lemma_scan_bounds(src, from as int + whitespace_run(src, from as int));
    let skipped = src.subrange(from as int, from as int + whitespace_run(src, from as int));
    match scan(src, from) {
        Scan::Token { kind, start, end } => {
            lemma_cover_from(src, end);
            assert(skipped + src.subrange(start as int, end as int) + src.subrange(
                end as int,
                src.len() as int,
            ) =~= src.subrange(from as int, src.len() as int));
        },
        _ => {
            assert(skipped =~= src.subrange(from as int, src.len() as int));
        },
    }
}

/// Tokens cover the input: where the lexer reads a source to its end, the text of
/// its tokens, with the whitespace skipped before each and after the last,
/// is the source itself, and every character skipped is whitespace.
pub proof fn lemma_tokens_cover_input(src: Seq<char>)
    requires
        reads_to_end(src, 0),
    ensures
        reassembled(src, 0) == src,
        forall|from: int, j: int|
            #![trigger whitespace_run(src, from), src[j]]
            0 <= from <= j < from + whitespace_run(src, from) ==> is_whitespace(src[j]),
{
    lemma_cover_from(src, 0);
    assert(src.subrange(0, src.len() as int) =~= src);
    assert forall|from: int, j: int|
        #![trigger whitespace_run(src, from), src[j]]
        0 <= from <= j < from + whitespace_run(src, from) implies is_whitespace(src[j]) by {
        if from <= src.len() {
            lemma_whitespace_run(src, from);
        }
    }
}

/// Whether a character opens and closes a string literal.
pub fn is_valid_string_wrapper(c: char) -> (b: bool)
    ensures
        b == is_string_wrapper(c),
{
    c == '"'
}

/// Whether a character can stand in an operator or punctuation mark.
pub fn is_valid_symbol_char(c: char) -> (b: bool)
    ensures
        b == is_symbol_char(c),
{
    c == '+' || c == '-' || c == '*' || c == '/' || c == '%' || c == '{' || c == '}' || c == '('
        || c == ')' || c == '[' || c == ']' || c == ':' || c == ';' || c == ',' || c == '='
        || c == '!' || c == '>' || c == '<' || c == '.' || c == '&' || c == '|'
}

/// Whether a character can stand in an identifier.
pub fn is_valid_identifier_char(c: char) -> (b: bool)
    ensures
        b == is_identifier_char(c),
{
    alphabetic(c) || c == '_' || c == '$'
}

fn is_ascii_whitespace(c: char) -> (b: bool)
    ensures
        b == is_whitespace(c),
{
    c == ' ' || c == '\t' || c == '\n' || c == '\x0C' || c == '\r'
}

/// Whether `two` holds a kind exactly when `one` does, and then the same one.
pub open spec fn kind_is(one: Option<TokenKind>, two: Option<Kind>) -> bool {
    match one {
        Some(kind) => two == Some(kind@),
        None => two is None,
    }
}

/// The operator or punctuation mark written as `first`, or as `first` and
/// `second` together.
pub fn symbol(first: char, second: Option<char>) -> (r: Option<TokenKind>)
    ensures
        kind_is(r, symbol_of(first, second)),
{
    match second {
        None => if first == '+' {
            Some(TokenKind::Plus)
        } else if first == '-' {
            Some(TokenKind::Minus)
        } else if first == '*' {
            Some(TokenKind::Asterisk)
        } else if first == '/' {
            Some(TokenKind::Slash)
        } else if first == '%' {
            Some(TokenKind::Percent)
        } else if first == '(' {
            Some(TokenKind::LeftParen)
        } else if first == ')' {
            Some(TokenKind::RightParen)
        } else if first == '{' {
            Some(TokenKind::LeftBrace)
        } else if first == '}' {
            Some(TokenKind::RightBrace)
        } else if first == '[' {
            Some(TokenKind::LeftBracket)
        } else if first == ']' {
            Some(TokenKind::RightBracket)
        } else if first == ':' {
            Some(TokenKind::Colon)
        } else if first == ';' {
            Some(TokenKind::SemiColon)
        } else if first == ',' {
            Some(TokenKind::Comma)
        } else if first == '=' {
            Some(TokenKind::Equals)
        } else if first == '>' {
            Some(TokenKind::GreaterThan)
        } else if first == '<' {
            Some(TokenKind::LessThan)
        } else if first == '.' {
            Some(TokenKind::Dot)
        } else if first == '!' {
            Some(TokenKind::Not)
        } else {
            None
        },
        Some(c) => if first == '*' && c == '*' {
            Some(TokenKind::DoubleAsterisk)
        } else if first == ':' && c == ':' {
            Some(TokenKind::DoubleColon)
        } else if first == '=' && c == '=' {
            Some(TokenKind::EqualsEquals)
        } else if first == '!' && c == '=' {
            Some(TokenKind::NotEquals)
        } else if first == '>' && c == '=' {
            Some(TokenKind::GreaterThanEquals)
        } else if first == '<' && c == '=' {
            Some(TokenKind::LessThanEquals)
        } else if first == '&' && c == '&' {
            Some(TokenKind::And)
        } else if first == '|' && c == '|' {
            Some(TokenKind::Or)
        } else if first == '-' && c == '>' {
            Some(TokenKind::Arrow)
        } else if first == '+' && c == '=' {
            Some(TokenKind::PlusEquals)
        } else if first == '-' && c == '=' {
            Some(TokenKind::MinusEquals)
        } else if first == '*' && c == '=' {
            Some(TokenKind::AsteriskEquals)
        } else if first == '/' && c == '=' {
            Some(TokenKind::SlashEquals)
        } else {
            None
        },
    }
}

fn spells(text: &String, word: &str) -> (b: bool)
    ensures
        b == (text@ == word@),
{
    let other = String::from_str(word);
    *text == other
}

/// The keyword that `text` spells, if it spells one.
pub fn keyword(text: &String) -> (r: Option<TokenKind>)
    ensures
        kind_is(r, keyword_of(text@)),
{
    if spells(text, "fn") {
        Some(TokenKind::Fn)
    } else if spells(text, "let") {
        Some(TokenKind::Let)
    } else if spells(text, "if") {
        Some(TokenKind::If)
    } else if spells(text, "else") {
        Some(TokenKind::Else)
    } else if spells(text, "while") {
        Some(TokenKind::While)
    } else if spells(text, "return") {
        Some(TokenKind::Return)
    } else if spells(text, "break") {
        Some(TokenKind::Break)
    } else if spells(text, "continue") {
        Some(TokenKind::Continue)
    } else if spells(text, "true") {
        Some(TokenKind::True)
    } else if spells(text, "false") {
        Some(TokenKind::False)
    } else if spells(text, "import") {
        Some(TokenKind::Import)
    } else if spells(text, "from") {
        Some(TokenKind::From)
    } else {
        None
    }
}

/// The lexer: a source, the index of the character it stands on, the line and
/// column counters, and the failure that ended it, if one did.
#[derive(Debug)]
pub struct Lexer {
    source: Vec<char>,
    position: usize,
    line: usize,
    column: usize,
    failure: Option<LexError>,
}

impl Lexer {
    /// The counters agree with the position.
    pub closed spec fn wf(&self) -> bool {
        self.failure is None ==> {
            &&& self.source@.len() < usize::MAX
            &&& self.position <= self.source@.len()
            &&& self.line == cursor(self.source@, self.position as nat).0
            &&& self.column == cursor(self.source@, self.position as nat).1
        }
    }

    /// What `next` has yet to hand out.
    pub closed spec fn pending(&self) -> Stream {
        match self.failure {
            Some(e) => Stream { tokens: Seq::empty(), failure: Some(e) },
            None => lex_from(self.source@, self.position as nat),
        }
    }

    /// A lexer at the start of `source`.
    pub fn new(source: &str) -> (lexer: Lexer)
        ensures
            lexer.wf(),
            lexer.pending() == lex_source(source@),
    {
        let chars = chars_of(source);
        if chars.len() == usize::MAX {
            return Lexer {
                source: chars,
                position: 0,
                line: 1,
                column: 0,
                failure: Some(
                    LexError { line: 1, column: 0, kind: LexErrorKind::SourceTooLong },
                ),
            };
        }
        let mut line: usize = 1;
        let mut column: usize = 0;
        if chars.len() > 0 {
            if chars[0] == '\n' {
                line = 2;
            } else {
                column = 1;
            }
        }
        Lexer { source: chars, position: 0, line, column, failure: None }
    }

    /// Moves to the next character and keeps the counters.
    fn read(&mut self)
        requires
            old(self).wf(),
            old(self).failure is None,
        ensures
            final(self).wf(),
            final(self).failure is None,
            final(self).source == old(self).source,
            final(self).position == if old(self).position < old(self).source@.len() {
                old(self).position + 1
            } else {
                old(self).position as int
            },
    {
        if self.position < self.source.len() {
            self.position += 1;
            proof {
                lemma_cursor_bounds(self.source@, self.position as nat);
            }
            if self.position < self.source.len() {
                if self.source[self.position] == '\n' {
                    self.line += 1;
                    self.column = 0;
                } else {
                    self.column += 1;
                }
            }
        }
    }

    /// Skips over whitespace characters.
    fn skip_whitespace(&mut self)
        requires
            old(self).wf(),
            old(self).failure is None,
        ensures
            final(self).wf(),
            final(self).failure is None,
            final(self).source == old(self).source,
            final(self).position == old(self).position + whitespace_run(
                old(self).source@,
                old(self).position as int,
            ),
    {
        while self.position < self.source.len() && is_ascii_whitespace(self.source[self.position])
            invariant
                self.wf(),
                self.failure is None,
                self.source == old(self).source,
                old(self).position <= self.position <= self.source@.len(),
                old(self).position + whitespace_run(self.source@, old(self).position as int)
                    == self.position + whitespace_run(self.source@, self.position as int),
            decreases self.source@.len() - self.position,
        {
            self.read();
        }
    }

    /// The line and column counters.
    fn pos(&self) -> (p: (usize, usize))
        ensures
            p == (self.line, self.column),
    {
        (self.line, self.column)
    }

    fn parse_identifier_or_keyword(&mut self) -> (token: Token)
        requires
            old(self).wf(),
            old(self).failure is None,
            old(self).position < old(self).source@.len(),
            is_identifier_char(old(self).source@[old(self).position as int]),
        ensures
            final(self).wf(),
            final(self).failure is None,
            final(self).source == old(self).source,
            final(self).position == old(self).position + 1 + identifier_run(
                old(self).source@,
                old(self).position + 1,
            ),
            token@ == token_at(
                old(self).source@,
                word_kind(
                    old(self).source@.subrange(
                        old(self).position as int,
                        final(self).position as int,
                    ),
                ),
                old(self).position as nat,
                final(self).position as nat,
            ),
    {
        let position = self.pos();
        let start = self.position;
        self.read();
        while self.position < self.source.len() && is_valid_identifier_char(
            self.source[self.position],
        )
            invariant
                self.wf(),
                self.failure is None,
                self.source == old(self).source,
                start == old(self).position,
                start < self.position <= self.source@.len(),
                start + 1 + identifier_run(self.source@, start + 1) == self.position
                    + identifier_run(self.source@, self.position as int),
            decreases self.source@.len() - self.position,
        {
            self.read();
        }
        let buffer = string_of(&self.source, start, self.position);
        let kind = match keyword(&buffer) {
            Some(kind) => kind,
            None => TokenKind::Identifier(buffer),
        };
        Token::new(kind, position.0, (position.1, self.column))
    }

    fn parse_symbol(&mut self) -> (r: Result<Token, LexError>)
        requires
            old(self).wf(),
            old(self).failure is None,
            old(self).position < old(self).source@.len(),
            is_symbol_char(old(self).source@[old(self).position as int]),
            !is_identifier_char(old(self).source@[old(self).position as int]),
        ensures
            final(self).wf(),
            final(self).source == old(self).source,
            match scan_at(old(self).source@, old(self).position as int) {
                Scan::Token { kind, start, end } => {
                    &&& r is Ok
                    &&& r->Ok_0@ == token_at(old(self).source@, kind, start, end)
                    &&& final(self).failure is None
                    &&& final(self).position == end
                },
                Scan::End => false,
                Scan::Fail { reason, at } => {
                    &&& r == Err::<Token, LexError>(failure_at(old(self).source@, reason, at))
                    &&& final(self).failure == Some(failure_at(old(self).source@, reason, at))
                },
            },
    {
        let position = self.pos();
        let first = self.source[self.position];
        if self.position + 1 < self.source.len() && is_valid_symbol_char(
            self.source[self.position + 1],
        ) {
            match symbol(first, Some(self.source[self.position + 1])) {
                Some(kind) => {
                    self.read();
                    self.read();
                    return Ok(Token::new(kind, position.0, (position.1, self.column)));
                },
                None => {},
            }
        }
        match symbol(first, None) {
            Some(kind) => {
                self.read();
                Ok(Token::new(kind, position.0, (position.1, self.column)))
            },
            None => {
                let e = LexError {
                    line: position.0,
                    column: position.1,
                    kind: LexErrorKind::UnknownOperator,
                };
                self.failure = Some(e);
                Err(e)
            },
        }
    }

    /// Moves on over a run of digits.
    fn skip_digits(&mut self)
        requires
            old(self).wf(),
            old(self).failure is None,
        ensures
            final(self).wf(),
            final(self).failure is None,
            final(self).source == old(self).source,
            final(self).position == old(self).position + digit_run(
                old(self).source@,
                old(self).position as int,
            ),
    {
        proof {
            lemma_digit_run(self.source@, self.position as int);
        }
        let n = count_digits(&self.source, self.position);
        let end = self.position + n;
        while self.position < end
            invariant
                self.wf(),
                self.failure is None,
                self.source == old(self).source,
                self.position <= end <= self.source@.len(),
            decreases end - self.position,
        {
            self.read();
        }
    }

    fn parse_numeric(&mut self) -> (r: Result<Token, LexError>)
        requires
            old(self).wf(),
            old(self).failure is None,
            old(self).position < old(self).source@.len(),
            is_digit(old(self).source@[old(self).position as int]),
            !is_identifier_char(old(self).source@[old(self).position as int]),
            !is_symbol_char(old(self).source@[old(self).position as int]),
        ensures
            final(self).wf(),
            final(self).source == old(self).source,
            match scan_at(old(self).source@, old(self).position as int) {
                Scan::Token { kind, start, end } => {
                    &&& r is Ok
                    &&& r->Ok_0@ == token_at(old(self).source@, kind, start, end)
                    &&& final(self).failure is None
                    &&& final(self).position == end
                },
                Scan::End => false,
                Scan::Fail { reason, at } => {
                    &&& r == Err::<Token, LexError>(failure_at(old(self).source@, reason, at))
                    &&& final(self).failure == Some(failure_at(old(self).source@, reason, at))
                },
            },
    {
        let position = self.pos();
        let start = self.position;
        self.read();
        self.skip_digits();
        let point = self.position;
        if point < self.source.len() && self.source[point] == '.' {
            self.read();
            self.skip_digits();
            let end = self.position;
            if end < self.source.len() && self.source[end] == '.' {
                let e = LexError {
                    line: self.line,
                    column: self.column,
                    kind: LexErrorKind::MultipleDecimalPoints,
                };
                self.failure = Some(e);
                return Err(e);
            }
            let number = Number::from_parts(&self.source, start, point, point + 1, end);
            Ok(Token::new(TokenKind::Number(number), position.0, (position.1, self.column)))
        } else {
            let number = Number::from_parts(&self.source, start, point, point, point);
            proof {
                assert(self.source@.subrange(point as int, point as int) =~= Seq::<char>::empty());
            }
            Ok(Token::new(TokenKind::Number(number), position.0, (position.1, self.column)))
        }
    }

    fn parse_string(&mut self) -> (token: Token)
        requires
            old(self).wf(),
            old(self).failure is None,
            old(self).position < old(self).source@.len(),
        ensures
            final(self).wf(),
            final(self).failure is None,
            final(self).source == old(self).source,
            final(self).position == old(self).position + 1 + string_length(
                old(self).source@,
                old(self).position + 1,
                false,
            ),
            token@ == token_at(
                old(self).source@,
                Kind::String(string_text(old(self).source@, old(self).position + 1, false)),
                old(self).position as nat,
                final(self).position as nat,
            ),
    {
        let position = self.pos();
        let ghost start = self.position;
        let ghost src = self.source@;
        let mut buffer = String::new();
        let mut escaping = false;
        let mut closed = false;
        self.read();
        while !closed && self.position < self.source.len()
            invariant
                self.wf(),
                self.failure is None,
                self.source == old(self).source,
                src == self.source@,
                start == old(self).position,
                start < self.position <= src.len(),
                !closed ==> buffer@ + string_text(src, self.position as int, escaping)
                    == string_text(src, start + 1, false),
                !closed ==> self.position + string_length(src, self.position as int, escaping)
                    == start + 1 + string_length(src, start + 1, false),
                closed ==> buffer@ == string_text(src, start + 1, false),
                closed ==> self.position == start + 1 + string_length(src, start + 1, false),
            decreases self.source@.len() - self.position, if closed { 0int } else { 1int },
        {
            let c = self.source[self.position];
            let ghost before = buffer@;
            let ghost at = self.position as int;
            if escaping {
                let plain = if c == 't' {
                    '\t'
                } else if c == 'n' {
                    '\n'
                } else if c == 'r' {
                    '\r'
                } else {
                    c
                };
                buffer.push(plain);
                escaping = false;
                assert(before.push(plain) + string_text(src, at + 1, false) =~= before + (
                seq![plain] + string_text(src, at + 1, false)));
            } else if is_valid_string_wrapper(c) {
                closed = true;
                assert(before + Seq::<char>::empty() =~= before);
            } else if c == '\\' {
                escaping = true;
            } else {
                buffer.push(c);
                assert(before.push(c) + string_text(src, at + 1, false) =~= before + (seq![c]
                    + string_text(src, at + 1, false)));
            }
            self.read();
        }
        proof {
            if !closed {
                assert(buffer@ + Seq::<char>::empty() =~= buffer@);
            }
        }
        Token::new(TokenKind::String(buffer), position.0, (position.1, self.column))
    }

    /// The next token: `Ok(None)` when the input has ended or a character that
    /// starts no token stands there, `Err` when the lexer has given up.
    pub fn next(&mut self) -> (r: Result<Option<Token>, LexError>)
        requires
            old(self).wf(),
        ensures
            final(self).wf(),
            final(self).pending().failure == old(self).pending().failure,
            old(self).pending().tokens.len() > 0 ==> {
                &&& r is Ok
                &&& r->Ok_0 is Some
                &&& r->Ok_0->0@ == old(self).pending().tokens[0]
                &&& final(self).pending().tokens == old(self).pending().tokens.drop_first()
            },
            old(self).pending().tokens.len() == 0 ==> {
                &&& final(self).pending().tokens.len() == 0
                &&& match old(self).pending().failure {
                    Some(e) => r == Err::<Option<Token>, LexError>(e),
                    None => r is Ok && r->Ok_0 is None,
                }
            },
    {
        match self.failure {
            Some(e) => {
                return Err(e);
            },
            None => {},
        }
        let ghost src = self.source@;
        let ghost from = self.position as nat;
        proof {
            lemma_lex_from(src, from);
        }
        self.skip_whitespace();
        if self.position >= self.source.len() {
            proof {
                lemma_lex_from(src, self.position as nat);
            }
            return Ok(None);
        }
        proof {
            lemma_whitespace_run(src, from as int);
            lemma_scan_bounds(src, self.position as int);
        }
        let c = self.source[self.position];
        if is_valid_identifier_char(c) {
            Ok(Some(self.parse_identifier_or_keyword()))
        } else if is_valid_symbol_char(c) {
            match self.parse_symbol() {
                Ok(token) => Ok(Some(token)),
                Err(e) => Err(e),
            }
        } else if '0' <= c && c <= '9' {
            match self.parse_numeric() {
                Ok(token) => Ok(Some(token)),
                Err(e) => Err(e),
            }
        } else if is_valid_string_wrapper(c) {
            Ok(Some(self.parse_string()))
        } else {
            proof {
                lemma_lex_from(src, self.position as nat);
            }
            Ok(None)
        }
    }
}

} // verus!
