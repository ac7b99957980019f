use loxrs::error::Exception;
use loxrs::lexer::{Diagnostic, DiagnosticKind, Lexer};
use loxrs::token::TokenType;

fn scan(src: &str) -> Vec<Result<TokenType, Diagnostic>> {
    let mut lexer = Lexer::new(src);
    let mut out = Vec::new();
    while let Some(item) = lexer.next() {
        out.push(item);
    }
    out
}

fn tokens(src: &str) -> Vec<TokenType> {
    scan(src).into_iter().map(|r| r.expect("no diagnostic")).collect()
}

fn only_error(src: &str) -> (Vec<TokenType>, Diagnostic) {
    let mut toks = Vec::new();
    let mut err = None;
    for item in scan(src) {
        assert!(err.is_none(), "nothing may follow a diagnostic");
        match item {
            Ok(t) => toks.push(t),
            Err(d) => err = Some(d),
        }
    }
    (toks, err.expect("a diagnostic"))
}

#[test]
fn whitespace_only_gives_no_tokens() {
    for src in ["", " ", "  \t\n\r ", "\u{3000}\u{a0}\u{2028}\u{b}\u{c}"] {
        assert!(scan(src).is_empty(), "{src:?}");
    }
}

#[test]
fn single_punctuation() {
    let cases = [
        ("(", TokenType::Lparen),
        (")", TokenType::Rparen),
        ("{", TokenType::Lbrace),
        ("}", TokenType::Rbrace),
        (",", TokenType::Comma),
        (".", TokenType::Dot),
        ("-", TokenType::Minus),
        ("+", TokenType::Plus),
        (";", TokenType::Semicolon),
        ("*", TokenType::Star),
    ];
    for (src, kind) in cases {
        assert_eq!(tokens(src), vec![kind]);
    }
}

#[test]
fn one_and_two_character_operators() {
    let cases = [
        ("!", TokenType::Bang),
        ("!=", TokenType::BangEqual),
        ("=", TokenType::Equal),
        ("==", TokenType::EqualEqual),
        (">", TokenType::Greater),
        (">=", TokenType::GreaterEqual),
        ("<", TokenType::Less),
        ("<=", TokenType::LessEqual),
    ];
    for (src, kind) in cases {
        assert_eq!(tokens(src), vec![kind]);
    }
}

#[test]
fn bang_leaves_next_character() {
    assert_eq!(tokens("!a"), vec![TokenType::Bang, TokenType::Ident("a".to_string())]);
    assert_eq!(tokens("! ="), vec![TokenType::Bang, TokenType::Equal]);
    assert_eq!(tokens("<<="), vec![TokenType::Less, TokenType::LessEqual]);
    assert_eq!(tokens("==="), vec![TokenType::EqualEqual, TokenType::Equal]);
}

#[test]
fn string_round_trip() {
    let toks = tokens("\"hello world\"");
    assert_eq!(toks, vec![TokenType::String("\"hello world\"".to_string())]);
    assert_eq!(TokenType::unescape("\"hello world\""), "hello world");
    assert_eq!(tokens("\"\""), vec![TokenType::String("\"\"".to_string())]);
    assert_eq!(TokenType::unescape("\"\""), "");
}

#[test]
fn string_escape_newline() {
    let toks = tokens("\"a\\nb\"");
    assert_eq!(toks, vec![TokenType::String("\"a\\nb\"".to_string())]);
    let value = TokenType::unescape("\"a\\nb\"");
    assert_eq!(value, "a\nb");
    assert_eq!(value.chars().count(), 3);
}

#[test]
fn unescape_each_escape() {
    assert_eq!(TokenType::unescape("\"\\r\\t\\\\\\\"\""), "\r\t\\\"");
    assert_eq!(TokenType::unescape("\"\\q\""), "\\q");
    assert_eq!(TokenType::unescape("\"ab\\\""), "ab\\");
    assert_eq!(TokenType::unescape("\"é\\n\""), "é\n");
}

#[test]
fn string_ends_at_first_quote() {
    assert_eq!(
        tokens("\"a\" \"b\""),
        vec![TokenType::String("\"a\"".to_string()), TokenType::String("\"b\"".to_string())]
    );
}

#[test]
fn unterminated_string() {
    let (toks, d) = only_error("\"abc");
    assert!(toks.is_empty());
    assert_eq!(d.kind, DiagnosticKind::UnterminatedString);
    assert_eq!((d.start, d.end), (0, 1));
    assert_eq!(d.label, "this opening double quote");
    assert_eq!(d.message, "Missing closing double quote");
    assert_eq!(d.source, "\"abc");

    let (toks, d) = only_error("x \"");
    assert_eq!(toks, vec![TokenType::Ident("x".to_string())]);
    assert_eq!(d.kind, DiagnosticKind::UnterminatedString);
    assert_eq!((d.start, d.end), (2, 3));
}

#[test]
fn unexpected_character() {
    let (toks, d) = only_error("@");
    assert!(toks.is_empty());
    assert_eq!(d.kind, DiagnosticKind::UnexpectedCharacter('@'));
    assert_eq!((d.start, d.end), (0, 1));
    assert_eq!(d.label, "this character");
    assert_eq!(d.message, "Unexpected token `@` in input");

    let (toks, d) = only_error("( @ )");
    assert_eq!(toks, vec![TokenType::Lparen]);
    assert_eq!((d.start, d.end), (2, 3));
}

#[test]
fn uppercase_letters_are_not_words() {
    let (toks, d) = only_error("Abc");
    assert!(toks.is_empty());
    assert_eq!(d.kind, DiagnosticKind::UnexpectedCharacter('A'));
    assert_eq!((d.start, d.end), (0, 1));
}

#[test]
fn byte_offsets_after_multibyte_characters() {
    let src = "\"é\" @";
    let (toks, d) = only_error(src);
    assert_eq!(toks, vec![TokenType::String("\"é\"".to_string())]);
    assert_eq!((d.start, d.end), (5, 6));
    assert_eq!(&src[d.start..d.end], "@");

    let (toks, d) = only_error("ab €");
    assert_eq!(toks, vec![TokenType::Ident("ab".to_string())]);
    assert_eq!(d.kind, DiagnosticKind::UnexpectedCharacter('€'));
    assert_eq!((d.start, d.end), (3, 6));

    let (_, d) = only_error("\u{3000}😀");
    assert_eq!((d.start, d.end), (3, 7));
}

#[test]
fn keyword_and_identifier() {
    assert_eq!(tokens("and"), vec![TokenType::And]);
    assert_eq!(tokens("andy"), vec![TokenType::Ident("andy".to_string())]);
    assert_eq!(TokenType::And.render(""), "AND and null");
    assert_eq!(TokenType::Ident("andy".to_string()).render(""), "IDENTIFIER andy null");
}

#[test]
fn every_keyword() {
    let cases = [
        ("and", TokenType::And),
        ("class", TokenType::Class),
        ("else", TokenType::Else),
        ("false", TokenType::False),
        ("for", TokenType::For),
        ("fun", TokenType::Fun),
        ("if", TokenType::If),
        ("nil", TokenType::Nil),
        ("or", TokenType::Or),
        ("print", TokenType::Print),
        ("return", TokenType::Return),
        ("super", TokenType::Super),
        ("this", TokenType::This),
        ("true", TokenType::True),
        ("var", TokenType::Var),
        ("while", TokenType::While),
    ];
    for (src, kind) in cases {
        assert_eq!(tokens(src), vec![kind]);
    }
}

#[test]
fn identifiers_with_digits_and_underscores() {
    assert_eq!(
        tokens("x0 _a_1 fortune"),
        vec![
            TokenType::Ident("x0".to_string()),
            TokenType::Ident("_a_1".to_string()),
            TokenType::Ident("fortune".to_string()),
        ]
    );
}

#[test]
fn decimal_number() {
    let toks = tokens("123.45");
    assert_eq!(toks, vec![TokenType::Number("123.45".to_string())]);
    match &toks[0] {
        TokenType::Number(raw) => assert_eq!(raw.parse::<f64>().unwrap(), 123.45),
        other => panic!("not a number: {other:?}"),
    }
}

#[test]
fn trailing_dot_is_its_own_token() {
    assert_eq!(tokens("7."), vec![TokenType::Number("7".to_string()), TokenType::Dot]);
    assert_eq!(
        tokens("1.a"),
        vec![TokenType::Number("1".to_string()), TokenType::Dot, TokenType::Ident("a".to_string())]
    );
    assert_eq!(
        tokens("3.14.15"),
        vec![
            TokenType::Number("3.14".to_string()),
            TokenType::Dot,
            TokenType::Number("15".to_string()),
        ]
    );
    assert_eq!(tokens("0042"), vec![TokenType::Number("0042".to_string())]);
}

#[test]
fn exhausted_scanner_stays_exhausted() {
    let mut lexer = Lexer::new("( ");
    assert_eq!(lexer.next().unwrap().unwrap(), TokenType::Lparen);
    assert!(lexer.next().is_none());
    assert!(lexer.next().is_none());
    assert!(lexer.next().is_none());
}

#[test]
fn scanner_stops_after_diagnostic() {
    let mut lexer = Lexer::new("@ ( )");
    assert!(lexer.next().unwrap().is_err());
    assert!(lexer.next().is_none());
    assert!(lexer.next().is_none());
}

#[test]
fn render_fixed_kinds() {
    assert_eq!(TokenType::Lparen.render(""), "LEFT_PAREN ( null");
    assert_eq!(TokenType::Rbrace.render(""), "RIGHT_BRACE } null");
    assert_eq!(TokenType::BangEqual.render(""), "BANG_EQUAL != null");
    assert_eq!(TokenType::LessEqual.render(""), "LESS_EQUAL <= null");
    assert_eq!(TokenType::While.render(""), "WHILE while null");
}

#[test]
fn render_literals() {
    assert_eq!(TokenType::String("\"hi\"".to_string()).render(""), "STRING \"hi\" hi");
    assert_eq!(TokenType::String("\"a\\tb\"".to_string()).render(""), "STRING \"a\\tb\" a\tb");
    assert_eq!(TokenType::Number("3".to_string()).render("3.0"), "NUMBER 3 3.0");
}

#[test]
fn runtime_error_and_report() {
    let r: Result<u8, Exception> = Exception::runtime_error(3, " at x".to_string(), "boom".to_string());
    match r {
        Err(Exception::RuntimeError(m)) => {
            assert_eq!(m.line, 3);
            assert_eq!(m.report_line(), "[line 3] Error at x: boom");
        }
        Ok(_) => panic!("expected an error"),
    }
    let r: Result<(), Exception> = Exception::runtime_error(-120, String::new(), "x".to_string());
    let Err(Exception::RuntimeError(m)) = r else { panic!("expected an error") };
    assert_eq!(m.report_line(), "[line -120] Error: x");
    let r: Result<(), Exception> = Exception::runtime_error(i64::MIN, String::new(), String::new());
    let Err(Exception::RuntimeError(m)) = r else { panic!("expected an error") };
    assert_eq!(m.report_line(), "[line -9223372036854775808] Error: ");
}
