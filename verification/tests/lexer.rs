use grove::error::ErrorKind;
use grove::lexer::{Lexer, Token, TokenKind};

fn number(text: &str) -> Option<u64> {
    text.parse::<f64>().ok().map(f64::to_bits)
}

fn lex(src: &str) -> Vec<Token> {
    Lexer::new(src).tokenize(&number).unwrap()
}

#[test]
fn test_basic_tokens() {
    let mut lex = Lexer::new("local x = 42");
    let tokens = lex.tokenize(&number).unwrap();
    assert_eq!(tokens.len(), 5); // local, x, =, 42, EOF
    assert_eq!(tokens[0].kind, TokenKind::Local);
    assert!(matches!(&tokens[1].kind, TokenKind::Identifier(s) if s == "x"));
    assert_eq!(tokens[2].kind, TokenKind::Assign);
    assert!(matches!(tokens[3].kind, TokenKind::Number(n) if f64::from_bits(n) == 42.0));
    assert_eq!(tokens[4].kind, TokenKind::Eof);
}

#[test]
fn test_string_literals() {
    let mut lex = Lexer::new(r#""hello world" 'test'"#);
    let tokens = lex.tokenize(&number).unwrap();
    assert!(matches!(&tokens[0].kind, TokenKind::StringLit(s) if s == "hello world"));
    assert!(matches!(&tokens[1].kind, TokenKind::StringLit(s) if s == "test"));
}

#[test]
fn test_comments() {
    let mut lex = Lexer::new("-- this is a comment\nlocal x = 1");
    let tokens = lex.tokenize(&number).unwrap();
    assert_eq!(tokens[0].kind, TokenKind::Local);
}

#[test]
fn test_operators() {
    let mut lex = Lexer::new("+ - * / % ^ .. == ~= != < <= > >=");
    let tokens = lex.tokenize(&number).unwrap();
    assert_eq!(tokens[0].kind, TokenKind::Plus);
    assert_eq!(tokens[1].kind, TokenKind::Minus);
    assert_eq!(tokens[2].kind, TokenKind::Star);
    assert_eq!(tokens[3].kind, TokenKind::Slash);
    assert_eq!(tokens[4].kind, TokenKind::Percent);
    assert_eq!(tokens[5].kind, TokenKind::Caret);
    assert_eq!(tokens[6].kind, TokenKind::DotDot);
    assert_eq!(tokens[7].kind, TokenKind::Equal);
    assert_eq!(tokens[8].kind, TokenKind::TildeEqual);
    assert_eq!(tokens[9].kind, TokenKind::NotEqual);
    assert_eq!(tokens[10].kind, TokenKind::Less);
    assert_eq!(tokens[11].kind, TokenKind::LessEqual);
    assert_eq!(tokens[12].kind, TokenKind::Greater);
    assert_eq!(tokens[13].kind, TokenKind::GreaterEqual);
}

#[test]
fn test_keywords() {
    let mut lex = Lexer::new("if then else elseif end while do for in blueprint build");
    let tokens = lex.tokenize(&number).unwrap();
    assert_eq!(tokens[0].kind, TokenKind::If);
    assert_eq!(tokens[1].kind, TokenKind::Then);
    assert_eq!(tokens[2].kind, TokenKind::Else);
    assert_eq!(tokens[3].kind, TokenKind::ElseIf);
    assert_eq!(tokens[4].kind, TokenKind::End);
    assert_eq!(tokens[5].kind, TokenKind::While);
    assert_eq!(tokens[6].kind, TokenKind::Do);
    assert_eq!(tokens[7].kind, TokenKind::For);
    assert_eq!(tokens[8].kind, TokenKind::In);
    assert_eq!(tokens[9].kind, TokenKind::Blueprint);
    assert_eq!(tokens[10].kind, TokenKind::Build);
}

#[test]
fn test_line_tracking() {
    let mut lex = Lexer::new("x\ny\nz");
    let tokens = lex.tokenize(&number).unwrap();
    assert_eq!(tokens[0].line, 1);
    assert_eq!(tokens[1].line, 2);
    assert_eq!(tokens[2].line, 3);
}

#[test]
fn test_float_number() {
    let mut lex = Lexer::new("3.14");
    let tokens = lex.tokenize(&number).unwrap();
    assert!(
        matches!(tokens[0].kind, TokenKind::Number(n) if (f64::from_bits(n) - 3.14).abs() < 1e-10)
    );
}

#[test]
fn every_keyword_alias_and_literal_has_its_kind() {
    let tokens = lex("local let fn repeat until return break continue and or not true false nil");
    let kinds: Vec<TokenKind> = tokens.into_iter().map(|t| t.kind).collect();
    assert_eq!(
        kinds,
        vec![
            TokenKind::Local,
            TokenKind::Let,
            TokenKind::Fn,
            TokenKind::Repeat,
            TokenKind::Until,
            TokenKind::Return,
            TokenKind::Break,
            TokenKind::Continue,
            TokenKind::And,
            TokenKind::Or,
            TokenKind::Not,
            TokenKind::True,
            TokenKind::False,
            TokenKind::Nil,
            TokenKind::Eof,
        ]
    );
}

#[test]
fn punctuation_and_words_that_only_begin_like_keywords() {
    let tokens = lex("( ) [ ] { } , . : # = iff _end end_ x1");
    let kinds: Vec<TokenKind> = tokens.into_iter().map(|t| t.kind).collect();
    assert_eq!(
        kinds,
        vec![
            TokenKind::LeftParen,
            TokenKind::RightParen,
            TokenKind::LeftBracket,
            TokenKind::RightBracket,
            TokenKind::LeftBrace,
            TokenKind::RightBrace,
            TokenKind::Comma,
            TokenKind::Dot,
            TokenKind::Colon,
            TokenKind::Hash,
            TokenKind::Assign,
            TokenKind::Identifier("iff".to_string()),
            TokenKind::Identifier("_end".to_string()),
            TokenKind::Identifier("end_".to_string()),
            TokenKind::Identifier("x1".to_string()),
            TokenKind::Eof,
        ]
    );
}

#[test]
fn positions_are_line_and_column_of_the_first_character() {
    let src = "local x = 1\n  -- note\n\tfoo(\"a\\nb\")  .. 'c'\n\n";
    let tokens = lex(src);
    let got: Vec<(usize, usize)> = tokens.iter().map(|t| (t.line, t.column)).collect();
    assert_eq!(
        got,
        vec![(1, 1), (1, 7), (1, 9), (1, 11), (3, 2), (3, 5), (3, 6), (3, 12), (3, 15), (3, 18), (5, 1)]
    );
    // Each position is a prefix of the source split at its line breaks.
    let chars: Vec<char> = src.chars().collect();
    for t in &tokens {
        let found = (0..=chars.len()).any(|at| {
            let line = 1 + chars[..at].iter().filter(|c| **c == '\n').count();
            let start = chars[..at].iter().rposition(|c| *c == '\n').map(|i| i + 1).unwrap_or(0);
            line == t.line && at - start + 1 == t.column
        });
        assert!(found, "token at {}:{} has no position", t.line, t.column);
    }
}

#[test]
fn escapes_in_strings() {
    let tokens = lex(r#""a\nb\tc\\d\'e\"f\qg" 'it\'s "x"'"#);
    assert_eq!(tokens[0].kind, TokenKind::StringLit("a\nb\tc\\d'e\"f\\qg".to_string()));
    assert_eq!(tokens[1].kind, TokenKind::StringLit("it's \"x\"".to_string()));
}

#[test]
fn a_number_takes_a_point_only_before_a_digit() {
    let tokens = lex("1.5 2. 3..4 7.x");
    let kinds: Vec<TokenKind> = tokens.into_iter().map(|t| t.kind).collect();
    assert_eq!(
        kinds,
        vec![
            TokenKind::Number(1.5f64.to_bits()),
            TokenKind::Number(2f64.to_bits()),
            TokenKind::Dot,
            TokenKind::Number(3f64.to_bits()),
            TokenKind::DotDot,
            TokenKind::Number(4f64.to_bits()),
            TokenKind::Number(7f64.to_bits()),
            TokenKind::Dot,
            TokenKind::Identifier("x".to_string()),
            TokenKind::Eof,
        ]
    );
}

#[test]
fn unterminated_string_is_a_syntax_error_at_the_opening_quote() {
    let err = Lexer::new("local s =\n   \"abc").tokenize(&number).unwrap_err();
    assert_eq!(err.kind, ErrorKind::Syntax);
    assert_eq!(err.message, "unterminated string");
    assert_eq!((err.line, err.column), (2, 4));
    let err = Lexer::new("'abc\\").tokenize(&number).unwrap_err();
    assert_eq!(err.kind, ErrorKind::Syntax);
    assert_eq!(err.message, "unterminated string escape");
    assert_eq!((err.line, err.column), (1, 1));
}

#[test]
fn unknown_characters_are_syntax_errors() {
    for (src, message, column) in [
        ("x @ y", "unexpected character '@'", 3),
        ("a ~ b", "unexpected character '~'", 3),
        ("a ! b", "unexpected character '!'", 3),
        ("é", "unexpected character 'é'", 1),
    ] {
        let err = Lexer::new(src).tokenize(&number).unwrap_err();
        assert_eq!(err.kind, ErrorKind::Syntax);
        assert_eq!(err.message, message);
        assert_eq!((err.line, err.column), (1, column));
    }
}

#[test]
fn a_number_that_the_reader_refuses_is_a_syntax_error() {
    let refuse = |_: &str| -> Option<u64> { None };
    let err = Lexer::new("x = 12.5").tokenize(&refuse).unwrap_err();
    assert_eq!(err.kind, ErrorKind::Syntax);
    assert_eq!(err.message, "invalid number '12.5'");
    assert_eq!((err.line, err.column), (1, 5));
}

#[test]
fn comments_and_blank_lines_yield_only_eof() {
    let tokens = lex("  -- one\n\n-- two");
    assert_eq!(tokens.len(), 1);
    assert_eq!(tokens[0].kind, TokenKind::Eof);
    assert_eq!((tokens[0].line, tokens[0].column), (3, 7));
    let tokens = lex("");
    assert_eq!(tokens.len(), 1);
    assert_eq!((tokens[0].line, tokens[0].column), (1, 1));
    let tokens = lex("a - -b");
    assert_eq!(tokens.len(), 5);
}

#[test]
fn token_new_keeps_its_parts() {
    let t = Token::new(TokenKind::Comma, 3, 9);
    assert_eq!(t.kind, TokenKind::Comma);
    assert_eq!((t.line, t.column), (3, 9));
    assert!(TokenKind::Identifier("a".into()).same_kind(&TokenKind::Identifier("b".into())));
    assert!(TokenKind::Identifier("a".into()) != TokenKind::Identifier("b".into()));
    assert!(TokenKind::Number(f64::NAN.to_bits()) != TokenKind::Number(f64::NAN.to_bits()));
    assert!(TokenKind::Number(0f64.to_bits()) == TokenKind::Number((-0f64).to_bits()));
}
