use inty::error::IntyError;
use inty::lexer::Lexer;
use inty::token::Token;

#[test]
fn test_tokenize() {
    let lexer = Lexer::new("1 + 2 - 3 * 4 / 5".to_string());
    let tokens = lexer.tokenize().unwrap();

    assert_eq!(
        tokens,
        vec![
            Token::Integer(1),
            Token::Plus,
            Token::Integer(2),
            Token::Hyphen,
            Token::Integer(3),
            Token::Star,
            Token::Integer(4),
            Token::Divide,
            Token::Integer(5),
        ]
    );
}

#[test]
fn test_tokenize_paren() {
    let lexer = Lexer::new("1 + (2 - 3) * 4 / 5".to_string());
    let tokens = lexer.tokenize().unwrap();

    assert_eq!(
        tokens,
        vec![
            Token::Integer(1),
            Token::Plus,
            Token::LeftParen,
            Token::Integer(2),
            Token::Hyphen,
            Token::Integer(3),
            Token::RightParen,
            Token::Star,
            Token::Integer(4),
            Token::Divide,
            Token::Integer(5),
        ]
    );
}

#[test]
fn test_tokenize_error() {
    // A letter starts a word, so the trailing `a` is an identifier.
    let lexer = Lexer::new("1 + 2 - 3 * 4 / 5 + a".to_string());
    let tokens = lexer.tokenize().unwrap();
    assert_eq!(tokens.len(), 11);
    assert_eq!(tokens[10], Token::Ident("a".to_string()));

    // A character that starts no token is the error.
    let lexer = Lexer::new("1 + 2 - 3 * 4 / 5 + ?".to_string());
    let tokens = lexer.tokenize();
    assert!(tokens.is_err());
    assert_eq!(
        tokens.unwrap_err().to_string(),
        "unexpected character: ?".to_string()
    );
}

#[test]
fn tokenize() {
    let tokens = Lexer::new("1 + 2 - 3 * 4 / 5".into()).tokenize().unwrap();

    assert_eq!(
        tokens,
        vec![
            Token::Integer(1),
            Token::Plus,
            Token::Integer(2),
            Token::Hyphen,
            Token::Integer(3),
            Token::Star,
            Token::Integer(4),
            Token::Divide,
            Token::Integer(5),
        ]
    );
}

#[test]
fn tokenize_paren() {
    let tokens = Lexer::new("1 + (2 - 3) * 4 / 5".into()).tokenize().unwrap();

    assert_eq!(
        tokens,
        vec![
            Token::Integer(1),
            Token::Plus,
            Token::LeftParen,
            Token::Integer(2),
            Token::Hyphen,
            Token::Integer(3),
            Token::RightParen,
            Token::Star,
            Token::Integer(4),
            Token::Divide,
            Token::Integer(5),
        ]
    );
}

#[test]
fn tokenize_error() {
    let tokens = Lexer::new("?".into()).tokenize();
    assert!(tokens.is_err());
}

fn lex(source: &str) -> Result<Vec<Token>, IntyError> {
    Lexer::new(source.to_string()).tokenize()
}

#[test]
fn tokenize_empty_and_blank() {
    assert_eq!(lex("").unwrap(), vec![]);
    assert_eq!(lex(" \t\r\n").unwrap(), vec![]);
}

#[test]
fn tokenize_every_marker() {
    assert_eq!(
        lex("+ - * / ^ ( ) [ ] { } ; , = ! == != > < >= <= && ||").unwrap(),
        vec![
            Token::Plus,
            Token::Hyphen,
            Token::Star,
            Token::Divide,
            Token::Caret,
            Token::LeftParen,
            Token::RightParen,
            Token::LeftBracket,
            Token::RightBracket,
            Token::LeftBrace,
            Token::RightBrace,
            Token::Semicolon,
            Token::Comma,
            Token::Equal,
            Token::Bang,
            Token::RelEq,
            Token::RelNe,
            Token::RelGt,
            Token::RelLt,
            Token::RelGte,
            Token::RelLte,
            Token::And,
            Token::Or,
        ]
    );
}

#[test]
fn tokenize_without_spaces() {
    assert_eq!(
        lex("a<=b!=c==d").unwrap(),
        vec![
            Token::Ident("a".to_string()),
            Token::RelLte,
            Token::Ident("b".to_string()),
            Token::RelNe,
            Token::Ident("c".to_string()),
            Token::RelEq,
            Token::Ident("d".to_string()),
        ]
    );
    assert_eq!(lex("===").unwrap(), vec![Token::RelEq, Token::Equal]);
    assert_eq!(lex("!!=").unwrap(), vec![Token::Bang, Token::RelNe]);
}

#[test]
fn tokenize_keywords_and_identifiers() {
    assert_eq!(
        lex("let if else true false").unwrap(),
        vec![Token::Let, Token::If, Token::Else, Token::True, Token::False]
    );
    assert_eq!(
        lex("lets iff x_1 fooBar Big").unwrap(),
        vec![
            Token::Ident("lets".to_string()),
            Token::Ident("iff".to_string()),
            Token::Ident("x_1".to_string()),
            Token::Ident("fooBar".to_string()),
            Token::Ident("Big".to_string()),
        ]
    );
    assert_eq!(
        lex("12ab").unwrap(),
        vec![Token::Integer(12), Token::Ident("ab".to_string())]
    );
}

#[test]
fn tokenize_integer_limits() {
    assert_eq!(lex("2147483647").unwrap(), vec![Token::Integer(2147483647)]);
    assert_eq!(lex("007").unwrap(), vec![Token::Integer(7)]);
    assert_eq!(
        lex("2147483648").unwrap_err(),
        IntyError::ParseIntError {
            literal: "2147483648".to_string()
        }
    );
    assert_eq!(
        lex("1 + 99999999999999999999999999 2").unwrap_err(),
        IntyError::ParseIntError {
            literal: "99999999999999999999999999".to_string()
        }
    );
}

#[test]
fn tokenize_lone_ampersand_and_bar() {
    assert_eq!(
        lex("a & b").unwrap_err(),
        IntyError::UnexpectedChar { character: '&' }
    );
    assert_eq!(
        lex("a |").unwrap_err(),
        IntyError::UnexpectedChar { character: '|' }
    );
    assert_eq!(
        lex("&|").unwrap_err(),
        IntyError::UnexpectedChar { character: '&' }
    );
}

#[test]
fn tokenize_unexpected_characters() {
    assert_eq!(
        lex("1 # 2").unwrap_err(),
        IntyError::UnexpectedChar { character: '#' }
    );
    assert_eq!(
        lex("_x").unwrap_err(),
        IntyError::UnexpectedChar { character: '_' }
    );
    assert_eq!(
        lex("é").unwrap_err(),
        IntyError::UnexpectedChar { character: 'é' }
    );
}

#[test]
fn marker_spelling_round_trip() {
    let markers = vec![
        Token::If,
        Token::Else,
        Token::Let,
        Token::True,
        Token::False,
        Token::Or,
        Token::And,
        Token::RelEq,
        Token::RelNe,
        Token::RelGt,
        Token::RelLt,
        Token::RelGte,
        Token::RelLte,
        Token::Plus,
        Token::Hyphen,
        Token::Star,
        Token::Divide,
        Token::Caret,
        Token::LeftParen,
        Token::RightParen,
        Token::LeftBracket,
        Token::RightBracket,
        Token::LeftBrace,
        Token::RightBrace,
        Token::Bang,
        Token::Equal,
        Token::Semicolon,
        Token::Comma,
    ];
    for token in markers {
        let spelling = token.to_string();
        let tokens = lex(&spelling).unwrap();
        assert_eq!(tokens, vec![token.clone()]);
        assert_eq!(tokens[0].to_string(), spelling);
    }
}

#[test]
fn token_spelling() {
    assert_eq!(Token::Integer(42).to_string(), "42");
    assert_eq!(Token::Integer(0).to_string(), "0");
    assert_eq!(Token::Integer(-2147483648).to_string(), "-2147483648");
    assert_eq!(Token::Ident("foo".to_string()).to_string(), "foo");
    assert_eq!(Token::LeftBrace.to_string(), "{");
    assert_eq!(Token::RightBrace.to_string(), "}");
    assert_eq!(Token::RelGte.to_string(), ">=");
    assert_eq!(Token::And.to_string(), "&&");
}

#[test]
fn keyword_lookup() {
    assert_eq!(Token::map_keyword("if"), Some(Token::If));
    assert_eq!(Token::map_keyword("else"), Some(Token::Else));
    assert_eq!(Token::map_keyword("let"), Some(Token::Let));
    assert_eq!(Token::map_keyword("true"), Some(Token::True));
    assert_eq!(Token::map_keyword("false"), Some(Token::False));
    assert_eq!(Token::map_keyword("iff"), None);
    assert_eq!(Token::map_keyword(""), None);
    assert_eq!(Token::map_keyword("If"), None);
}

#[test]
fn tokens_written_with_spaces_round_trip() {
    let tokens = vec![
        Token::Let,
        Token::Ident("total_2".to_string()),
        Token::Equal,
        Token::LeftBracket,
        Token::Integer(0),
        Token::Comma,
        Token::Integer(2147483647),
        Token::RightBracket,
        Token::Semicolon,
        Token::If,
        Token::Bang,
        Token::Ident("x".to_string()),
        Token::RelGte,
        Token::Integer(10),
        Token::LeftBrace,
        Token::True,
        Token::RightBrace,
        Token::Else,
        Token::False,
    ];
    let mut text = String::new();
    for token in &tokens {
        text.push_str(&token.to_string());
        text.push(' ');
    }
    assert_eq!(
        text,
        "let total_2 = [ 0 , 2147483647 ] ; if ! x >= 10 { true } else false "
    );
    assert_eq!(lex(&text).unwrap(), tokens);
}
