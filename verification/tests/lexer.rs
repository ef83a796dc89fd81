use lang_front::lexer::Lexer;
use lang_front::token::Token;

#[test]
fn test_next_token() {
    let input = "=+(){},;";

    let mut lexer = Lexer::new(input);

    let expected_tokens = [
        Token::Assign,
        Token::Plus,
        Token::Lparen,
        Token::Rparen,
        Token::Lbrace,
        Token::Rbrace,
        Token::Comma,
        Token::Semicolon,
    ];

    for expected_token in expected_tokens {
        assert_eq!(expected_token, lexer.next_token());
    }
}

#[test]
fn test_next_token_with_literals() {
    let input = r#"
            let five = 5;
            let ten = 10;

            let add = fn(x, y) {
                x + y;
            };

            let result = add(five, ten);
        "#
    .trim();

    let mut lexer = Lexer::new(input);

    let expected_tokens = [
        Token::Let,
        Token::Ident("five".into()),
        Token::Assign,
        Token::Int("5".into()),
        Token::Semicolon,
        Token::Let,
        Token::Ident("ten".into()),
        Token::Assign,
        Token::Int("10".into()),
        Token::Semicolon,
        Token::Let,
        Token::Ident("add".into()),
        Token::Assign,
        Token::Function,
        Token::Lparen,
        Token::Ident("x".into()),
        Token::Comma,
        Token::Ident("y".into()),
        Token::Rparen,
        Token::Lbrace,
        Token::Ident("x".into()),
        Token::Plus,
        Token::Ident("y".into()),
        Token::Semicolon,
        Token::Rbrace,
        Token::Semicolon,
        Token::Let,
        Token::Ident("result".into()),
        Token::Assign,
        Token::Ident("add".into()),
        Token::Lparen,
        Token::Ident("five".into()),
        Token::Comma,
        Token::Ident("ten".into()),
        Token::Rparen,
        Token::Semicolon,
        Token::Eof,
    ];

    for expected_token in expected_tokens {
        assert_eq!(expected_token, lexer.next_token());
    }
}

#[test]
fn test_next_token_with_special_chars() {
    let input = r#"
            !-/*5;
            5 < 10 > 5;
        "#
    .trim();

    let mut lexer = Lexer::new(input);

    let expected_tokens = [
        Token::Bang,
        Token::Minus,
        Token::Slash,
        Token::Asterisk,
        Token::Int("5".into()),
        Token::Semicolon,
        Token::Int("5".into()),
        Token::LessThen,
        Token::Int("10".into()),
        Token::GreaterThen,
        Token::Int("5".into()),
        Token::Semicolon,
    ];

    for expected_token in expected_tokens {
        assert_eq!(expected_token, lexer.next_token());
    }
}

#[test]
fn test_next_token_with_keywords() {
    let input = r#"
            if (5 < 10) {
                return true;
            } else {
                return false;
            }

            10 == 10;
            10 != 9;
        "#
    .trim();

    let mut lexer = Lexer::new(input);

    let expected_tokens = [
        Token::If,
        Token::Lparen,
        Token::Int("5".into()),
        Token::LessThen,
        Token::Int("10".into()),
        Token::Rparen,
        Token::Lbrace,
        Token::Return,
        Token::True,
        Token::Semicolon,
        Token::Rbrace,
        Token::Else,
        Token::Lbrace,
        Token::Return,
        Token::False,
        Token::Semicolon,
        Token::Rbrace,
        Token::Int("10".into()),
        Token::Eq,
        Token::Int("10".into()),
        Token::Semicolon,
        Token::Int("10".into()),
        Token::NotEq,
        Token::Int("9".into()),
        Token::Semicolon,
    ];

    for expected_token in expected_tokens {
        assert_eq!(expected_token, lexer.next_token());
    }
}

#[test]
fn test_eof_is_idempotent() {
    let mut lexer = Lexer::new("=+(){},;");
    for _ in 0..8 {
        lexer.next_token();
    }
    assert_eq!(Token::Eof, lexer.next_token());
    assert_eq!(Token::Eof, lexer.next_token());
    assert_eq!(Token::Eof, lexer.next_token());
}

#[test]
fn test_two_character_operators() {
    let mut lexer = Lexer::new("==");
    assert_eq!(Token::Eq, lexer.next_token());
    assert_eq!(Token::Eof, lexer.next_token());

    let mut lexer = Lexer::new("!=");
    assert_eq!(Token::NotEq, lexer.next_token());
    assert_eq!(Token::Eof, lexer.next_token());

    let mut lexer = Lexer::new("!");
    assert_eq!(Token::Bang, lexer.next_token());
    assert_eq!(Token::Eof, lexer.next_token());
}

#[test]
fn test_identifier_digit_split() {
    let mut lexer = Lexer::new("foobar123");
    assert_eq!(Token::Ident("foobar".into()), lexer.next_token());
    assert_eq!(Token::Int("123".into()), lexer.next_token());
    assert_eq!(Token::Eof, lexer.next_token());
}

#[test]
fn test_keyword_exactness() {
    let cases = [
        ("fn", Token::Function),
        ("let", Token::Let),
        ("return", Token::Return),
        ("if", Token::If),
        ("else", Token::Else),
        ("true", Token::True),
        ("false", Token::False),
    ];
    for (text, expected) in cases {
        let mut lexer = Lexer::new(text);
        assert_eq!(expected, lexer.next_token());
        assert_eq!(Token::Eof, lexer.next_token());
    }

    // Any other letter-run is an identifier carrying its exact text.
    for text in ["foo_bar", "letx", "True", "_x", "fns"] {
        let mut lexer = Lexer::new(text);
        assert_eq!(Token::Ident(text.into()), lexer.next_token());
        assert_eq!(Token::Eof, lexer.next_token());
    }
}

#[test]
fn test_lookup_ident() {
    assert_eq!(Token::Function, Token::lookup_ident("fn"));
    assert_eq!(Token::Let, Token::lookup_ident("let"));
    assert_eq!(Token::Ident("x".into()), Token::lookup_ident("x"));
}

#[test]
fn test_illegal_characters() {
    let mut lexer = Lexer::new("@#");
    assert_eq!(Token::Illegal, lexer.next_token());
    assert_eq!(Token::Illegal, lexer.next_token());
    assert_eq!(Token::Eof, lexer.next_token());
}

#[test]
fn test_illegal_character_is_not_fatal() {
    let mut lexer = Lexer::new("a $ b");
    assert_eq!(Token::Ident("a".into()), lexer.next_token());
    assert_eq!(Token::Illegal, lexer.next_token());
    assert_eq!(Token::Ident("b".into()), lexer.next_token());
    assert_eq!(Token::Eof, lexer.next_token());
}

#[test]
fn test_whitespace_only_input() {
    let mut lexer = Lexer::new("  \t\r\n ");
    assert_eq!(Token::Eof, lexer.next_token());

    let mut lexer = Lexer::new("");
    assert_eq!(Token::Eof, lexer.next_token());
}

#[test]
fn test_describe() {
    assert_eq!("Assign", Token::Assign.describe());
    assert_eq!("Int(5)", Token::Int("5".into()).describe());
    assert_eq!("Ident(foo)", Token::Ident("foo".into()).describe());
}
