use lang_front::ast::{Expression, Identifier, LetStatement, Node, Statement};
use lang_front::lexer::Lexer;
use lang_front::parser::Parser;
use lang_front::token::Token;

fn test_let_statement(test: &LetStatement, statement: &Statement) -> bool {
    if Token::Let != statement.token() {
        return false;
    }

    test.name().token() == statement.name().token()
}

#[test]
fn test_let_statements() {
    let input = r#"
            let x = 5;
            let y = 10;
            let foobar = 848484;
        "#
    .trim();

    let lexer = Lexer::new(&input);
    let mut parser = Parser::new(lexer);

    let program = parser.parse_program();

    if program.statements.len() != 3 {
        panic!("statmnets does not contains 3 statemnts got ={}", program.statements.len());
    }

    let tests = [
        LetStatement {
            name: Identifier { token: Token::Ident("x".to_string()), value: "x".to_string() },
            value: Expression::Identifier(Identifier {
                token: Token::Int("5".into()),
                value: "5".into(),
            }),
        },
        LetStatement {
            name: Identifier { token: Token::Ident("y".to_string()), value: "y".to_string() },
            value: Expression::Identifier(Identifier {
                token: Token::Int("10".into()),
                value: "10".into(),
            }),
        },
        LetStatement {
            name: Identifier {
                token: Token::Ident("foobar".to_string()),
                value: "foobar".to_string(),
            },
            value: Expression::Identifier(Identifier {
                token: Token::Int("848484".into()),
                value: "848484".into(),
            }),
        },
    ];

    for (index, test) in tests.iter().enumerate() {
        assert_eq!(test_let_statement(test, &program.statements[index]), true)
    }
}

#[test]
fn test_let_statement_names_in_order() {
    let lexer = Lexer::new("let x = 5; let y = 10; let foobar = 848484;");
    let mut parser = Parser::new(lexer);
    let program = parser.parse_program();

    assert_eq!(program.statements.len(), 3);
    assert_eq!(parser.errors().len(), 0);

    let expected_names = ["x", "y", "foobar"];
    for (index, expected) in expected_names.iter().enumerate() {
        let statement = &program.statements[index];
        assert_eq!(statement.name().value, expected.to_string());
        assert_eq!(statement.name().token, Token::Ident(expected.to_string()));
    }
}

#[test]
fn test_let_statement_missing_assign() {
    let lexer = Lexer::new("let x 5;");
    let mut parser = Parser::new(lexer);
    let program = parser.parse_program();

    assert_eq!(program.statements.len(), 0);
    assert_eq!(parser.errors().len(), 1);
    assert_eq!(
        parser.errors()[0],
        "expected next token to be Assign, got Int(5) instead"
    );
}

#[test]
fn test_let_statement_missing_identifier() {
    let lexer = Lexer::new("let = 5;");
    let mut parser = Parser::new(lexer);
    let program = parser.parse_program();

    assert_eq!(program.statements.len(), 0);
    assert_eq!(parser.errors().len(), 1);
    assert_eq!(
        parser.errors()[0],
        "expected next token to be Ident, got Assign instead"
    );
}

#[test]
fn test_parse_terminates_without_semicolon() {
    let lexer = Lexer::new("let x = 5");
    let mut parser = Parser::new(lexer);
    let program = parser.parse_program();

    assert_eq!(program.statements.len(), 1);
    assert_eq!(program.statements[0].name().value, "x".to_string());
}

#[test]
fn test_placeholder_value_node() {
    let lexer = Lexer::new("let x = 5;");
    let mut parser = Parser::new(lexer);
    let program = parser.parse_program();

    assert_eq!(program.statements.len(), 1);
    let Statement::Let(ls) = &program.statements[0];
    let Expression::Identifier(value) = &ls.value;
    assert_eq!(value.token, Token::Int("42".into()));
    assert_eq!(value.value, "42".to_string());
}

#[test]
fn test_program_token() {
    let lexer = Lexer::new("let x = 5;");
    let mut parser = Parser::new(lexer);
    let program = parser.parse_program();
    assert_eq!(program.token(), Token::Let);

    let lexer = Lexer::new("");
    let mut parser = Parser::new(lexer);
    let program = parser.parse_program();
    assert_eq!(program.token(), Token::Eof);
}

#[test]
fn test_non_let_statements_are_skipped() {
    let lexer = Lexer::new("5 + 5; let x = 1;");
    let mut parser = Parser::new(lexer);
    let program = parser.parse_program();

    assert_eq!(program.statements.len(), 1);
    assert_eq!(parser.errors().len(), 0);
    assert_eq!(program.statements[0].name().value, "x".to_string());
}
