use minilang::ast::{Expression, Statement};
use minilang::lexer::Lexer;
use minilang::parser::Parser;
use minilang::token::TokenType;

#[test]
fn test_let_statements() {
    let input = String::from(
        r#"
        let x = 5;
        let y = 10;
        let foobar = 838383;
        "#,
    );

    let l = Lexer::new(input);
    let mut p = Parser::new(l);

    let program = p.parse_program();
    assert!(program.is_ok(), "parse_program() returned an error: {:?}", program.err().unwrap());

    let program = program.unwrap();
    assert_eq!(
        program.statements.len(),
        3,
        "program.Statements does not contain 3 statements. got={}",
        program.statements.len()
    );

    assert_eq!(program.statements[0].string(), "let x = 5;".to_string());
    assert_eq!(program.statements[1].string(), "let y = 10;".to_string());
    assert_eq!(program.statements[2].string(), "let foobar = 838383;".to_string());
}

#[test]
fn test_return_statements() {
    let input = String::from(
        r#"
        return 5;
        return 10;
        return 993322;
        "#,
    );

    let l = Lexer::new(input);
    let mut p = Parser::new(l);

    let program = p.parse_program();
    assert!(program.is_ok(), "parse_program() returned an error: {:?}", program.err().unwrap());

    let program = program.unwrap();
    assert_eq!(
        program.statements.len(),
        3,
        "program.Statements does not contain 3 statements. got={}",
        program.statements.len()
    );

    assert_eq!(program.statements[0].string(), "return 5;");
    assert_eq!(program.statements[1].string(), "return 10;".to_string());
    assert_eq!(program.statements[2].string(), "return 993322;".to_string());
}

#[test]
fn test_identifier_expression() {
    let input = String::from("foobar;");

    let l = Lexer::new(input);
    let mut p = Parser::new(l);

    let program = p.parse_program();
    assert!(program.is_ok(), "parse_program() returned an error: {:?}", program.err().unwrap());

    let program = program.unwrap();
    assert_eq!(
        program.statements.len(),
        1,
        "program.Statements does not contain 1 statements. got={}",
        program.statements.len()
    );

    if let Statement::ExpressionStatement(expr) = &program.statements[0] {
        assert_eq!(expr.string(), "foobar;");
    } else {
        panic!("program.statements[0] is not ast.ExpressionStatement. got={:?}", program.statements[0]);
    }
}

#[test]
fn test_literal_expression() {
    let input = String::from("5; \"test\";");

    let l = Lexer::new(input);
    let mut p = Parser::new(l);

    let program = p.parse_program();
    assert!(program.is_ok(), "parse_program() returned an error: {:?}", program.err().unwrap());

    let program = program.unwrap();
    assert_eq!(
        program.statements.len(),
        2,
        "program.Statements does not contain 1 statements. got={}",
        program.statements.len()
    );

    if let Statement::ExpressionStatement(expr) = &program.statements[0] {
        if let Expression::IntegerLiteral(int) = &expr.expression {
            assert_eq!(int.value, 5);
        } else {
            panic!("expr.expression is not ast.IntegerLiteral. got={:?}", expr.expression);
        }
        assert_eq!(expr.string(), "5;");
    } else {
        panic!("program.statements[0] is not ast.ExpressionStatement. got={:?}", program.statements[0]);
    }

    if let Statement::ExpressionStatement(expr) = &program.statements[1] {
        if let Expression::StringLiteral(st) = &expr.expression {
            assert_eq!(st.literal, "\"test\"");
        } else {
            panic!("expr.expression is not ast.StringLiteral. got={:?}", expr.expression);
        }
        assert_eq!(expr.string(), "\"test\";");
    } else {
        panic!("program.statements[1] is not ast.ExpressionStatement. got={:?}", program.statements[1]);
    }
}

#[test]
fn test_prefix_expression() {
    let input = String::from("!5; -15; ++5; --5; !test");

    let l = Lexer::new(input);
    let mut p = Parser::new(l);

    let program = p.parse_program();
    assert!(program.is_ok(), "parse_program() returned an error: {:?}", program.err().unwrap());

    let program = program.unwrap();
    assert_eq!(
        program.statements.len(),
        5,
        "program.Statements does not contain 5 statements. got={}",
        program.statements.len()
    );

    let tests: Vec<(String, TokenType, i64)> = vec![
        ("(!5);".to_string(), TokenType::Bang, 5),
        ("(-15);".to_string(), TokenType::Minus, 15),
        ("(++5);".to_string(), TokenType::Increment, 5),
        ("(--5);".to_string(), TokenType::Decrement, 5),
    ];

    for (i, test) in tests.iter().enumerate() {
        if let Statement::ExpressionStatement(expr) = &program.statements[i] {
            if let Expression::Prefix(pre) = &expr.expression {
                assert_eq!(pre.operator.ttype, test.1);
                if let Expression::IntegerLiteral(int) = &*pre.right {
                    assert_eq!(int.value, test.2);
                } else {
                    panic!("pre.right is not ast.IntegerLiteral. got={:?}", pre.right);
                }
            } else {
                panic!("expr.expression is not ast.Prefix. got={:?}", expr.expression);
            }
            assert_eq!(expr.string(), test.0);
        } else {
            panic!("program.statements[{}] is not ast.ExpressionStatement. got={:?}", i, program.statements[i]);
        }
    }

    if let Statement::ExpressionStatement(expr) = &program.statements[4] {
        if let Expression::Prefix(pre) = &expr.expression {
            assert_eq!(pre.operator.ttype, TokenType::Bang);
            if let Expression::Identifier(ident) = &*pre.right {
                assert_eq!(ident.value, "test".to_string());
            } else {
                panic!("pre.right is not ast.Identifier. got={:?}", pre.right);
            }
        } else {
            panic!("expr.expression is not ast.Prefix. got={:?}", expr.expression);
        }
        assert_eq!(expr.string(), "(!test);");
    } else {
        panic!("program.statements[3] is not ast.ExpressionStatement. got={:?}", program.statements[4]);
    }
}

#[test]
fn test_infix_expression() {
    let input = String::from(
        r#"
        5 + 5;
        5 - 5;
        5 * 5;
        5 / 5;
        5 % 5;
        5 == 5;
        5 != 5;
        5 < 5;
        5 > 5;
        5 <= 5;
        5 >= 5;
        "#,
    );

    let l = Lexer::new(input);
    let mut p = Parser::new(l);

    let program = p.parse_program();
    assert!(program.is_ok(), "parse_program() returned an error: {:?}", program.err().unwrap());

    let program = program.unwrap();
    assert_eq!(
        program.statements.len(),
        11,
        "program.Statements does not contain 11 statements. got={}",
        program.statements.len()
    );

    let tests: Vec<(String, i64, TokenType, i64)> = vec![
        ("(5 + 5);".to_string(), 5, TokenType::Plus, 5),
        ("(5 - 5);".to_string(), 5, TokenType::Minus, 5),
        ("(5 * 5);".to_string(), 5, TokenType::Asterisk, 5),
        ("(5 / 5);".to_string(), 5, TokenType::Slash, 5),
        ("(5 % 5);".to_string(), 5, TokenType::Percent, 5),
        ("(5 == 5);".to_string(), 5, TokenType::Equal, 5),
        ("(5 != 5);".to_string(), 5, TokenType::NotEqual, 5),
        ("(5 < 5);".to_string(), 5, TokenType::LessThan, 5),
        ("(5 > 5);".to_string(), 5, TokenType::GreaterThan, 5),
        ("(5 <= 5);".to_string(), 5, TokenType::LessThanOrEqual, 5),
        ("(5 >= 5);".to_string(), 5, TokenType::GreaterThanOrEqual, 5),
    ];

    for (i, test) in tests.iter().enumerate() {
        if let Statement::ExpressionStatement(expr) = &program.statements[i] {
            if let Expression::Infix(inf) = &expr.expression {
                assert_eq!(inf.operator.ttype, test.2);
                if let Expression::IntegerLiteral(int) = &*inf.left {
                    assert_eq!(int.value, test.1);
                } else {
                    panic!("inf.left is not ast.IntegerLiteral. got={:?}", inf.left);
                }
                if let Expression::IntegerLiteral(int) = &*inf.right {
                    assert_eq!(int.value, test.3);
                } else {
                    panic!("inf.right is not ast.IntegerLiteral. got={:?}", inf.right);
                }
            } else {
                panic!("expr.expression is not ast.Infix. got={:?}", expr.expression);
            }
            assert_eq!(expr.string(), test.0);
        } else {
            panic!("program.statements[{}] is not ast.ExpressionStatement. got={:?}", i, program.statements[i]);
        }
    }
}

#[test]
fn test_operator_precedence_parsing() {
    let tests: Vec<(String, String)> = vec![
        ("-a * b".to_string(), "((-a) * b);".to_string()),
        ("!-a".to_string(), "(!(-a));".to_string()),
        ("a + b + c".to_string(), "((a + b) + c);".to_string()),
        ("a + b - c".to_string(), "((a + b) - c);".to_string()),
        ("a * b * c".to_string(), "((a * b) * c);".to_string()),
        ("a * b / c".to_string(), "((a * b) / c);".to_string()),
        ("a + b / c".to_string(), "(a + (b / c));".to_string()),
        ("a + b * c + d / e - f".to_string(), "(((a + (b * c)) + (d / e)) - f);".to_string()),
        ("3 + 4; -5 * 5".to_string(), "(3 + 4);((-5) * 5);".to_string()),
        ("5 > 4 == 3 < 4".to_string(), "((5 > 4) == (3 < 4));".to_string()),
        ("5 < 4 != 3 > 4".to_string(), "((5 < 4) != (3 > 4));".to_string()),
        (
            "3 + 4 * 5 == 3 * 1 + 4 * 5".to_string(),
            "((3 + (4 * 5)) == ((3 * 1) + (4 * 5)));".to_string(),
        ),
    ];

    for test in tests {
        let l = Lexer::new(test.0);
        let mut p = Parser::new(l);
        let program = p.parse_program().unwrap();

        let actual = program.string();
        assert_eq!(test.1, actual)
    }
}

#[test]
fn test_postfix_parsing() {
    let tests: Vec<(String, String)> = vec![
        ("a++".to_string(), "(a++);".to_string()),
        ("!a--".to_string(), "(!(a--));".to_string()),
        ("a++ + b + c--".to_string(), "(((a++) + b) + (c--));".to_string()),
        (
            "a + b++ * c + d / --e - f".to_string(),
            "(((a + ((b++) * c)) + (d / (--e))) - f);".to_string(),
        ),
    ];

    for test in tests {
        let l = Lexer::new(test.0);
        let mut p = Parser::new(l);
        let program = p.parse_program().unwrap();

        let actual = program.string();
        assert_eq!(test.1, actual)
    }
}

#[test]
fn test_expression() {
    let l = Lexer::new("a b c".to_string());
    let mut p = Parser::new(l);
    let program = p.parse_program().unwrap();

    assert_eq!(program.statements.len(), 3);
}
