use minilang::ast::{Expression, Statement};
use minilang::lexer::Lexer;
use minilang::parser::Parser;
use minilang::token::{Token, TokenType};

fn parse(input: &str) -> Result<minilang::ast::Program, String> {
    let l = Lexer::new(input.to_string());
    let mut p = Parser::new(l);
    p.parse_program()
}

fn render(input: &str) -> String {
    parse(input).unwrap().string()
}

fn tokens(input: &str) -> Vec<Token> {
    let mut l = Lexer::new(input.to_string());
    let mut v: Vec<Token> = Vec::new();
    while let Some(t) = l.next() {
        v.push(t);
    }
    v
}

#[test]
fn test_render_idempotent() {
    let program = parse("let x = 5 + 5 * 2; a++ + b;").unwrap();
    let first = program.string();
    let second = program.string();
    assert_eq!(first, second);
}

#[test]
fn test_tokenize_deterministic() {
    let input = "let x = 5; \"te st\" != y--;";
    assert_eq!(tokens(input), tokens(input));
}

#[test]
fn test_precedence_product_over_sum() {
    assert_eq!(render("a + b * c"), "(a + (b * c));");
}

#[test]
fn test_left_associative_minus() {
    assert_eq!(render("a - b - c"), "((a - b) - c);");
}

#[test]
fn test_postfix_binds_tighter_than_infix() {
    assert_eq!(render("a++ + b"), "((a++) + b);");
}

#[test]
fn test_prefix_on_string_rejected() {
    let result = parse("!\"x\"");
    assert!(result.is_err());
    assert!(result.err().unwrap().contains("string literal"));
}

#[test]
fn test_let_scenario() {
    let program = parse("let x = 5;").unwrap();
    assert_eq!(program.statements.len(), 1);
    assert!(matches!(program.statements[0], Statement::LetStatement(_)));
    assert_eq!(program.string(), "let x = 5;");
}

#[test]
fn test_expression_statement_scenario() {
    let program = parse("5 + 5 * 2;").unwrap();
    assert_eq!(program.statements.len(), 1);
    assert!(matches!(program.statements[0], Statement::ExpressionStatement(_)));
    assert_eq!(program.string(), "(5 + (5 * 2));");
}

#[test]
fn test_prefix_scenario() {
    let program = parse("!5;").unwrap();
    assert_eq!(program.statements.len(), 1);
    if let Statement::ExpressionStatement(es) = &program.statements[0] {
        if let Expression::Prefix(pre) = &es.expression {
            assert_eq!(pre.operator.ttype, TokenType::Bang);
            if let Expression::IntegerLiteral(int) = &*pre.right {
                assert_eq!(int.value, 5);
            } else {
                panic!("operand is not an integer literal: {:?}", pre.right);
            }
        } else {
            panic!("expression is not a prefix node: {:?}", es.expression);
        }
    } else {
        panic!("statement is not an expression statement: {:?}", program.statements[0]);
    }
    assert_eq!(program.string(), "(!5);");
}

#[test]
fn test_postfix_scenario() {
    let program = parse("a++;").unwrap();
    assert_eq!(program.statements.len(), 1);
    if let Statement::ExpressionStatement(es) = &program.statements[0] {
        if let Expression::Postfix(post) = &es.expression {
            assert_eq!(post.operator.ttype, TokenType::Increment);
            if let Expression::Identifier(ident) = &*post.left {
                assert_eq!(ident.value, "a");
            } else {
                panic!("operand is not an identifier: {:?}", post.left);
            }
        } else {
            panic!("expression is not a postfix node: {:?}", es.expression);
        }
    } else {
        panic!("statement is not an expression statement: {:?}", program.statements[0]);
    }
    assert_eq!(program.string(), "(a++);");
}

#[test]
fn test_unterminated_string_is_illegal() {
    let mut l = Lexer::new("\"unterminated".to_string());
    let t = l.next().unwrap();
    assert_eq!(t.ttype, TokenType::Illegal);
    assert_eq!(t.literal, "\"unterminated");
}

#[test]
fn test_string_broken_by_newline_is_illegal() {
    let mut l = Lexer::new("\"ab\ncd\"".to_string());
    let t = l.next().unwrap();
    assert_eq!(t.ttype, TokenType::Illegal);
    assert_eq!(t.literal, "\"ab");
}

#[test]
fn test_plus_alone_is_an_error() {
    let result = parse("+");
    assert!(result.is_err());
    assert!(result.err().unwrap().contains("no expression can start with"));
}

#[test]
fn test_expect_peek_error() {
    let result = parse("let 5 = 3;");
    assert!(result.is_err());
    assert!(result.err().unwrap().contains("expected next token to be Identifier"));
}

#[test]
fn test_missing_token_after_let_is_an_error() {
    let result = parse("let");
    assert!(result.is_err());
    assert!(result.err().unwrap().contains("expected next token to be Identifier"));
}

#[test]
fn test_integer_literal_bounds() {
    let program = parse("9223372036854775807;").unwrap();
    if let Statement::ExpressionStatement(es) = &program.statements[0] {
        if let Expression::IntegerLiteral(int) = &es.expression {
            assert_eq!(int.value, i64::MAX);
        } else {
            panic!("expression is not an integer literal: {:?}", es.expression);
        }
    } else {
        panic!("statement is not an expression statement: {:?}", program.statements[0]);
    }

    let result = parse("9223372036854775808;");
    assert!(result.is_err());
    assert!(result.err().unwrap().contains("integer literal out of range"));
}

#[test]
fn test_digits_do_not_extend_identifiers() {
    let ts = tokens("a1");
    assert_eq!(ts[0], Token::new(TokenType::Identifier, "a".to_string()));
    assert_eq!(ts[1], Token::new(TokenType::Integer, "1".to_string()));
    assert_eq!(ts[2].ttype, TokenType::Eof);
}

#[test]
fn test_identifier_continues_over_unicode_letters() {
    let ts = tokens("a\u{00E9}b c");
    assert_eq!(ts[0], Token::new(TokenType::Identifier, "a\u{00E9}b".to_string()));
    assert_eq!(ts[1], Token::new(TokenType::Identifier, "c".to_string()));
    assert_eq!(ts[2].ttype, TokenType::Eof);
}

#[test]
fn test_unicode_whitespace_is_skipped() {
    let ts = tokens("a\u{00A0}\u{2003}b");
    assert_eq!(ts[0], Token::new(TokenType::Identifier, "a".to_string()));
    assert_eq!(ts[1], Token::new(TokenType::Identifier, "b".to_string()));
    assert_eq!(ts[2].ttype, TokenType::Eof);
}

#[test]
fn test_unrecognized_character_is_illegal() {
    let ts = tokens("a # b");
    assert_eq!(ts[0].ttype, TokenType::Identifier);
    assert_eq!(ts[1], Token::new(TokenType::Illegal, "#".to_string()));
    assert_eq!(ts[2].ttype, TokenType::Identifier);
}

#[test]
fn test_token_stream_ends_after_eof() {
    let mut l = Lexer::new("a".to_string());
    assert_eq!(l.next().unwrap().ttype, TokenType::Identifier);
    assert_eq!(l.next().unwrap().ttype, TokenType::Eof);
    assert!(l.next().is_none());
    assert!(l.next().is_none());
}

#[test]
fn test_semicolon_is_optional() {
    assert_eq!(render("let x = 5"), "let x = 5;");
    assert_eq!(render("return 5"), "return 5;");
    assert_eq!(render("a + b"), "(a + b);");
}

#[test]
fn test_empty_input_is_an_empty_program() {
    let program = parse("").unwrap();
    assert_eq!(program.statements.len(), 0);
    assert_eq!(program.string(), "");
}

#[test]
fn test_ternary_token_is_not_an_infix_operator() {
    // `?` lexes and has a precedence slot, but no production consumes it
    let result = parse("a ? b : c");
    assert!(result.is_err());
}

#[test]
fn test_identifier_may_begin_on_unicode_letter() {
    let ts = tokens("\u{00E9}a + 2");
    assert_eq!(ts[0], Token::new(TokenType::Identifier, "\u{00E9}a".to_string()));
    assert_eq!(ts[1].ttype, TokenType::Plus);
    assert_eq!(ts[2], Token::new(TokenType::Integer, "2".to_string()));
}
