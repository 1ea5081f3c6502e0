use minilang::lexer::Lexer;
use minilang::token::{Token, TokenType};

#[test]
fn test_lexer_delimiters() {
    let mut l = Lexer::new(String::from("+-*/=,;:()[]{}++--?%"));

    assert_eq!(l.next().unwrap().ttype, TokenType::Plus);
    assert_eq!(l.next().unwrap().ttype, TokenType::Minus);
    assert_eq!(l.next().unwrap().ttype, TokenType::Asterisk);
    assert_eq!(l.next().unwrap().ttype, TokenType::Slash);
    assert_eq!(l.next().unwrap().ttype, TokenType::Assign);
    assert_eq!(l.next().unwrap().ttype, TokenType::Comma);
    assert_eq!(l.next().unwrap().ttype, TokenType::Semicolon);
    assert_eq!(l.next().unwrap().ttype, TokenType::Colon);
    assert_eq!(l.next().unwrap().ttype, TokenType::LeftParen);
    assert_eq!(l.next().unwrap().ttype, TokenType::RightParen);
    assert_eq!(l.next().unwrap().ttype, TokenType::LeftSquareBracket);
    assert_eq!(l.next().unwrap().ttype, TokenType::RightSquareBracket);
    assert_eq!(l.next().unwrap().ttype, TokenType::LeftCurlyBracket);
    assert_eq!(l.next().unwrap().ttype, TokenType::RightCurlyBracket);
    assert_eq!(l.next().unwrap().ttype, TokenType::Increment);
    assert_eq!(l.next().unwrap().ttype, TokenType::Decrement);
    assert_eq!(l.next().unwrap().ttype, TokenType::Question);
    assert_eq!(l.next().unwrap().ttype, TokenType::Percent);
    assert_eq!(l.next().unwrap().ttype, TokenType::Eof);
}

#[test]
fn test_next_token() {
    let input = String::from(
        r#"let five = 5;
        let ten = 10;

        let add = fn(x, y) {
          x + y;
        };

        let result = add(five, ten);
        !-/*5;
        5 < 10 > 5;

        if (5 < 10) {
            return true;
        } else {
            return false;
        }

        10 == 10;
        10 != 9;
        10 >= 9;
        9 <= 10;
        "te st" != "test";
        "#,
    );

    let mut l = Lexer::new(input);

    assert_eq!(l.next().unwrap().ttype, TokenType::Let);
    assert_eq!(l.next().unwrap(), Token::new(TokenType::Identifier, String::from("five")));
    assert_eq!(l.next().unwrap().ttype, TokenType::Assign);
    assert_eq!(l.next().unwrap(), Token::new(TokenType::Integer, String::from("5")));
    assert_eq!(l.next().unwrap().ttype, TokenType::Semicolon);
    assert_eq!(l.next().unwrap().ttype, TokenType::Let);
    assert_eq!(l.next().unwrap(), Token::new(TokenType::Identifier, String::from("ten")));
    assert_eq!(l.next().unwrap().ttype, TokenType::Assign);
    assert_eq!(l.next().unwrap(), Token::new(TokenType::Integer, String::from("10")));
    assert_eq!(l.next().unwrap().ttype, TokenType::Semicolon);
    assert_eq!(l.next().unwrap().ttype, TokenType::Let);
    assert_eq!(l.next().unwrap(), Token::new(TokenType::Identifier, String::from("add")));
    assert_eq!(l.next().unwrap().ttype, TokenType::Assign);
    assert_eq!(l.next().unwrap().ttype, TokenType::Fn);
    assert_eq!(l.next().unwrap().ttype, TokenType::LeftParen);
    assert_eq!(l.next().unwrap(), Token::new(TokenType::Identifier, String::from("x")));
    assert_eq!(l.next().unwrap().ttype, TokenType::Comma);
    assert_eq!(l.next().unwrap(), Token::new(TokenType::Identifier, String::from("y")));
    assert_eq!(l.next().unwrap().ttype, TokenType::RightParen);
    assert_eq!(l.next().unwrap().ttype, TokenType::LeftCurlyBracket);
    assert_eq!(l.next().unwrap(), Token::new(TokenType::Identifier, String::from("x")));
    assert_eq!(l.next().unwrap().ttype, TokenType::Plus);
    assert_eq!(l.next().unwrap(), Token::new(TokenType::Identifier, String::from("y")));
    assert_eq!(l.next().unwrap().ttype, TokenType::Semicolon);
    assert_eq!(l.next().unwrap().ttype, TokenType::RightCurlyBracket);
    assert_eq!(l.next().unwrap().ttype, TokenType::Semicolon);
    assert_eq!(l.next().unwrap().ttype, TokenType::Let);
    assert_eq!(l.next().unwrap(), Token::new(TokenType::Identifier, String::from("result")));
    assert_eq!(l.next().unwrap().ttype, TokenType::Assign);
    assert_eq!(l.next().unwrap(), Token::new(TokenType::Identifier, String::from("add")));
    assert_eq!(l.next().unwrap().ttype, TokenType::LeftParen);
    assert_eq!(l.next().unwrap(), Token::new(TokenType::Identifier, String::from("five")));
    assert_eq!(l.next().unwrap().ttype, TokenType::Comma);
    assert_eq!(l.next().unwrap(), Token::new(TokenType::Identifier, String::from("ten")));
    assert_eq!(l.next().unwrap().ttype, TokenType::RightParen);
    assert_eq!(l.next().unwrap().ttype, TokenType::Semicolon);
    assert_eq!(l.next().unwrap().ttype, TokenType::Bang);
    assert_eq!(l.next().unwrap().ttype, TokenType::Minus);
    assert_eq!(l.next().unwrap().ttype, TokenType::Slash);
    assert_eq!(l.next().unwrap().ttype, TokenType::Asterisk);
    assert_eq!(l.next().unwrap(), Token::new(TokenType::Integer, String::from("5")));
    assert_eq!(l.next().unwrap().ttype, TokenType::Semicolon);
    assert_eq!(l.next().unwrap(), Token::new(TokenType::Integer, String::from("5")));
    assert_eq!(l.next().unwrap().ttype, TokenType::LessThan);
    assert_eq!(l.next().unwrap(), Token::new(TokenType::Integer, String::from("10")));
    assert_eq!(l.next().unwrap().ttype, TokenType::GreaterThan);
    assert_eq!(l.next().unwrap(), Token::new(TokenType::Integer, String::from("5")));
    assert_eq!(l.next().unwrap().ttype, TokenType::Semicolon);
    assert_eq!(l.next().unwrap().ttype, TokenType::If);
    assert_eq!(l.next().unwrap().ttype, TokenType::LeftParen);
    assert_eq!(l.next().unwrap(), Token::new(TokenType::Integer, String::from("5")));
    assert_eq!(l.next().unwrap().ttype, TokenType::LessThan);
    assert_eq!(l.next().unwrap(), Token::new(TokenType::Integer, String::from("10")));
    assert_eq!(l.next().unwrap().ttype, TokenType::RightParen);
    assert_eq!(l.next().unwrap().ttype, TokenType::LeftCurlyBracket);
    assert_eq!(l.next().unwrap().ttype, TokenType::Return);
    assert_eq!(l.next().unwrap().ttype, TokenType::True);
    assert_eq!(l.next().unwrap().ttype, TokenType::Semicolon);
    assert_eq!(l.next().unwrap().ttype, TokenType::RightCurlyBracket);
    assert_eq!(l.next().unwrap().ttype, TokenType::Else);
    assert_eq!(l.next().unwrap().ttype, TokenType::LeftCurlyBracket);
    assert_eq!(l.next().unwrap().ttype, TokenType::Return);
    assert_eq!(l.next().unwrap().ttype, TokenType::False);
    assert_eq!(l.next().unwrap().ttype, TokenType::Semicolon);
    assert_eq!(l.next().unwrap().ttype, TokenType::RightCurlyBracket);
    assert_eq!(l.next().unwrap(), Token::new(TokenType::Integer, String::from("10")));
    assert_eq!(l.next().unwrap().ttype, TokenType::Equal);
    assert_eq!(l.next().unwrap(), Token::new(TokenType::Integer, String::from("10")));
    assert_eq!(l.next().unwrap().ttype, TokenType::Semicolon);
    assert_eq!(l.next().unwrap(), Token::new(TokenType::Integer, String::from("10")));
    assert_eq!(l.next().unwrap().ttype, TokenType::NotEqual);
    assert_eq!(l.next().unwrap(), Token::new(TokenType::Integer, String::from("9")));
    assert_eq!(l.next().unwrap().ttype, TokenType::Semicolon);
    assert_eq!(l.next().unwrap(), Token::new(TokenType::Integer, String::from("10")));
    assert_eq!(l.next().unwrap().ttype, TokenType::GreaterThanOrEqual);
    assert_eq!(l.next().unwrap(), Token::new(TokenType::Integer, String::from("9")));
    assert_eq!(l.next().unwrap().ttype, TokenType::Semicolon);
    assert_eq!(l.next().unwrap(), Token::new(TokenType::Integer, String::from("9")));
    assert_eq!(l.next().unwrap().ttype, TokenType::LessThanOrEqual);
    assert_eq!(l.next().unwrap(), Token::new(TokenType::Integer, String::from("10")));
    assert_eq!(l.next().unwrap().ttype, TokenType::Semicolon);
    assert_eq!(l.next().unwrap(), Token::new(TokenType::String, String::from("\"te st\"")));
    assert_eq!(l.next().unwrap().ttype, TokenType::NotEqual);
    assert_eq!(l.next().unwrap(), Token::new(TokenType::String, String::from("\"test\"")));
    assert_eq!(l.next().unwrap().ttype, TokenType::Semicolon);
    assert_eq!(l.next().unwrap().ttype, TokenType::Eof);
}
