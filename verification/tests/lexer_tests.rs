use ruscompile::{Lexer, Token};

#[test]
fn test_basic_tokens() {
    let source = "123 45.67 true false \"hello\"";
    let mut lexer = Lexer::new(source);
    let tokens = lexer.tokenize().unwrap();

    // Five literals and the end-of-stream token.
    assert_eq!(tokens.len(), 6);
    assert!(matches!(tokens[0].token, Token::Integer(123)));
    assert!(matches!(&tokens[1].token, Token::Float(x) if x.parse::<f64>() == Ok(45.67)));
    assert!(matches!(tokens[2].token, Token::Boolean(true)));
    assert!(matches!(tokens[3].token, Token::Boolean(false)));
    assert!(matches!(tokens[4].token, Token::String(ref s) if s == "hello"));
    assert!(matches!(tokens[5].token, Token::Eof));
}

#[test]
fn test_operators() {
    let source = "+ - * / % == != < <= > >=";
    let mut lexer = Lexer::new(source);
    let tokens = lexer.tokenize().unwrap();

    assert_eq!(tokens.len(), 12);
    assert!(matches!(tokens[0].token, Token::Plus));
    assert!(matches!(tokens[1].token, Token::Minus));
    assert!(matches!(tokens[2].token, Token::Star));
    assert!(matches!(tokens[3].token, Token::Slash));
    assert!(matches!(tokens[4].token, Token::Percent));
    assert!(matches!(tokens[5].token, Token::Equal));
    assert!(matches!(tokens[6].token, Token::NotEqual));
    assert!(matches!(tokens[7].token, Token::LessThan));
    assert!(matches!(tokens[8].token, Token::LessThanEqual));
    assert!(matches!(tokens[9].token, Token::GreaterThan));
    assert!(matches!(tokens[10].token, Token::GreaterThanEqual));
}

#[test]
fn test_keywords() {
    let source = "if else while for return var func";
    let mut lexer = Lexer::new(source);
    let tokens = lexer.tokenize().unwrap();

    // Seven keywords and the end-of-stream token.
    assert_eq!(tokens.len(), 8);
    assert!(matches!(tokens[0].token, Token::If));
    assert!(matches!(tokens[1].token, Token::Else));
    assert!(matches!(tokens[2].token, Token::While));
    assert!(matches!(tokens[3].token, Token::For));
    assert!(matches!(tokens[4].token, Token::Return));
    assert!(matches!(tokens[5].token, Token::Var));
    assert!(matches!(tokens[6].token, Token::Func));
    assert!(matches!(tokens[7].token, Token::Eof));
}
