use ruscompile::{CompilerError, Lexer, Literal, Location, Token, TokenInfo};

fn tokens_of(source: &str) -> Vec<TokenInfo> {
    Lexer::new(source).tokenize().unwrap()
}

fn at(line: usize, column: usize, length: usize) -> Location {
    Location { line, column, length }
}

#[test]
fn empty_source_is_only_end_of_stream() {
    let tokens = tokens_of("");
    assert_eq!(tokens.len(), 1);
    assert!(matches!(tokens[0].token, Token::Eof));
    assert_eq!(tokens[0].location, at(1, 1, 0));
}

#[test]
fn locations_count_lines_and_columns() {
    let tokens = tokens_of("var x\n  = 5;");
    assert_eq!(tokens.len(), 6);
    assert!(matches!(tokens[0].token, Token::Var));
    assert_eq!(tokens[0].location, at(1, 1, 3));
    assert!(matches!(tokens[1].token, Token::Identifier(ref s) if s == "x"));
    assert_eq!(tokens[1].location, at(1, 5, 1));
    assert!(matches!(tokens[2].token, Token::Assign));
    assert_eq!(tokens[2].location, at(2, 3, 1));
    assert!(matches!(tokens[3].token, Token::Integer(5)));
    assert_eq!(tokens[3].location, at(2, 5, 1));
    assert!(matches!(tokens[4].token, Token::Semicolon));
    assert_eq!(tokens[4].location, at(2, 6, 1));
    assert!(matches!(tokens[5].token, Token::Eof));
    assert_eq!(tokens[5].location, at(2, 7, 0));
}

#[test]
fn end_of_stream_after_a_final_line_feed() {
    let tokens = tokens_of("x\n");
    assert_eq!(tokens[1].location, at(2, 1, 0));
}

#[test]
fn columns_and_lengths_are_counted_in_bytes() {
    let tokens = tokens_of("\"é\" x");
    assert!(matches!(tokens[0].token, Token::String(ref s) if s == "é"));
    assert_eq!(tokens[0].location, at(1, 1, 4));
    assert_eq!(tokens[1].location, at(1, 6, 1));
}

#[test]
fn spans_rebuilt_from_locations_are_the_lexemes() {
    let source = "func f(a: int) -> int {\n  return a >= 10 && !b; // note\n}\n\"s\" 4.5";
    let lines: Vec<&str> = source.split('\n').collect();
    let expected = [
        "func", "f", "(", "a", ":", "int", ")", "->", "int", "{", "return", "a", ">=", "10", "&&",
        "!", "b", ";", "}", "\"s\"", "4.5",
    ];
    let tokens = tokens_of(source);
    assert_eq!(tokens.len(), expected.len() + 1);
    for (info, lexeme) in tokens.iter().zip(expected.iter()) {
        let line = lines[info.location.line - 1];
        let start = info.location.column - 1;
        assert_eq!(&line[start..start + info.location.length], *lexeme);
    }
}

#[test]
fn byte_spans_rebuilt_from_locations_are_the_lexemes() {
    let source = "var s = \"çã→\"; // é\nprint(\"日本\" /* ü */ , x1);";
    let lines: Vec<&str> = source.split('\n').collect();
    let line_begins: Vec<usize> = lines
        .iter()
        .scan(0, |begin, line| {
            let this = *begin;
            *begin += line.len() + 1;
            Some(this)
        })
        .collect();
    let expected =
        ["var", "s", "=", "\"çã→\"", ";", "print", "(", "\"日本\"", ",", "x1", ")", ";"];
    let tokens = tokens_of(source);
    assert_eq!(tokens.len(), expected.len() + 1);
    let mut last_end = 0;
    for (info, lexeme) in tokens.iter().zip(expected.iter()) {
        let begins = line_begins[info.location.line - 1] + info.location.column - 1;
        assert!(info.location.length > 0);
        assert!(last_end <= begins);
        assert_eq!(&source.as_bytes()[begins..begins + info.location.length], lexeme.as_bytes());
        last_end = begins + info.location.length;
    }
}

#[test]
fn keywords_booleans_and_identifiers() {
    let tokens = tokens_of("int float bool string void true false iffy _x1 truex");
    assert!(matches!(tokens[0].token, Token::Int));
    assert!(matches!(tokens[1].token, Token::FloatType));
    assert!(matches!(tokens[2].token, Token::Bool));
    assert!(matches!(tokens[3].token, Token::StringType));
    assert!(matches!(tokens[4].token, Token::Void));
    assert!(matches!(tokens[5].token, Token::Boolean(true)));
    assert!(matches!(tokens[6].token, Token::Boolean(false)));
    assert!(matches!(tokens[7].token, Token::Identifier(ref s) if s == "iffy"));
    assert!(matches!(tokens[8].token, Token::Identifier(ref s) if s == "_x1"));
    assert!(matches!(tokens[9].token, Token::Identifier(ref s) if s == "truex"));
}

#[test]
fn longest_operator_wins() {
    let tokens = tokens_of("a->b - > = == ! != && || ( ) { } [ ] , . : ;");
    let kinds: Vec<&Token> = tokens.iter().map(|t| &t.token).collect();
    assert!(matches!(kinds[1], Token::Arrow));
    assert!(matches!(kinds[3], Token::Minus));
    assert!(matches!(kinds[4], Token::GreaterThan));
    assert!(matches!(kinds[5], Token::Assign));
    assert!(matches!(kinds[6], Token::Equal));
    assert!(matches!(kinds[7], Token::Not));
    assert!(matches!(kinds[8], Token::NotEqual));
    assert!(matches!(kinds[9], Token::And));
    assert!(matches!(kinds[10], Token::Or));
    assert!(matches!(kinds[11], Token::LeftParen));
    assert!(matches!(kinds[12], Token::RightParen));
    assert!(matches!(kinds[13], Token::LeftBrace));
    assert!(matches!(kinds[14], Token::RightBrace));
    assert!(matches!(kinds[15], Token::LeftBracket));
    assert!(matches!(kinds[16], Token::RightBracket));
    assert!(matches!(kinds[17], Token::Comma));
    assert!(matches!(kinds[18], Token::Dot));
    assert!(matches!(kinds[19], Token::Colon));
    assert!(matches!(kinds[20], Token::Semicolon));
}

#[test]
fn numbers_with_and_without_a_point() {
    let tokens = tokens_of("12 3.50 7. .5 1.2.3 9abc");
    assert!(matches!(tokens[0].token, Token::Integer(12)));
    assert!(matches!(tokens[1].token, Token::Float(ref s) if s == "3.50"));
    assert!(matches!(tokens[2].token, Token::Integer(7)));
    assert!(matches!(tokens[3].token, Token::Dot));
    assert!(matches!(tokens[4].token, Token::Dot));
    assert!(matches!(tokens[5].token, Token::Integer(5)));
    assert!(matches!(tokens[6].token, Token::Float(ref s) if s == "1.2"));
    assert!(matches!(tokens[7].token, Token::Dot));
    assert!(matches!(tokens[8].token, Token::Integer(3)));
    assert!(matches!(tokens[9].token, Token::Integer(9)));
    assert!(matches!(tokens[10].token, Token::Identifier(ref s) if s == "abc"));
}

#[test]
fn integer_beyond_sixty_four_bits_is_zero() {
    let tokens = tokens_of("9223372036854775807 9223372036854775808 99999999999999999999");
    assert!(matches!(tokens[0].token, Token::Integer(9223372036854775807)));
    assert!(matches!(tokens[1].token, Token::Integer(0)));
    assert!(matches!(tokens[2].token, Token::Integer(0)));
}

#[test]
fn comments_and_blanks_are_skipped() {
    let tokens = tokens_of("// first\n/* second\n * more **/ 1 \t\x0c/**/ 2 // end");
    assert_eq!(tokens.len(), 3);
    assert!(matches!(tokens[0].token, Token::Integer(1)));
    assert_eq!(tokens[0].location, at(3, 13, 1));
    assert!(matches!(tokens[1].token, Token::Integer(2)));
}

#[test]
fn open_block_comment_is_division_and_product() {
    let tokens = tokens_of("/* open");
    assert_eq!(tokens.len(), 4);
    assert!(matches!(tokens[0].token, Token::Slash));
    assert!(matches!(tokens[1].token, Token::Star));
    assert!(matches!(tokens[2].token, Token::Identifier(ref s) if s == "open"));
    let tokens = tokens_of("/*/");
    assert!(matches!(tokens[0].token, Token::Slash));
    assert!(matches!(tokens[1].token, Token::Star));
    assert!(matches!(tokens[2].token, Token::Slash));
}

#[test]
fn string_runs_to_the_last_quote_after_escaped_ones() {
    let tokens = tokens_of(r#""a\"b" c"#);
    assert!(matches!(tokens[0].token, Token::String(ref s) if s == r#"a\"b"#));
    assert_eq!(tokens[0].location, at(1, 1, 6));
    assert!(matches!(tokens[1].token, Token::Identifier(ref s) if s == "c"));
    // A backslash before the last quote of the text does not keep it open.
    let tokens = tokens_of(r#""abc\""#);
    assert_eq!(tokens.len(), 2);
    assert!(matches!(tokens[0].token, Token::String(ref s) if s == r#"abc\"#));
    let tokens = tokens_of("\"\" \"two\nlines\"");
    assert!(matches!(tokens[0].token, Token::String(ref s) if s.is_empty()));
    assert!(matches!(tokens[1].token, Token::String(ref s) if s == "two\nlines"));
}

#[test]
fn what_is_no_token_is_a_lexical_error() {
    let error = Lexer::new("a @ b").tokenize().unwrap_err();
    assert_eq!(
        error,
        CompilerError::LexicalError {
            line: 1,
            column: 3,
            message: "Token inválido: '@'".to_string()
        }
    );
    assert_eq!(error.to_string(), "Erro léxico na linha 1, coluna 3: Token inválido: '@'");
    for (source, line, column, found) in [
        ("x\n &y", 2, 2, "&"),
        ("a | b", 1, 3, "|"),
        ("\"open", 1, 1, "\""),
        ("x\r\n", 1, 2, "\r"),
        ("é", 1, 1, "é"),
        ("~a", 1, 1, "~"),
    ] {
        let error = Lexer::new(source).tokenize().unwrap_err();
        assert_eq!(
            error,
            CompilerError::LexicalError {
                line,
                column,
                message: format!("Token inválido: '{}'", found)
            }
        );
    }
}

#[test]
fn lexer_keeps_its_tokens_and_walks_them() {
    let mut lexer = Lexer::new("var x;");
    assert!(lexer.current().is_none());
    assert!(lexer.peek(0).is_none());
    assert!(lexer.advance().is_none());
    lexer.tokenize().unwrap();
    assert!(matches!(lexer.current().unwrap().token, Token::Var));
    assert!(matches!(lexer.peek(1).unwrap().token, Token::Identifier(_)));
    assert!(matches!(lexer.peek(3).unwrap().token, Token::Eof));
    assert!(lexer.peek(4).is_none());
    assert!(lexer.peek(usize::MAX).is_none());
    assert!(lexer.check(Token::Var));
    assert!(!lexer.check(Token::Func));
    assert!(!lexer.match_token(Token::Semicolon));
    assert!(lexer.match_token(Token::Var));
    // Tokens are compared by their kind, not by what they carry.
    assert!(lexer.check(Token::Identifier(String::new())));
    let error = lexer.expect(Token::Semicolon).unwrap_err();
    assert_eq!(
        error,
        CompilerError::SyntaxError {
            line: 1,
            column: 5,
            message: "Esperado 'Semicolon', encontrado 'Identifier(\"x\")'".to_string()
        }
    );
    assert!(matches!(lexer.expect(Token::Identifier(String::new())).unwrap().token, Token::Identifier(ref s) if s == "x"));
    assert!(matches!(lexer.advance().unwrap().token, Token::Semicolon));
    assert!(matches!(lexer.advance().unwrap().token, Token::Eof));
    assert!(lexer.advance().is_none());
    let error = lexer.expect(Token::Integer(7)).unwrap_err();
    assert_eq!(
        error,
        CompilerError::SyntaxError {
            line: 0,
            column: 0,
            message: "Esperado 'Integer(7)', mas chegou ao fim do arquivo".to_string()
        }
    );
}

#[test]
fn token_classes_and_literals() {
    assert!(Token::If.is_keyword());
    assert!(Token::Void.is_keyword());
    assert!(!Token::Colon.is_keyword());
    assert!(!Token::Identifier("if".to_string()).is_keyword());
    assert!(Token::Int.is_type());
    assert!(Token::StringType.is_type());
    assert!(!Token::Func.is_type());
    assert_eq!(Token::Integer(5).to_literal(), Some(Literal::Integer(5)));
    assert_eq!(Token::Float("1.5".to_string()).to_literal(), Some(Literal::Float("1.5".to_string())));
    assert_eq!(Token::String("s".to_string()).to_literal(), Some(Literal::String("s".to_string())));
    assert_eq!(Token::Boolean(true).to_literal(), Some(Literal::Boolean(true)));
    assert_eq!(Token::Plus.to_literal(), None);
    assert!(Token::Integer(1).same_kind(&Token::Integer(2)));
    assert!(!Token::Integer(1).same_kind(&Token::Float("1.0".to_string())));
}

#[test]
fn token_forms_in_messages() {
    let mut text = String::new();
    Token::String("a\"b\n".to_string()).append_debug(&mut text);
    assert_eq!(text, "String(\"a\\\"b\\n\")");
    let mut text = String::from("> ");
    Token::Integer(-3).append_debug(&mut text);
    Token::Boolean(false).append_debug(&mut text);
    Token::Float("2.5".to_string()).append_debug(&mut text);
    Token::LeftBrace.append_debug(&mut text);
    assert_eq!(text, "> Integer(-3)Boolean(false)Float(2.5)LeftBrace");
}
