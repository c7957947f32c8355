use ruscompile::{
    BinaryOperator, CompilerError, Expression, Lexer, Literal, Location, Parser, Program,
    Statement, Type, UnaryOperator,
};

fn parse(source: &str) -> Result<Program, CompilerError> {
    let tokens = Lexer::new(source).tokenize().unwrap();
    Parser::new(tokens).parse()
}

fn syntax_error(source: &str) -> (usize, usize, String) {
    match parse(source) {
        Err(CompilerError::SyntaxError { line, column, message }) => (line, column, message),
        other => panic!("no syntax error: {:?}", other),
    }
}

fn expression_of(source: &str) -> Expression {
    let mut program = parse(source).unwrap();
    assert_eq!(program.statements.len(), 1);
    match program.statements.remove(0) {
        Statement::Expression(s) => s.expression,
        other => panic!("no expression statement: {:?}", other),
    }
}

fn shape(e: &Expression) -> String {
    match e {
        Expression::Literal(l) => l.value.to_string(),
        Expression::Identifier(i) => i.name.clone(),
        Expression::Binary(b) => {
            format!("({} {} {})", shape(&b.left), b.operator.symbol(), shape(&b.right))
        }
        Expression::Unary(u) => format!("({:?} {})", u.operator, shape(&u.operand)),
        Expression::Call(c) => {
            let args: Vec<String> = c.arguments.iter().map(shape).collect();
            format!("{}[{}]", c.function, args.join(", "))
        }
        Expression::Assignment(a) => format!("({} := {})", a.target, shape(&a.value)),
    }
}

#[test]
fn empty_program() {
    assert_eq!(parse("").unwrap().statements.len(), 0);
    assert_eq!(parse("  // nothing\n").unwrap().statements.len(), 0);
}

#[test]
fn precedence_and_associativity() {
    assert_eq!(shape(&expression_of("a + b * 2 - 3;")), "((a + (b * 2)) - 3)");
    assert_eq!(shape(&expression_of("a - b - c;")), "((a - b) - c)");
    assert_eq!(shape(&expression_of("a / b % c * d;")), "(((a / b) % c) * d)");
    assert_eq!(
        shape(&expression_of("a || b && c == d < e + f * !g;")),
        "(a || (b && (c == (d < (e + (f * (Not g)))))))"
    );
    assert_eq!(shape(&expression_of("(a + b) * c;")), "((a + b) * c)");
    assert_eq!(shape(&expression_of("a = b = c + 1;")), "(a := (b := (c + 1)))");
    assert_eq!(shape(&expression_of("- - x;")), "(Minus (Minus x))");
    assert_eq!(shape(&expression_of("!f(1, g(), \"s\") >= 2.5;")), "((Not f[1, g[], \"s\"]) >= 2.5)");
    assert_eq!(shape(&expression_of("a != b == true;")), "((a != b) == true)");
    assert_eq!(shape(&expression_of("a <= b > c;")), "((a <= b) > c)");
}

#[test]
fn nodes_carry_the_location_of_their_last_token() {
    match expression_of("a + bc;") {
        Expression::Binary(b) => {
            assert_eq!(b.operator, BinaryOperator::Add);
            assert_eq!(b.location, Location { line: 1, column: 5, length: 2 });
        }
        other => panic!("{:?}", other),
    }
    match expression_of("-x;") {
        Expression::Unary(u) => {
            assert_eq!(u.operator, UnaryOperator::Minus);
            assert_eq!(u.location, Location { line: 1, column: 2, length: 1 });
        }
        other => panic!("{:?}", other),
    }
    match expression_of("f(1);") {
        Expression::Call(c) => {
            assert_eq!(c.location, Location { line: 1, column: 4, length: 1 });
        }
        other => panic!("{:?}", other),
    }
    match expression_of("x = 10;") {
        Expression::Assignment(a) => {
            assert_eq!(a.location, Location { line: 1, column: 5, length: 2 });
        }
        other => panic!("{:?}", other),
    }
    match expression_of("12;") {
        Expression::Literal(l) => {
            assert_eq!(l.value, Literal::Integer(12));
            assert_eq!(l.location, Location { line: 1, column: 1, length: 2 });
        }
        other => panic!("{:?}", other),
    }
}

#[test]
fn declarations() {
    let program = parse("var a; var b: float; var c = 1; var d: string = \"s\";").unwrap();
    let found: Vec<(String, Type, bool, usize)> = program
        .statements
        .iter()
        .map(|s| match s {
            Statement::Declaration(d) => {
                (d.name.clone(), d.var_type.clone(), d.initializer.is_some(), d.location.column)
            }
            other => panic!("{:?}", other),
        })
        .collect();
    assert_eq!(
        found,
        vec![
            ("a".to_string(), Type::Int, false, 1),
            ("b".to_string(), Type::Float, false, 8),
            ("c".to_string(), Type::Int, true, 22),
            ("d".to_string(), Type::String, true, 33),
        ]
    );
}

#[test]
fn function_definitions() {
    let program = parse("func f() { }\nfunc g(a: int, b: bool) -> void { return; }").unwrap();
    match &program.statements[0] {
        Statement::Function(f) => {
            assert_eq!(f.name, "f");
            assert!(f.parameters.is_empty());
            assert_eq!(f.return_type, Type::Void);
            assert!(f.body.statements.is_empty());
            assert_eq!(f.location, Location { line: 1, column: 1, length: 4 });
            assert_eq!(f.body.location, Location { line: 1, column: 10, length: 1 });
        }
        other => panic!("{:?}", other),
    }
    match &program.statements[1] {
        Statement::Function(g) => {
            assert_eq!(g.name, "g");
            assert_eq!(g.parameters.len(), 2);
            assert_eq!(g.parameters[0].name, "a");
            assert_eq!(g.parameters[0].param_type, Type::Int);
            assert_eq!(g.parameters[0].location, Location { line: 2, column: 11, length: 3 });
            assert_eq!(g.parameters[1].name, "b");
            assert_eq!(g.parameters[1].param_type, Type::Bool);
            assert_eq!(g.return_type, Type::Void);
            assert!(matches!(&g.body.statements[0], Statement::Return(r) if r.value.is_none()));
        }
        other => panic!("{:?}", other),
    }
}

#[test]
fn control_statements() {
    let program =
        parse("if (a) b; else { c; }\nwhile (x < 1) x = x + 1;\nif (a) if (b) c; else d;").unwrap();
    match &program.statements[0] {
        Statement::If(s) => {
            assert!(matches!(*s.then_branch, Statement::Expression(_)));
            assert!(matches!(s.else_branch.as_deref(), Some(Statement::Block(b)) if b.statements.len() == 1));
            assert_eq!(s.location, Location { line: 1, column: 1, length: 2 });
        }
        other => panic!("{:?}", other),
    }
    match &program.statements[1] {
        Statement::While(s) => {
            assert!(matches!(*s.body, Statement::Expression(_)));
            assert_eq!(s.location, Location { line: 2, column: 1, length: 5 });
        }
        other => panic!("{:?}", other),
    }
    // An `else` belongs to the nearest `if`.
    match &program.statements[2] {
        Statement::If(outer) => {
            assert!(outer.else_branch.is_none());
            assert!(matches!(&*outer.then_branch, Statement::If(inner) if inner.else_branch.is_some()));
        }
        other => panic!("{:?}", other),
    }
}

#[test]
fn syntax_error_at_the_semicolon_of_an_empty_initializer() {
    assert_eq!(
        syntax_error("var x: int = ;"),
        (1, 14, "Expressão inesperada: Semicolon".to_string())
    );
}

#[test]
fn syntax_errors_name_what_was_expected() {
    assert_eq!(syntax_error("a b"), (1, 3, "Esperado 'Semicolon'".to_string()));
    assert_eq!(syntax_error("x"), (1, 2, "Esperado 'Semicolon'".to_string()));
    assert_eq!(syntax_error("(a + b;"), (1, 7, "Esperado 'RightParen'".to_string()));
    assert_eq!(syntax_error("f(a, b;"), (1, 7, "Esperado 'RightParen'".to_string()));
    assert_eq!(syntax_error("if a) b;"), (1, 4, "Esperado 'LeftParen'".to_string()));
    assert_eq!(syntax_error("func f(a int) {}"), (1, 10, "Esperado 'Colon'".to_string()));
    assert_eq!(syntax_error("func f() -> int return 1;"), (1, 17, "Esperado 'LeftBrace'".to_string()));
    assert_eq!(syntax_error("var 1;"), (1, 5, "Esperado nome de variável".to_string()));
    assert_eq!(syntax_error("func (a: int) {}"), (1, 6, "Esperado nome de função".to_string()));
    assert_eq!(syntax_error("func f(1) {}"), (1, 8, "Esperado nome de parâmetro".to_string()));
    assert_eq!(syntax_error("var x: y;"), (1, 8, "Tipo inválido".to_string()));
    assert_eq!(syntax_error("1 + ;"), (1, 5, "Expressão inesperada: Semicolon".to_string()));
    assert_eq!(syntax_error("var x = else;"), (1, 9, "Expressão inesperada: Else".to_string()));
    assert_eq!(syntax_error("}"), (1, 1, "Expressão inesperada: RightBrace".to_string()));
}

#[test]
fn syntax_errors_at_the_end_of_the_tokens() {
    assert_eq!(syntax_error("var"), (0, 0, "Esperado nome de variável".to_string()));
    assert_eq!(syntax_error("func"), (0, 0, "Esperado nome de função".to_string()));
    assert_eq!(syntax_error("func f(a: int,"), (0, 0, "Esperado nome de parâmetro".to_string()));
    assert_eq!(syntax_error("func f(a,"), (1, 9, "Esperado 'Colon'".to_string()));
    assert_eq!(syntax_error("var x:"), (0, 0, "Tipo esperado".to_string()));
    assert_eq!(syntax_error("a +"), (0, 0, "Expressão inesperada no fim do arquivo".to_string()));
    assert_eq!(syntax_error("return"), (0, 0, "Expressão inesperada no fim do arquivo".to_string()));
    assert_eq!(
        syntax_error("func f() { a;"),
        (1, 13, "Esperado '}' antes do fim do arquivo".to_string())
    );
    assert_eq!(syntax_error("{"), (1, 1, "Esperado '}' antes do fim do arquivo".to_string()));
}

#[test]
fn only_identifiers_are_assigned_and_called() {
    assert_eq!(
        syntax_error("a + b = c;"),
        (1, 9, "Expressão inválida para atribuição".to_string())
    );
    assert_eq!(syntax_error("1 = 2;"), (1, 5, "Expressão inválida para atribuição".to_string()));
    assert_eq!(syntax_error("f(1)(2);"), (1, 7, "Esperado nome de função".to_string()));
    // Parentheses leave no trace in the tree: the callee is the identifier.
    assert_eq!(shape(&expression_of("(f)(2);")), "f[2]");
    assert_eq!(syntax_error("3(2);"), (1, 4, "Esperado nome de função".to_string()));
}

#[test]
fn parsing_again_from_the_end_finds_nothing() {
    let tokens = Lexer::new("a;").tokenize().unwrap();
    let mut parser = Parser::new(tokens);
    assert_eq!(parser.parse().unwrap().statements.len(), 1);
    assert_eq!(parser.parse().unwrap().statements.len(), 0);
}

#[test]
fn after_a_syntax_error_the_parser_stands_where_it_stood() {
    let tokens = Lexer::new("a; b; c").tokenize().unwrap();
    let mut parser = Parser::new(tokens);
    let first = parser.parse().unwrap_err();
    assert_eq!(
        first,
        CompilerError::SyntaxError { line: 1, column: 8, message: "Esperado 'Semicolon'".to_string() }
    );
    assert_eq!(parser.parse().unwrap_err(), first);
}
