use ruscompile::semantic::{Scope, Symbol};
use ruscompile::types::types_compatible;
use ruscompile::{
    AssignmentStatement, CompilerError, DeclarationStatement, Expression, IdentifierExpression,
    IfStatement, Lexer, Literal, LiteralExpression, Location, Parser, Program, SemanticAnalyzer,
    Statement, Type, UnaryExpression, UnaryOperator,
};

fn analyze(source: &str) -> Result<(), CompilerError> {
    let tokens = Lexer::new(source).tokenize().unwrap();
    let program = Parser::new(tokens).parse().unwrap();
    SemanticAnalyzer::new().analyze(&program)
}

fn in_main(body: &str) -> Result<(), CompilerError> {
    analyze(&format!("func main() -> int {{ {} return 0; }}", body))
}

fn semantic_message(result: Result<(), CompilerError>) -> String {
    match result {
        Err(CompilerError::SemanticError { message, line: Some(_), column: Some(_) }) => message,
        other => panic!("no semantic error: {:?}", other),
    }
}

fn type_message(result: Result<(), CompilerError>) -> String {
    match result {
        Err(CompilerError::TypeError { message, line: Some(_), column: Some(_) }) => message,
        other => panic!("no type error: {:?}", other),
    }
}

fn variable(name: &str, symbol_type: Type) -> Symbol {
    Symbol {
        name: name.to_string(),
        symbol_type,
        is_function: false,
        parameters: vec![],
        return_type: None,
    }
}

#[test]
fn main_that_returns_a_number_is_valid() {
    assert_eq!(analyze("func main() -> int { return 42; }"), Ok(()));
}

#[test]
fn recursion_is_valid() {
    assert_eq!(
        analyze(
            "func f(n: int) -> int { if (n <= 1) { return 1; } else { return n * f(n - 1); } } \
             func main() -> int { return f(5); }"
        ),
        Ok(())
    );
}

#[test]
fn assigning_a_string_to_an_integer_is_a_type_error_at_the_assignment() {
    let result = analyze(
        "func main() -> int { var x: int = 10; var y: string = \"hi\"; x = y; return x; }",
    );
    assert_eq!(
        result,
        Err(CompilerError::TypeError {
            message: "Tipo incompatível na atribuição: esperado int, encontrado string".to_string(),
            line: Some(1),
            column: Some(65),
        })
    );
}

#[test]
fn names_declared_in_a_block_end_with_it() {
    assert_eq!(
        semantic_message(in_main("{ var a: int = 1; } a = 2;")),
        "Variável 'a' não foi declarada"
    );
    assert_eq!(
        semantic_message(in_main("if (true) { var a: int = 1; } var b: int = a;")),
        "Variável 'a' não foi declarada"
    );
    assert_eq!(
        semantic_message(in_main("while (false) { var a: int = 1; } println_int(a);")),
        "Variável 'a' não foi declarada"
    );
    assert_eq!(
        semantic_message(analyze("func f(p: int) { var q: int = p; } func g() { p = 1; }")),
        "Variável 'p' não foi declarada"
    );
    assert_eq!(
        semantic_message(analyze("func f(p: int) { var q: int = p; } func g() { q = 1; }")),
        "Variável 'q' não foi declarada"
    );
}

#[test]
fn a_name_is_declared_once_in_its_scope() {
    assert_eq!(
        semantic_message(in_main("var a: int = 1; var a: int = 2;")),
        "Variável 'a' já foi declarada"
    );
    assert_eq!(
        semantic_message(analyze("var print: int = 1;")),
        "Variável 'print' já foi declarada"
    );
    assert_eq!(
        semantic_message(analyze("func f() { } func f() { }")),
        "Função 'f' já foi declarada"
    );
    assert_eq!(
        semantic_message(analyze("var f: int = 1; func f() { }")),
        "Função 'f' já foi declarada"
    );
    assert_eq!(
        analyze("func f(a: int, a: bool) { }"),
        Err(CompilerError::SemanticError {
            message: "Símbolo 'a' já está definido".to_string(),
            line: None,
            column: None,
        })
    );
}

#[test]
fn a_name_may_be_declared_again_in_an_inner_scope() {
    assert_eq!(in_main("var a: int = 1; { var a: float = 2.5; { var a: bool = true; } }"), Ok(()));
    assert_eq!(in_main("var a: int = 1; if (a == 1) { var a: string = \"s\"; print(a); }"), Ok(()));
    assert_eq!(analyze("var x: int = 1; func f(x: bool) -> bool { return x; }"), Ok(()));
    assert_eq!(analyze("func f(x: int) -> bool { var x: bool = true; return x; }"), Ok(()));
    assert_eq!(analyze("func println() { } func main() { { func main() { } } }"), Err(
        CompilerError::SemanticError {
            message: "Função 'println' já foi declarada".to_string(),
            line: Some(1),
            column: Some(1),
        }
    ));
    assert_eq!(analyze("func main() { func print(a: int) { } print(1); }"), Ok(()));
    // After the inner declaration ends, the outer one is seen again.
    assert_eq!(
        type_message(in_main("var a: int = 1; { var a: string = \"s\"; } a = \"t\";")),
        "Tipo incompatível na atribuição: esperado int, encontrado string"
    );
}

#[test]
fn arithmetic_types() {
    assert_eq!(in_main("var a: int = 1 + 2;"), Ok(()));
    assert_eq!(in_main("var a: int = 7 - 2 * 3 / 4 % 5;"), Ok(()));
    assert_eq!(in_main("var a: float = 1 + 2.5;"), Ok(()));
    assert_eq!(in_main("var a: float = 2.5 * 2.5;"), Ok(()));
    assert_eq!(
        type_message(in_main("var a: int = 1 + 2.5;")),
        "Tipo incompatível: esperado int, encontrado float"
    );
    assert_eq!(
        type_message(in_main("var a: int = 1 + true;")),
        "Operação + não suportada entre int e bool"
    );
    assert_eq!(
        type_message(in_main("var a: string = \"a\" + \"b\";")),
        "Operação + não suportada entre string e string"
    );
    assert_eq!(
        type_message(in_main("var a: int = 5 % 2.0;")),
        "Operação módulo não suportada entre int e float"
    );
    assert_eq!(
        type_message(in_main("var a: int = 1 / print;")),
        "Operação / não suportada entre int e (string) -> void"
    );
}

#[test]
fn logical_and_comparison_types() {
    assert_eq!(in_main("var a: bool = true && false || true;"), Ok(()));
    assert_eq!(
        type_message(in_main("var a: bool = 1 && true;")),
        "Operação lógica && não suportada entre int e bool"
    );
    assert_eq!(
        type_message(in_main("var a: bool = true || 0;")),
        "Operação lógica || não suportada entre bool e int"
    );
    assert_eq!(in_main("var a: bool = 1 < 2.5; var b: bool = 2.5 >= 1;"), Ok(()));
    assert_eq!(
        type_message(in_main("var a: bool = true < false;")),
        "Comparação < não suportada entre bool e bool"
    );
    assert_eq!(in_main("var a: bool = 1 == 1; var b: bool = \"a\" != \"b\"; var c: bool = 1.5 == 1;"), Ok(()));
    // An integer stands for a floating-point number, not the other way.
    assert_eq!(
        type_message(in_main("var a: bool = 1 == 1.5;")),
        "Comparação == não suportada entre int e float"
    );
    assert_eq!(
        type_message(in_main("var a: bool = 1 != true;")),
        "Comparação != não suportada entre int e bool"
    );
}

#[test]
fn unary_types() {
    assert_eq!(in_main("var a: int = -1; var b: float = -1.5; var c: bool = !true;"), Ok(()));
    assert_eq!(
        type_message(in_main("var a: bool = -true;")),
        "Operador - não suportado para tipo bool"
    );
    assert_eq!(type_message(in_main("var a: bool = !1;")), "Operador ! não suportado para tipo int");
    let at = Location { line: 3, column: 4, length: 1 };
    let negate = |operand: Literal| Program {
        statements: vec![Statement::Expression(ruscompile::ExpressionStatement {
            expression: Expression::Unary(UnaryExpression {
                operator: UnaryOperator::Negate,
                operand: Box::new(Expression::Literal(LiteralExpression { value: operand, location: at })),
                location: at,
            }),
            location: at,
        })],
    };
    assert_eq!(SemanticAnalyzer::new().analyze(&negate(Literal::Integer(1))), Ok(()));
    assert_eq!(
        SemanticAnalyzer::new().analyze(&negate(Literal::Float("1.5".to_string()))),
        Err(CompilerError::TypeError {
            message: "Operador ~ não suportado para tipo float".to_string(),
            line: Some(3),
            column: Some(4),
        })
    );
}

#[test]
fn initializers_and_assignments_widen_integers_only() {
    assert_eq!(in_main("var f: float = 1; f = 2; f = 2.5;"), Ok(()));
    assert_eq!(
        type_message(in_main("var i: int = \"s\";")),
        "Tipo incompatível: esperado int, encontrado string"
    );
    assert_eq!(
        type_message(in_main("var i: int = 1; i = 1.5;")),
        "Tipo incompatível na atribuição: esperado int, encontrado float"
    );
    assert_eq!(
        semantic_message(in_main("var x: int = x;")),
        "Variável 'x' não foi declarada"
    );
    assert_eq!(semantic_message(in_main("y = 1;")), "Variável 'y' não foi declarada");
    assert_eq!(
        semantic_message(in_main("main = 1;")),
        "Não é possível atribuir a função 'main'"
    );
    assert_eq!(in_main("var a: int = 0; var b: int = a = 3;"), Ok(()));
}

#[test]
fn assignment_statements_follow_the_same_rules() {
    let at = Location { line: 2, column: 7, length: 1 };
    let program = |target: &str, value: Literal| Program {
        statements: vec![
            Statement::Declaration(DeclarationStatement {
                name: "x".to_string(),
                var_type: Type::Float,
                initializer: None,
                location: at,
            }),
            Statement::Assignment(AssignmentStatement {
                target: target.to_string(),
                value: Expression::Literal(LiteralExpression { value, location: at }),
                location: at,
            }),
        ],
    };
    assert_eq!(SemanticAnalyzer::new().analyze(&program("x", Literal::Integer(1))), Ok(()));
    assert_eq!(
        SemanticAnalyzer::new().analyze(&program("x", Literal::Boolean(true))),
        Err(CompilerError::TypeError {
            message: "Tipo incompatível na atribuição: esperado float, encontrado bool".to_string(),
            line: Some(2),
            column: Some(7),
        })
    );
    assert_eq!(
        semantic_message(SemanticAnalyzer::new().analyze(&program("z", Literal::Integer(1)))),
        "Variável 'z' não foi declarada"
    );
    assert_eq!(
        semantic_message(SemanticAnalyzer::new().analyze(&program("print", Literal::Integer(1)))),
        "Não é possível atribuir a função 'print'"
    );
}

#[test]
fn a_declaration_in_a_bare_branch_stays_in_the_scope_around_it() {
    let at = Location { line: 1, column: 1, length: 1 };
    let program = Program {
        statements: vec![
            Statement::If(IfStatement {
                condition: Expression::Literal(LiteralExpression {
                    value: Literal::Boolean(true),
                    location: at,
                }),
                then_branch: Box::new(Statement::Declaration(DeclarationStatement {
                    name: "a".to_string(),
                    var_type: Type::Int,
                    initializer: None,
                    location: at,
                })),
                else_branch: None,
                location: at,
            }),
            Statement::Expression(ruscompile::ExpressionStatement {
                expression: Expression::Identifier(IdentifierExpression {
                    name: "a".to_string(),
                    location: at,
                }),
                location: at,
            }),
        ],
    };
    assert_eq!(SemanticAnalyzer::new().analyze(&program), Ok(()));
}

#[test]
fn conditions_are_booleans() {
    assert_eq!(
        type_message(in_main("if (1) { }")),
        "Condição do if deve ser bool, encontrado int"
    );
    assert_eq!(
        type_message(in_main("while (\"s\") { }")),
        "Condição do while deve ser bool, encontrado string"
    );
    assert_eq!(in_main("var i: int = 0; while (i < 5) { i = i + 1; }"), Ok(()));
}

#[test]
fn returns_fit_their_function() {
    assert_eq!(
        semantic_message(analyze("return 1;")),
        "Return fora de função"
    );
    assert_eq!(
        type_message(analyze("func f() -> int { return true; }")),
        "Tipo de retorno incompatível: esperado int, encontrado bool"
    );
    assert_eq!(
        type_message(analyze("func f() -> int { return; }")),
        "Função deve retornar int, mas não há valor de retorno"
    );
    assert_eq!(
        type_message(analyze("func f() { return 1; }")),
        "Tipo de retorno incompatível: esperado void, encontrado int"
    );
    assert_eq!(analyze("func f() { return; } func g() -> float { return 1; }"), Ok(()));
    // After a function ends, a `return` stands outside every function again.
    assert_eq!(
        semantic_message(analyze("func f() { } return;")),
        "Return fora de função"
    );
    // A function inside a function has its own return type.
    assert_eq!(
        analyze("func f() -> int { func g() -> bool { return true; } return 1; }"),
        Ok(())
    );
}

#[test]
fn calls_fit_their_function() {
    assert_eq!(in_main("print(\"a\"); println(\"b\"); println_int(1); println_float(1.5); println_bool(true);"), Ok(()));
    assert_eq!(in_main("println_float(1);"), Ok(()));
    assert_eq!(semantic_message(in_main("g();")), "Função 'g' não foi declarada");
    assert_eq!(
        semantic_message(in_main("var v: int = 1; v(1);")),
        "'v' não é uma função"
    );
    assert_eq!(
        semantic_message(in_main("print();")),
        "Função 'print' espera 1 argumentos, mas 0 foram fornecidos"
    );
    assert_eq!(
        semantic_message(in_main("print(\"a\", \"b\");")),
        "Função 'print' espera 1 argumentos, mas 2 foram fornecidos"
    );
    assert_eq!(
        type_message(in_main("println(1);")),
        "Argumento 1 da função 'println': esperado string, encontrado int"
    );
    assert_eq!(
        type_message(analyze("func f(a: int, b: bool) { } func main() { f(1, 2); }")),
        "Argumento 2 da função 'f': esperado bool, encontrado int"
    );
    assert_eq!(
        type_message(in_main("var s: string = print(\"a\");")),
        "Tipo incompatível: esperado string, encontrado void"
    );
    assert_eq!(analyze("func f() -> int { return 1; } func main() -> int { return f() + 1; }"), Ok(()));
}

#[test]
fn analyzing_twice_meets_the_built_in_functions_again() {
    let tokens = Lexer::new("var a: int = 1;").tokenize().unwrap();
    let program = Parser::new(tokens).parse().unwrap();
    let mut analyzer = SemanticAnalyzer::new();
    assert_eq!(analyzer.analyze(&program), Ok(()));
    assert_eq!(
        analyzer.analyze(&program),
        Err(CompilerError::SemanticError {
            message: "Símbolo 'print' já está definido".to_string(),
            line: None,
            column: None,
        })
    );
}

#[test]
fn scopes_resolve_from_the_inside_out() {
    let mut outer = Scope::new();
    assert!(outer.resolve("a").is_none());
    assert!(!outer.declares("a"));
    assert!(outer.define(variable("a", Type::Int)).is_ok());
    assert!(outer.define(variable("b", Type::Bool)).is_ok());
    assert_eq!(
        outer.define(variable("a", Type::Float)),
        Err(CompilerError::SemanticError {
            message: "Símbolo 'a' já está definido".to_string(),
            line: None,
            column: None,
        })
    );
    assert_eq!(outer.resolve("a").unwrap().symbol_type, Type::Int);

    let mut inner = Scope::with_parent(outer);
    assert!(!inner.declares("a"));
    assert_eq!(inner.resolve("a").unwrap().symbol_type, Type::Int);
    assert!(inner.define(variable("a", Type::String)).is_ok());
    assert!(inner.declares("a"));
    assert_eq!(inner.resolve("a").unwrap().symbol_type, Type::String);
    assert_eq!(inner.resolve("b").unwrap().symbol_type, Type::Bool);
    assert!(inner.resolve("c").is_none());

    let copy = inner.clone();
    assert_eq!(copy.resolve("a").unwrap().symbol_type, Type::String);
    assert_eq!(copy.resolve("b").unwrap().clone().name, "b");

    let outer = inner.into_parent().unwrap();
    assert_eq!(outer.resolve("a").unwrap().symbol_type, Type::Int);
    assert!(outer.into_parent().is_none());
}

#[test]
fn function_types_are_compatible_part_by_part() {
    let function = |parameters: Vec<Type>, return_type: Type| Type::Function {
        parameters,
        return_type: Box::new(return_type),
    };
    assert!(types_compatible(&Type::Float, &Type::Int));
    assert!(!types_compatible(&Type::Int, &Type::Float));
    assert!(!types_compatible(&Type::Void, &Type::Int));
    assert!(types_compatible(&Type::Void, &Type::Void));
    assert!(types_compatible(
        &function(vec![Type::Float, Type::Bool], Type::Float),
        &function(vec![Type::Int, Type::Bool], Type::Int)
    ));
    assert!(!types_compatible(
        &function(vec![Type::Int], Type::Float),
        &function(vec![Type::Float], Type::Float)
    ));
    assert!(!types_compatible(
        &function(vec![Type::Int], Type::Int),
        &function(vec![Type::Int], Type::Float)
    ));
    assert!(!types_compatible(
        &function(vec![Type::Int], Type::Int),
        &function(vec![Type::Int, Type::Int], Type::Int)
    ));
    assert!(!types_compatible(&function(vec![], Type::Int), &Type::Int));
    assert_eq!(
        function(vec![Type::Int, function(vec![], Type::Void)], Type::String).to_string(),
        "(int, () -> void) -> string"
    );
}
