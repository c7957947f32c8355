use ruscompile::error::ErrorLocation;
use ruscompile::{
    compile, validate, BinaryOperator, CodeValidator, Compiler, CompilerConfig, CompilerError,
    CompilerStats, ComplexityAnalyzer, DocumentationFormat, DocumentationGenerator, Lexer,
    Literal, Optimizer, OutputFormat, Parser, Program, SourceFormatter, Type, UnaryOperator,
};

fn parse(source: &str) -> Program {
    let tokens = Lexer::new(source).tokenize().unwrap();
    Parser::new(tokens).parse().unwrap()
}

#[test]
fn each_error_has_its_message() {
    assert_eq!(
        CompilerError::lexical(3, 7, "m".to_string()),
        CompilerError::LexicalError { line: 3, column: 7, message: "m".to_string() }
    );
    assert_eq!(CompilerError::lexical(3, 7, "m".to_string()).to_string(), "Erro léxico na linha 3, coluna 7: m");
    assert_eq!(
        CompilerError::syntax(12, 0, "m".to_string()).to_string(),
        "Erro de sintaxe na linha 12, coluna 0: m"
    );
    assert_eq!(
        CompilerError::semantic("m".to_string()),
        CompilerError::SemanticError { message: "m".to_string(), line: None, column: None }
    );
    assert_eq!(CompilerError::semantic("m".to_string()).to_string(), "Erro semântico: m");
    assert_eq!(
        CompilerError::semantic_with_location("m".to_string(), 1, 2),
        CompilerError::SemanticError { message: "m".to_string(), line: Some(1), column: Some(2) }
    );
    assert_eq!(
        CompilerError::semantic_with_location("m".to_string(), 1, 2).to_string(),
        "Erro semântico: m"
    );
    assert_eq!(
        CompilerError::type_error("m".to_string()),
        CompilerError::TypeError { message: "m".to_string(), line: None, column: None }
    );
    assert_eq!(
        CompilerError::type_error_with_location("m".to_string(), 4, 5),
        CompilerError::TypeError { message: "m".to_string(), line: Some(4), column: Some(5) }
    );
    assert_eq!(CompilerError::type_error("m".to_string()).to_string(), "Erro de tipo: m");
    assert_eq!(
        CompilerError::codegen("m".to_string()).to_string(),
        "Erro de geração de código: m"
    );
    assert_eq!(
        CompilerError::internal("m".to_string()).to_string(),
        "Erro interno do compilador: m"
    );
    assert_eq!(
        CompilerError::from("m".to_string()),
        CompilerError::InternalError { message: "m".to_string() }
    );
    let location = ErrorLocation { line: 10, column: 200, _length: 3 };
    assert_eq!(location.to_string(), "linha 10, coluna 200");
}

#[test]
fn spellings_of_types_operators_and_literals() {
    assert_eq!(Type::Int.to_string(), "int");
    assert_eq!(Type::Float.to_string(), "float");
    assert_eq!(Type::Bool.to_string(), "bool");
    assert_eq!(Type::String.to_string(), "string");
    assert_eq!(Type::Void.to_string(), "void");
    assert_eq!(
        Type::Function { parameters: vec![], return_type: Box::new(Type::Int) }.to_string(),
        "() -> int"
    );
    assert_eq!(
        Type::Function { parameters: vec![Type::Int], return_type: Box::new(Type::Void) }.to_string(),
        "(int) -> void"
    );
    assert_eq!(
        Type::Function {
            parameters: vec![Type::Int, Type::String, Type::Bool],
            return_type: Box::new(Type::Float)
        }
        .to_string(),
        "(int, string, bool) -> float"
    );
    let operators = [
        (BinaryOperator::Add, "+"),
        (BinaryOperator::Subtract, "-"),
        (BinaryOperator::Multiply, "*"),
        (BinaryOperator::Divide, "/"),
        (BinaryOperator::Modulo, "%"),
        (BinaryOperator::Equal, "=="),
        (BinaryOperator::NotEqual, "!="),
        (BinaryOperator::LessThan, "<"),
        (BinaryOperator::LessThanEqual, "<="),
        (BinaryOperator::GreaterThan, ">"),
        (BinaryOperator::GreaterThanEqual, ">="),
        (BinaryOperator::And, "&&"),
        (BinaryOperator::Or, "||"),
    ];
    for (operator, spelling) in operators {
        assert_eq!(operator.to_string(), spelling);
    }
    assert_eq!(UnaryOperator::Negate.to_string(), "~");
    assert_eq!(UnaryOperator::Not.to_string(), "!");
    assert_eq!(UnaryOperator::Minus.to_string(), "-");
    assert_eq!(Literal::Integer(0).to_string(), "0");
    assert_eq!(Literal::Integer(-120).to_string(), "-120");
    assert_eq!(Literal::Integer(i64::MIN).to_string(), "-9223372036854775808");
    assert_eq!(Literal::Integer(i64::MAX).to_string(), "9223372036854775807");
    assert_eq!(Literal::Float("2.50".to_string()).to_string(), "2.50");
    assert_eq!(Literal::Boolean(true).to_string(), "true");
    assert_eq!(Literal::Boolean(false).to_string(), "false");
    assert_eq!(Literal::String("a b".to_string()).to_string(), "\"a b\"");
}

#[test]
fn default_settings_and_counts() {
    let config = CompilerConfig::default();
    assert_eq!(config._optimization_level, 0);
    assert!(!config._show_tokens && !config._show_ast && !config._show_assembly);
    assert!(!config._warnings_as_errors);
    assert_eq!(config._target_architecture, "x86_64");
    assert_eq!(config._output_format, OutputFormat::Assembly);
    let copy = config.clone();
    assert_eq!(copy._target_architecture, "x86_64");
    let stats = CompilerStats::new();
    assert_eq!(
        stats.to_string(),
        "Estatísticas: 0 linhas, 0 tokens, 0 nós AST, 0 funções, 0 variáveis, 0 erros, 0 avisos, 0ms"
    );
    let stats = CompilerStats {
        lines_processed: 12,
        tokens_generated: 345,
        ast_nodes: 67,
        functions_defined: 8,
        variables_declared: 9,
        errors_found: 1,
        warnings_found: 2,
        compilation_time_ms: 30,
    };
    assert_eq!(
        stats.to_string(),
        "Estatísticas: 12 linhas, 345 tokens, 67 nós AST, 8 funções, 9 variáveis, 1 erros, 2 avisos, 30ms"
    );
    assert_eq!(CompilerStats::default().tokens_generated, 0);
}

#[test]
fn formatter_indents_by_braces() {
    let formatter = SourceFormatter::new();
    assert_eq!(formatter.format_source(""), "");
    assert_eq!(formatter.format_source("a"), "a\n");
    assert_eq!(formatter.format_source("a\n"), "a\n");
    assert_eq!(formatter.format_source("\n\n"), "\n\n");
    assert_eq!(
        formatter.format_source(
            "func main() {\r\n\t var x = 1;   \n\n  if (x) {\nx = 2;\n        } else {\n x = 3;\n}\n}\n}\nend"
        ),
        "func main() {\n    var x = 1;\n\n    if (x) {\n        x = 2;\n    } else {\n        x = 3;\n    }\n}\n}\nend\n"
    );
    assert_eq!(formatter.format_source(" \u{a0}{\u{3000} \n \u{2003}x"), "{\n    x\n");
    assert_eq!(Compiler::new().format_source("{\n{\na\n}\n}"), "{\n    {\n        a\n    }\n}\n");
}

#[test]
fn complexity_counts_branches_of_a_function() {
    let program = parse(
        "func plain() { var a = 1; }\n\
         func branching(n: int) { if (n > 0) { while (n > 0) { n = n - 1; } } { while (true) { } if (true) 1; } while (false) { } }",
    );
    let mut analyzer = ComplexityAnalyzer::new();
    assert_eq!(analyzer.get_complexity_report(), "=== Relatório de Complexidade Ciclomática ===\n");
    assert_eq!(analyzer.analyze_function("plain", &program.statements[0]), 1);
    assert_eq!(analyzer.analyze_function("branching", &program.statements[1]), 5);
    assert_eq!(
        analyzer.get_complexity_report(),
        "=== Relatório de Complexidade Ciclomática ===\nplain: 1 (Baixo)\nbranching: 5 (Baixo)\n"
    );
    // A name analyzed again keeps its place and takes the new measure.
    assert_eq!(analyzer.analyze_function("plain", &program.statements[1]), 5);
    assert_eq!(
        analyzer.get_complexity_report(),
        "=== Relatório de Complexidade Ciclomática ===\nplain: 5 (Baixo)\nbranching: 5 (Baixo)\n"
    );
}

#[test]
fn complexity_has_four_levels_of_risk() {
    let function_with = |branches: usize| {
        let body: String = (0..branches).map(|_| "if (true) { }".to_string()).collect();
        parse(&format!("func f() {{ {} }}", body))
    };
    let mut analyzer = ComplexityAnalyzer::new();
    for (name, branches) in [("a", 9), ("b", 10), ("c", 19), ("d", 20), ("e", 49), ("f", 50)] {
        let program = function_with(branches);
        assert_eq!(analyzer.analyze_function(name, &program.statements[0]), branches + 1);
    }
    let statement = parse("var x = 1;");
    assert_eq!(analyzer.analyze_function("none", &statement.statements[0]), 0);
    assert_eq!(
        analyzer.get_complexity_report(),
        "=== Relatório de Complexidade Ciclomática ===\n\
         a: 10 (Baixo)\nb: 11 (Médio)\nc: 20 (Médio)\nd: 21 (Alto)\ne: 50 (Alto)\nf: 51 (Muito Alto)\nnone: 0 (Muito Alto)\n"
    );
}

#[test]
fn complexity_report_of_a_source() {
    let compiler = Compiler::new();
    assert_eq!(
        compiler
            .analyze_complexity("var x = 1; func f() { if (x) { } } func g() { } func f() { }")
            .unwrap(),
        "=== Relatório de Complexidade Ciclomática ===\nf: 1 (Baixo)\ng: 1 (Baixo)\n"
    );
    assert!(matches!(
        compiler.analyze_complexity("func f( {"),
        Err(CompilerError::SyntaxError { .. })
    ));
    assert!(matches!(compiler.analyze_complexity("#"), Err(CompilerError::LexicalError { .. })));
}

#[test]
fn optimizer_accepts_levels_up_to_three() {
    let mut program = parse("var x = 2 + 3; func f(a: int) { if (a > f(1)) { return; } }");
    let before = program.clone();
    for level in 0..=3u8 {
        let mut config = CompilerConfig::default();
        config._optimization_level = level;
        assert_eq!(Optimizer::new(config).optimize_ast(&mut program), Ok(()));
        assert_eq!(program, before);
    }
    let mut config = CompilerConfig::default();
    config._optimization_level = 4;
    assert_eq!(
        Optimizer::new(config).optimize_ast(&mut program),
        Err("Nível de otimização inválido".to_string())
    );
    assert_eq!(program, before);
}

#[test]
fn validator_warns_without_main() {
    let mut validator = CodeValidator::new();
    assert!(validator.get_warnings().is_empty());
    assert!(validator.get_errors().is_empty());
    assert!(validator.validate(&parse("func f() { } var main = 1;")));
    assert_eq!(validator.get_warnings(), ["Função 'main' não encontrada".to_string()]);
    assert!(validator.get_errors().is_empty());
    assert!(validator.validate(&parse("func f() { } func main() { }")));
    assert!(validator.get_warnings().is_empty());
    // A function inside another is not the program's `main`.
    assert!(validator.validate(&parse("func f() { func main() { } }")));
    assert_eq!(validator.get_warnings().len(), 1);
}

#[test]
fn documentation_in_each_format() {
    let program = parse(
        "func add(a: int, b: float) -> float { return a + b; }\nvar x = 1;\nfunc run() { }",
    );
    assert_eq!(
        DocumentationGenerator::new(DocumentationFormat::Markdown).generate_docs(&program),
        "# Documentação do Código\n\n## Funções\n\n### add\n\n**Tipo de retorno:** float\n\n\
         **Parâmetros:**\n- `a`: int\n- `b`: float\n\n### run\n\n**Tipo de retorno:** void\n\n"
    );
    assert_eq!(
        DocumentationGenerator::new(DocumentationFormat::HTML).generate_docs(&program),
        "<html><head><title>Documentação</title></head><body><h1>Documentação do Código</h1></body></html>"
    );
    assert_eq!(
        DocumentationGenerator::new(DocumentationFormat::PlainText).generate_docs(&program),
        "DOCUMENTAÇÃO DO CÓDIGO\n=======================\n\n"
    );
    assert_eq!(
        Compiler::new().generate_docs("func f() { }", DocumentationFormat::Markdown).unwrap(),
        "# Documentação do Código\n\n## Funções\n\n### f\n\n**Tipo de retorno:** void\n\n"
    );
    assert!(matches!(
        Compiler::new().generate_docs("func", DocumentationFormat::HTML),
        Err(CompilerError::SyntaxError { .. })
    ));
}

#[test]
fn compiler_counts_what_it_compiled() {
    let mut compiler = Compiler::new();
    let source = "func main() -> int {\n  var x: int = 1 + 2;\n  return x;\n}\n";
    compiler.compile(source).unwrap();
    let stats = compiler.get_stats();
    assert_eq!(stats.tokens_generated, 21);
    // The function, its body, a declaration with three expression nodes, and
    // a return with one.
    assert_eq!(stats.ast_nodes, 8);
    assert_eq!(stats.lines_processed, 4);
    assert_eq!(stats.functions_defined, 0);

    // A failure keeps the counts of the stages that passed.
    assert!(compiler.compile("var a = ;").is_err());
    assert_eq!(compiler.get_stats().tokens_generated, 5);
    assert_eq!(compiler.get_stats().ast_nodes, 8);
    assert_eq!(compiler.get_stats().lines_processed, 4);
    assert!(compiler.compile("x = 1;\ny").is_err());
    assert!(compiler.compile("x = 1;").is_err());
    assert_eq!(compiler.get_stats().tokens_generated, 5);
    assert_eq!(compiler.get_stats().ast_nodes, 3);
    assert_eq!(compiler.get_stats().lines_processed, 4);
    compiler.compile("\n\nvar a = f(1, -2);").unwrap_err();
    assert_eq!(compiler.get_stats().ast_nodes, 5);
    compiler.compile("var a = 1;\n\nvar b = 2;").unwrap();
    assert_eq!(compiler.get_stats().lines_processed, 3);
}

#[test]
fn compiler_settings() {
    let mut config = CompilerConfig::default();
    config._optimization_level = 3;
    let mut compiler = Compiler::with_config(config);
    assert_eq!(compiler.get_config()._optimization_level, 3);
    let text = compiler.compile("func main() -> int { return 1; }").unwrap();
    assert_eq!(text, compile("func main() -> int { return 1; }").unwrap());
    let mut config = CompilerConfig::default();
    config._optimization_level = 9;
    compiler.set_config(config);
    assert_eq!(compiler.get_config()._optimization_level, 9);
    assert_eq!(
        compiler.compile("func main() -> int { return 1; }"),
        Err(CompilerError::InternalError { message: "Nível de otimização inválido".to_string() })
    );
    // The level is looked at after the analysis.
    assert!(matches!(compiler.compile("x;"), Err(CompilerError::SemanticError { .. })));
    assert_eq!(compiler.validate("func main() -> int { return 1; }"), Ok(()));
    assert_eq!(Compiler::default().get_config()._optimization_level, 0);
}

#[test]
fn validation_stops_at_the_first_error_of_the_first_stage() {
    assert!(matches!(validate("var a = 1 $"), Err(CompilerError::LexicalError { .. })));
    assert!(matches!(validate("var a = ; b = c"), Err(CompilerError::SyntaxError { .. })));
    assert!(matches!(validate("b = 1; var a: int = true;"), Err(CompilerError::SemanticError { .. })));
    assert!(matches!(validate("var a: int = true; b = 1;"), Err(CompilerError::TypeError { .. })));
    // Validation generates no code, so a variable without a slot passes.
    assert_eq!(validate("var g = 1; func main() -> int { return g; }"), Ok(()));
    assert!(matches!(
        compile("var g = 1; func main() -> int { return g; }"),
        Err(CompilerError::CodeGenError { .. })
    ));
}
