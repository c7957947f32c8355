use ruscompile::{compile, validate, Compiler, DocumentationFormat};

#[test]
fn test_compiler_creation() {
    let compiler = Compiler::new();
    assert_eq!(compiler.get_config()._optimization_level, 0);
}

#[test]
fn test_simple_compilation() {
    let source = r#"
            func main() -> int {
                return 42;
            }
        "#;

    let result = compile(source);
    assert!(result.is_ok());

    let assembly = result.unwrap();
    assert!(assembly.contains("main:"));
    assert!(assembly.contains("ret"));
}

#[test]
fn test_validation() {
    let source = r#"
            func main() -> int {
                var x: int = 10;
                return x;
            }
        "#;

    let result = validate(source);
    assert!(result.is_ok());
}

#[test]
fn test_invalid_code() {
    let source = "invalid code";
    let result = validate(source);
    assert!(result.is_err());
}

#[test]
fn test_complexity_analysis() {
    let source = r#"
            func factorial(n: int) -> int {
                if (n <= 1) {
                    return 1;
                } else {
                    return n * factorial(n - 1);
                }
            }
        "#;

    let compiler = Compiler::new();
    let result = compiler.analyze_complexity(source);
    assert!(result.is_ok());

    let report = result.unwrap();
    assert!(report.contains("factorial"));
}

#[test]
fn test_documentation_generation() {
    let source = r#"
            func add(a: int, b: int) -> int {
                return a + b;
            }
        "#;

    let compiler = Compiler::new();
    let result = compiler.generate_docs(source, DocumentationFormat::Markdown);
    assert!(result.is_ok());

    let docs = result.unwrap();
    assert!(docs.contains("add"));
    assert!(docs.contains("int"));
}
