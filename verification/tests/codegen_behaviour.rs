use ruscompile::{
    compile, AssignmentStatement, CodeGenerator, CompilerError, Expression, ExpressionStatement,
    Lexer, Literal, LiteralExpression, Location, Parser, Program, Statement, UnaryExpression,
    UnaryOperator,
};

fn generate(source: &str) -> Result<String, CompilerError> {
    let tokens = Lexer::new(source).tokenize().unwrap();
    let program = Parser::new(tokens).parse().unwrap();
    CodeGenerator::new(0).generate(&program)
}

const ENTRY: &str = "\n_start:\n    call main\n    mov rdi, rax\n    mov rax, 60\n    syscall\n";
const HEAD: &str = "section .data\n\nsection .text\nglobal _start\n\n";

fn whole(body: &str) -> String {
    format!("{}{}{}", HEAD, body, ENTRY)
}

fn count(text: &str, pattern: &str) -> usize {
    text.matches(pattern).count()
}

#[test]
fn empty_program_is_headers_and_entry() {
    assert_eq!(generate("").unwrap(), whole(""));
}

#[test]
fn main_that_returns_a_number() {
    let assembly = compile("func main() -> int { return 42; }").unwrap();
    assert_eq!(
        assembly,
        whole(
            "main:\n    push rbp\n    mov rbp, rsp\n    sub rsp, 80\n    push 42\n    pop rax\n    \
             mov rsp, rbp\n    pop rbp\n    ret\n    mov rsp, rbp\n    pop rbp\n    ret\n\n"
        )
    );
    assert!(assembly.starts_with("section .data\n\nsection .text\n"));
    assert!(!assembly.contains("db "));
}

#[test]
fn recursion_calls_the_function_from_itself_and_from_main() {
    let assembly = compile(
        "func f(n: int) -> int { if (n <= 1) { return 1; } else { return n * f(n - 1); } } \
         func main() -> int { return f(5); }",
    )
    .unwrap();
    let f = assembly.find("\nf:\n").unwrap();
    let main = assembly.find("\nmain:\n").unwrap();
    assert!(f < main);
    let first_call = assembly.find("    call f\n").unwrap();
    let last_call = assembly.rfind("    call f\n").unwrap();
    assert!(f < first_call && first_call < main);
    assert!(main < last_call);
    assert_eq!(count(&assembly, "    call f\n"), 2);
}

#[test]
fn expressions_leave_one_value_on_the_stack() {
    assert_eq!(
        generate("1 + 2 * 3;").unwrap(),
        whole(
            "    push 3\n    push 2\n    pop rax\n    pop rbx\n    imul rax, rbx\n    push rax\n    \
             push 1\n    pop rax\n    pop rbx\n    add rax, rbx\n    push rax\n    pop rax\n"
        )
    );
    assert_eq!(
        generate("-5; !true; 2.75;").unwrap(),
        whole(
            "    push 5\n    pop rax\n    neg rax\n    push rax\n    pop rax\n    push 1\n    \
             pop rax\n    cmp rax, 0\n    sete al\n    movzx rax, al\n    push rax\n    pop rax\n    \
             push 2\n    pop rax\n"
        )
    );
}

#[test]
fn each_binary_operator_has_its_instructions() {
    for (operator, instructions) in [
        ("+", "    add rax, rbx\n"),
        ("-", "    sub rax, rbx\n"),
        ("*", "    imul rax, rbx\n"),
        ("/", "    cqo\n    idiv rbx\n"),
        ("%", "    cqo\n    idiv rbx\n    mov rax, rdx\n"),
        ("==", "    cmp rax, rbx\n    sete al\n    movzx rax, al\n"),
        ("!=", "    cmp rax, rbx\n    setne al\n    movzx rax, al\n"),
        ("<", "    cmp rax, rbx\n    setl al\n    movzx rax, al\n"),
        ("<=", "    cmp rax, rbx\n    setle al\n    movzx rax, al\n"),
        (">", "    cmp rax, rbx\n    setg al\n    movzx rax, al\n"),
        (">=", "    cmp rax, rbx\n    setge al\n    movzx rax, al\n"),
        ("&&", "    and rax, rbx\n"),
        ("||", "    or rax, rbx\n"),
    ] {
        assert_eq!(
            generate(&format!("7 {} 9;", operator)).unwrap(),
            whole(&format!(
                "    push 9\n    push 7\n    pop rax\n    pop rbx\n{}    push rax\n    pop rax\n",
                instructions
            ))
        );
    }
}

#[test]
fn bitwise_negation() {
    let at = Location { line: 1, column: 1, length: 1 };
    let program = Program {
        statements: vec![Statement::Expression(ExpressionStatement {
            expression: Expression::Unary(UnaryExpression {
                operator: UnaryOperator::Negate,
                operand: Box::new(Expression::Literal(LiteralExpression {
                    value: Literal::Integer(-4),
                    location: at,
                })),
                location: at,
            }),
            location: at,
        })],
    };
    assert_eq!(
        CodeGenerator::new(0).generate(&program).unwrap(),
        whole("    push -4\n    pop rax\n    not rax\n    push rax\n    pop rax\n")
    );
}

#[test]
fn variables_take_slots_in_order_of_declaration() {
    assert_eq!(
        generate("var a = 1; var b; var c = a; c = b = 4;").unwrap(),
        whole(
            "    push 1\n    pop rax\n    mov [rbp-8], rax\n    mov rax, [rbp-8]\n    push rax\n    \
             pop rax\n    mov [rbp-24], rax\n    push 4\n    pop rax\n    mov [rbp-16], rax\n    \
             push rax\n    pop rax\n    mov [rbp-24], rax\n    push rax\n    pop rax\n"
        )
    );
}

#[test]
fn assignment_statement_stores_without_pushing() {
    let at = Location { line: 1, column: 1, length: 1 };
    let literal = |n: i64| Expression::Literal(LiteralExpression {
        value: Literal::Integer(n),
        location: at,
    });
    let program = Program {
        statements: vec![
            Statement::Declaration(ruscompile::DeclarationStatement {
                name: "v".to_string(),
                var_type: ruscompile::Type::Int,
                initializer: None,
                location: at,
            }),
            Statement::Assignment(AssignmentStatement {
                target: "v".to_string(),
                value: literal(6),
                location: at,
            }),
        ],
    };
    assert_eq!(
        CodeGenerator::new(0).generate(&program).unwrap(),
        whole("    push 6\n    pop rax\n    mov [rbp-8], rax\n")
    );
    let program = Program {
        statements: vec![Statement::Assignment(AssignmentStatement {
            target: "w".to_string(),
            value: literal(6),
            location: at,
        })],
    };
    assert_eq!(
        CodeGenerator::new(0).generate(&program),
        Err(CompilerError::CodeGenError { message: "Variável 'w' não encontrada".to_string() })
    );
}

#[test]
fn function_frames_start_afresh() {
    assert_eq!(
        generate("var g = 1; func f(a: int, b: int) { var c = b; } var h = g;").unwrap(),
        whole(
            "    push 1\n    pop rax\n    mov [rbp-8], rax\n\
             f:\n    push rbp\n    mov rbp, rsp\n    sub rsp, 80\n    \
             mov rax, [rbp-16]\n    push rax\n    pop rax\n    mov [rbp-24], rax\n    \
             mov rsp, rbp\n    pop rbp\n    ret\n\n    \
             mov rax, [rbp-8]\n    push rax\n    pop rax\n    mov [rbp-16], rax\n"
        )
    );
}

#[test]
fn parameters_and_variables_have_slots_of_their_own() {
    assert_eq!(
        generate("func f(p: int) -> int { var v: int = 1; return p; }").unwrap(),
        whole(
            "f:\n    push rbp\n    mov rbp, rsp\n    sub rsp, 80\n    \
             push 1\n    pop rax\n    mov [rbp-16], rax\n    \
             mov rax, [rbp-8]\n    push rax\n    pop rax\n    \
             mov rsp, rbp\n    pop rbp\n    ret\n    \
             mov rsp, rbp\n    pop rbp\n    ret\n\n"
        )
    );
    let assembly = generate(
        "func f(a: int, b: int, c: int) { var x = a; var y = b; { var z = c; } x = y; }",
    )
    .unwrap();
    for slot in ["[rbp-8]", "[rbp-16]", "[rbp-24]"] {
        assert_eq!(count(&assembly, &format!("    mov rax, {}\n", slot)), 1);
        assert_eq!(count(&assembly, &format!("    mov {}, rax\n", slot)), 0);
    }
    assert_eq!(count(&assembly, "    mov [rbp-32], rax\n"), 2);
    assert_eq!(count(&assembly, "    mov [rbp-40], rax\n"), 1);
    assert_eq!(count(&assembly, "    mov [rbp-48], rax\n"), 1);
    assert_eq!(count(&assembly, "    mov rax, [rbp-40]\n"), 1);
}

#[test]
fn the_left_operand_comes_first() {
    // The right operand is pushed first, so the left one is popped first,
    // into `rax`: the difference is left less right.
    assert_eq!(
        generate("7 - 2;").unwrap(),
        whole(
            "    push 2\n    push 7\n    pop rax\n    pop rbx\n    sub rax, rbx\n    \
             push rax\n    pop rax\n"
        )
    );
    let assembly = generate("var a = 9; var b = 4; a / b; a < b;").unwrap();
    assert!(assembly.contains(
        "    mov rax, [rbp-16]\n    push rax\n    mov rax, [rbp-8]\n    push rax\n    \
         pop rax\n    pop rbx\n    cqo\n    idiv rbx\n    push rax\n"
    ));
    assert!(assembly.contains(
        "    pop rax\n    pop rbx\n    cmp rax, rbx\n    setl al\n    movzx rax, al\n"
    ));
}

#[test]
fn a_variable_without_a_slot_is_an_error() {
    assert_eq!(
        generate("var g: int = 1; func main() -> int { return g; }"),
        Err(CompilerError::CodeGenError { message: "Variável 'g' não encontrada".to_string() })
    );
    assert_eq!(
        generate("x;"),
        Err(CompilerError::CodeGenError { message: "Variável 'x' não encontrada".to_string() })
    );
    assert_eq!(
        generate("y = 1;"),
        Err(CompilerError::CodeGenError { message: "Variável 'y' não encontrada".to_string() })
    );
    assert_eq!(
        generate("func f() { var a = 1; } func g() { a; }"),
        Err(CompilerError::CodeGenError { message: "Variável 'a' não encontrada".to_string() })
    );
    assert_eq!(
        compile("var g: int = 1; func main() -> int { return g; }").unwrap_err().to_string(),
        "Erro de geração de código: Variável 'g' não encontrada"
    );
}

#[test]
fn the_frame_grows_with_the_variables_and_the_parameters() {
    let declarations: String = (0..10).map(|i| format!("var v{} = {};", i, i)).collect();
    let assembly = generate(&format!("func f() {{ {} }}", declarations)).unwrap();
    assert!(assembly.contains("    sub rsp, 80\n"));
    assert!(assembly.contains("    mov [rbp-80], rax\n"));
    let assembly = generate(&format!("func f() {{ {} var last = 1; }}", declarations)).unwrap();
    assert!(assembly.contains("    sub rsp, 88\n"));
    assert!(assembly.contains("    mov [rbp-88], rax\n"));
    let parameters: Vec<String> = (0..12).map(|i| format!("p{}: int", i)).collect();
    let assembly = generate(&format!("func f({}) {{ p11; }}", parameters.join(", "))).unwrap();
    assert!(assembly.contains("    sub rsp, 96\n"));
    assert!(assembly.contains("    mov rax, [rbp-96]\n"));
    // Parameters and variables count together.
    let assembly =
        generate(&format!("func f(a: int, b: int) {{ {} }}", declarations)).unwrap();
    assert!(assembly.contains("    sub rsp, 96\n"));
    assert!(assembly.contains("    mov [rbp-96], rax\n"));
    let assembly = generate("func f(a: int, b: int) { var c = 1; }").unwrap();
    assert!(assembly.contains("    sub rsp, 80\n"));
}

#[test]
fn if_jumps_over_its_branches() {
    assert_eq!(
        generate("if (true) 1; else 2; if (false) 3;").unwrap(),
        whole(
            "    push 1\n    pop rax\n    cmp rax, 0\n    je else_1\n    push 1\n    pop rax\n    \
             jmp endif_2\nelse_1:\n    push 2\n    pop rax\nendif_2:\n    \
             push 0\n    pop rax\n    cmp rax, 0\n    je else_3\n    push 3\n    pop rax\n    \
             jmp endif_4\nelse_3:\nendif_4:\n"
        )
    );
}

#[test]
fn while_loops_have_labels_of_their_own() {
    let assembly = compile(
        "func main() -> int { var i: int = 0; while (i < 5) { i = i + 1; } return i; }",
    )
    .unwrap();
    assert!(assembly.contains(
        "while_1:\n    push 5\n    mov rax, [rbp-8]\n    push rax\n    pop rax\n    pop rbx\n    \
         cmp rax, rbx\n    setl al\n    movzx rax, al\n    push rax\n    pop rax\n    cmp rax, 0\n    \
         je endwhile_2\n"
    ));
    assert!(assembly.contains("    jmp while_1\nendwhile_2:\n"));

    let assembly = generate(
        "while (true) { while (false) { } } while (true) { if (true) { } } while (false) { }",
    )
    .unwrap();
    let labels: Vec<&str> = assembly.lines().filter(|l| l.ends_with(':') && !l.starts_with(' ')).collect();
    assert_eq!(
        labels,
        vec![
            "while_1:", "while_3:", "endwhile_4:", "endwhile_2:", "while_5:", "else_7:",
            "endif_8:", "endwhile_6:", "while_9:", "endwhile_10:", "_start:",
        ]
    );
}

#[test]
fn equal_string_literals_share_a_label() {
    let assembly = compile(
        "func main() -> int { println(\"twice\"); print(\"once\"); println(\"twice\"); return 0; }",
    )
    .unwrap();
    assert!(assembly.starts_with(
        "section .data\nstr_0: db \"twice\", 0\nstr_1: db \"once\", 0\n\nsection .text\n"
    ));
    assert_eq!(count(&assembly, "db \"twice\""), 1);
    assert_eq!(count(&assembly, "    push str_0\n"), 2);
    assert_eq!(count(&assembly, "    push str_1\n"), 1);
}

#[test]
fn arguments_are_pushed_last_first() {
    assert_eq!(
        generate("f(1, 2, 3); g();").unwrap(),
        whole(
            "    push 3\n    push 2\n    push 1\n    call f\n    add rsp, 24\n    push rax\n    \
             pop rax\n    call g\n    push rax\n    pop rax\n"
        )
    );
}

#[test]
fn floating_point_literals_push_their_whole_part() {
    let push_of = |value: &str| {
        let at = Location { line: 1, column: 1, length: 1 };
        let program = Program {
            statements: vec![Statement::Expression(ExpressionStatement {
                expression: Expression::Literal(LiteralExpression {
                    value: Literal::Float(value.to_string()),
                    location: at,
                }),
                location: at,
            })],
        };
        CodeGenerator::new(0).generate(&program).unwrap()
    };
    assert_eq!(push_of("45.67"), whole("    push 45\n    pop rax\n"));
    assert_eq!(push_of("0.99"), whole("    push 0\n    pop rax\n"));
    assert_eq!(push_of("99999999999999999999.5"), whole("    push 9223372036854775807\n    pop rax\n"));
}

#[test]
fn a_program_with_its_own_entry_point_gets_no_default_one() {
    let assembly = generate("func _start() { } func main() -> int { return 0; }").unwrap();
    assert!(!assembly.contains("call main"));
    assert_eq!(count(&assembly, "_start:\n"), 1);
    assert!(generate("func main() -> int { return 0; }").unwrap().ends_with(ENTRY));
}

#[test]
fn a_generator_keeps_counting_labels_and_strings() {
    let tokens = Lexer::new("if (true) \"s\";").tokenize().unwrap();
    let program = Parser::new(tokens).parse().unwrap();
    let mut generator = CodeGenerator::new(2);
    let first = generator.generate(&program).unwrap();
    let second = generator.generate(&program).unwrap();
    assert!(first.contains("else_1:") && first.contains("endif_2:"));
    assert!(second.contains("else_3:") && second.contains("endif_4:"));
    assert_eq!(count(&first, "str_0: db \"s\", 0\n"), 1);
    assert_eq!(count(&second, "str_0: db \"s\", 0\n"), 1);
    assert!(!second.contains("str_1"));
}

#[test]
fn compiling_the_same_source_twice_gives_the_same_text() {
    let source = "func f(a: int) -> int { while (a > 0) { a = a - 1; println(\"x\"); } return a; } \
                  func main() -> int { if (f(3) == 0) { println(\"x\"); } return 0; }";
    let first = compile(source).unwrap();
    let second = compile(source).unwrap();
    assert_eq!(first, second);
    let mut compiler = ruscompile::Compiler::new();
    assert_eq!(compiler.compile(source).unwrap(), first);
    assert_eq!(compiler.compile(source).unwrap(), first);
}

#[test]
fn every_function_has_its_label() {
    let assembly = compile(
        "func a() { } func b(x: int) -> int { func c() { } return x; } func main() -> int { return b(1); }",
    )
    .unwrap();
    for name in ["a", "b", "c", "main"] {
        assert!(assembly.contains(&format!("\n{}:\n    push rbp\n", name)));
    }
    assert_eq!(count(&assembly, "section .data\n"), 1);
    assert_eq!(count(&assembly, "\nsection .text\n"), 1);
}
