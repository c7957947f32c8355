//! A small ahead-of-time compiler for a C-like teaching language: lexical
//! analysis, recursive-descent parsing, scope-aware type checking and the
//! generation of textual assembly for a stack-oriented calling convention.

pub mod assembly;
pub mod ast;
pub mod codegen;
pub mod error;
pub mod grammar;
pub mod laws;
pub mod lexer;
pub mod parser;
pub mod scan;
pub mod scope;
pub mod semantic;
pub mod text;
pub mod token;
pub mod types;
pub mod utils;

pub use ast::{
    AssignmentExpression, AssignmentStatement, BinaryExpression, BinaryOperator, BlockStatement,
    CallExpression, DeclarationStatement, Expression, ExpressionStatement, FunctionStatement,
    IdentifierExpression, IfStatement, Literal, LiteralExpression, Location, Parameter, Program,
    ReturnStatement, Statement, Type, UnaryExpression, UnaryOperator, WhileStatement,
};
pub use codegen::CodeGenerator;
pub use error::{CompilerError, CompilerResult};
pub use lexer::{Lexer, Token, TokenInfo};
pub use parser::Parser;
pub use semantic::SemanticAnalyzer;
pub use utils::{
    CodeValidator, CompilerConfig, CompilerStats, ComplexityAnalyzer, DocumentationFormat,
    DocumentationGenerator, Optimizer, OutputFormat, SourceFormatter,
};

use ast::{
    lemma_block_view, lemma_call_view, lemma_function_view, exprs_view, stmts_view, ExprSpec,
    ProgramSpec, StmtSpec,
};
use codegen::{fresh_generator, generate_spec};
use error::ErrorSpec;
use grammar::parse_spec;
use lexer::{clip, clipped_add, tokenize_spec};
use semantic::{analyze_spec, fresh_analyzer};
use text::chars_of;
use utils::{
    complexity, default_settings, docs_text, formatted, invalid_level_text, no_counts, recorded,
    report_text,
};
use vstd::prelude::*;

verus! {

/// A moment on the monotonic clock of the standard library.
#[verifier::external_type_specification]
#[verifier::external_body]
pub struct ExInstant(std::time::Instant);

/// `Instant::now` of the standard library: the present moment. Nothing is
/// claimed of it.
#[verifier::external_body]
fn clock_now() -> (now: std::time::Instant) {
    std::time::Instant::now()
}

/// `Instant::elapsed` of the standard library: the time that has passed since
/// `start`. Nothing is claimed of it.
#[verifier::external_body]
fn elapsed_since(start: &std::time::Instant) -> (elapsed: std::time::Duration) {
    start.elapsed()
}

/// `Duration::as_millis` of the standard library: the whole milliseconds of a
/// span of time. Nothing is claimed of them.
#[verifier::external_body]
fn whole_milliseconds(span: &std::time::Duration) -> (ms: u128) {
    span.as_millis()
}

/// The low sixty-four bits of a count of milliseconds.
fn clock_reading(ms: u128) -> (reading: u64)
    ensures
        reading == ms % 0x1_0000_0000_0000_0000,
{
    (ms % 0x1_0000_0000_0000_0000) as u64
}

/// The program that a source text spells, or the first lexical or syntax
/// error.
pub open spec fn parsed(source: Seq<char>) -> Result<ProgramSpec, ErrorSpec> {
    match tokenize_spec(source) {
        Err(e) => Err(e),
        Ok(tokens) => parse_spec(tokens, 0),
    }
}

/// The first error of a source text, as far as the analysis: a lexical, a
/// syntax, a semantic or a type error.
pub open spec fn validate_spec(source: Seq<char>) -> Option<ErrorSpec> {
    match parsed(source) {
        Err(e) => Some(e),
        Ok(program) => analyze_spec(fresh_analyzer(), program).error,
    }
}

/// The assembly text of a source text, or the first error. Each stage runs on
/// the whole result of the stage before it and starts from a fresh state.
pub open spec fn compile_spec(source: Seq<char>, level: u8) -> Result<Seq<char>, ErrorSpec> {
    match parsed(source) {
        Err(e) => Err(e),
        Ok(program) => match analyze_spec(fresh_analyzer(), program).error {
            Some(e) => Err(e),
            None => if level > 3 {
                Err(ErrorSpec::InternalError { message: invalid_level_text() })
            } else {
                generate_spec(fresh_generator(), program).text
            },
        },
    }
}

/// The nodes of an expression: itself and those of its operands.
pub open spec fn expr_nodes(e: ExprSpec) -> nat
    decreases e, 0nat,
{
    1 + match e {
        ExprSpec::Binary { left, right, .. } => expr_nodes(*left) + expr_nodes(*right),
        ExprSpec::Unary { operand, .. } => expr_nodes(*operand),
        ExprSpec::Call { arguments, .. } => exprs_nodes(arguments, arguments.len()),
        ExprSpec::Assignment { value, .. } => expr_nodes(*value),
        _ => 0,
    }
}

/// The nodes of the first `n` expressions.
pub open spec fn exprs_nodes(es: Seq<ExprSpec>, n: nat) -> nat
    decreases es, n,
{
    if n == 0 || n > es.len() {
        0
    } else {
        exprs_nodes(es, (n - 1) as nat) + expr_nodes(es[n - 1])
    }
}

/// The nodes of an expression that may be missing.
pub open spec fn option_expr_nodes(e: Option<ExprSpec>) -> nat {
    match e {
        Some(e) => expr_nodes(e),
        None => 0,
    }
}

/// The nodes of a statement: itself, those of its expressions and statements,
/// and one more for a block or a function body.
pub open spec fn stmt_nodes(s: StmtSpec) -> nat
    decreases s, 0nat,
{
    1 + match s {
        StmtSpec::Expression { expression, .. } => expr_nodes(expression),
        StmtSpec::Declaration { initializer, .. } => option_expr_nodes(initializer),
        StmtSpec::Assignment { value, .. } => expr_nodes(value),
        StmtSpec::If { condition, then_branch, else_branch, .. } => expr_nodes(condition)
            + stmt_nodes(*then_branch) + match else_branch {
            Some(b) => stmt_nodes(*b),
            None => 0,
        },
        StmtSpec::While { condition, body, .. } => expr_nodes(condition) + stmt_nodes(*body),
        StmtSpec::Function { body, .. } => 1 + stmts_nodes(body, body.len()),
        StmtSpec::Return { value, .. } => option_expr_nodes(value),
        StmtSpec::Block { statements, .. } => 1 + stmts_nodes(statements, statements.len()),
    }
}

/// The nodes of the first `n` statements.
pub open spec fn stmts_nodes(ss: Seq<StmtSpec>, n: nat) -> nat
    decreases ss, n,
{
    if n == 0 || n > ss.len() {
        0
    } else {
        stmts_nodes(ss, (n - 1) as nat) + stmt_nodes(ss[n - 1])
    }
}

/// The nodes of a program.
pub open spec fn program_nodes(program: ProgramSpec) -> nat {
    stmts_nodes(program.statements, program.statements.len())
}

/// The line feeds among the first `n` characters.
pub open spec fn line_feeds(src: Seq<char>, n: nat) -> nat
    decreases n,
{
    if n == 0 || n > src.len() {
        0
    } else if src[n - 1] == '\n' {
        line_feeds(src, (n - 1) as nat) + 1
    } else {
        line_feeds(src, (n - 1) as nat)
    }
}

/// The lines of a text: one for each line feed, and one more for what follows
/// the last of them, if anything does.
pub open spec fn line_count(src: Seq<char>) -> nat {
    line_feeds(src, src.len()) + if src.len() > 0 && src.last() != '\n' {
        1nat
    } else {
        0nat
    }
}

/// The measures recorded for the functions among the first `n` statements of
/// a program.
pub open spec fn complexity_entries(statements: Seq<StmtSpec>, n: nat) -> Seq<(Seq<char>, usize)>
    decreases n,
{
    if n == 0 || n > statements.len() {
        Seq::empty()
    } else {
        let before = complexity_entries(statements, (n - 1) as nat);
        match statements[n - 1] {
            StmtSpec::Function { name, .. } => recorded(
                before,
                name,
                clip(complexity(statements[n - 1])),
            ),
            _ => before,
        }
    }
}

/// There are no more line feeds than characters.
proof fn lemma_line_feeds_bound(src: Seq<char>, n: nat)
    ensures
        line_feeds(src, n) <= n,
    decreases n,
{
    if n > 0 && n <= src.len() {
        lemma_line_feeds_bound(src, (n - 1) as nat);
    }
}

fn count_lines(source: &str) -> (lines: usize)
    ensures
        lines == line_count(source@),
{
    let chars = chars_of(source);
    let n = chars.len();
    let mut feeds: usize = 0;
    let mut i: usize = 0;
    while i < n
        invariant
            n == chars@.len(),
            i <= n,
            feeds == line_feeds(chars@, i as nat),
            feeds <= i,
        decreases n - i,
    {
        if chars[i] == '\n' {
            feeds += 1;
        }
        i += 1;
    }
    if n > 0 && chars[n - 1] != '\n' {
        proof {
            lemma_line_feeds_bound(chars@, (n - 1) as nat);
        }
        feeds + 1
    } else {
        feeds
    }
}

/// What the counts of a compiler are after a compilation of `source`: the
/// tokens once the lexer has passed, the nodes once the parser has passed, the
/// lines once the whole compilation has passed. The duration is measured and
/// the other counts stay.
pub open spec fn stats_updated(
    before: CompilerStats,
    after: CompilerStats,
    source: Seq<char>,
    level: u8,
) -> bool {
    &&& after.functions_defined == before.functions_defined
    &&& after.variables_declared == before.variables_declared
    &&& after.errors_found == before.errors_found
    &&& after.warnings_found == before.warnings_found
    &&& after.tokens_generated == match tokenize_spec(source) {
        Ok(tokens) => tokens.len() as usize,
        Err(_) => before.tokens_generated,
    }
    &&& after.ast_nodes == match parsed(source) {
        Ok(program) => clip(program_nodes(program)),
        Err(_) => before.ast_nodes,
    }
    &&& after.lines_processed == if compile_spec(source, level) is Ok {
        line_count(source) as usize
    } else {
        before.lines_processed
    }
    &&& compile_spec(source, level) is Err ==> after.compilation_time_ms
        == before.compilation_time_ms
}

/// A text result and its model say the same.
pub open spec fn text_result_is(
    result: CompilerResult<String>,
    model: Result<Seq<char>, ErrorSpec>,
) -> bool {
    match result {
        Ok(text) => model == Ok::<Seq<char>, ErrorSpec>(text@),
        Err(e) => model == Err::<Seq<char>, ErrorSpec>(e@),
    }
}

/// The compiler: its settings and the counts of its last compilation.
pub struct Compiler {
    config: CompilerConfig,
    stats: CompilerStats,
}

impl Compiler {
    /// The settings.
    pub closed spec fn config(&self) -> CompilerConfig {
        self.config
    }

    /// The counts.
    pub closed spec fn stats(&self) -> CompilerStats {
        self.stats
    }

    /// A compiler with the default settings.
    pub fn new() -> (compiler: Self)
        ensures
            default_settings(compiler.config()),
            no_counts(compiler.stats()),
    {
        Compiler { config: CompilerConfig::default(), stats: CompilerStats::new() }
    }

    /// A compiler with the given settings.
    pub fn with_config(config: CompilerConfig) -> (compiler: Self)
        ensures
            compiler.config() == config,
            no_counts(compiler.stats()),
    {
        Compiler { config, stats: CompilerStats::new() }
    }

    /// Compiles a source text to assembly: lexical analysis, parsing, semantic
    /// analysis, the optimizer's passes where the level is above zero, and
    /// code generation. The result is the first error of the first stage that
    /// fails.
    pub fn compile(&mut self, source: &str) -> (result: CompilerResult<String>)
        ensures
            final(self).config() == old(self).config(),
            text_result_is(result, compile_spec(source@, old(self).config()._optimization_level)),
            stats_updated(
                old(self).stats(),
                final(self).stats(),
                source@,
                old(self).config()._optimization_level,
            ),
    {
        let start = clock_now();
        let mut lexer = Lexer::new(source);
        let tokens = match lexer.tokenize() {
            Err(e) => {
                return Err(e);
            },
            Ok(tokens) => tokens,
        };
        self.stats.tokens_generated = tokens.len();
        let mut parser = Parser::new(tokens);
        let mut ast = match parser.parse() {
            Err(e) => {
                return Err(e);
            },
            Ok(ast) => ast,
        };
        self.stats.ast_nodes = count_ast_nodes(&ast);
        let mut analyzer = SemanticAnalyzer::new();
        match analyzer.analyze(&ast) {
            Err(e) => {
                return Err(e);
            },
            Ok(()) => {},
        }
        if self.config._optimization_level > 0 {
            let optimizer = Optimizer::new(self.config.clone());
            match optimizer.optimize_ast(&mut ast) {
                Err(message) => {
                    return Err(CompilerError::from(message));
                },
                Ok(()) => {},
            }
        }
        let mut codegen = CodeGenerator::new(self.config._optimization_level);
        let assembly = match codegen.generate(&ast) {
            Err(e) => {
                return Err(e);
            },
            Ok(assembly) => assembly,
        };
        let elapsed = elapsed_since(&start);
        self.stats.compilation_time_ms = clock_reading(whole_milliseconds(&elapsed));
        self.stats.lines_processed = count_lines(source);
        Ok(assembly)
    }

    /// The counts of the last compilation.
    pub fn get_stats(&self) -> (stats: &CompilerStats)
        ensures
            *stats == self.stats(),
    {
        &self.stats
    }

    /// The settings.
    pub fn get_config(&self) -> (config: &CompilerConfig)
        ensures
            *config == self.config(),
    {
        &self.config
    }

    /// Replaces the settings.
    pub fn set_config(&mut self, config: CompilerConfig)
        ensures
            final(self).config() == config,
            final(self).stats() == old(self).stats(),
    {
        self.config = config;
    }

    /// Checks a source text as far as the semantic analysis, without
    /// generating code.
    pub fn validate(&self, source: &str) -> (result: CompilerResult<()>)
        ensures
            match result {
                Ok(()) => validate_spec(source@) is None,
                Err(e) => validate_spec(source@) == Some(e@),
            },
    {
        let ast = match parse_source(source) {
            Err(e) => {
                return Err(e);
            },
            Ok(ast) => ast,
        };
        let mut analyzer = SemanticAnalyzer::new();
        analyzer.analyze(&ast)
    }

    /// The complexity report for the functions of a source text, which is
    /// parsed but not analyzed.
    pub fn analyze_complexity(&self, source: &str) -> (result: CompilerResult<String>)
        ensures
            text_result_is(
                result,
                match parsed(source@) {
                    Err(e) => Err(e),
                    Ok(program) => Ok(
                        report_text(
                            complexity_entries(program.statements, program.statements.len()),
                        ),
                    ),
                },
            ),
    {
        let ast = match parse_source(source) {
            Err(e) => {
                return Err(e);
            },
            Ok(ast) => ast,
        };
        let ghost all = ast@.statements;
        let mut analyzer = ComplexityAnalyzer::new();
        let mut i: usize = 0;
        while i < ast.statements.len()
            invariant
                i <= ast.statements.len(),
                all == ast@.statements,
                analyzer@ == complexity_entries(all, i as nat),
            decreases ast.statements.len() - i,
        {
            match &ast.statements[i] {
                Statement::Function(func) => {
                    proof {
                        lemma_function_view(*func);
                    }
                    analyzer.analyze_function(func.name.as_str(), &ast.statements[i]);
                },
                _ => {},
            }
            i += 1;
        }
        Ok(analyzer.get_complexity_report())
    }

    /// The documentation of the functions of a source text, which is parsed
    /// but not analyzed.
    pub fn generate_docs(&self, source: &str, format: DocumentationFormat) -> (result:
        CompilerResult<String>)
        ensures
            text_result_is(
                result,
                match parsed(source@) {
                    Err(e) => Err(e),
                    Ok(program) => Ok(docs_text(format, program)),
                },
            ),
    {
        let ast = match parse_source(source) {
            Err(e) => {
                return Err(e);
            },
            Ok(ast) => ast,
        };
        let doc_gen = DocumentationGenerator::new(format);
        Ok(doc_gen.generate_docs(&ast))
    }

    /// The source text with every line trimmed and indented by its nesting.
    pub fn format_source(&self, source: &str) -> (text: String)
        ensures
            text@ == formatted(source@),
    {
        let formatter = SourceFormatter::new();
        formatter.format_source(source)
    }
}

impl Default for Compiler {
    fn default() -> (compiler: Self)
        ensures
            default_settings(compiler.config()),
            no_counts(compiler.stats()),
    {
        Compiler::new()
    }
}

/// The program that a source text spells.
fn parse_source(source: &str) -> (result: CompilerResult<Program>)
    ensures
        match result {
            Ok(program) => parsed(source@) == Ok::<ProgramSpec, ErrorSpec>(program@),
            Err(e) => parsed(source@) == Err::<ProgramSpec, ErrorSpec>(e@),
        },
{
    let mut lexer = Lexer::new(source);
    let tokens = match lexer.tokenize() {
        Err(e) => {
            return Err(e);
        },
        Ok(tokens) => tokens,
    };
    let mut parser = Parser::new(tokens);
    parser.parse()
}

/// The nodes of a program, capped at the greatest machine word.
fn count_ast_nodes(program: &Program) -> (count: usize)
    ensures
        count == clip(program_nodes(program@)),
{
    count_statements(&program.statements)
}

#[verifier::loop_isolation(false)]
fn count_statements(statements: &Vec<Statement>) -> (count: usize)
    ensures
        count == clip(stmts_nodes(stmts_view(statements@), statements@.len())),
    decreases statements, 0nat,
{
    let ghost all = stmts_view(statements@);
    let mut count: usize = 0;
    let mut i: usize = 0;
    while i < statements.len()
        invariant
            i <= statements.len(),
            count == clip(stmts_nodes(all, i as nat)),
        decreases statements.len() - i,
    {
        assert(decreases_to!(statements => statements@[i as int]));
        count = clipped_add(count, count_statement_nodes(&statements[i]));
        i += 1;
    }
    count
}

fn count_option_nodes(expression: &Option<Expression>) -> (count: usize)
    ensures
        count == clip(option_expr_nodes(ast::option_expr_view(*expression))),
{
    match expression {
        Some(e) => count_expression_nodes(e),
        None => 0,
    }
}

fn count_statement_nodes(statement: &Statement) -> (count: usize)
    ensures
        count == clip(stmt_nodes(statement@)),
    decreases statement, 1nat,
{
    let inner: usize = match statement {
        Statement::Expression(expr_stmt) => count_expression_nodes(&expr_stmt.expression),
        Statement::Declaration(decl_stmt) => count_option_nodes(&decl_stmt.initializer),
        Statement::Assignment(assign_stmt) => count_expression_nodes(&assign_stmt.value),
        Statement::If(if_stmt) => {
            let condition = count_expression_nodes(&if_stmt.condition);
            let then_branch = count_statement_nodes(&if_stmt.then_branch);
            let else_branch = match &if_stmt.else_branch {
                Some(b) => count_statement_nodes(b),
                None => 0,
            };
            clipped_add(clipped_add(condition, then_branch), else_branch)
        },
        Statement::While(while_stmt) => clipped_add(
            count_expression_nodes(&while_stmt.condition),
            count_statement_nodes(&while_stmt.body),
        ),
        Statement::Function(func_stmt) => {
            proof {
                lemma_function_view(*func_stmt);
            }
            clipped_add(1, count_statements(&func_stmt.body.statements))
        },
        Statement::Return(return_stmt) => count_option_nodes(&return_stmt.value),
        Statement::Block(block_stmt) => {
            proof {
                lemma_block_view(*block_stmt);
            }
            clipped_add(1, count_statements(&block_stmt.statements))
        },
    };
    clipped_add(1, inner)
}

#[verifier::loop_isolation(false)]
fn count_expression_nodes(expression: &Expression) -> (count: usize)
    ensures
        count == clip(expr_nodes(expression@)),
    decreases expression,
{
    let inner: usize = match expression {
        Expression::Binary(binary_expr) => clipped_add(
            count_expression_nodes(&binary_expr.left),
            count_expression_nodes(&binary_expr.right),
        ),
        Expression::Unary(unary_expr) => count_expression_nodes(&unary_expr.operand),
        Expression::Call(call_expr) => {
            proof {
                lemma_call_view(*call_expr);
            }
            let ghost all = exprs_view(call_expr.arguments@);
            let mut count: usize = 0;
            let mut i: usize = 0;
            while i < call_expr.arguments.len()
                invariant
                    i <= call_expr.arguments.len(),
                    count == clip(exprs_nodes(all, i as nat)),
                decreases call_expr.arguments.len() - i,
            {
                assert(decreases_to!(expression => call_expr.arguments@[i as int]));
                count = clipped_add(count, count_expression_nodes(&call_expr.arguments[i]));
                i += 1;
            }
            count
        },
        Expression::Assignment(assign_expr) => count_expression_nodes(&assign_expr.value),
        _ => 0,
    };
    clipped_add(1, inner)
}

/// Compiles a source text with a compiler of default settings.
pub fn compile(source: &str) -> (result: CompilerResult<String>)
    ensures
        text_result_is(result, compile_spec(source@, 0)),
{
    let mut compiler = Compiler::new();
    compiler.compile(source)
}

/// Checks a source text as far as the semantic analysis.
pub fn validate(source: &str) -> (result: CompilerResult<()>)
    ensures
        match result {
            Ok(()) => validate_spec(source@) is None,
            Err(e) => validate_spec(source@) == Some(e@),
        },
{
    let compiler = Compiler::new();
    compiler.validate(source)
}

} // verus!
