//! Laws of the compiler that relate several of its functions, each proved
//! from the functions' own models.

use crate::assembly::{
    data_header, data_lines, ends_line, epilogue, jump, jump_if_zero, label_line, label_text,
    leave, lemma_ends_line_after, lemma_fixed_instructions_end_lines,
    lemma_jump_if_zero_ends_line, lemma_label_line_ends_line, lemma_prologue_ends_line,
    lemma_store_slot_ends_line, pop_result, prologue, store_slot, text_header,
};
use crate::ast::{BinaryOperator, ExprSpec, Location, ParamSpec, ProgramSpec, StmtSpec, TypeSpec};
use crate::codegen::{
    declared, done, first_index, frame_size, frame_too_large, gen_args, gen_expr, gen_stmt,
    fresh_generator, gen_stmts, generate_spec, inside_function, interned, labels_exhausted, missing_variable,
    next_label, outside_function, parameter_slots, slot_of, string_index, text_of, GenSpec,
};
use crate::error::{CompilerResult, ErrorSpec};
use crate::grammar::{check as token_is, parse_condition, parse_if, parse_statement, parse_while};
use crate::lexer::{eof_token, column_at, line_at, location_at, tokenize_spec, tokens_from};
use crate::scan::{
    digit_value, digits_value, is_digit, lemma_step_advances, lex_step, step_end, LexStep,
};
use crate::scope::{function_symbol, resolve_in, variable_symbol, Names, SymbolSpec};
use crate::semantic::{
    analyze_spec, arguments_error, assignment_type, builtin_symbols, check_declaration,
    check_stmt, check_stmts, define_all, defined, entered, expr_type, parameter_types,
    parameters_scope, AnalyzerSpec, Checked,
};
use crate::text::{
    contains, decimal, digit_char, lemma_contains_embedded, lemma_contains_prefix,
    lemma_utf8_len_bounds, lemma_utf8_len_concat, lemma_utf8_len_push, occurs_at, utf8_len,
    utf8_width,
};
use crate::token::{TokenInfoSpec, TokenSpec};
use crate::types::{binary_type, compatible};
use crate::{compile_spec, text_result_is};
use vstd::prelude::*;
use vstd::utf8::{char_is_scalar, encode_scalar, encode_utf8};

verus! {

// ---------------------------------------------------------------------------
// The whole pipeline.
// ---------------------------------------------------------------------------

/// Compiling is a function of the source text and the optimization level: two
/// compilations of one text at one level end alike, with the same assembly
/// text or with the same error.
pub proof fn lemma_compile_twice(
    first: CompilerResult<String>,
    second: CompilerResult<String>,
    source: Seq<char>,
    level: u8,
)
    requires
        text_result_is(first, compile_spec(source, level)),
        text_result_is(second, compile_spec(source, level)),
    ensures
        match (first, second) {
            (Ok(a), Ok(b)) => a@ == b@,
            (Err(a), Err(b)) => a@ == b@,
            _ => false,
        },
{
}

// ---------------------------------------------------------------------------
// The kind of error of each stage.
// ---------------------------------------------------------------------------

/// The lexer fails with lexical errors only.
pub proof fn lemma_lexer_errors_are_lexical(src: Seq<char>, pos: int)
    ensures
        tokens_from(src, pos) is Err ==> tokens_from(src, pos)->Err_0 is LexicalError,
    decreases src.len() - pos,
{
    if 0 <= pos < src.len() {
        lemma_step_advances(src, pos);
        lemma_lexer_errors_are_lexical(src, step_end(src, pos));
    }
}

/// An error of the analysis: a semantic error or a type error.
pub open spec fn is_analysis_error(e: ErrorSpec) -> bool {
    e is SemanticError || e is TypeError
}

/// Typing an expression fails with semantic and type errors only.
pub proof fn lemma_typing_errors(scopes: Seq<Names>, e: ExprSpec)
    ensures
        expr_type(scopes, e) is Err ==> is_analysis_error(expr_type(scopes, e)->Err_0),
    decreases e, 0nat,
{
    match e {
        ExprSpec::Binary { left, right, .. } => {
            lemma_typing_errors(scopes, *left);
            lemma_typing_errors(scopes, *right);
        },
        ExprSpec::Unary { operand, .. } => {
            lemma_typing_errors(scopes, *operand);
        },
        ExprSpec::Call { function, arguments, location } => {
            match resolve_in(scopes, function) {
                Some(symbol) => {
                    lemma_argument_errors(
                        scopes,
                        function,
                        symbol.parameters,
                        arguments,
                        location,
                        0,
                    );
                },
                None => {},
            }
        },
        ExprSpec::Assignment { value, .. } => {
            lemma_typing_errors(scopes, *value);
        },
        _ => {},
    }
}

proof fn lemma_argument_errors(
    scopes: Seq<Names>,
    function: Seq<char>,
    parameters: Seq<TypeSpec>,
    arguments: Seq<ExprSpec>,
    location: Location,
    i: nat,
)
    ensures
        arguments_error(scopes, function, parameters, arguments, location, i) is Some
            ==> is_analysis_error(
            arguments_error(scopes, function, parameters, arguments, location, i)->0,
        ),
    decreases arguments, arguments.len() - i,
{
    if i < arguments.len() && i < parameters.len() {
        lemma_typing_errors(scopes, arguments[i as int]);
        lemma_argument_errors(scopes, function, parameters, arguments, location, i + 1);
    }
}

/// Analyzing a statement fails with semantic and type errors only.
pub proof fn lemma_statement_errors(state: AnalyzerSpec, s: StmtSpec)
    ensures
        check_stmt(state, s).error is Some ==> is_analysis_error(check_stmt(state, s).error->0),
    decreases s, 0nat,
{
    match s {
        StmtSpec::Expression { expression, .. } => {
            lemma_typing_errors(state.scopes, expression);
        },
        StmtSpec::Declaration { initializer, .. } => {
            match initializer {
                Some(init) => {
                    lemma_typing_errors(state.scopes, init);
                },
                None => {},
            }
        },
        StmtSpec::Assignment { value, .. } => {
            lemma_typing_errors(state.scopes, value);
        },
        StmtSpec::If { condition, then_branch, else_branch, .. } => {
            lemma_typing_errors(state.scopes, condition);
            lemma_statement_errors(state, *then_branch);
            match else_branch {
                Some(b) => {
                    lemma_statement_errors(check_stmt(state, *then_branch).state, *b);
                },
                None => {},
            }
        },
        StmtSpec::While { condition, body, .. } => {
            lemma_typing_errors(state.scopes, condition);
            lemma_statement_errors(state, *body);
        },
        StmtSpec::Function { name, parameters, return_type, body, .. } => {
            lemma_parameter_errors(parameters, 0, Names::empty());
            match parameters_scope(parameters, 0, Names::empty()) {
                Ok(names) => {
                    let outer = defined(
                        state,
                        function_symbol(
                            name,
                            parameter_types(parameters),
                            return_type,
                        ),
                    );
                    let inner = AnalyzerSpec {
                        scopes: seq![Names::empty(), names] + outer.scopes,
                        return_type: Some(return_type),
                    };
                    lemma_statements_errors(inner, body, 0);
                },
                Err(_) => {},
            }
        },
        StmtSpec::Return { value, .. } => {
            match value {
                Some(v) => {
                    lemma_typing_errors(state.scopes, v);
                },
                None => {},
            }
        },
        StmtSpec::Block { statements, .. } => {
            lemma_statements_errors(entered(state), statements, 0);
        },
    }
}

proof fn lemma_parameter_errors(
    parameters: Seq<ParamSpec>,
    i: nat,
    names: Names,
)
    ensures
        parameters_scope(parameters, i, names) is Err ==> parameters_scope(
            parameters,
            i,
            names,
        )->Err_0 is SemanticError,
    decreases parameters.len() - i,
{
    if i < parameters.len() && !names.contains_key(parameters[i as int].name) {
        lemma_parameter_errors(
            parameters,
            i + 1,
            names.insert(
                parameters[i as int].name,
                variable_symbol(parameters[i as int].name, parameters[i as int].param_type),
            ),
        );
    }
}

proof fn lemma_statements_errors(state: AnalyzerSpec, statements: Seq<StmtSpec>, i: nat)
    ensures
        check_stmts(state, statements, i).error is Some ==> is_analysis_error(
            check_stmts(state, statements, i).error->0,
        ),
    decreases statements, statements.len() - i,
{
    if i < statements.len() {
        lemma_statement_errors(state, statements[i as int]);
        lemma_statements_errors(check_stmt(state, statements[i as int]).state, statements, i + 1);
    }
}

proof fn lemma_definition_errors(
    state: AnalyzerSpec,
    symbols: Seq<SymbolSpec>,
    i: nat,
)
    ensures
        define_all(state, symbols, i).error is Some ==> define_all(
            state,
            symbols,
            i,
        ).error->0 is SemanticError,
    decreases symbols.len() - i,
{
    if i < symbols.len() && !state.scopes[0].contains_key(symbols[i as int].name) {
        lemma_definition_errors(
            defined(state, symbols[i as int]),
            symbols,
            i + 1,
        );
    }
}

/// The analysis of a program fails with semantic and type errors only.
pub proof fn lemma_analysis_errors(state: AnalyzerSpec, program: ProgramSpec)
    ensures
        analyze_spec(state, program).error is Some ==> is_analysis_error(
            analyze_spec(state, program).error->0,
        ),
{
    lemma_definition_errors(state, builtin_symbols(), 0);
    lemma_statements_errors(define_all(state, builtin_symbols(), 0).state, program.statements, 0);
}

/// An error of the generator: a variable has no slot, or the labels or the
/// slots have run out.
pub open spec fn is_generation_error(e: ErrorSpec) -> bool {
    ||| e == labels_exhausted()
    ||| e == frame_too_large()
    ||| exists|name: Seq<char>| e == #[trigger] missing_variable(name)
}

/// Generating an expression fails with errors of code generation only.
proof fn lemma_expr_generation_errors(state: GenSpec, e: ExprSpec, out: Seq<char>)
    ensures
        gen_expr(state, e, out).text is Err ==> is_generation_error(
            gen_expr(state, e, out).text->Err_0,
        ),
    decreases e, 0nat,
{
    match e {
        ExprSpec::Binary { left, right, .. } => {
            let r = gen_expr(state, *right, out);
            lemma_expr_generation_errors(state, *right, out);
            lemma_expr_generation_errors(r.state, *left, text_of(r));
        },
        ExprSpec::Unary { operand, .. } => {
            lemma_expr_generation_errors(state, *operand, out);
        },
        ExprSpec::Call { arguments, .. } => {
            lemma_args_generation_errors(state, arguments, arguments.len(), out);
        },
        ExprSpec::Assignment { value, .. } => {
            lemma_expr_generation_errors(state, *value, out);
        },
        _ => {},
    }
}

proof fn lemma_args_generation_errors(
    state: GenSpec,
    arguments: Seq<ExprSpec>,
    n: nat,
    out: Seq<char>,
)
    ensures
        gen_args(state, arguments, n, out).text is Err ==> is_generation_error(
            gen_args(state, arguments, n, out).text->Err_0,
        ),
    decreases arguments, n,
{
    if n > 0 && n <= arguments.len() {
        let a = gen_expr(state, arguments[n - 1], out);
        lemma_expr_generation_errors(state, arguments[n - 1], out);
        lemma_args_generation_errors(a.state, arguments, (n - 1) as nat, text_of(a));
    }
}

proof fn lemma_stmt_generation_errors(state: GenSpec, s: StmtSpec, out: Seq<char>)
    ensures
        gen_stmt(state, s, out).text is Err ==> is_generation_error(
            gen_stmt(state, s, out).text->Err_0,
        ),
    decreases s, 0nat,
{
    match s {
        StmtSpec::Expression { expression, .. } => {
            lemma_expr_generation_errors(state, expression, out);
        },
        StmtSpec::Declaration { name, initializer, .. } => {
            match initializer {
                Some(init) => {
                    lemma_expr_generation_errors(
                        declared(state, name, state.stack_offset - 8),
                        init,
                        out,
                    );
                },
                None => {},
            }
        },
        StmtSpec::Assignment { value, .. } => {
            lemma_expr_generation_errors(state, value, out);
        },
        StmtSpec::If { condition, then_branch, else_branch, .. } => {
            if next_label(state, "else"@) is Some {
                let (s1, else_label) = next_label(state, "else"@)->0;
                if next_label(s1, "endif"@) is Some {
                    let (s2, end_label) = next_label(s1, "endif"@)->0;
                    let c = gen_expr(s2, condition, out);
                    let then_start = text_of(c) + jump_if_zero(else_label);
                    let th = gen_stmt(c.state, *then_branch, then_start);
                    let between = text_of(th) + jump(end_label) + label_line(else_label);
                    lemma_expr_generation_errors(s2, condition, out);
                    lemma_stmt_generation_errors(c.state, *then_branch, then_start);
                    match else_branch {
                        Some(b) => {
                            lemma_stmt_generation_errors(th.state, *b, between);
                        },
                        None => {},
                    }
                }
            }
        },
        StmtSpec::While { condition, body, .. } => {
            if next_label(state, "while"@) is Some {
                let (s1, loop_label) = next_label(state, "while"@)->0;
                if next_label(s1, "endwhile"@) is Some {
                    let (s2, end_label) = next_label(s1, "endwhile"@)->0;
                    let c = gen_expr(s2, condition, out + label_line(loop_label));
                    lemma_expr_generation_errors(s2, condition, out + label_line(loop_label));
                    lemma_stmt_generation_errors(
                        c.state,
                        *body,
                        text_of(c) + jump_if_zero(end_label),
                    );
                }
            }
        },
        StmtSpec::Function { parameters, body, .. } => {
            match parameter_slots(parameters, 0, Map::empty()) {
                Some(slots) => {
                    lemma_stmts_generation_errors(
                        inside_function(state, slots, parameters.len()),
                        body,
                        0,
                        Seq::empty(),
                    );
                },
                None => {},
            }
        },
        StmtSpec::Return { value, .. } => {
            match value {
                Some(v) => {
                    lemma_expr_generation_errors(state, v, out);
                },
                None => {},
            }
        },
        StmtSpec::Block { statements, .. } => {
            lemma_stmts_generation_errors(state, statements, 0, out);
        },
    }
}

proof fn lemma_stmts_generation_errors(
    state: GenSpec,
    statements: Seq<StmtSpec>,
    i: nat,
    out: Seq<char>,
)
    ensures
        gen_stmts(state, statements, i, out).text is Err ==> is_generation_error(
            gen_stmts(state, statements, i, out).text->Err_0,
        ),
    decreases statements, statements.len() - i,
{
    if i < statements.len() {
        let first = gen_stmt(state, statements[i as int], out);
        lemma_stmt_generation_errors(state, statements[i as int], out);
        lemma_stmts_generation_errors(first.state, statements, i + 1, text_of(first));
    }
}

/// The generator fails with errors of code generation only, and only for
/// three reasons: a variable without a slot, no label left, or no slot left.
/// A program that passed the analysis can still fail for the first reason:
/// a function does not see the variables declared outside it.
pub proof fn lemma_generation_errors(state: GenSpec, program: ProgramSpec)
    ensures
        generate_spec(state, program).text is Err ==> is_generation_error(
            generate_spec(state, program).text->Err_0,
        ),
        generate_spec(state, program).text is Err ==> generate_spec(
            state,
            program,
        ).text->Err_0 is CodeGenError,
{
    lemma_stmts_generation_errors(state, program.statements, 0, Seq::empty());
}

// ---------------------------------------------------------------------------
// Tokens and their locations.
// ---------------------------------------------------------------------------

/// Where the lexemes of the tokens of `src` from `pos` on begin and end, in
/// order.
pub open spec fn spans_from(src: Seq<char>, pos: int) -> Seq<(int, int)>
    decreases src.len() - pos,
{
    if !(0 <= pos < src.len()) {
        Seq::empty()
    } else {
        proof {
            lemma_step_advances(src, pos);
        }
        match lex_step(src, pos) {
            LexStep::Skip { end } => spans_from(src, end),
            LexStep::Emit { end, .. } => seq![(pos, end)] + spans_from(src, end),
            LexStep::Invalid => Seq::empty(),
        }
    }
}

/// The location names the span from `start` to `end` of `src`: its line and
/// column are those of `start`, its length is that of the span in bytes.
pub open spec fn names_span(src: Seq<char>, location: Location, start: int, end: int) -> bool {
    &&& 0 <= start <= end <= src.len()
    &&& location == location_at(src, start, end)
}

/// Each token but the last stands for a lexeme of the source and carries the
/// location of that lexeme; the last is the end-of-stream token.
pub proof fn lemma_tokens_have_spans(src: Seq<char>, pos: int)
    requires
        0 <= pos,
        tokens_from(src, pos) is Ok,
    ensures
        tokens_from(src, pos)->Ok_0.len() == spans_from(src, pos).len() + 1,
        tokens_from(src, pos)->Ok_0.last() == eof_token(src),
        forall|i: int|
            0 <= i < spans_from(src, pos).len() ==> {
                let span = #[trigger] spans_from(src, pos)[i];
                let token = tokens_from(src, pos)->Ok_0[i];
                &&& pos <= span.0 < span.1 <= src.len()
                &&& token.location == location_at(src, span.0, span.1)
                &&& lex_step(src, span.0) == (LexStep::Emit { token: token.token, end: span.1 })
            },
    decreases src.len() - pos,
{
    if pos < src.len() {
        lemma_step_advances(src, pos);
        let end = step_end(src, pos);
        lemma_tokens_have_spans(src, end);
        let rest_tokens = tokens_from(src, end)->Ok_0;
        let rest_spans = spans_from(src, end);
        match lex_step(src, pos) {
            LexStep::Emit { token, .. } => {
                let tokens = tokens_from(src, pos)->Ok_0;
                let spans = spans_from(src, pos);
                assert(tokens =~= seq![TokenInfoSpec { token, location: location_at(src, pos, end) }]
                    + rest_tokens);
                assert forall|i: int| 0 <= i < spans.len() implies {
                    let span = #[trigger] spans[i];
                    let found = tokens[i];
                    &&& pos <= span.0 < span.1 <= src.len()
                    &&& found.location == location_at(src, span.0, span.1)
                    &&& lex_step(src, span.0) == (LexStep::Emit {
                        token: found.token,
                        end: span.1,
                    })
                } by {
                    if i > 0 {
                        assert(spans[i] == rest_spans[i - 1]);
                        assert(tokens[i] == rest_tokens[i - 1]);
                    }
                }
            },
            _ => {},
        }
    }
}

/// Tokens come in the order of the source: the lexeme of each token ends
/// before the lexeme of the next begins.
pub proof fn lemma_tokens_in_source_order(src: Seq<char>, pos: int)
    requires
        0 <= pos,
    ensures
        forall|i: int|
            0 <= i < spans_from(src, pos).len() ==> pos <= (#[trigger] spans_from(src, pos)[i]).0,
        forall|i: int, j: int|
            0 <= i < j < spans_from(src, pos).len() ==> (#[trigger] spans_from(src, pos)[i]).1 <= (
            #[trigger] spans_from(src, pos)[j]).0,
    decreases src.len() - pos,
{
    if pos < src.len() {
        lemma_step_advances(src, pos);
        let end = step_end(src, pos);
        lemma_tokens_in_source_order(src, end);
        let spans = spans_from(src, pos);
        let rest = spans_from(src, end);
        match lex_step(src, pos) {
            LexStep::Emit { .. } => {
                assert forall|i: int| 0 <= i < spans.len() implies pos <= (#[trigger] spans[i]).0 by {
                    if i > 0 {
                        assert(spans[i] == rest[i - 1]);
                    }
                }
                assert forall|i: int, j: int| 0 <= i < j < spans.len() implies (#[trigger] spans[i]).1
                    <= (#[trigger] spans[j]).0 by {
                    assert(spans[j] == rest[j - 1]);
                    if i > 0 {
                        assert(spans[i] == rest[i - 1]);
                    }
                }
            },
            _ => {},
        }
    }
}

/// Lines never go down along the source, and on one line the column grows by
/// the bytes passed.
proof fn lemma_lines_and_columns(src: Seq<char>, p: int, q: int)
    requires
        0 <= p <= q <= src.len(),
    ensures
        line_at(src, p) <= line_at(src, q),
        line_at(src, p) == line_at(src, q) ==> column_at(src, q) == column_at(src, p) + utf8_len(
            src.subrange(p, q),
        ),
    decreases q - p,
{
    if p < q {
        lemma_lines_and_columns(src, p, q - 1);
        lemma_utf8_len_push(src.subrange(p, q - 1), src[q - 1]);
        assert(src.subrange(p, q - 1).push(src[q - 1]) =~= src.subrange(p, q));
    } else {
        assert(src.subrange(p, q) =~= Seq::<char>::empty());
    }
}

/// A part of a text has no more bytes than the text.
proof fn lemma_utf8_len_part(src: Seq<char>, p: int, q: int)
    requires
        0 <= p <= q <= src.len(),
    ensures
        utf8_len(src.subrange(p, q)) <= utf8_len(src),
        utf8_len(src.subrange(0, p)) + utf8_len(src.subrange(p, q)) == utf8_len(src.subrange(0, q)),
{
    lemma_utf8_len_concat(src.subrange(0, p), src.subrange(p, q));
    assert(src.subrange(0, p) + src.subrange(p, q) =~= src.subrange(0, q));
    lemma_utf8_len_concat(src.subrange(0, q), src.subrange(q, src.len() as int));
    assert(src.subrange(0, q) + src.subrange(q, src.len() as int) =~= src);
}

/// Lines and columns are bounded by the bytes of the text.
proof fn lemma_position_bounds(src: Seq<char>, p: int)
    requires
        0 <= p <= src.len(),
    ensures
        line_at(src, p) <= 1 + utf8_len(src),
        column_at(src, p) <= 1 + utf8_len(src),
    decreases p,
{
    lemma_utf8_len_part(src, 0, p);
    lemma_utf8_len_bounds(src.subrange(0, p));
    if p > 0 {
        lemma_position_bounds(src, p - 1);
        lemma_lines_and_line_feeds(src, p);
        lemma_column_bound(src, p);
    }
}

/// The line is at most one more than the characters passed.
proof fn lemma_lines_and_line_feeds(src: Seq<char>, p: int)
    requires
        0 <= p <= src.len(),
    ensures
        line_at(src, p) <= 1 + p,
    decreases p,
{
    if p > 0 {
        lemma_lines_and_line_feeds(src, p - 1);
    }
}

/// The column is at most one more than the bytes passed.
proof fn lemma_column_bound(src: Seq<char>, p: int)
    requires
        0 <= p <= src.len(),
    ensures
        column_at(src, p) <= 1 + utf8_len(src.subrange(0, p)),
    decreases p,
{
    if p > 0 {
        lemma_column_bound(src, p - 1);
        lemma_utf8_len_push(src.subrange(0, p - 1), src[p - 1]);
        assert(src.subrange(0, p - 1).push(src[p - 1]) =~= src.subrange(0, p));
    }
}

/// In a text of fewer bytes than the greatest machine word, a location names
/// at most one span: two spans with the same line, column and length are one.
pub proof fn lemma_location_names_one_span(
    src: Seq<char>,
    location: Location,
    first: (int, int),
    second: (int, int),
)
    requires
        utf8_len(src) < usize::MAX,
        names_span(src, location, first.0, first.1),
        names_span(src, location, second.0, second.1),
    ensures
        first == second,
{
    lemma_position_bounds(src, first.0);
    lemma_position_bounds(src, second.0);
    lemma_utf8_len_part(src, first.0, first.1);
    lemma_utf8_len_part(src, second.0, second.1);
    let (p, q) = if first.0 <= second.0 {
        (first.0, second.0)
    } else {
        (second.0, first.0)
    };
    lemma_lines_and_columns(src, p, q);
    lemma_utf8_len_bounds(src.subrange(p, q));
    assert(p == q);
    let (a, b) = if first.1 <= second.1 {
        (first.1, second.1)
    } else {
        (second.1, first.1)
    };
    lemma_utf8_len_concat(src.subrange(p, a), src.subrange(a, b));
    assert(src.subrange(p, a) + src.subrange(a, b) =~= src.subrange(p, b));
    lemma_utf8_len_bounds(src.subrange(a, b));
    assert(a == b);
}

/// The location of each token leads back to its lexeme: in a text of fewer
/// bytes than the greatest machine word, the location of every token before
/// the end-of-stream token names exactly one span of the source, and the
/// lexer finds that very token at that span.
pub proof fn lemma_location_round_trip(src: Seq<char>, i: int)
    requires
        utf8_len(src) < usize::MAX,
        tokenize_spec(src) is Ok,
        0 <= i < tokenize_spec(src)->Ok_0.len() - 1,
    ensures
        ({
            let token = tokenize_spec(src)->Ok_0[i];
            let span = spans_from(src, 0)[i];
            &&& names_span(src, token.location, span.0, span.1)
            &&& lex_step(src, span.0) == (LexStep::Emit { token: token.token, end: span.1 })
            &&& forall|start: int, end: int|
                names_span(src, token.location, start, end) ==> start == span.0 && end == span.1
        }),
{
    lemma_tokens_have_spans(src, 0);
    let token = tokenize_spec(src)->Ok_0[i];
    let span = spans_from(src, 0)[i];
    assert forall|start: int, end: int| names_span(src, token.location, start, end) implies start
        == span.0 && end == span.1 by {
        lemma_location_names_one_span(src, token.location, (start, end), span);
    }
}

// ---------------------------------------------------------------------------
// Locations in bytes.
// ---------------------------------------------------------------------------

/// The bytes of a text are those of its encoding in UTF-8.
pub proof fn lemma_utf8_len_is_encoded(s: Seq<char>)
    ensures
        utf8_len(s) == encode_utf8(s).len(),
    decreases s.len(),
{
    if s.len() > 0 {
        let first = s[0];
        char_is_scalar(first);
        lemma_utf8_len_is_encoded(s.drop_first());
        lemma_utf8_len_concat(seq![first], s.drop_first());
        assert(seq![first] + s.drop_first() =~= s);
        lemma_utf8_len_push(Seq::<char>::empty(), first);
        assert(Seq::<char>::empty().push(first) =~= seq![first]);
        assert(utf8_len(Seq::<char>::empty()) == 0);
    }
}

/// The encoding of two texts joined is the encoding of the one, then that of
/// the other.
pub proof fn lemma_encoding_of_joined(a: Seq<char>, b: Seq<char>)
    ensures
        encode_utf8(a + b) == encode_utf8(a) + encode_utf8(b),
    decreases a.len(),
{
    if a.len() == 0 {
        assert(a + b =~= b);
        assert(encode_utf8(a) + encode_utf8(b) =~= encode_utf8(b));
    } else {
        lemma_encoding_of_joined(a.drop_first(), b);
        assert((a + b).drop_first() =~= a.drop_first() + b);
        assert((a + b)[0] == a[0]);
        assert(encode_scalar(a[0] as u32) + (encode_utf8(a.drop_first()) + encode_utf8(b))
            =~= (encode_scalar(a[0] as u32) + encode_utf8(a.drop_first())) + encode_utf8(b));
    }
}

/// The byte at which position `p` of a text begins: the bytes of what stands
/// before it.
pub open spec fn byte_offset(src: Seq<char>, p: int) -> nat {
    utf8_len(src.subrange(0, p))
}

/// The position at which the line of position `p` begins: after the last
/// line feed before `p`, or at the start of the text.
pub open spec fn line_start(src: Seq<char>, p: int) -> int
    decreases p,
{
    if p <= 0 {
        0
    } else if src[p - 1] == '\n' {
        p
    } else {
        line_start(src, p - 1)
    }
}

/// The line of a position begins at or before it, on the same line, and the
/// column is one more than the bytes from there to the position.
pub proof fn lemma_column_counts_bytes(src: Seq<char>, p: int)
    requires
        0 <= p <= src.len(),
    ensures
        0 <= line_start(src, p) <= p,
        line_start(src, p) == 0 || src[line_start(src, p) - 1] == '\n',
        line_at(src, line_start(src, p)) == line_at(src, p),
        column_at(src, line_start(src, p)) == 1,
        byte_offset(src, line_start(src, p)) + column_at(src, p) - 1 == byte_offset(src, p),
        forall|q: int| 0 <= q < line_start(src, p) ==> line_at(src, q) < line_at(src, p),
    decreases p,
{
    if p > 0 && src[p - 1] != '\n' {
        lemma_column_counts_bytes(src, p - 1);
        lemma_utf8_len_push(src.subrange(0, p - 1), src[p - 1]);
        assert(src.subrange(0, p - 1).push(src[p - 1]) =~= src.subrange(0, p));
    } else if p > 0 {
        assert forall|q: int| 0 <= q < p implies line_at(src, q) < line_at(src, p) by {
            lemma_lines_and_columns(src, q, p - 1);
        }
    }
}

/// Locations count in bytes of the source as it is encoded in UTF-8. In a
/// text of fewer bytes than the greatest machine word, for every token before
/// the end-of-stream token: the byte at which its line begins, and its column
/// less one, give the byte at which its lexeme begins; its length is the
/// number of bytes of the lexeme, and is not zero; the bytes of the source
/// from that byte on, as many as the length says, are the encoding of the
/// lexeme; and the lexeme ends at or before the byte at which the next token
/// begins.
pub proof fn lemma_location_in_bytes(src: Seq<char>, i: int)
    requires
        utf8_len(src) < usize::MAX,
        tokenize_spec(src) is Ok,
        0 <= i < tokenize_spec(src)->Ok_0.len() - 1,
    ensures
        ({
            let location = tokenize_spec(src)->Ok_0[i].location;
            let span = spans_from(src, 0)[i];
            let begins = byte_offset(src, line_start(src, span.0)) + location.column - 1;
            let lexeme = src.subrange(span.0, span.1);
            &&& location.line == line_at(src, span.0)
            &&& begins == byte_offset(src, span.0)
            &&& location.length == encode_utf8(lexeme).len()
            &&& location.length > 0
            &&& begins + location.length <= encode_utf8(src).len()
            &&& encode_utf8(src).subrange(begins as int, begins + location.length) == encode_utf8(
                lexeme,
            )
            &&& i + 1 < spans_from(src, 0).len() ==> begins + location.length <= byte_offset(
                src,
                spans_from(src, 0)[i + 1].0,
            )
        }),
{
    lemma_tokens_have_spans(src, 0);
    lemma_tokens_in_source_order(src, 0);
    let span = spans_from(src, 0)[i];
    let (p, e) = span;
    let lexeme = src.subrange(p, e);
    let before = src.subrange(0, p);
    let after = src.subrange(e, src.len() as int);
    lemma_position_bounds(src, p);
    lemma_utf8_len_part(src, p, e);
    lemma_column_counts_bytes(src, p);
    lemma_utf8_len_bounds(lexeme);
    lemma_utf8_len_is_encoded(lexeme);
    lemma_utf8_len_is_encoded(before);
    lemma_utf8_len_is_encoded(src);
    lemma_encoding_of_joined(before, lexeme);
    lemma_encoding_of_joined(before + lexeme, after);
    assert(before + lexeme + after =~= src);
    let bytes = encode_utf8(src);
    assert(bytes.subrange(
        encode_utf8(before).len() as int,
        (encode_utf8(before).len() + encode_utf8(lexeme).len()) as int,
    ) =~= encode_utf8(lexeme));
    if i + 1 < spans_from(src, 0).len() {
        let next = spans_from(src, 0)[i + 1].0;
        lemma_utf8_len_part(src, e, next);
        lemma_utf8_len_part(src, 0, e);
        lemma_utf8_len_concat(src.subrange(0, e), src.subrange(e, next));
        assert(src.subrange(0, e) + src.subrange(e, next) =~= src.subrange(0, next));
        lemma_utf8_len_concat(before, lexeme);
        assert(before + lexeme =~= src.subrange(0, e));
    }
}

// ---------------------------------------------------------------------------
// The generated text.
// ---------------------------------------------------------------------------

/// `a` is the beginning of `b`.
pub open spec fn is_prefix(a: Seq<char>, b: Seq<char>) -> bool {
    a.len() <= b.len() && b.subrange(0, a.len() as int) == a
}

proof fn lemma_prefix_grows(a: Seq<char>, b: Seq<char>, more: Seq<char>)
    requires
        is_prefix(a, b),
    ensures
        is_prefix(a, b + more),
{
    assert((b + more).subrange(0, a.len() as int) =~= b.subrange(0, a.len() as int));
}

proof fn lemma_prefix_chain(a: Seq<char>, b: Seq<char>, c: Seq<char>)
    requires
        is_prefix(a, b),
        is_prefix(b, c),
    ensures
        is_prefix(a, c),
{
    assert(c.subrange(0, a.len() as int) =~= c.subrange(0, b.len() as int).subrange(
        0,
        a.len() as int,
    ));
}

proof fn lemma_prefix_self(a: Seq<char>)
    ensures
        is_prefix(a, a),
{
    assert(a.subrange(0, a.len() as int) =~= a);
}

proof fn lemma_contains_extended(a: Seq<char>, b: Seq<char>, pattern: Seq<char>)
    requires
        is_prefix(a, b),
        contains(a, pattern),
    ensures
        contains(b, pattern),
{
    let at = choose|at: int| occurs_at(a, pattern, at);
    assert(b.subrange(at, at + pattern.len()) =~= a.subrange(at, at + pattern.len()));
    assert(occurs_at(b, pattern, at));
}

proof fn lemma_contains_appended(before: Seq<char>, text: Seq<char>, pattern: Seq<char>)
    requires
        contains(text, pattern),
    ensures
        contains(before + text, pattern),
{
    lemma_contains_embedded(before, text, Seq::empty(), pattern);
    assert(before + text + Seq::<char>::empty() =~= before + text);
}

/// Generating an expression only adds to the end of the buffer.
proof fn lemma_expr_extends(state: GenSpec, e: ExprSpec, out: Seq<char>)
    requires
        gen_expr(state, e, out).text is Ok,
    ensures
        is_prefix(out, text_of(gen_expr(state, e, out))),
    decreases e, 0nat,
{
    lemma_prefix_self(out);
    match e {
        ExprSpec::Literal { .. } => {
            lemma_prefix_grows(out, out, text_of(gen_expr(state, e, out)).subrange(
                out.len() as int,
                text_of(gen_expr(state, e, out)).len() as int,
            ));
            let t = text_of(gen_expr(state, e, out));
            assert(t.subrange(0, out.len() as int) =~= out);
        },
        ExprSpec::Identifier { .. } => {
            let t = text_of(gen_expr(state, e, out));
            assert(t.subrange(0, out.len() as int) =~= out);
        },
        ExprSpec::Binary { left, right, .. } => {
            let r = gen_expr(state, *right, out);
            let l = gen_expr(r.state, *left, text_of(r));
            lemma_expr_extends(state, *right, out);
            lemma_expr_extends(r.state, *left, text_of(r));
            lemma_prefix_chain(out, text_of(r), text_of(l));
            let t = text_of(gen_expr(state, e, out));
            assert(t.subrange(0, text_of(l).len() as int) =~= text_of(l));
            lemma_prefix_chain(out, text_of(l), t);
        },
        ExprSpec::Unary { operand, .. } => {
            let o = gen_expr(state, *operand, out);
            lemma_expr_extends(state, *operand, out);
            let t = text_of(gen_expr(state, e, out));
            assert(t.subrange(0, text_of(o).len() as int) =~= text_of(o));
            lemma_prefix_chain(out, text_of(o), t);
        },
        ExprSpec::Call { arguments, .. } => {
            let a = gen_args(state, arguments, arguments.len(), out);
            lemma_args_extends(state, arguments, arguments.len(), out);
            let t = text_of(gen_expr(state, e, out));
            assert(t.subrange(0, text_of(a).len() as int) =~= text_of(a));
            lemma_prefix_chain(out, text_of(a), t);
        },
        ExprSpec::Assignment { value, .. } => {
            let v = gen_expr(state, *value, out);
            lemma_expr_extends(state, *value, out);
            let t = text_of(gen_expr(state, e, out));
            assert(t.subrange(0, text_of(v).len() as int) =~= text_of(v));
            lemma_prefix_chain(out, text_of(v), t);
        },
    }
}

/// Generating the arguments of a call only adds to the end of the buffer.
proof fn lemma_args_extends(state: GenSpec, arguments: Seq<ExprSpec>, n: nat, out: Seq<char>)
    requires
        gen_args(state, arguments, n, out).text is Ok,
    ensures
        is_prefix(out, text_of(gen_args(state, arguments, n, out))),
    decreases arguments, n,
{
    if n == 0 || n > arguments.len() {
        lemma_prefix_self(out);
    } else {
        let a = gen_expr(state, arguments[n - 1], out);
        lemma_expr_extends(state, arguments[n - 1], out);
        lemma_args_extends(a.state, arguments, (n - 1) as nat, text_of(a));
        lemma_prefix_chain(out, text_of(a), text_of(gen_args(state, arguments, n, out)));
    }
}

/// Generating a statement only adds to the end of the buffer.
#[verifier::rlimit(80)]
proof fn lemma_stmt_extends(state: GenSpec, s: StmtSpec, out: Seq<char>)
    requires
        gen_stmt(state, s, out).text is Ok,
    ensures
        is_prefix(out, text_of(gen_stmt(state, s, out))),
    decreases s, 0nat,
{
    let t = text_of(gen_stmt(state, s, out));
    lemma_prefix_self(out);
    match s {
        StmtSpec::Expression { expression, .. } => {
            let g = gen_expr(state, expression, out);
            lemma_expr_extends(state, expression, out);
            assert(t.subrange(0, text_of(g).len() as int) =~= text_of(g));
            lemma_prefix_chain(out, text_of(g), t);
        },
        StmtSpec::Declaration { name, initializer, .. } => {
            match initializer {
                None => {},
                Some(init) => {
                    let inner = declared(state, name, state.stack_offset - 8);
                    let g = gen_expr(inner, init, out);
                    lemma_expr_extends(inner, init, out);
                    assert(t.subrange(0, text_of(g).len() as int) =~= text_of(g));
                    lemma_prefix_chain(out, text_of(g), t);
                },
            }
        },
        StmtSpec::Assignment { value, .. } => {
            let v = gen_expr(state, value, out);
            lemma_expr_extends(state, value, out);
            assert(t.subrange(0, text_of(v).len() as int) =~= text_of(v));
            lemma_prefix_chain(out, text_of(v), t);
        },
        StmtSpec::If { condition, then_branch, else_branch, .. } => {
            let (s1, else_label) = next_label(state, "else"@)->0;
            let (s2, end_label) = next_label(s1, "endif"@)->0;
            let c = gen_expr(s2, condition, out);
            let then_start = text_of(c) + jump_if_zero(else_label);
            let th = gen_stmt(c.state, *then_branch, then_start);
            let between = text_of(th) + jump(end_label) + label_line(else_label);
            lemma_expr_extends(s2, condition, out);
            lemma_prefix_grows(out, text_of(c), jump_if_zero(else_label));
            lemma_stmt_extends(c.state, *then_branch, then_start);
            lemma_prefix_chain(out, then_start, text_of(th));
            lemma_prefix_grows(out, text_of(th), jump(end_label));
            lemma_prefix_grows(out, text_of(th) + jump(end_label), label_line(else_label));
            let e = match else_branch {
                Some(b) => gen_stmt(th.state, *b, between),
                None => done(th.state, between),
            };
            match else_branch {
                Some(b) => {
                    lemma_stmt_extends(th.state, *b, between);
                    lemma_prefix_chain(out, between, text_of(e));
                },
                None => {},
            }
            lemma_prefix_grows(out, text_of(e), label_line(end_label));
        },
        StmtSpec::While { condition, body, .. } => {
            let (s1, loop_label) = next_label(state, "while"@)->0;
            let (s2, end_label) = next_label(s1, "endwhile"@)->0;
            let start = out + label_line(loop_label);
            let c = gen_expr(s2, condition, start);
            let body_start = text_of(c) + jump_if_zero(end_label);
            let b = gen_stmt(c.state, *body, body_start);
            lemma_prefix_grows(out, out, label_line(loop_label));
            lemma_expr_extends(s2, condition, start);
            lemma_prefix_chain(out, start, text_of(c));
            lemma_prefix_grows(out, text_of(c), jump_if_zero(end_label));
            lemma_stmt_extends(c.state, *body, body_start);
            lemma_prefix_chain(out, body_start, text_of(b));
            lemma_prefix_grows(out, text_of(b), jump(loop_label));
            lemma_prefix_grows(out, text_of(b) + jump(loop_label), label_line(end_label));
        },
        StmtSpec::Function { name, parameters, body, .. } => {
            let slots = parameter_slots(parameters, 0, Map::empty())->0;
            let b = gen_stmts(inside_function(state, slots, parameters.len()), body, 0, Seq::empty());
            let head = prologue(name, frame_size(b.state.stack_offset));
            lemma_prefix_grows(out, out, head);
            lemma_prefix_grows(out, out + head, text_of(b));
            lemma_prefix_grows(out, out + head + text_of(b), epilogue());
        },
        StmtSpec::Return { value, .. } => {
            match value {
                Some(v) => {
                    let g = gen_expr(state, v, out);
                    lemma_expr_extends(state, v, out);
                    assert(t.subrange(0, text_of(g).len() as int) =~= text_of(g));
                    lemma_prefix_chain(out, text_of(g), t);
                },
                None => {
                    assert(t.subrange(0, out.len() as int) =~= out);
                },
            }
        },
        StmtSpec::Block { statements, .. } => {
            lemma_stmts_extends(state, statements, 0, out);
        },
    }
}

/// Generating statements only adds to the end of the buffer.
proof fn lemma_stmts_extends(state: GenSpec, statements: Seq<StmtSpec>, i: nat, out: Seq<char>)
    requires
        gen_stmts(state, statements, i, out).text is Ok,
    ensures
        is_prefix(out, text_of(gen_stmts(state, statements, i, out))),
    decreases statements, statements.len() - i,
{
    if i >= statements.len() {
        lemma_prefix_self(out);
    } else {
        let first = gen_stmt(state, statements[i as int], out);
        lemma_stmt_extends(state, statements[i as int], out);
        lemma_stmts_extends(first.state, statements, i + 1, text_of(first));
        lemma_prefix_chain(out, text_of(first), text_of(gen_stmts(state, statements, i, out)));
    }
}

/// The statement defines a function called `name`, itself or somewhere
/// inside it.
pub open spec fn defines(s: StmtSpec, name: Seq<char>) -> bool
    decreases s,
{
    match s {
        StmtSpec::Function { name: own, body, .. } => own == name || exists|i: int|
            0 <= i < body.len() && defines(#[trigger] body[i], name),
        StmtSpec::If { then_branch, else_branch, .. } => defines(*then_branch, name)
            || match else_branch {
            Some(b) => defines(*b, name),
            None => false,
        },
        StmtSpec::While { body, .. } => defines(*body, name),
        StmtSpec::Block { statements, .. } => exists|i: int|
            0 <= i < statements.len() && defines(#[trigger] statements[i], name),
        _ => false,
    }
}

/// The program defines a function called `name`, at any depth.
pub open spec fn program_defines(program: ProgramSpec, name: Seq<char>) -> bool {
    exists|i: int|
        0 <= i < program.statements.len() && defines(#[trigger] program.statements[i], name)
}

/// The text of a statement holds the label of every function that the
/// statement defines.
#[verifier::rlimit(80)]
proof fn lemma_stmt_labels(state: GenSpec, s: StmtSpec, out: Seq<char>, name: Seq<char>)
    requires
        defines(s, name),
        gen_stmt(state, s, out).text is Ok,
    ensures
        contains(text_of(gen_stmt(state, s, out)), label_line(name)),
    decreases s, 0nat,
{
    let t = text_of(gen_stmt(state, s, out));
    let label = label_line(name);
    match s {
        StmtSpec::If { condition, then_branch, else_branch, .. } => {
            let (s1, else_label) = next_label(state, "else"@)->0;
            let (s2, end_label) = next_label(s1, "endif"@)->0;
            let c = gen_expr(s2, condition, out);
            let then_start = text_of(c) + jump_if_zero(else_label);
            let th = gen_stmt(c.state, *then_branch, then_start);
            let between = text_of(th) + jump(end_label) + label_line(else_label);
            let e = match else_branch {
                Some(b) => gen_stmt(th.state, *b, between),
                None => done(th.state, between),
            };
            lemma_prefix_self(text_of(th));
            lemma_prefix_grows(text_of(th), text_of(th), jump(end_label));
            lemma_prefix_grows(text_of(th), text_of(th) + jump(end_label), label_line(else_label));
            lemma_prefix_self(text_of(e));
            lemma_prefix_grows(text_of(e), text_of(e), label_line(end_label));
            if defines(*then_branch, name) {
                lemma_stmt_labels(c.state, *then_branch, then_start, name);
                lemma_contains_extended(text_of(th), between, label);
                match else_branch {
                    Some(b) => {
                        lemma_stmt_extends(th.state, *b, between);
                        lemma_contains_extended(between, text_of(e), label);
                    },
                    None => {},
                }
            } else {
                match else_branch {
                    Some(b) => {
                        lemma_stmt_labels(th.state, *b, between, name);
                    },
                    None => {},
                }
            }
            lemma_contains_extended(text_of(e), t, label);
        },
        StmtSpec::While { condition, body, .. } => {
            let (s1, loop_label) = next_label(state, "while"@)->0;
            let (s2, end_label) = next_label(s1, "endwhile"@)->0;
            let c = gen_expr(s2, condition, out + label_line(loop_label));
            let body_start = text_of(c) + jump_if_zero(end_label);
            let b = gen_stmt(c.state, *body, body_start);
            lemma_stmt_labels(c.state, *body, body_start, name);
            lemma_prefix_self(text_of(b));
            lemma_prefix_grows(text_of(b), text_of(b), jump(loop_label));
            lemma_prefix_grows(text_of(b), text_of(b) + jump(loop_label), label_line(end_label));
            lemma_contains_extended(text_of(b), t, label);
        },
        StmtSpec::Function { name: own, parameters, body, .. } => {
            let slots = parameter_slots(parameters, 0, Map::empty())->0;
            let inner = inside_function(state, slots, parameters.len());
            let b = gen_stmts(inner, body, 0, Seq::empty());
            let head = prologue(own, frame_size(b.state.stack_offset));
            if own == name {
                let rest = head.subrange(label.len() as int, head.len() as int);
                assert(head =~= label + rest);
                lemma_contains_prefix(label, rest);
                lemma_contains_appended(out, head, label);
                lemma_prefix_self(out + head);
                lemma_prefix_grows(out + head, out + head, text_of(b));
                lemma_prefix_grows(out + head, out + head + text_of(b), epilogue());
                lemma_contains_extended(out + head, t, label);
            } else {
                let j = choose|j: int| 0 <= j < body.len() && defines(#[trigger] body[j], name);
                lemma_stmts_labels(inner, body, 0, Seq::empty(), j, name);
                lemma_contains_appended(out + head, text_of(b), label);
                lemma_prefix_self(out + head + text_of(b));
                lemma_prefix_grows(out + head + text_of(b), out + head + text_of(b), epilogue());
                lemma_contains_extended(out + head + text_of(b), t, label);
            }
        },
        StmtSpec::Block { statements, .. } => {
            let j = choose|j: int|
                0 <= j < statements.len() && defines(#[trigger] statements[j], name);
            lemma_stmts_labels(state, statements, 0, out, j, name);
        },
        _ => {},
    }
}

/// The text of statements holds the label of every function that one of them
/// defines.
proof fn lemma_stmts_labels(
    state: GenSpec,
    statements: Seq<StmtSpec>,
    i: nat,
    out: Seq<char>,
    j: int,
    name: Seq<char>,
)
    requires
        i <= j < statements.len(),
        defines(statements[j], name),
        gen_stmts(state, statements, i, out).text is Ok,
    ensures
        contains(text_of(gen_stmts(state, statements, i, out)), label_line(name)),
    decreases statements, statements.len() - i,
{
    let first = gen_stmt(state, statements[i as int], out);
    if j == i {
        lemma_stmt_labels(state, statements[i as int], out, name);
        lemma_stmts_extends(first.state, statements, i + 1, text_of(first));
        lemma_contains_extended(
            text_of(first),
            text_of(gen_stmts(state, statements, i, out)),
            label_line(name),
        );
    } else {
        lemma_stmts_labels(first.state, statements, i + 1, text_of(first), j, name);
    }
}

/// Every function that a program defines, at any depth, has its label in the
/// generated text: the function's name and a colon on a line of their own.
pub proof fn lemma_every_function_has_its_label(
    state: GenSpec,
    program: ProgramSpec,
    name: Seq<char>,
)
    requires
        program_defines(program, name),
        generate_spec(state, program).text is Ok,
    ensures
        contains(text_of(generate_spec(state, program)), label_line(name)),
{
    let body = gen_stmts(state, program.statements, 0, Seq::empty());
    let j = choose|j: int|
        0 <= j < program.statements.len() && defines(#[trigger] program.statements[j], name);
    lemma_stmts_labels(state, program.statements, 0, Seq::empty(), j, name);
    let strings = body.state.strings;
    let head = data_header() + data_lines(strings, strings.len()) + text_header();
    let t = text_of(generate_spec(state, program));
    lemma_contains_appended(head, text_of(body), label_line(name));
    lemma_prefix_self(head + text_of(body));
    lemma_prefix_grows(
        head + text_of(body),
        head + text_of(body),
        t.subrange((head + text_of(body)).len() as int, t.len() as int),
    );
    assert(t =~= head + text_of(body) + t.subrange(
        (head + text_of(body)).len() as int,
        t.len() as int,
    ));
    lemma_contains_extended(head + text_of(body), t, label_line(name));
}

/// The buffer stands at the start of a line: it is empty or ends with a
/// line feed.
pub open spec fn at_line_start(out: Seq<char>) -> bool {
    out.len() == 0 || out.last() == '\n'
}

/// `line` stands in `text` at or after the index `from`, at the start of a
/// line.
pub open spec fn line_from(text: Seq<char>, line: Seq<char>, from: int) -> bool {
    exists|at: int|
        from <= at && #[trigger] occurs_at(text, line, at) && (at == 0 || text[at - 1] == '\n')
}

proof fn lemma_line_kept(a: Seq<char>, b: Seq<char>, line: Seq<char>, from: int, lower: int)
    requires
        is_prefix(a, b),
        line_from(a, line, from),
        lower <= from,
    ensures
        line_from(b, line, lower),
{
    let at = choose|at: int|
        from <= at && #[trigger] occurs_at(a, line, at) && (at == 0 || a[at - 1] == '\n');
    assert(b.subrange(at, at + line.len()) =~= a.subrange(at, at + line.len()));
    assert(occurs_at(b, line, at));
    if at > 0 {
        assert(b[at - 1] == b.subrange(0, a.len() as int)[at - 1]);
    }
}

proof fn lemma_line_shifted(before: Seq<char>, text: Seq<char>, line: Seq<char>)
    requires
        at_line_start(before),
        line_from(text, line, 0),
    ensures
        line_from(before + text, line, before.len() as int),
{
    let at = choose|at: int|
        0 <= at && #[trigger] occurs_at(text, line, at) && (at == 0 || text[at - 1] == '\n');
    let whole = before + text;
    assert(whole.subrange(before.len() + at, before.len() + at + line.len()) =~= text.subrange(
        at,
        at + line.len(),
    ));
    assert(occurs_at(whole, line, before.len() + at));
}

/// A statement that begins at the start of a line ends at the start of one.
proof fn lemma_statement_keeps_line_start(state: GenSpec, s: StmtSpec, out: Seq<char>)
    requires
        gen_stmt(state, s, out).text is Ok,
        at_line_start(out),
    ensures
        at_line_start(text_of(gen_stmt(state, s, out))),
    decreases s, 0nat,
{
    let t = text_of(gen_stmt(state, s, out));
    lemma_fixed_instructions_end_lines();
    match s {
        StmtSpec::Expression { expression, .. } => {
            let g = gen_expr(state, expression, out);
            lemma_ends_line_after(text_of(g), pop_result());
        },
        StmtSpec::Declaration { name, initializer, .. } => {
            match initializer {
                Some(init) => {
                    let offset = state.stack_offset - 8;
                    let g = gen_expr(declared(state, name, offset), init, out);
                    lemma_store_slot_ends_line(offset);
                    lemma_ends_line_after(text_of(g) + pop_result(), store_slot(offset));
                },
                None => {},
            }
        },
        StmtSpec::Assignment { target, value, .. } => {
            let v = gen_expr(state, value, out);
            let offset = slot_of(v.state, target)->Ok_0;
            lemma_store_slot_ends_line(offset);
            lemma_ends_line_after(text_of(v) + pop_result(), store_slot(offset));
            assert(t =~= text_of(v) + pop_result() + store_slot(offset));
        },
        StmtSpec::If { condition, then_branch, else_branch, .. } => {
            let (s1, else_label) = next_label(state, "else"@)->0;
            let (s2, end_label) = next_label(s1, "endif"@)->0;
            let c = gen_expr(s2, condition, out);
            let th = gen_stmt(c.state, *then_branch, text_of(c) + jump_if_zero(else_label));
            let between = text_of(th) + jump(end_label) + label_line(else_label);
            let e = match else_branch {
                Some(b) => gen_stmt(th.state, *b, between),
                None => done(th.state, between),
            };
            lemma_label_line_ends_line(end_label);
            lemma_ends_line_after(text_of(e), label_line(end_label));
        },
        StmtSpec::While { condition, body, .. } => {
            let (s1, loop_label) = next_label(state, "while"@)->0;
            let (s2, end_label) = next_label(s1, "endwhile"@)->0;
            let c = gen_expr(s2, condition, out + label_line(loop_label));
            let b = gen_stmt(c.state, *body, text_of(c) + jump_if_zero(end_label));
            lemma_label_line_ends_line(end_label);
            lemma_ends_line_after(text_of(b) + jump(loop_label), label_line(end_label));
        },
        StmtSpec::Function { name, parameters, body, .. } => {
            let slots = parameter_slots(parameters, 0, Map::empty())->0;
            let b = gen_stmts(
                inside_function(state, slots, parameters.len()),
                body,
                0,
                Seq::empty(),
            );
            let head = prologue(name, frame_size(b.state.stack_offset));
            lemma_ends_line_after(out + head + text_of(b), epilogue());
        },
        StmtSpec::Return { value, .. } => {
            match value {
                Some(v) => {
                    let g = gen_expr(state, v, out);
                    lemma_ends_line_after(text_of(g) + pop_result(), leave());
                },
                None => {
                    lemma_ends_line_after(out, leave());
                },
            }
        },
        StmtSpec::Block { statements, .. } => {
            lemma_statements_keep_line_start(state, statements, 0, out);
        },
    }
}

proof fn lemma_statements_keep_line_start(
    state: GenSpec,
    statements: Seq<StmtSpec>,
    i: nat,
    out: Seq<char>,
)
    requires
        gen_stmts(state, statements, i, out).text is Ok,
        at_line_start(out),
    ensures
        at_line_start(text_of(gen_stmts(state, statements, i, out))),
    decreases statements, statements.len() - i,
{
    if i < statements.len() {
        let first = gen_stmt(state, statements[i as int], out);
        lemma_statement_keeps_line_start(state, statements[i as int], out);
        lemma_statements_keep_line_start(first.state, statements, i + 1, text_of(first));
    }
}

/// The label of every function that a statement defines stands in the
/// statement's text on a line of its own.
proof fn lemma_stmt_label_lines(state: GenSpec, s: StmtSpec, out: Seq<char>, name: Seq<char>)
    requires
        defines(s, name),
        gen_stmt(state, s, out).text is Ok,
        at_line_start(out),
    ensures
        line_from(text_of(gen_stmt(state, s, out)), label_line(name), out.len() as int),
    decreases s, 1nat,
{
    match s {
        StmtSpec::If { .. } => {
            lemma_if_label_lines(state, s, out, name);
        },
        StmtSpec::While { .. } => {
            lemma_while_label_lines(state, s, out, name);
        },
        StmtSpec::Function { .. } => {
            lemma_function_label_lines(state, s, out, name);
        },
        StmtSpec::Block { statements, .. } => {
            let j = choose|j: int|
                0 <= j < statements.len() && defines(#[trigger] statements[j], name);
            lemma_stmts_label_lines(state, statements, 0, out, j, name);
        },
        _ => {},
    }
}

#[verifier::rlimit(80)]
proof fn lemma_if_label_lines(state: GenSpec, s: StmtSpec, out: Seq<char>, name: Seq<char>)
    requires
        s is If,
        defines(s, name),
        gen_stmt(state, s, out).text is Ok,
        at_line_start(out),
    ensures
        line_from(text_of(gen_stmt(state, s, out)), label_line(name), out.len() as int),
    decreases s, 0nat,
{
    let t = text_of(gen_stmt(state, s, out));
    let label = label_line(name);
    let condition = s->If_condition;
    let then_branch = *s->If_then_branch;
    let else_branch = s->If_else_branch;
    let (s1, else_label) = next_label(state, "else"@)->0;
    let (s2, end_label) = next_label(s1, "endif"@)->0;
    let c = gen_expr(s2, condition, out);
    let then_start = text_of(c) + jump_if_zero(else_label);
    let th = gen_stmt(c.state, then_branch, then_start);
    let between = text_of(th) + jump(end_label) + label_line(else_label);
    let e = match else_branch {
        Some(b) => gen_stmt(th.state, *b, between),
        None => done(th.state, between),
    };
    lemma_jump_if_zero_ends_line(else_label);
    lemma_ends_line_after(text_of(c), jump_if_zero(else_label));
    lemma_label_line_ends_line(else_label);
    lemma_ends_line_after(text_of(th) + jump(end_label), label_line(else_label));
    lemma_expr_extends(s2, condition, out);
    lemma_prefix_grows(out, text_of(c), jump_if_zero(else_label));
    lemma_stmt_extends(c.state, then_branch, then_start);
    lemma_prefix_chain(out, then_start, text_of(th));
    lemma_prefix_self(text_of(th));
    lemma_prefix_grows(text_of(th), text_of(th), jump(end_label));
    lemma_prefix_grows(text_of(th), text_of(th) + jump(end_label), label_line(else_label));
    lemma_prefix_chain(out, text_of(th), between);
    lemma_prefix_self(text_of(e));
    lemma_prefix_grows(text_of(e), text_of(e), label_line(end_label));
    if defines(then_branch, name) {
        lemma_stmt_label_lines(c.state, then_branch, then_start, name);
        lemma_line_kept(text_of(th), between, label, then_start.len() as int, out.len() as int);
        match else_branch {
            Some(b) => {
                lemma_stmt_extends(th.state, *b, between);
                lemma_line_kept(between, text_of(e), label, out.len() as int, out.len() as int);
            },
            None => {},
        }
    } else {
        match else_branch {
            Some(b) => {
                lemma_stmt_label_lines(th.state, *b, between, name);
                lemma_line_kept(
                    text_of(e),
                    text_of(e),
                    label,
                    between.len() as int,
                    out.len() as int,
                );
            },
            None => {},
        }
    }
    lemma_line_kept(text_of(e), t, label, out.len() as int, out.len() as int);
}

#[verifier::rlimit(80)]
proof fn lemma_while_label_lines(state: GenSpec, s: StmtSpec, out: Seq<char>, name: Seq<char>)
    requires
        s is While,
        defines(s, name),
        gen_stmt(state, s, out).text is Ok,
        at_line_start(out),
    ensures
        line_from(text_of(gen_stmt(state, s, out)), label_line(name), out.len() as int),
    decreases s, 0nat,
{
    let t = text_of(gen_stmt(state, s, out));
    let label = label_line(name);
    let condition = s->While_condition;
    let body = *s->While_body;
    let (s1, loop_label) = next_label(state, "while"@)->0;
    let (s2, end_label) = next_label(s1, "endwhile"@)->0;
    let start = out + label_line(loop_label);
    let c = gen_expr(s2, condition, start);
    let body_start = text_of(c) + jump_if_zero(end_label);
    let b = gen_stmt(c.state, body, body_start);
    lemma_jump_if_zero_ends_line(end_label);
    lemma_ends_line_after(text_of(c), jump_if_zero(end_label));
    lemma_prefix_self(out);
    lemma_prefix_grows(out, out, label_line(loop_label));
    lemma_expr_extends(s2, condition, start);
    lemma_prefix_chain(out, start, text_of(c));
    lemma_prefix_grows(out, text_of(c), jump_if_zero(end_label));
    lemma_stmt_label_lines(c.state, body, body_start, name);
    lemma_prefix_self(text_of(b));
    lemma_prefix_grows(text_of(b), text_of(b), jump(loop_label));
    lemma_prefix_grows(text_of(b), text_of(b) + jump(loop_label), label_line(end_label));
    lemma_line_kept(text_of(b), t, label, body_start.len() as int, out.len() as int);
}

#[verifier::rlimit(80)]
proof fn lemma_function_label_lines(state: GenSpec, s: StmtSpec, out: Seq<char>, name: Seq<char>)
    requires
        s is Function,
        defines(s, name),
        gen_stmt(state, s, out).text is Ok,
        at_line_start(out),
    ensures
        line_from(text_of(gen_stmt(state, s, out)), label_line(name), out.len() as int),
    decreases s, 0nat,
{
    let t = text_of(gen_stmt(state, s, out));
    let label = label_line(name);
    let own = s->Function_name;
    let parameters = s->Function_parameters;
    let body = s->Function_body;
    let slots = parameter_slots(parameters, 0, Map::empty())->0;
    let inner = inside_function(state, slots, parameters.len());
    let b = gen_stmts(inner, body, 0, Seq::empty());
    let head = prologue(own, frame_size(b.state.stack_offset));
    lemma_prologue_ends_line(own, frame_size(b.state.stack_offset));
    if own == name {
        assert(head.subrange(0, label.len() as int) =~= label);
        assert(occurs_at(head, label, 0));
        assert(line_from(head, label, 0));
        lemma_line_shifted(out, head, label);
        lemma_prefix_self(out + head);
        lemma_prefix_grows(out + head, out + head, text_of(b));
        lemma_prefix_grows(out + head, out + head + text_of(b), epilogue());
        lemma_line_kept(out + head, t, label, out.len() as int, out.len() as int);
    } else {
        let j = choose|j: int| 0 <= j < body.len() && defines(#[trigger] body[j], name);
        lemma_stmts_label_lines(inner, body, 0, Seq::empty(), j, name);
        lemma_ends_line_after(out, head);
        lemma_line_shifted(out + head, text_of(b), label);
        lemma_prefix_self(out + head + text_of(b));
        lemma_prefix_grows(out + head + text_of(b), out + head + text_of(b), epilogue());
        lemma_line_kept(
            out + head + text_of(b),
            t,
            label,
            (out + head).len() as int,
            out.len() as int,
        );
    }
}

proof fn lemma_stmts_label_lines(
    state: GenSpec,
    statements: Seq<StmtSpec>,
    i: nat,
    out: Seq<char>,
    j: int,
    name: Seq<char>,
)
    requires
        i <= j < statements.len(),
        defines(statements[j], name),
        gen_stmts(state, statements, i, out).text is Ok,
        at_line_start(out),
    ensures
        line_from(text_of(gen_stmts(state, statements, i, out)), label_line(name), out.len() as int),
    decreases statements, statements.len() - i,
{
    let first = gen_stmt(state, statements[i as int], out);
    let all = text_of(gen_stmts(state, statements, i, out));
    if j == i {
        lemma_stmt_label_lines(state, statements[i as int], out, name);
        lemma_stmts_extends(first.state, statements, i + 1, text_of(first));
        lemma_line_kept(text_of(first), all, label_line(name), out.len() as int, out.len() as int);
    } else {
        lemma_statement_keeps_line_start(state, statements[i as int], out);
        lemma_stmt_extends(state, statements[i as int], out);
        lemma_stmts_label_lines(first.state, statements, i + 1, text_of(first), j, name);
        lemma_prefix_self(all);
        lemma_line_kept(all, all, label_line(name), text_of(first).len() as int, out.len() as int);
    }
}

/// Every function that a program defines, at any depth, has its label on a
/// line of its own in the text section: the function's name and a colon stand
/// after the header of the text section, at the start of a line, and end
/// the line.
pub proof fn lemma_every_function_label_is_a_line(
    state: GenSpec,
    program: ProgramSpec,
    name: Seq<char>,
)
    requires
        program_defines(program, name),
        generate_spec(state, program).text is Ok,
    ensures
        ({
            let strings = generate_spec(state, program).state.strings;
            let head = data_header() + data_lines(strings, strings.len()) + text_header();
            &&& is_prefix(head, text_of(generate_spec(state, program)))
            &&& line_from(
                text_of(generate_spec(state, program)),
                label_line(name),
                head.len() as int,
            )
        }),
{
    lemma_fixed_instructions_end_lines();
    lemma_sections_in_order(state, program);
    let body = gen_stmts(state, program.statements, 0, Seq::empty());
    let j = choose|j: int|
        0 <= j < program.statements.len() && defines(#[trigger] program.statements[j], name);
    lemma_stmts_label_lines(state, program.statements, 0, Seq::empty(), j, name);
    let strings = body.state.strings;
    let head = data_header() + data_lines(strings, strings.len()) + text_header();
    let t = text_of(generate_spec(state, program));
    lemma_line_shifted(head, text_of(body), label_line(name));
    lemma_prefix_self(head + text_of(body));
    let tail = t.subrange((head + text_of(body)).len() as int, t.len() as int);
    assert(t =~= head + text_of(body) + tail);
    lemma_prefix_grows(head + text_of(body), head + text_of(body), tail);
    lemma_line_kept(head + text_of(body), t, label_line(name), head.len() as int, head.len() as int);
}

/// The text of a `while`: the line of the label at the top of the loop, the
/// code of the condition, the jump to the end label where the condition is
/// zero, the code of the body, the jump back to the top, and the line of the
/// end label. The two labels are different texts.
pub proof fn lemma_while_loops_back(
    state: GenSpec,
    condition: ExprSpec,
    body: StmtSpec,
    location: Location,
    out: Seq<char>,
)
    requires
        gen_stmt(state, StmtSpec::While { condition, body: Box::new(body), location }, out).text
            is Ok,
    ensures
        ({
            let top = label_text("while"@, state.label_counter + 1);
            let end = label_text("endwhile"@, state.label_counter + 2);
            let state_inside = GenSpec {
                label_counter: state.label_counter + 2,
                strings: state.strings,
                locals: state.locals,
                stack_offset: state.stack_offset,
            };
            let c = gen_expr(state_inside, condition, out + label_line(top));
            let b = gen_stmt(c.state, body, text_of(c) + jump_if_zero(end));
            &&& top != end
            &&& c.text is Ok
            &&& b.text is Ok
            &&& text_of(
                gen_stmt(state, StmtSpec::While { condition, body: Box::new(body), location }, out),
            ) == text_of(b) + jump(top) + label_line(end)
        }),
{
    lemma_labels_differ("while"@, state.label_counter + 1, "endwhile"@, state.label_counter + 2);
}

/// The generated text has its two sections in order: it begins with the
/// header of the data section, the lines of the string literals follow, then
/// the header of the text section and the code.
pub proof fn lemma_sections_in_order(state: GenSpec, program: ProgramSpec)
    requires
        generate_spec(state, program).text is Ok,
    ensures
        ({
            let text = text_of(generate_spec(state, program));
            let strings = generate_spec(state, program).state.strings;
            let data = data_header() + data_lines(strings, strings.len());
            &&& is_prefix(data_header(), text)
            &&& is_prefix(data, text)
            &&& is_prefix(data + text_header(), text)
        }),
{
    let text = text_of(generate_spec(state, program));
    let strings = generate_spec(state, program).state.strings;
    let data = data_header() + data_lines(strings, strings.len());
    assert(text.subrange(0, data_header().len() as int) =~= data_header());
    assert(text.subrange(0, data.len() as int) =~= data);
    assert(text.subrange(0, (data + text_header()).len() as int) =~= data + text_header());
}

/// A decimal numeral is made of digits, at least one.
proof fn lemma_decimal_digits(n: nat)
    ensures
        decimal(n).len() >= 1,
        forall|i: int| 0 <= i < decimal(n).len() ==> is_digit(#[trigger] decimal(n)[i]),
    decreases n,
{
    if n >= 10 {
        lemma_decimal_digits(n / 10);
    }
}

/// A decimal numeral spells the number it was made from.
proof fn lemma_decimal_value(n: nat)
    ensures
        digits_value(decimal(n)) == n,
    decreases n,
{
    if n < 10 {
        assert(decimal(n).drop_last() =~= Seq::<char>::empty());
        assert(digits_value(Seq::<char>::empty()) == 0);
        assert(digit_value(digit_char(n)) == n);
    } else {
        lemma_decimal_value(n / 10);
        assert(decimal(n).drop_last() =~= decimal(n / 10));
        assert(digit_value(digit_char(n % 10)) == n % 10);
    }
}

/// Labels never collide: two labels made from different numbers of the
/// counter are different texts, whatever their prefixes.
pub proof fn lemma_labels_differ(first: Seq<char>, a: nat, second: Seq<char>, b: nat)
    requires
        a != b,
    ensures
        label_text(first, a) != label_text(second, b),
{
    let x = label_text(first, a);
    let y = label_text(second, b);
    if x == y {
        reveal_strlit("_");
        lemma_decimal_digits(a);
        lemma_decimal_digits(b);
        lemma_decimal_value(a);
        lemma_decimal_value(b);
        let da = decimal(a);
        let db = decimal(b);
        let n = x.len() as int;
        assert(x == first + "_"@ + da);
        assert(y == second + "_"@ + db);
        assert(x[n - da.len() - 1] == '_');
        assert(y[n - db.len() - 1] == '_');
        if da.len() < db.len() {
            assert(y[n - da.len() - 1] == db[db.len() - da.len() - 1]);
            assert(is_digit(db[db.len() - da.len() - 1]));
        } else if db.len() < da.len() {
            assert(x[n - db.len() - 1] == da[da.len() - db.len() - 1]);
            assert(is_digit(da[da.len() - db.len() - 1]));
        } else {
            assert(da =~= x.subrange(n - da.len(), n));
            assert(db =~= y.subrange(n - db.len(), n));
        }
    }
}

/// The counter of labels only grows: the label made next carries a number
/// above every number that a label carried before.
pub proof fn lemma_label_counter_grows(state: GenSpec, prefix: Seq<char>)
    requires
        next_label(state, prefix) is Some,
    ensures
        ({
            let (after, label) = next_label(state, prefix)->0;
            &&& after.label_counter == state.label_counter + 1
            &&& label == label_text(prefix, state.label_counter + 1)
        }),
{
}

/// The index found for a text is that of an entry that holds the text, or
/// the number of entries.
proof fn lemma_first_index(strings: Seq<Seq<char>>, text: Seq<char>, i: nat)
    requires
        i <= strings.len(),
    ensures
        i <= first_index(strings, text, i) <= strings.len(),
        first_index(strings, text, i) < strings.len() ==> strings[first_index(
            strings,
            text,
            i,
        ) as int] == text,
        forall|j: int| i <= j < first_index(strings, text, i) ==> #[trigger] strings[j] != text,
    decreases strings.len() - i,
{
    if i < strings.len() && strings[i as int] != text {
        lemma_first_index(strings, text, i + 1);
    }
}

/// The index found for a text is `k` where `k` is the first entry that holds
/// the text, or the number of entries where none does.
proof fn lemma_first_index_is(strings: Seq<Seq<char>>, text: Seq<char>, i: nat, k: nat)
    requires
        i <= k <= strings.len(),
        k < strings.len() ==> strings[k as int] == text,
        forall|j: int| 0 <= j < k ==> #[trigger] strings[j] != text,
    ensures
        first_index(strings, text, i) == k,
    decreases k - i,
{
    if i < k {
        assert(strings[i as int] != text);
        lemma_first_index_is(strings, text, i + 1, k);
    }
}

/// A string literal keeps its label: once the table holds a text, meeting the
/// text again changes nothing and gives the same index.
pub proof fn lemma_string_literal_keeps_its_label(state: GenSpec, text: Seq<char>)
    ensures
        string_index(interned(state, text), text) == string_index(state, text),
        interned(interned(state, text), text) == interned(state, text),
        string_index(state, text) < interned(state, text).strings.len(),
        interned(state, text).strings[string_index(state, text) as int] == text,
{
    lemma_first_index(state.strings, text, 0);
    let k = string_index(state, text);
    let after = interned(state, text);
    assert forall|j: int| 0 <= j < k implies #[trigger] after.strings[j] != text by {
        assert(state.strings[j] != text);
    }
    lemma_first_index_is(after.strings, text, 0, k);
}

/// String literals of different texts have different labels, and meeting a
/// new text leaves the label of every other text as it was.
pub proof fn lemma_string_literals_have_their_own_labels(
    state: GenSpec,
    first: Seq<char>,
    second: Seq<char>,
)
    requires
        first != second,
    ensures
        string_index(interned(state, first), second) < interned(state, first).strings.len()
            ==> string_index(interned(state, first), second) != string_index(state, first),
        string_index(state, second) < state.strings.len() ==> string_index(
            interned(state, first),
            second,
        ) == string_index(state, second),
{
    lemma_first_index(state.strings, first, 0);
    lemma_first_index(state.strings, second, 0);
    let after = interned(state, first);
    lemma_first_index(after.strings, second, 0);
    let k = string_index(state, second);
    if k < state.strings.len() {
        assert forall|j: int| 0 <= j < k implies #[trigger] after.strings[j] != second by {
            assert(state.strings[j] != second);
        }
        lemma_first_index_is(after.strings, second, 0, k);
    }
    let found = string_index(after, second);
    if found < after.strings.len() && found == string_index(state, first) {
        assert(after.strings[found as int] == second);
        lemma_string_literal_keeps_its_label(state, first);
    }
}

// ---------------------------------------------------------------------------
// Slots.
// ---------------------------------------------------------------------------

/// Every variable has a slot of its own: the slots lie between the last slot
/// given out and the first slot below the frame base, and no two names share
/// one.
#[verifier::opaque]
pub open spec fn slots_apart(state: GenSpec) -> bool {
    &&& state.stack_offset <= 0
    &&& forall|name: Seq<char>| #[trigger]
        state.locals.contains_key(name) ==> state.stack_offset <= state.locals[name] <= -8
    &&& forall|a: Seq<char>, b: Seq<char>|
        #[trigger] state.locals.contains_key(a) && #[trigger] state.locals.contains_key(b) && a != b
            ==> state.locals[a] != state.locals[b]
}

/// What `after` keeps of `before`: the last slot given out has not moved up,
/// every name still has a slot, and a name has another slot than before only
/// where it was declared again, below every slot given out before.
#[verifier::opaque]
pub open spec fn slots_kept(before: GenSpec, after: GenSpec) -> bool {
    &&& after.stack_offset <= before.stack_offset
    &&& forall|name: Seq<char>| #[trigger]
        before.locals.contains_key(name) ==> after.locals.contains_key(name) && (
        after.locals[name] == before.locals[name] || after.locals[name] < before.stack_offset)
}

/// A generator that has generated nothing has given out no slot.
pub proof fn lemma_fresh_slots_apart()
    ensures
        slots_apart(fresh_generator()),
{
    reveal(slots_apart);
}

/// States with the same slots are alike for the slots.
proof fn lemma_same_slots(before: GenSpec, after: GenSpec)
    requires
        slots_apart(before),
        after.locals == before.locals,
        after.stack_offset == before.stack_offset,
    ensures
        slots_apart(after),
        slots_kept(before, after),
{
    reveal(slots_apart);
    reveal(slots_kept);
}

/// What is kept from one state to the next and from that to a third is kept
/// from the first to the third.
proof fn lemma_slots_kept_chain(a: GenSpec, b: GenSpec, c: GenSpec)
    requires
        slots_apart(a),
        slots_kept(a, b),
        slots_kept(b, c),
    ensures
        slots_kept(a, c),
{
    reveal(slots_apart);
    reveal(slots_kept);
    assert forall|name: Seq<char>| #[trigger] a.locals.contains_key(name) implies c.locals.contains_key(
        name,
    ) && (c.locals[name] == a.locals[name] || c.locals[name] < a.stack_offset) by {
        assert(b.locals.contains_key(name));
    }
}

/// A declaration takes the slot after the last one given out.
proof fn lemma_declared_apart(state: GenSpec, name: Seq<char>)
    requires
        slots_apart(state),
    ensures
        slots_apart(declared(state, name, state.stack_offset - 8)),
        slots_kept(state, declared(state, name, state.stack_offset - 8)),
{
    reveal(slots_apart);
    reveal(slots_kept);
}

proof fn lemma_parameter_slots_apart(
    parameters: Seq<ParamSpec>,
    i: nat,
    slots: Map<Seq<char>, int>,
)
    requires
        i <= parameters.len(),
        parameter_slots(parameters, i, slots) is Some,
        forall|name: Seq<char>| #[trigger] slots.contains_key(name) ==> -8 * i <= slots[name] <= -8,
        forall|a: Seq<char>, b: Seq<char>|
            #[trigger] slots.contains_key(a) && #[trigger] slots.contains_key(b) && a != b
                ==> slots[a] != slots[b],
    ensures
        ({
            let all = parameter_slots(parameters, i, slots)->0;
            &&& forall|name: Seq<char>| #[trigger]
                all.contains_key(name) ==> -8 * parameters.len() <= all[name] <= -8
            &&& forall|a: Seq<char>, b: Seq<char>|
                #[trigger] all.contains_key(a) && #[trigger] all.contains_key(b) && a != b
                    ==> all[a] != all[b]
            &&& forall|k: int| i <= k < parameters.len() ==> all.contains_key(
                #[trigger] parameters[k].name,
            )
        }),
    decreases parameters.len() - i,
{
    if i < parameters.len() {
        let next = slots.insert(parameters[i as int].name, -8 * (i + 1));
        lemma_parameter_slots_apart(parameters, i + 1, next);
        lemma_parameter_kept(parameters, i + 1, next, parameters[i as int].name);
    }
}

/// A name that has a slot keeps having one while later parameters get theirs.
proof fn lemma_parameter_kept(
    parameters: Seq<ParamSpec>,
    i: nat,
    slots: Map<Seq<char>, int>,
    name: Seq<char>,
)
    requires
        i <= parameters.len(),
        parameter_slots(parameters, i, slots) is Some,
        slots.contains_key(name),
    ensures
        parameter_slots(parameters, i, slots)->0.contains_key(name),
    decreases parameters.len() - i,
{
    if i < parameters.len() {
        lemma_parameter_kept(
            parameters,
            i + 1,
            slots.insert(parameters[i as int].name, -8 * (i + 1)),
            name,
        );
    }
}

/// The parameters of a function have slots of their own, in the order of
/// their declaration from the first slot below the frame base, and the
/// variables that the body declares take the slots after them.
pub proof fn lemma_parameters_have_their_own_slots(state: GenSpec, parameters: Seq<ParamSpec>)
    requires
        parameter_slots(parameters, 0, Map::empty()) is Some,
    ensures
        ({
            let slots = parameter_slots(parameters, 0, Map::empty())->0;
            let inner = inside_function(state, slots, parameters.len());
            &&& slots_apart(inner)
            &&& inner.stack_offset == -8 * parameters.len()
            &&& forall|k: int| 0 <= k < parameters.len() ==> slots.contains_key(
                #[trigger] parameters[k].name,
            )
        }),
{
    reveal(slots_apart);
    lemma_parameter_slots_apart(parameters, 0, Map::empty());
}

/// Generating an expression gives out no slot and moves none.
pub proof fn lemma_expression_keeps_slots(state: GenSpec, e: ExprSpec, out: Seq<char>)
    ensures
        gen_expr(state, e, out).state.locals == state.locals,
        gen_expr(state, e, out).state.stack_offset == state.stack_offset,
    decreases e, 0nat,
{
    match e {
        ExprSpec::Binary { left, right, .. } => {
            let r = gen_expr(state, *right, out);
            lemma_expression_keeps_slots(state, *right, out);
            lemma_expression_keeps_slots(r.state, *left, text_of(r));
        },
        ExprSpec::Unary { operand, .. } => {
            lemma_expression_keeps_slots(state, *operand, out);
        },
        ExprSpec::Call { arguments, .. } => {
            lemma_arguments_keep_slots(state, arguments, arguments.len(), out);
        },
        ExprSpec::Assignment { value, .. } => {
            lemma_expression_keeps_slots(state, *value, out);
        },
        _ => {},
    }
}

proof fn lemma_arguments_keep_slots(
    state: GenSpec,
    arguments: Seq<ExprSpec>,
    n: nat,
    out: Seq<char>,
)
    ensures
        gen_args(state, arguments, n, out).state.locals == state.locals,
        gen_args(state, arguments, n, out).state.stack_offset == state.stack_offset,
    decreases arguments, n,
{
    if n > 0 && n <= arguments.len() {
        let a = gen_expr(state, arguments[n - 1], out);
        lemma_expression_keeps_slots(state, arguments[n - 1], out);
        lemma_arguments_keep_slots(a.state, arguments, (n - 1) as nat, text_of(a));
    }
}

/// Slots stay apart: where every variable has a slot of its own before a
/// statement, every variable has one after it. A declaration takes the slot
/// after the last one given out; nothing else gives out or moves a slot, and
/// a function leaves the slots around it as they were.
pub proof fn lemma_slots_stay_apart(state: GenSpec, s: StmtSpec, out: Seq<char>)
    requires
        slots_apart(state),
    ensures
        slots_apart(gen_stmt(state, s, out).state),
        slots_kept(state, gen_stmt(state, s, out).state),
    decreases s, 0nat,
{
    let after = gen_stmt(state, s, out).state;
    match s {
        StmtSpec::Expression { expression, .. } => {
            lemma_expression_keeps_slots(state, expression, out);
            lemma_same_slots(state, after);
        },
        StmtSpec::Declaration { name, initializer, .. } => {
            if state.stack_offset - 8 < i32::MIN {
                lemma_same_slots(state, after);
            } else {
                let inner = declared(state, name, state.stack_offset - 8);
                lemma_declared_apart(state, name);
                match initializer {
                    Some(init) => {
                        lemma_expression_keeps_slots(inner, init, out);
                        lemma_same_slots(inner, after);
                        lemma_slots_kept_chain(state, inner, after);
                    },
                    None => {},
                }
            }
        },
        StmtSpec::Assignment { value, .. } => {
            lemma_expression_keeps_slots(state, value, out);
            lemma_same_slots(state, after);
        },
        StmtSpec::If { condition, then_branch, else_branch, .. } => {
            if next_label(state, "else"@) is Some {
                let (s1, else_label) = next_label(state, "else"@)->0;
                lemma_same_slots(state, s1);
                if next_label(s1, "endif"@) is Some {
                    let (s2, end_label) = next_label(s1, "endif"@)->0;
                    let c = gen_expr(s2, condition, out);
                    let then_start = text_of(c) + jump_if_zero(else_label);
                    let th = gen_stmt(c.state, *then_branch, then_start);
                    let between = text_of(th) + jump(end_label) + label_line(else_label);
                    lemma_expression_keeps_slots(s2, condition, out);
                    lemma_same_slots(state, c.state);
                    if c.text is Ok {
                        lemma_slots_stay_apart(c.state, *then_branch, then_start);
                        lemma_slots_kept_chain(state, c.state, th.state);
                        if th.text is Ok {
                            match else_branch {
                                Some(b) => {
                                    lemma_slots_stay_apart(th.state, *b, between);
                                    lemma_slots_kept_chain(state, th.state, after);
                                },
                                None => {},
                            }
                        }
                    }
                }
            } else {
                lemma_same_slots(state, after);
            }
        },
        StmtSpec::While { condition, body, .. } => {
            if next_label(state, "while"@) is Some {
                let (s1, loop_label) = next_label(state, "while"@)->0;
                lemma_same_slots(state, s1);
                if next_label(s1, "endwhile"@) is Some {
                    let (s2, end_label) = next_label(s1, "endwhile"@)->0;
                    let c = gen_expr(s2, condition, out + label_line(loop_label));
                    lemma_expression_keeps_slots(s2, condition, out + label_line(loop_label));
                    lemma_same_slots(state, c.state);
                    if c.text is Ok {
                        lemma_slots_stay_apart(
                            c.state,
                            *body,
                            text_of(c) + jump_if_zero(end_label),
                        );
                        lemma_slots_kept_chain(state, c.state, after);
                    }
                }
            } else {
                lemma_same_slots(state, after);
            }
        },
        StmtSpec::Function { .. } => {
            lemma_same_slots(state, after);
        },
        StmtSpec::Return { value, .. } => {
            match value {
                Some(v) => {
                    lemma_expression_keeps_slots(state, v, out);
                },
                None => {},
            }
            lemma_same_slots(state, after);
        },
        StmtSpec::Block { statements, .. } => {
            lemma_slots_stay_apart_in_order(state, statements, 0, out);
        },
    }
}

/// Slots stay apart through statements in order.
pub proof fn lemma_slots_stay_apart_in_order(
    state: GenSpec,
    statements: Seq<StmtSpec>,
    i: nat,
    out: Seq<char>,
)
    requires
        slots_apart(state),
    ensures
        slots_apart(gen_stmts(state, statements, i, out).state),
        slots_kept(state, gen_stmts(state, statements, i, out).state),
    decreases statements, statements.len() - i,
{
    let after = gen_stmts(state, statements, i, out).state;
    if i < statements.len() {
        let first = gen_stmt(state, statements[i as int], out);
        lemma_slots_stay_apart(state, statements[i as int], out);
        if first.text is Ok {
            lemma_slots_stay_apart_in_order(first.state, statements, i + 1, text_of(first));
            lemma_slots_kept_chain(state, first.state, after);
        }
    } else {
        lemma_same_slots(state, after);
    }
}

// ---------------------------------------------------------------------------
// Scopes.
// ---------------------------------------------------------------------------

/// The statement holds no declaration that could outlast it: it is a block,
/// an expression, an assignment or a `return`, or an `if` or a `while` whose
/// branches are such statements.
pub open spec fn encloses_declarations(s: StmtSpec) -> bool
    decreases s,
{
    match s {
        StmtSpec::Block { .. } => true,
        StmtSpec::Expression { .. } => true,
        StmtSpec::Assignment { .. } => true,
        StmtSpec::Return { .. } => true,
        StmtSpec::If { then_branch, else_branch, .. } => encloses_declarations(*then_branch)
            && match else_branch {
            Some(b) => encloses_declarations(*b),
            None => true,
        },
        StmtSpec::While { body, .. } => encloses_declarations(*body),
        StmtSpec::Declaration { .. } => false,
        StmtSpec::Function { .. } => false,
    }
}

/// What is declared inside a block, or inside an `if` or a `while` whose
/// branches are blocks, is gone after it: the analysis of such a statement
/// leaves every scope as it was, whether it passes or fails, so a name that
/// did not resolve before it does not resolve after it.
pub proof fn lemma_declarations_end_with_their_block(state: AnalyzerSpec, s: StmtSpec)
    requires
        encloses_declarations(s),
    ensures
        check_stmt(state, s).state == state,
        forall|name: Seq<char>|
            resolve_in(check_stmt(state, s).state.scopes, name) == resolve_in(state.scopes, name),
    decreases s,
{
    match s {
        StmtSpec::If { then_branch, else_branch, .. } => {
            lemma_declarations_end_with_their_block(state, *then_branch);
            match else_branch {
                Some(b) => {
                    lemma_declarations_end_with_their_block(state, *b);
                },
                None => {},
            }
        },
        StmtSpec::While { body, .. } => {
            lemma_declarations_end_with_their_block(state, *body);
        },
        _ => {},
    }
}

/// Every statement that the parser finds where the grammar asks for a
/// statement holds no declaration that could outlast it: a declaration or a
/// function definition stands in a program or in a block, never as the bare
/// branch of an `if` or a `while`.
pub proof fn lemma_parsed_statement_encloses(tokens: Seq<TokenInfoSpec>, pos: int)
    requires
        parse_statement(tokens, pos) is Ok,
    ensures
        encloses_declarations(parse_statement(tokens, pos)->Ok_0.0),
    decreases tokens.len() - pos, 24nat,
{
    if token_is(tokens, pos, TokenSpec::If) {
        lemma_parsed_if_encloses(tokens, pos + 1, tokens[pos].location);
    } else if token_is(tokens, pos, TokenSpec::While) {
        lemma_parsed_while_encloses(tokens, pos + 1, tokens[pos].location);
    }
}

proof fn lemma_parsed_if_encloses(tokens: Seq<TokenInfoSpec>, pos: int, location: Location)
    requires
        parse_if(tokens, pos, location) is Ok,
    ensures
        encloses_declarations(parse_if(tokens, pos, location)->Ok_0.0),
    decreases tokens.len() - pos, 23nat,
{
    let (condition, p) = parse_condition(tokens, pos)->Ok_0;
    lemma_parsed_statement_encloses(tokens, p);
    let (then_branch, q) = parse_statement(tokens, p)->Ok_0;
    if token_is(tokens, q, TokenSpec::Else) {
        lemma_parsed_statement_encloses(tokens, q + 1);
    }
}

proof fn lemma_parsed_while_encloses(tokens: Seq<TokenInfoSpec>, pos: int, location: Location)
    requires
        parse_while(tokens, pos, location) is Ok,
    ensures
        encloses_declarations(parse_while(tokens, pos, location)->Ok_0.0),
    decreases tokens.len() - pos, 23nat,
{
    let (condition, p) = parse_condition(tokens, pos)->Ok_0;
    lemma_parsed_statement_encloses(tokens, p);
}

/// Declaring a name that the innermost scope already holds fails with a
/// semantic error and changes nothing.
pub proof fn lemma_redeclaration_fails(
    state: AnalyzerSpec,
    name: Seq<char>,
    var_type: TypeSpec,
    initializer: Option<ExprSpec>,
    location: Location,
)
    requires
        state.scopes.len() >= 1,
        state.scopes[0].contains_key(name),
    ensures
        check_stmt(
            state,
            StmtSpec::Declaration { name, var_type, initializer, location },
        ).error is Some,
        check_stmt(
            state,
            StmtSpec::Declaration { name, var_type, initializer, location },
        ).error->0 is SemanticError,
        check_stmt(state, StmtSpec::Declaration { name, var_type, initializer, location }).state
            == state,
{
}

/// A name may be declared again in a scope inside the one that holds it: in
/// a scope just entered, a declaration without an initializer passes
/// whatever the scopes around it hold, and from then on the name refers to
/// the new variable.
pub proof fn lemma_shadowing_passes(
    state: AnalyzerSpec,
    name: Seq<char>,
    var_type: TypeSpec,
    location: Location,
)
    ensures
        check_stmt(
            entered(state),
            StmtSpec::Declaration { name, var_type, initializer: None, location },
        ).error is None,
        resolve_in(
            check_stmt(
                entered(state),
                StmtSpec::Declaration { name, var_type, initializer: None, location },
            ).state.scopes,
            name,
        ) == Some(variable_symbol(name, var_type)),
{
}

/// Inside a block, a name declared in the block is declared anew, and after
/// the block the name refers to what it referred to before: a block of one
/// declaration passes where the name is held by the scope around it.
pub proof fn lemma_block_shadows_and_restores(
    state: AnalyzerSpec,
    name: Seq<char>,
    var_type: TypeSpec,
    location: Location,
)
    ensures
        check_stmt(
            state,
            StmtSpec::Block {
                statements: seq![
                    StmtSpec::Declaration { name, var_type, initializer: None, location },
                ],
                location,
            },
        ) == (Checked { state, error: None }),
{
    let declaration = StmtSpec::Declaration { name, var_type, initializer: None, location };
    let inner = check_stmt(entered(state), declaration);
    assert(check_stmts(entered(state), seq![declaration], 0).error is None) by {
        reveal_with_fuel(check_stmts, 3);
    }
}

// ---------------------------------------------------------------------------
// Types.
// ---------------------------------------------------------------------------

/// The sum of two integers is an integer.
pub proof fn lemma_integer_sum(
    scopes: Seq<Names>,
    left: ExprSpec,
    right: ExprSpec,
    location: Location,
)
    requires
        expr_type(scopes, left) == Ok::<TypeSpec, ErrorSpec>(TypeSpec::Int),
        expr_type(scopes, right) == Ok::<TypeSpec, ErrorSpec>(TypeSpec::Int),
    ensures
        expr_type(
            scopes,
            ExprSpec::Binary {
                left: Box::new(left),
                operator: BinaryOperator::Add,
                right: Box::new(right),
                location,
            },
        ) == Ok::<TypeSpec, ErrorSpec>(TypeSpec::Int),
{
}

/// The sum of an integer and a floating-point number, in either order, is a
/// floating-point number.
pub proof fn lemma_mixed_sum(
    scopes: Seq<Names>,
    left: ExprSpec,
    right: ExprSpec,
    location: Location,
)
    requires
        expr_type(scopes, left) is Ok,
        expr_type(scopes, right) is Ok,
        (expr_type(scopes, left)->Ok_0 == TypeSpec::Int && expr_type(scopes, right)->Ok_0
            == TypeSpec::Float) || (expr_type(scopes, left)->Ok_0 == TypeSpec::Float && expr_type(
            scopes,
            right,
        )->Ok_0 == TypeSpec::Int),
    ensures
        expr_type(
            scopes,
            ExprSpec::Binary {
                left: Box::new(left),
                operator: BinaryOperator::Add,
                right: Box::new(right),
                location,
            },
        ) == Ok::<TypeSpec, ErrorSpec>(TypeSpec::Float),
{
}

/// The conjunction of two booleans is a boolean; the conjunction of an
/// integer and a boolean is a type error.
pub proof fn lemma_conjunction(
    scopes: Seq<Names>,
    left: ExprSpec,
    right: ExprSpec,
    location: Location,
)
    requires
        expr_type(scopes, left) is Ok,
        expr_type(scopes, right) == Ok::<TypeSpec, ErrorSpec>(TypeSpec::Bool),
    ensures
        ({
            let conjunction = expr_type(
                scopes,
                ExprSpec::Binary {
                    left: Box::new(left),
                    operator: BinaryOperator::And,
                    right: Box::new(right),
                    location,
                },
            );
            &&& expr_type(scopes, left)->Ok_0 == TypeSpec::Bool ==> conjunction == Ok::<
                TypeSpec,
                ErrorSpec,
            >(TypeSpec::Bool)
            &&& expr_type(scopes, left)->Ok_0 == TypeSpec::Int ==> conjunction is Err
                && conjunction->Err_0 is TypeError
        }),
{
}

/// A variable declared as an integer takes no string, and a variable declared
/// as a floating-point number takes an integer: so it is for an initializer
/// and for a later assignment.
pub proof fn lemma_what_a_variable_takes(
    state: AnalyzerSpec,
    name: Seq<char>,
    value: ExprSpec,
    location: Location,
)
    requires
        state.scopes.len() >= 1,
        !state.scopes[0].contains_key(name),
        expr_type(state.scopes, value) is Ok,
    ensures
        ({
            let found = expr_type(state.scopes, value)->Ok_0;
            let as_integer = check_declaration(state, name, TypeSpec::Int, Some(value), location);
            let as_float = check_declaration(state, name, TypeSpec::Float, Some(value), location);
            &&& found == TypeSpec::String ==> as_integer.error is Some
                && as_integer.error->0 is TypeError
            &&& found == TypeSpec::Int ==> as_float.error is None
        }),
        ({
            let found = expr_type(state.scopes, value);
            let integer = variable_symbol(name, TypeSpec::Int);
            let float = variable_symbol(name, TypeSpec::Float);
            &&& found->Ok_0 == TypeSpec::String && resolve_in(state.scopes, name) == Some(integer)
                ==> assignment_type(state.scopes, name, found, location) is Err
                && assignment_type(state.scopes, name, found, location)->Err_0 is TypeError
            &&& found->Ok_0 == TypeSpec::Int && resolve_in(state.scopes, name) == Some(float)
                ==> assignment_type(state.scopes, name, found, location) == Ok::<
                TypeSpec,
                ErrorSpec,
            >(TypeSpec::Float)
        }),
{
}

/// Compatibility holds of every type with itself.
pub proof fn lemma_compatible_reflexive(t: TypeSpec)
    ensures
        compatible(t, t),
    decreases t,
{
    match t {
        TypeSpec::Function { parameters, return_type } => {
            assert forall|i: int| 0 <= i < parameters.len() implies compatible(
                #[trigger] parameters[i],
                parameters[i],
            ) by {
                lemma_compatible_reflexive(parameters[i]);
            }
            lemma_compatible_reflexive(*return_type);
        },
        _ => {},
    }
}

/// What `binary_type` gives for the arithmetic operators: an integer for two
/// integers, a floating-point number for two numbers of which one is none,
/// and an error for anything else.
pub proof fn lemma_arithmetic_types(
    operator: BinaryOperator,
    left: TypeSpec,
    right: TypeSpec,
    location: Location,
)
    requires
        operator == BinaryOperator::Add || operator == BinaryOperator::Subtract || operator
            == BinaryOperator::Multiply || operator == BinaryOperator::Divide,
    ensures
        binary_type(operator, left, right, location) is Ok <==> (left == TypeSpec::Int || left
            == TypeSpec::Float) && (right == TypeSpec::Int || right == TypeSpec::Float),
        binary_type(operator, left, right, location) == Ok::<TypeSpec, ErrorSpec>(TypeSpec::Int)
            <==> left == TypeSpec::Int && right == TypeSpec::Int,
{
}

} // verus!
