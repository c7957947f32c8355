//! Semantic analysis: every name resolves, every declaration is new in its
//! scope, and every expression has a type that fits where it stands.

use crate::ast::{
    exprs_view, lemma_block_view, lemma_call_view, lemma_function_type_view, lemma_function_view,
    params_view, stmts_view, type_text, types_view, AssignmentStatement, BlockStatement,
    CallExpression, DeclarationStatement, ExprSpec, Expression, FunctionStatement, IfStatement,
    Location, ParamSpec, Parameter, Program, ProgramSpec, ReturnStatement, Statement, StmtSpec,
    Type, TypeSpec, WhileStatement,
};
use crate::error::{semantic_error_at, type_error_at, CompilerError, CompilerResult, ErrorSpec};
pub use crate::scope::{Scope, Symbol};
use crate::scope::{
    already_defined_error, define_in, function_symbol, option_type_view, resolve_in,
    variable_symbol, Names, SymbolSpec,
};
use crate::text::{append_decimal, decimal};
use crate::types::{
    binary_type, compatible, literal_type, type_of_binary, type_of_literal, type_of_unary,
    type_result_is, types_compatible, unary_type,
};
use vstd::prelude::*;

verus! {

/// The state of an analysis: the scopes from the innermost outward, and the
/// return type of the function whose body is being analyzed, if any.
pub struct AnalyzerSpec {
    pub scopes: Seq<Names>,
    pub return_type: Option<TypeSpec>,
}

/// The outcome of analyzing something: the state afterwards, and the first
/// error if there was one.
pub struct Checked {
    pub state: AnalyzerSpec,
    pub error: Option<ErrorSpec>,
}

/// The outcome of a step that found no error.
pub open spec fn passed(state: AnalyzerSpec) -> Checked {
    Checked { state, error: None }
}

/// The outcome of a step that found an error.
pub open spec fn failed(state: AnalyzerSpec, error: ErrorSpec) -> Checked {
    Checked { state, error: Some(error) }
}

/// The error for a variable that no scope holds.
pub open spec fn undeclared_variable(name: Seq<char>, location: Location) -> ErrorSpec {
    semantic_error_at(
        "Variável '"@ + name + "' não foi declarada"@,
        location.line,
        location.column,
    )
}

/// The error for an assignment to a function.
pub open spec fn assigned_function(name: Seq<char>, location: Location) -> ErrorSpec {
    semantic_error_at(
        "Não é possível atribuir a função '"@ + name + "'"@,
        location.line,
        location.column,
    )
}

/// A type error that names the expected type and the type found.
pub open spec fn mismatch(
    prefix: Seq<char>,
    expected: TypeSpec,
    found: TypeSpec,
    location: Location,
) -> ErrorSpec {
    type_error_at(
        prefix + type_text(expected) + ", encontrado "@ + type_text(found),
        location.line,
        location.column,
    )
}

/// The error for a call with more or fewer arguments than parameters.
pub open spec fn argument_count_error(
    function: Seq<char>,
    expected: nat,
    given: nat,
    location: Location,
) -> ErrorSpec {
    semantic_error_at(
        "Função '"@ + function + "' espera "@ + decimal(expected) + " argumentos, mas "@ + decimal(
            given,
        ) + " foram fornecidos"@,
        location.line,
        location.column,
    )
}

/// The error for an argument that does not fit its parameter; arguments are
/// counted from one.
pub open spec fn argument_type_error(
    function: Seq<char>,
    index: nat,
    expected: TypeSpec,
    found: TypeSpec,
    location: Location,
) -> ErrorSpec {
    mismatch(
        "Argumento "@ + decimal(index + 1) + " da função '"@ + function + "': esperado "@,
        expected,
        found,
        location,
    )
}

/// The type of an assignment to `target`: that of the target, which must be a
/// declared variable, not a function, and compatible with the value's type.
pub open spec fn assignment_type(
    scopes: Seq<Names>,
    target: Seq<char>,
    value: Result<TypeSpec, ErrorSpec>,
    location: Location,
) -> Result<TypeSpec, ErrorSpec> {
    match resolve_in(scopes, target) {
        None => Err(undeclared_variable(target, location)),
        Some(symbol) => if symbol.is_function {
            Err(assigned_function(target, location))
        } else {
            match value {
                Err(e) => Err(e),
                Ok(t) => if compatible(symbol.symbol_type, t) {
                    Ok(symbol.symbol_type)
                } else {
                    Err(
                        mismatch(
                            "Tipo incompatível na atribuição: esperado "@,
                            symbol.symbol_type,
                            t,
                            location,
                        ),
                    )
                },
            }
        },
    }
}

/// The type of an expression in the given scopes, or the first error met,
/// going through the expression from left to right.
pub open spec fn expr_type(scopes: Seq<Names>, e: ExprSpec) -> Result<TypeSpec, ErrorSpec>
    decreases e, 0nat,
{
    match e {
        ExprSpec::Literal { value, .. } => Ok(literal_type(value)),
        ExprSpec::Identifier { name, location } => match resolve_in(scopes, name) {
            Some(symbol) => Ok(symbol.symbol_type),
            None => Err(undeclared_variable(name, location)),
        },
        ExprSpec::Binary { left, operator, right, location } => match expr_type(scopes, *left) {
            Err(e) => Err(e),
            Ok(l) => match expr_type(scopes, *right) {
                Err(e) => Err(e),
                Ok(r) => binary_type(operator, l, r, location),
            },
        },
        ExprSpec::Unary { operator, operand, location } => match expr_type(scopes, *operand) {
            Err(e) => Err(e),
            Ok(t) => unary_type(operator, t, location),
        },
        ExprSpec::Call { function, arguments, location } => match resolve_in(scopes, function) {
            None => Err(
                semantic_error_at(
                    "Função '"@ + function + "' não foi declarada"@,
                    location.line,
                    location.column,
                ),
            ),
            Some(symbol) => if !symbol.is_function {
                Err(
                    semantic_error_at(
                        "'"@ + function + "' não é uma função"@,
                        location.line,
                        location.column,
                    ),
                )
            } else if arguments.len() != symbol.parameters.len() {
                Err(
                    argument_count_error(
                        function,
                        symbol.parameters.len(),
                        arguments.len(),
                        location,
                    ),
                )
            } else {
                match arguments_error(scopes, function, symbol.parameters, arguments, location, 0) {
                    Some(e) => Err(e),
                    None => Ok(
                        match symbol.return_type {
                            Some(t) => t,
                            None => TypeSpec::Void,
                        },
                    ),
                }
            },
        },
        ExprSpec::Assignment { target, value, location } => assignment_type(
            scopes,
            target,
            expr_type(scopes, *value),
            location,
        ),
    }
}

/// The first error among the arguments from index `i` on: each argument is
/// typed, then held against its parameter's type.
pub open spec fn arguments_error(
    scopes: Seq<Names>,
    function: Seq<char>,
    parameters: Seq<TypeSpec>,
    arguments: Seq<ExprSpec>,
    location: Location,
    i: nat,
) -> Option<ErrorSpec>
    decreases arguments, arguments.len() - i,
{
    if i >= arguments.len() || i >= parameters.len() {
        None
    } else {
        match expr_type(scopes, arguments[i as int]) {
            Err(e) => Some(e),
            Ok(t) => if !compatible(parameters[i as int], t) {
                Some(argument_type_error(function, i, parameters[i as int], t, location))
            } else {
                arguments_error(scopes, function, parameters, arguments, location, i + 1)
            },
        }
    }
}

/// The error of a condition, which must be a boolean; `prefix` names the
/// statement.
pub open spec fn condition_error(
    scopes: Seq<Names>,
    condition: ExprSpec,
    prefix: Seq<char>,
    location: Location,
) -> Option<ErrorSpec> {
    match expr_type(scopes, condition) {
        Err(e) => Some(e),
        Ok(t) => if t == TypeSpec::Bool {
            None
        } else {
            Some(type_error_at(prefix + type_text(t), location.line, location.column))
        },
    }
}

/// The state with one more scope, empty, inside the others.
pub open spec fn entered(state: AnalyzerSpec) -> AnalyzerSpec {
    AnalyzerSpec { scopes: seq![Names::empty()] + state.scopes, return_type: state.return_type }
}

/// The state with `symbol` added to the innermost scope.
pub open spec fn defined(state: AnalyzerSpec, symbol: SymbolSpec) -> AnalyzerSpec {
    AnalyzerSpec { scopes: define_in(state.scopes, symbol), return_type: state.return_type }
}

/// The parameter types of a function, in order.
pub open spec fn parameter_types(parameters: Seq<ParamSpec>) -> Seq<TypeSpec> {
    Seq::new(parameters.len(), |i: int| parameters[i].param_type)
}

/// The scope of a function's parameters from index `i` on, added to `names`,
/// or the error for the first parameter whose name is there already.
pub open spec fn parameters_scope(parameters: Seq<ParamSpec>, i: nat, names: Names) -> Result<
    Names,
    ErrorSpec,
>
    decreases parameters.len() - i,
{
    if i >= parameters.len() {
        Ok(names)
    } else if names.contains_key(parameters[i as int].name) {
        Err(already_defined_error(parameters[i as int].name))
    } else {
        parameters_scope(
            parameters,
            i + 1,
            names.insert(
                parameters[i as int].name,
                variable_symbol(parameters[i as int].name, parameters[i as int].param_type),
            ),
        )
    }
}

/// The error of a `return`: it stands outside every function, or its value
/// does not fit the function's return type, or it has no value where the
/// function returns one.
pub open spec fn return_error(state: AnalyzerSpec, value: Option<ExprSpec>, location: Location) -> Option<
    ErrorSpec,
> {
    match state.return_type {
        None => Some(semantic_error_at("Return fora de função"@, location.line, location.column)),
        Some(expected) => match value {
            Some(v) => match expr_type(state.scopes, v) {
                Err(e) => Some(e),
                Ok(t) => if compatible(expected, t) {
                    None
                } else {
                    Some(
                        mismatch("Tipo de retorno incompatível: esperado "@, expected, t, location),
                    )
                },
            },
            None => if expected == TypeSpec::Void {
                None
            } else {
                Some(
                    type_error_at(
                        "Função deve retornar "@ + type_text(expected)
                            + ", mas não há valor de retorno"@,
                        location.line,
                        location.column,
                    ),
                )
            },
        },
    }
}

/// The outcome of a declaration: the name must be new in the innermost scope
/// and the initializer, if any, compatible with the declared type; then the
/// variable is added to that scope.
pub open spec fn check_declaration(
    state: AnalyzerSpec,
    name: Seq<char>,
    var_type: TypeSpec,
    initializer: Option<ExprSpec>,
    location: Location,
) -> Checked {
    if state.scopes[0].contains_key(name) {
        failed(
            state,
            semantic_error_at(
                "Variável '"@ + name + "' já foi declarada"@,
                location.line,
                location.column,
            ),
        )
    } else {
        let error = match initializer {
            None => None,
            Some(init) => match expr_type(state.scopes, init) {
                Err(e) => Some(e),
                Ok(t) => if compatible(var_type, t) {
                    None
                } else {
                    Some(mismatch("Tipo incompatível: esperado "@, var_type, t, location))
                },
            },
        };
        match error {
            Some(e) => failed(state, e),
            None => passed(defined(state, variable_symbol(name, var_type))),
        }
    }
}

/// The outcome of analyzing a statement. Only a declaration and a function
/// definition change the state, by adding a name to the innermost scope; what
/// a block or a function body declares is gone when it ends.
pub open spec fn check_stmt(state: AnalyzerSpec, s: StmtSpec) -> Checked
    decreases s, 0nat,
{
    match s {
        StmtSpec::Expression { expression, .. } => match expr_type(state.scopes, expression) {
            Err(e) => failed(state, e),
            Ok(_) => passed(state),
        },
        StmtSpec::Declaration { name, var_type, initializer, location } => check_declaration(
            state,
            name,
            var_type,
            initializer,
            location,
        ),
        StmtSpec::Assignment { target, value, location } => match assignment_type(
            state.scopes,
            target,
            expr_type(state.scopes, value),
            location,
        ) {
            Err(e) => failed(state, e),
            Ok(_) => passed(state),
        },
        StmtSpec::If { condition, then_branch, else_branch, location } => match condition_error(
            state.scopes,
            condition,
            "Condição do if deve ser bool, encontrado "@,
            location,
        ) {
            Some(e) => failed(state, e),
            None => {
                let first = check_stmt(state, *then_branch);
                if first.error is Some {
                    first
                } else {
                    match else_branch {
                        Some(b) => check_stmt(first.state, *b),
                        None => first,
                    }
                }
            },
        },
        StmtSpec::While { condition, body, location } => match condition_error(
            state.scopes,
            condition,
            "Condição do while deve ser bool, encontrado "@,
            location,
        ) {
            Some(e) => failed(state, e),
            None => check_stmt(state, *body),
        },
        StmtSpec::Function { name, parameters, return_type, body, location, .. } => {
            if state.scopes[0].contains_key(name) {
                failed(
                    state,
                    semantic_error_at(
                        "Função '"@ + name + "' já foi declarada"@,
                        location.line,
                        location.column,
                    ),
                )
            } else {
                let outer = defined(
                    state,
                    function_symbol(name, parameter_types(parameters), return_type),
                );
                match parameters_scope(parameters, 0, Names::empty()) {
                    Err(e) => failed(outer, e),
                    Ok(names) => {
                        let inner = AnalyzerSpec {
                            scopes: seq![Names::empty(), names] + outer.scopes,
                            return_type: Some(return_type),
                        };
                        Checked { state: outer, error: check_stmts(inner, body, 0).error }
                    },
                }
            }
        },
        StmtSpec::Return { value, location } => match return_error(state, value, location) {
            Some(e) => failed(state, e),
            None => passed(state),
        },
        StmtSpec::Block { statements, .. } => Checked {
            state,
            error: check_stmts(entered(state), statements, 0).error,
        },
    }
}

/// The outcome of analyzing the statements from index `i` on, in order, up to
/// the first error.
pub open spec fn check_stmts(state: AnalyzerSpec, statements: Seq<StmtSpec>, i: nat) -> Checked
    decreases statements, statements.len() - i,
{
    if i >= statements.len() {
        passed(state)
    } else {
        let first = check_stmt(state, statements[i as int]);
        if first.error is Some {
            first
        } else {
            check_stmts(first.state, statements, i + 1)
        }
    }
}

/// The built-in output functions: each takes one argument and returns nothing.
pub open spec fn builtin_symbols() -> Seq<SymbolSpec> {
    seq![
        function_symbol("print"@, seq![TypeSpec::String], TypeSpec::Void),
        function_symbol("println"@, seq![TypeSpec::String], TypeSpec::Void),
        function_symbol("println_int"@, seq![TypeSpec::Int], TypeSpec::Void),
        function_symbol("println_float"@, seq![TypeSpec::Float], TypeSpec::Void),
        function_symbol("println_bool"@, seq![TypeSpec::Bool], TypeSpec::Void),
    ]
}

/// The outcome of adding the symbols from index `i` on to the innermost scope,
/// up to the first whose name is there already.
pub open spec fn define_all(state: AnalyzerSpec, symbols: Seq<SymbolSpec>, i: nat) -> Checked
    decreases symbols.len() - i,
{
    if i >= symbols.len() {
        passed(state)
    } else if state.scopes[0].contains_key(symbols[i as int].name) {
        failed(state, already_defined_error(symbols[i as int].name))
    } else {
        define_all(defined(state, symbols[i as int]), symbols, i + 1)
    }
}

/// The outcome of analyzing a program: the built-in functions are added to
/// the innermost scope, then the statements are analyzed in order.
pub open spec fn analyze_spec(state: AnalyzerSpec, program: ProgramSpec) -> Checked {
    let seeded = define_all(state, builtin_symbols(), 0);
    if seeded.error is Some {
        seeded
    } else {
        check_stmts(seeded.state, program.statements, 0)
    }
}

/// The state of an analyzer that has analyzed nothing yet.
pub open spec fn fresh_analyzer() -> AnalyzerSpec {
    AnalyzerSpec { scopes: seq![Names::empty()], return_type: None }
}

/// The two states have the same scopes around the innermost one, and the
/// same return type.
pub open spec fn same_frame(a: AnalyzerSpec, b: AnalyzerSpec) -> bool {
    &&& a.scopes.len() == b.scopes.len()
    &&& a.scopes.len() >= 1
    &&& a.scopes.drop_first() == b.scopes.drop_first()
    &&& a.return_type == b.return_type
}

/// Analyzing a statement changes nothing but the innermost scope.
pub proof fn lemma_check_stmt_frame(state: AnalyzerSpec, s: StmtSpec)
    requires
        state.scopes.len() >= 1,
    ensures
        same_frame(check_stmt(state, s).state, state),
    decreases s, 0nat,
{
    match s {
        StmtSpec::Declaration { name, var_type, .. } => {
            let symbol = variable_symbol(name, var_type);
            assert(define_in(state.scopes, symbol).drop_first() =~= state.scopes.drop_first());
        },
        StmtSpec::If { then_branch, else_branch, .. } => {
            lemma_check_stmt_frame(state, *then_branch);
            let first = check_stmt(state, *then_branch);
            match else_branch {
                Some(b) => {
                    lemma_check_stmt_frame(first.state, *b);
                },
                None => {},
            }
        },
        StmtSpec::While { body, .. } => {
            lemma_check_stmt_frame(state, *body);
        },
        StmtSpec::Function { name, parameters, return_type, .. } => {
            let symbol = function_symbol(name, parameter_types(parameters), return_type);
            assert(define_in(state.scopes, symbol).drop_first() =~= state.scopes.drop_first());
        },
        _ => {},
    }
}

/// Analyzing statements in order changes nothing but the innermost scope.
pub proof fn lemma_check_stmts_frame(state: AnalyzerSpec, statements: Seq<StmtSpec>, i: nat)
    requires
        state.scopes.len() >= 1,
    ensures
        same_frame(check_stmts(state, statements, i).state, state),
    decreases statements.len() - i,
{
    if i < statements.len() {
        lemma_check_stmt_frame(state, statements[i as int]);
        let first = check_stmt(state, statements[i as int]);
        if first.error is None {
            lemma_check_stmts_frame(first.state, statements, i + 1);
        }
    }
}

// ---------------------------------------------------------------------------
// The analyzer.
// ---------------------------------------------------------------------------

/// A result without a value and the error of a model say the same.
pub open spec fn outcome_is(r: CompilerResult<()>, error: Option<ErrorSpec>) -> bool {
    match r {
        Ok(()) => error is None,
        Err(e) => error == Some(e@),
    }
}

fn named_message(prefix: &str, name: &str, suffix: &str) -> (m: String)
    ensures
        m@ == prefix@ + name@ + suffix@,
{
    let mut m = String::from_str(prefix);
    m.append(name);
    m.append(suffix);
    m
}

fn mismatch_error(prefix: &str, expected: &Type, found: &Type, location: &Location) -> (e:
    CompilerError)
    ensures
        e@ == mismatch(prefix@, expected@, found@, *location),
{
    let mut m = String::from_str(prefix);
    expected.append_to(&mut m);
    m.append(", encontrado ");
    found.append_to(&mut m);
    CompilerError::type_error_with_location(m, location.line, location.column)
}

fn undeclared_variable_error(name: &String, location: &Location) -> (e: CompilerError)
    ensures
        e@ == undeclared_variable(name@, *location),
{
    CompilerError::semantic_with_location(
        named_message("Variável '", name.as_str(), "' não foi declarada"),
        location.line,
        location.column,
    )
}

/// The symbol of a built-in function of one parameter that returns nothing.
fn builtin(name: &str, parameter: Type) -> (symbol: Symbol)
    ensures
        symbol@ == function_symbol(name@, seq![parameter@], TypeSpec::Void),
{
    let mut first: Vec<Type> = Vec::new();
    first.push(parameter.clone());
    let mut second: Vec<Type> = Vec::new();
    second.push(parameter);
    proof {
        lemma_function_type_view(first, Box::new(Type::Void));
        assert(types_view(first@) =~= seq![parameter@]);
        assert(types_view(second@) =~= seq![parameter@]);
    }
    Symbol {
        name: String::from_str(name),
        symbol_type: Type::Function { parameters: first, return_type: Box::new(Type::Void) },
        is_function: true,
        parameters: second,
        return_type: Some(Type::Void),
    }
}

/// The symbol of a variable.
fn variable(name: &String, var_type: &Type) -> (symbol: Symbol)
    ensures
        symbol@ == variable_symbol(name@, var_type@),
{
    let symbol = Symbol {
        name: name.clone(),
        symbol_type: var_type.clone(),
        is_function: false,
        parameters: Vec::new(),
        return_type: None,
    };
    assert(types_view(symbol.parameters@) =~= Seq::<TypeSpec>::empty());
    symbol
}

/// The analyzer: the innermost scope with those around it, and the return
/// type of the function whose body is being analyzed.
pub struct SemanticAnalyzer {
    current_scope: Scope,
    function_return_type: Option<Type>,
}

impl View for SemanticAnalyzer {
    type V = AnalyzerSpec;

    closed spec fn view(&self) -> AnalyzerSpec {
        AnalyzerSpec {
            scopes: self.current_scope@,
            return_type: option_type_view(self.function_return_type),
        }
    }
}

impl SemanticAnalyzer {
    /// An analyzer with one empty scope, outside every function.
    pub fn new() -> (analyzer: Self)
        ensures
            analyzer@ == fresh_analyzer(),
    {
        SemanticAnalyzer { current_scope: Scope::new(), function_return_type: None }
    }

    /// The analyzer always has a scope.
    pub proof fn lemma_has_scope(&self)
        ensures
            self@.scopes.len() >= 1,
    {
        self.current_scope.lemma_nonempty();
    }

    /// Adds the built-in functions to the innermost scope, then analyzes the
    /// statements of the program in order. The result is the first error, if
    /// there is one; the names declared up to it stay in the scope.
    pub fn analyze(&mut self, program: &Program) -> (result: CompilerResult<()>)
        ensures
            final(self)@ == analyze_spec(old(self)@, program@).state,
            outcome_is(result, analyze_spec(old(self)@, program@).error),
    {
        match self.define_builtins() {
            Err(e) => Err(e),
            Ok(()) => self.analyze_statements(&program.statements),
        }
    }

    fn define_builtins(&mut self) -> (result: CompilerResult<()>)
        ensures
            final(self)@ == define_all(old(self)@, builtin_symbols(), 0).state,
            outcome_is(result, define_all(old(self)@, builtin_symbols(), 0).error),
    {
        proof {
            reveal_with_fuel(define_all, 6);
        }
        match self.current_scope.define(builtin("print", Type::String)) {
            Err(e) => {
                return Err(e);
            },
            Ok(()) => {},
        }
        match self.current_scope.define(builtin("println", Type::String)) {
            Err(e) => {
                return Err(e);
            },
            Ok(()) => {},
        }
        match self.current_scope.define(builtin("println_int", Type::Int)) {
            Err(e) => {
                return Err(e);
            },
            Ok(()) => {},
        }
        match self.current_scope.define(builtin("println_float", Type::Float)) {
            Err(e) => {
                return Err(e);
            },
            Ok(()) => {},
        }
        match self.current_scope.define(builtin("println_bool", Type::Bool)) {
            Err(e) => {
                return Err(e);
            },
            Ok(()) => {},
        }
        Ok(())
    }

    fn enter_scope(&mut self)
        ensures
            final(self)@ == entered(old(self)@),
    {
        let mut outer = Scope::new();
        core::mem::swap(&mut self.current_scope, &mut outer);
        self.current_scope = Scope::with_parent(outer);
    }

    fn exit_scope(&mut self)
        requires
            old(self)@.scopes.len() >= 2,
        ensures
            final(self)@.scopes == old(self)@.scopes.drop_first(),
            final(self)@.return_type == old(self)@.return_type,
    {
        let mut inner = Scope::new();
        core::mem::swap(&mut self.current_scope, &mut inner);
        match inner.into_parent() {
            Some(outer) => {
                self.current_scope = outer;
            },
            None => {},
        }
    }

    #[verifier::loop_isolation(false)]
    fn analyze_statements(&mut self, statements: &Vec<Statement>) -> (result: CompilerResult<()>)
        ensures
            final(self)@ == check_stmts(old(self)@, stmts_view(statements@), 0).state,
            outcome_is(result, check_stmts(old(self)@, stmts_view(statements@), 0).error),
        decreases statements,
    {
        let ghost all = stmts_view(statements@);
        let mut i: usize = 0;
        while i < statements.len()
            invariant
                i <= statements.len(),
                check_stmts(old(self)@, all, 0) == check_stmts(self@, all, i as nat),
            decreases statements.len() - i,
        {
            assert(decreases_to!(statements => statements@[i as int]));
            match self.analyze_statement(&statements[i]) {
                Err(e) => {
                    return Err(e);
                },
                Ok(()) => {},
            }
            i += 1;
        }
        Ok(())
    }

    fn analyze_statement(&mut self, statement: &Statement) -> (result: CompilerResult<()>)
        ensures
            final(self)@ == check_stmt(old(self)@, statement@).state,
            outcome_is(result, check_stmt(old(self)@, statement@).error),
        decreases statement,
    {
        match statement {
            Statement::Expression(expr_stmt) => {
                match self.analyze_expression(&expr_stmt.expression) {
                    Err(e) => Err(e),
                    Ok(_) => Ok(()),
                }
            },
            Statement::Declaration(decl_stmt) => self.analyze_declaration(decl_stmt),
            Statement::Assignment(assign_stmt) => self.analyze_assignment(assign_stmt),
            Statement::If(if_stmt) => self.analyze_if_statement(if_stmt),
            Statement::While(while_stmt) => self.analyze_while_statement(while_stmt),
            Statement::Function(func_stmt) => {
                proof {
                    lemma_function_view(*func_stmt);
                }
                self.analyze_function_declaration(func_stmt)
            },
            Statement::Return(return_stmt) => self.analyze_return_statement(return_stmt),
            Statement::Block(block_stmt) => {
                proof {
                    lemma_block_view(*block_stmt);
                }
                self.analyze_block_statement(block_stmt)
            },
        }
    }

    fn analyze_declaration(&mut self, decl: &DeclarationStatement) -> (result: CompilerResult<()>)
        ensures
            final(self)@ == check_stmt(old(self)@, Statement::Declaration(*decl)@).state,
            outcome_is(result, check_stmt(old(self)@, Statement::Declaration(*decl)@).error),
    {
        if self.current_scope.declares(decl.name.as_str()) {
            return Err(
                CompilerError::semantic_with_location(
                    named_message("Variável '", decl.name.as_str(), "' já foi declarada"),
                    decl.location.line,
                    decl.location.column,
                ),
            );
        }
        match &decl.initializer {
            Some(initializer) => {
                let init_type = match self.analyze_expression(initializer) {
                    Err(e) => {
                        return Err(e);
                    },
                    Ok(t) => t,
                };
                if !types_compatible(&decl.var_type, &init_type) {
                    return Err(
                        mismatch_error(
                            "Tipo incompatível: esperado ",
                            &decl.var_type,
                            &init_type,
                            &decl.location,
                        ),
                    );
                }
            },
            None => {},
        }
        match self.current_scope.define(variable(&decl.name, &decl.var_type)) {
            Err(e) => Err(e),
            Ok(()) => Ok(()),
        }
    }

    /// The type of an assignment to `target` of a value of the given type.
    fn analyze_target(&self, target: &String, value: &Expression, location: &Location) -> (result:
        CompilerResult<Type>)
        ensures
            type_result_is(
                result,
                assignment_type(self@.scopes, target@, expr_type(self@.scopes, value@), *location),
            ),
        decreases value, 2nat,
    {
        let symbol = match self.current_scope.resolve(target.as_str()) {
            None => {
                return Err(undeclared_variable_error(target, location));
            },
            Some(symbol) => symbol,
        };
        if symbol.is_function {
            return Err(
                CompilerError::semantic_with_location(
                    named_message("Não é possível atribuir a função '", target.as_str(), "'"),
                    location.line,
                    location.column,
                ),
            );
        }
        let value_type = match self.analyze_expression(value) {
            Err(e) => {
                return Err(e);
            },
            Ok(t) => t,
        };
        if !types_compatible(&symbol.symbol_type, &value_type) {
            return Err(
                mismatch_error(
                    "Tipo incompatível na atribuição: esperado ",
                    &symbol.symbol_type,
                    &value_type,
                    location,
                ),
            );
        }
        Ok(symbol.symbol_type.clone())
    }

    fn analyze_assignment(&mut self, assign: &AssignmentStatement) -> (result: CompilerResult<()>)
        ensures
            final(self)@ == check_stmt(old(self)@, Statement::Assignment(*assign)@).state,
            outcome_is(result, check_stmt(old(self)@, Statement::Assignment(*assign)@).error),
    {
        match self.analyze_target(&assign.target, &assign.value, &assign.location) {
            Err(e) => Err(e),
            Ok(_) => Ok(()),
        }
    }

    /// Checks that a condition is a boolean.
    fn analyze_condition(&self, condition: &Expression, prefix: &str, location: &Location) -> (result:
        CompilerResult<()>)
        ensures
            outcome_is(result, condition_error(self@.scopes, condition@, prefix@, *location)),
    {
        let condition_type = match self.analyze_expression(condition) {
            Err(e) => {
                return Err(e);
            },
            Ok(t) => t,
        };
        if !condition_type.is_bool() {
            let mut m = String::from_str(prefix);
            condition_type.append_to(&mut m);
            return Err(CompilerError::type_error_with_location(m, location.line, location.column));
        }
        Ok(())
    }

    fn analyze_if_statement(&mut self, if_stmt: &IfStatement) -> (result: CompilerResult<()>)
        ensures
            final(self)@ == check_stmt(old(self)@, Statement::If(*if_stmt)@).state,
            outcome_is(result, check_stmt(old(self)@, Statement::If(*if_stmt)@).error),
        decreases if_stmt,
    {
        match self.analyze_condition(
            &if_stmt.condition,
            "Condição do if deve ser bool, encontrado ",
            &if_stmt.location,
        ) {
            Err(e) => {
                return Err(e);
            },
            Ok(()) => {},
        }
        match self.analyze_statement(&if_stmt.then_branch) {
            Err(e) => {
                return Err(e);
            },
            Ok(()) => {},
        }
        match &if_stmt.else_branch {
            Some(else_branch) => self.analyze_statement(else_branch),
            None => Ok(()),
        }
    }

    fn analyze_while_statement(&mut self, while_stmt: &WhileStatement) -> (result: CompilerResult<
        (),
    >)
        ensures
            final(self)@ == check_stmt(old(self)@, Statement::While(*while_stmt)@).state,
            outcome_is(result, check_stmt(old(self)@, Statement::While(*while_stmt)@).error),
        decreases while_stmt,
    {
        match self.analyze_condition(
            &while_stmt.condition,
            "Condição do while deve ser bool, encontrado ",
            &while_stmt.location,
        ) {
            Err(e) => {
                return Err(e);
            },
            Ok(()) => {},
        }
        self.analyze_statement(&while_stmt.body)
    }

    /// Adds the parameters of a function to the innermost scope.
    fn define_parameters(&mut self, parameters: &Vec<Parameter>) -> (result: CompilerResult<()>)
        requires
            old(self)@.scopes.len() >= 1,
            old(self)@.scopes[0] == Names::empty(),
        ensures
            same_frame(final(self)@, old(self)@),
            match result {
                Ok(()) => parameters_scope(params_view(parameters@), 0, Names::empty()) == Ok::<
                    Names,
                    ErrorSpec,
                >(final(self)@.scopes[0]),
                Err(e) => parameters_scope(params_view(parameters@), 0, Names::empty()) == Err::<
                    Names,
                    ErrorSpec,
                >(e@),
            },
    {
        let ghost all = params_view(parameters@);
        let mut i: usize = 0;
        while i < parameters.len()
            invariant
                i <= parameters.len(),
                all == params_view(parameters@),
                same_frame(self@, old(self)@),
                parameters_scope(all, 0, Names::empty()) == parameters_scope(
                    all,
                    i as nat,
                    self@.scopes[0],
                ),
            decreases parameters.len() - i,
        {
            let ghost before = self@;
            let parameter = &parameters[i];
            match self.current_scope.define(variable(&parameter.name, &parameter.param_type)) {
                Err(e) => {
                    return Err(e);
                },
                Ok(()) => {},
            }
            proof {
                assert(self@.scopes.drop_first() =~= before.scopes.drop_first());
            }
            i += 1;
        }
        Ok(())
    }

    fn analyze_function_declaration(&mut self, func: &FunctionStatement) -> (result:
        CompilerResult<()>)
        ensures
            final(self)@ == check_stmt(old(self)@, Statement::Function(*func)@).state,
            outcome_is(result, check_stmt(old(self)@, Statement::Function(*func)@).error),
        decreases func,
    {
        proof {
            lemma_function_view(*func);
            self.lemma_has_scope();
        }
        if self.current_scope.declares(func.name.as_str()) {
            return Err(
                CompilerError::semantic_with_location(
                    named_message("Função '", func.name.as_str(), "' já foi declarada"),
                    func.location.line,
                    func.location.column,
                ),
            );
        }
        let mut first: Vec<Type> = Vec::new();
        let mut second: Vec<Type> = Vec::new();
        let mut i: usize = 0;
        while i < func.parameters.len()
            invariant
                i <= func.parameters.len(),
                first@.len() == i,
                second@.len() == i,
                forall|j: int| 0 <= j < i ==> (#[trigger] first@[j])@ == func.parameters@[j].param_type@,
                forall|j: int| 0 <= j < i ==> (#[trigger] second@[j])@ == func.parameters@[j].param_type@,
            decreases func.parameters.len() - i,
        {
            first.push(func.parameters[i].param_type.clone());
            second.push(func.parameters[i].param_type.clone());
            i += 1;
        }
        let ghost types = parameter_types(params_view(func.parameters@));
        let return_type = func.return_type.clone();
        let boxed = Box::new(func.return_type.clone());
        proof {
            assert(types_view(first@) =~= types);
            assert(types_view(second@) =~= types);
            lemma_function_type_view(first, boxed);
        }
        let symbol = Symbol {
            name: func.name.clone(),
            symbol_type: Type::Function { parameters: first, return_type: boxed },
            is_function: true,
            parameters: second,
            return_type: Some(func.return_type.clone()),
        };
        assert(symbol@ == function_symbol(func.name@, types, func.return_type@));
        match self.current_scope.define(symbol) {
            Err(e) => {
                return Err(e);
            },
            Ok(()) => {},
        }
        let ghost outer = self@;
        self.enter_scope();
        match self.define_parameters(&func.parameters) {
            Err(e) => {
                self.exit_scope();
                assert(self@.scopes =~= outer.scopes);
                return Err(e);
            },
            Ok(()) => {},
        }
        let ghost names = self@.scopes[0];
        let mut saved: Option<Type> = Some(return_type);
        core::mem::swap(&mut self.function_return_type, &mut saved);
        let ghost inner = self@;
        proof {
            assert(entered(outer).scopes.drop_first() =~= outer.scopes);
            assert(inner.scopes.drop_first() == outer.scopes);
            assert forall|k: int| 1 <= k < inner.scopes.len() implies inner.scopes[k]
                == outer.scopes[k - 1] by {
                assert(inner.scopes[k] == inner.scopes.drop_first()[k - 1]);
            }
            assert(inner.scopes =~= seq![names] + outer.scopes);
            assert(seq![Names::empty()] + inner.scopes =~= seq![Names::empty(), names]
                + outer.scopes);
            lemma_check_stmts_frame(entered(inner), stmts_view(func.body.statements@), 0);
        }
        let result = self.analyze_block_statement(&func.body);
        core::mem::swap(&mut self.function_return_type, &mut saved);
        self.exit_scope();
        assert(self@.scopes =~= outer.scopes);
        result
    }

    fn analyze_return_statement(&mut self, return_stmt: &ReturnStatement) -> (result:
        CompilerResult<()>)
        ensures
            final(self)@ == check_stmt(old(self)@, Statement::Return(*return_stmt)@).state,
            outcome_is(result, check_stmt(old(self)@, Statement::Return(*return_stmt)@).error),
    {
        let expected = match &self.function_return_type {
            None => {
                return Err(
                    CompilerError::semantic_with_location(
                        String::from_str("Return fora de função"),
                        return_stmt.location.line,
                        return_stmt.location.column,
                    ),
                );
            },
            Some(t) => t,
        };
        match &return_stmt.value {
            Some(value) => {
                let value_type = match self.analyze_expression(value) {
                    Err(e) => {
                        return Err(e);
                    },
                    Ok(t) => t,
                };
                if !types_compatible(expected, &value_type) {
                    return Err(
                        mismatch_error(
                            "Tipo de retorno incompatível: esperado ",
                            expected,
                            &value_type,
                            &return_stmt.location,
                        ),
                    );
                }
            },
            None => {
                if !expected.is_void() {
                    let mut m = String::from_str("Função deve retornar ");
                    expected.append_to(&mut m);
                    m.append(", mas não há valor de retorno");
                    return Err(
                        CompilerError::type_error_with_location(
                            m,
                            return_stmt.location.line,
                            return_stmt.location.column,
                        ),
                    );
                }
            },
        }
        Ok(())
    }

    /// Analyzes the statements of a block in a scope of their own.
    fn analyze_block_statement(&mut self, block: &BlockStatement) -> (result: CompilerResult<()>)
        ensures
            final(self)@ == old(self)@,
            outcome_is(
                result,
                check_stmts(entered(old(self)@), stmts_view(block.statements@), 0).error,
            ),
        decreases block,
    {
        proof {
            self.lemma_has_scope();
            lemma_check_stmts_frame(entered(old(self)@), stmts_view(block.statements@), 0);
        }
        self.enter_scope();
        let result = self.analyze_statements(&block.statements);
        self.exit_scope();
        assert(self@.scopes =~= old(self)@.scopes);
        result
    }

    fn analyze_expression(&self, expression: &Expression) -> (result: CompilerResult<Type>)
        ensures
            type_result_is(result, expr_type(self@.scopes, expression@)),
        decreases expression, 1nat,
    {
        match expression {
            Expression::Literal(literal_expr) => Ok(type_of_literal(&literal_expr.value)),
            Expression::Identifier(identifier_expr) => {
                match self.current_scope.resolve(identifier_expr.name.as_str()) {
                    Some(symbol) => Ok(symbol.symbol_type.clone()),
                    None => Err(
                        undeclared_variable_error(&identifier_expr.name, &identifier_expr.location),
                    ),
                }
            },
            Expression::Binary(binary_expr) => {
                let left_type = match self.analyze_expression(&binary_expr.left) {
                    Err(e) => {
                        return Err(e);
                    },
                    Ok(t) => t,
                };
                let right_type = match self.analyze_expression(&binary_expr.right) {
                    Err(e) => {
                        return Err(e);
                    },
                    Ok(t) => t,
                };
                type_of_binary(binary_expr.operator, &left_type, &right_type, &binary_expr.location)
            },
            Expression::Unary(unary_expr) => {
                let operand_type = match self.analyze_expression(&unary_expr.operand) {
                    Err(e) => {
                        return Err(e);
                    },
                    Ok(t) => t,
                };
                type_of_unary(unary_expr.operator, operand_type, &unary_expr.location)
            },
            Expression::Call(call_expr) => {
                proof {
                    lemma_call_view(*call_expr);
                }
                self.analyze_call_expression(call_expr)
            },
            Expression::Assignment(assign_expr) => self.analyze_target(
                &assign_expr.target,
                &assign_expr.value,
                &assign_expr.location,
            ),
        }
    }

    #[verifier::loop_isolation(false)]
    fn analyze_call_expression(&self, call: &CallExpression) -> (result: CompilerResult<Type>)
        ensures
            type_result_is(result, expr_type(self@.scopes, Expression::Call(*call)@)),
        decreases call, 0nat,
    {
        proof {
            lemma_call_view(*call);
        }
        let symbol = match self.current_scope.resolve(call.function.as_str()) {
            None => {
                return Err(
                    CompilerError::semantic_with_location(
                        named_message("Função '", call.function.as_str(), "' não foi declarada"),
                        call.location.line,
                        call.location.column,
                    ),
                );
            },
            Some(symbol) => symbol,
        };
        if !symbol.is_function {
            return Err(
                CompilerError::semantic_with_location(
                    named_message("'", call.function.as_str(), "' não é uma função"),
                    call.location.line,
                    call.location.column,
                ),
            );
        }
        if call.arguments.len() != symbol.parameters.len() {
            let mut m = String::from_str("Função '");
            m.append(call.function.as_str());
            m.append("' espera ");
            append_decimal(&mut m, symbol.parameters.len() as u128);
            m.append(" argumentos, mas ");
            append_decimal(&mut m, call.arguments.len() as u128);
            m.append(" foram fornecidos");
            return Err(
                CompilerError::semantic_with_location(m, call.location.line, call.location.column),
            );
        }
        let ghost arguments = exprs_view(call.arguments@);
        let ghost parameters = types_view(symbol.parameters@);
        let mut i: usize = 0;
        while i < call.arguments.len()
            invariant
                i <= call.arguments.len(),
                arguments_error(self@.scopes, call.function@, parameters, arguments, call.location, 0)
                    == arguments_error(
                    self@.scopes,
                    call.function@,
                    parameters,
                    arguments,
                    call.location,
                    i as nat,
                ),
            decreases call.arguments.len() - i,
        {
            assert(decreases_to!(call => call.arguments@[i as int]));
            let arg_type = match self.analyze_expression(&call.arguments[i]) {
                Err(e) => {
                    return Err(e);
                },
                Ok(t) => t,
            };
            let expected = &symbol.parameters[i];
            if !types_compatible(expected, &arg_type) {
                let mut prefix = String::from_str("Argumento ");
                append_decimal(&mut prefix, (i + 1) as u128);
                prefix.append(" da função '");
                prefix.append(call.function.as_str());
                prefix.append("': esperado ");
                return Err(mismatch_error(prefix.as_str(), expected, &arg_type, &call.location));
            }
            i += 1;
        }
        Ok(
            match &symbol.return_type {
                Some(t) => t.clone(),
                None => Type::Void,
            },
        )
    }
}

} // verus!
