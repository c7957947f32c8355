//! The abstract syntax tree, its mathematical model, and the textual form of
//! types, operators and literals.

use crate::text::{append_signed_decimal, signed_decimal};
use vstd::prelude::*;

verus! {

/// A position in the source text: one-based line, one-based column (counted in
/// bytes from the start of the line) and a length in bytes.
#[derive(Debug, Clone, Copy, PartialEq, Eq, Structural)]
pub struct Location {
    pub line: usize,
    pub column: usize,
    pub length: usize,
}

/// The binary operators.
#[derive(Debug, Clone, Copy, PartialEq, Eq, Structural)]
pub enum BinaryOperator {
    Add,
    Subtract,
    Multiply,
    Divide,
    Modulo,
    Equal,
    NotEqual,
    LessThan,
    LessThanEqual,
    GreaterThan,
    GreaterThanEqual,
    And,
    Or,
}

/// The unary operators: `Negate` is the bitwise negation, `Not` the logical one,
/// `Minus` the arithmetic one.
#[derive(Debug, Clone, Copy, PartialEq, Eq, Structural)]
pub enum UnaryOperator {
    Negate,
    Not,
    Minus,
}

/// The types of the language.
#[derive(Debug, PartialEq)]
pub enum Type {
    Int,
    Float,
    Bool,
    String,
    Void,
    Function { parameters: Vec<Type>, return_type: Box<Type> },
}

/// A literal value. A floating-point literal is kept as its decimal spelling.
#[derive(Debug, PartialEq)]
pub enum Literal {
    Integer(i64),
    Float(String),
    Boolean(bool),
    String(String),
}

/// A literal.
#[derive(Debug, PartialEq)]
pub struct LiteralExpression {
    pub value: Literal,
    pub location: Location,
}

/// A reference to a variable or a function by its name.
#[derive(Debug, PartialEq)]
pub struct IdentifierExpression {
    pub name: String,
    pub location: Location,
}

/// A binary operator and its two operands. The location is that of the last
/// token of the right operand.
#[derive(Debug, PartialEq)]
pub struct BinaryExpression {
    pub left: Box<Expression>,
    pub operator: BinaryOperator,
    pub right: Box<Expression>,
    pub location: Location,
}

/// A unary operator and its operand. The location is that of the last token of
/// the operand.
#[derive(Debug, PartialEq)]
pub struct UnaryExpression {
    pub operator: UnaryOperator,
    pub operand: Box<Expression>,
    pub location: Location,
}

/// A call of a function by its name. The location is that of the closing
/// parenthesis.
#[derive(Debug, PartialEq)]
pub struct CallExpression {
    pub function: String,
    pub arguments: Vec<Expression>,
    pub location: Location,
}

/// An assignment to a variable, which has the value assigned. The location is
/// that of the last token of the value.
#[derive(Debug, PartialEq)]
pub struct AssignmentExpression {
    pub target: String,
    pub value: Box<Expression>,
    pub location: Location,
}

/// An expression. It owns its operands.
#[derive(Debug, PartialEq)]
pub enum Expression {
    Literal(LiteralExpression),
    Identifier(IdentifierExpression),
    Binary(BinaryExpression),
    Unary(UnaryExpression),
    Call(CallExpression),
    Assignment(AssignmentExpression),
}

/// A parameter of a function. The location is that of its type.
#[derive(Debug, PartialEq)]
pub struct Parameter {
    pub name: String,
    pub param_type: Type,
    pub location: Location,
}

/// An expression evaluated for its effect. The location is that of the last
/// token of the expression.
#[derive(Debug, PartialEq)]
pub struct ExpressionStatement {
    pub expression: Expression,
    pub location: Location,
}

/// The declaration of a variable, with or without an initial value. The
/// location is that of `var`.
#[derive(Debug, PartialEq)]
pub struct DeclarationStatement {
    pub name: String,
    pub var_type: Type,
    pub initializer: Option<Expression>,
    pub location: Location,
}

/// An assignment to a variable, as a statement.
#[derive(Debug, PartialEq)]
pub struct AssignmentStatement {
    pub target: String,
    pub value: Expression,
    pub location: Location,
}

/// An `if` with its condition and its one or two branches. The location is
/// that of `if`.
#[derive(Debug, PartialEq)]
pub struct IfStatement {
    pub condition: Expression,
    pub then_branch: Box<Statement>,
    pub else_branch: Option<Box<Statement>>,
    pub location: Location,
}

/// A `while` with its condition and its body. The location is that of `while`.
#[derive(Debug, PartialEq)]
pub struct WhileStatement {
    pub condition: Expression,
    pub body: Box<Statement>,
    pub location: Location,
}

/// Statements between braces. The location is that of the opening brace.
#[derive(Debug, PartialEq)]
pub struct BlockStatement {
    pub statements: Vec<Statement>,
    pub location: Location,
}

/// The definition of a function. The location is that of `func`.
#[derive(Debug, PartialEq)]
pub struct FunctionStatement {
    pub name: String,
    pub parameters: Vec<Parameter>,
    pub return_type: Type,
    pub body: BlockStatement,
    pub location: Location,
}

/// A `return`, with or without a value. The location is that of `return`.
#[derive(Debug, PartialEq)]
pub struct ReturnStatement {
    pub value: Option<Expression>,
    pub location: Location,
}

/// A statement.
#[derive(Debug, PartialEq)]
pub enum Statement {
    Expression(ExpressionStatement),
    Declaration(DeclarationStatement),
    Assignment(AssignmentStatement),
    If(IfStatement),
    While(WhileStatement),
    Function(FunctionStatement),
    Return(ReturnStatement),
    Block(BlockStatement),
}

/// A program: its statements in order.
#[derive(Debug, PartialEq)]
pub struct Program {
    pub statements: Vec<Statement>,
}

// ---------------------------------------------------------------------------
// The mathematical model of the tree.
// ---------------------------------------------------------------------------

/// The model of a type.
pub enum TypeSpec {
    Int,
    Float,
    Bool,
    String,
    Void,
    Function { parameters: Seq<TypeSpec>, return_type: Box<TypeSpec> },
}

/// The model of a literal.
pub enum LiteralSpec {
    Integer(i64),
    Float(Seq<char>),
    Boolean(bool),
    String(Seq<char>),
}

/// The model of an expression.
#[allow(inconsistent_fields)]
pub enum ExprSpec {
    Literal { value: LiteralSpec, location: Location },
    Identifier { name: Seq<char>, location: Location },
    Binary { left: Box<ExprSpec>, operator: BinaryOperator, right: Box<ExprSpec>, location: Location },
    Unary { operator: UnaryOperator, operand: Box<ExprSpec>, location: Location },
    Call { function: Seq<char>, arguments: Seq<ExprSpec>, location: Location },
    Assignment { target: Seq<char>, value: Box<ExprSpec>, location: Location },
}

/// The model of a parameter.
pub struct ParamSpec {
    pub name: Seq<char>,
    pub param_type: TypeSpec,
    pub location: Location,
}

/// The model of a statement. A block and a function body are the sequences of
/// their statements.
#[allow(inconsistent_fields)]
pub enum StmtSpec {
    Expression { expression: ExprSpec, location: Location },
    Declaration {
        name: Seq<char>,
        var_type: TypeSpec,
        initializer: Option<ExprSpec>,
        location: Location,
    },
    Assignment { target: Seq<char>, value: ExprSpec, location: Location },
    If {
        condition: ExprSpec,
        then_branch: Box<StmtSpec>,
        else_branch: Option<Box<StmtSpec>>,
        location: Location,
    },
    While { condition: ExprSpec, body: Box<StmtSpec>, location: Location },
    Function {
        name: Seq<char>,
        parameters: Seq<ParamSpec>,
        return_type: TypeSpec,
        body: Seq<StmtSpec>,
        body_location: Location,
        location: Location,
    },
    Return { value: Option<ExprSpec>, location: Location },
    Block { statements: Seq<StmtSpec>, location: Location },
}

/// The model of a program.
pub struct ProgramSpec {
    pub statements: Seq<StmtSpec>,
}

/// The model of a type.
pub open spec fn type_view(t: Type) -> TypeSpec
    decreases t,
{
    match t {
        Type::Int => TypeSpec::Int,
        Type::Float => TypeSpec::Float,
        Type::Bool => TypeSpec::Bool,
        Type::String => TypeSpec::String,
        Type::Void => TypeSpec::Void,
        Type::Function { parameters, return_type } => TypeSpec::Function {
            parameters: Seq::new(
                parameters@.len(),
                |i: int|
                    if 0 <= i < parameters@.len() {
                        type_view(parameters@[i])
                    } else {
                        TypeSpec::Void
                    },
            ),
            return_type: Box::new(type_view(*return_type)),
        },
    }
}

impl View for Type {
    type V = TypeSpec;

    open spec fn view(&self) -> TypeSpec {
        type_view(*self)
    }
}

/// The models of a sequence of types, element by element.
pub open spec fn types_view(ts: Seq<Type>) -> Seq<TypeSpec> {
    Seq::new(ts.len(), |i: int| ts[i]@)
}

impl View for Literal {
    type V = LiteralSpec;

    open spec fn view(&self) -> LiteralSpec {
        match self {
            Literal::Integer(n) => LiteralSpec::Integer(*n),
            Literal::Float(text) => LiteralSpec::Float(text@),
            Literal::Boolean(b) => LiteralSpec::Boolean(*b),
            Literal::String(s) => LiteralSpec::String(s@),
        }
    }
}

/// The model of an expression.
pub open spec fn expr_view(e: Expression) -> ExprSpec
    decreases e,
{
    match e {
        Expression::Literal(x) => ExprSpec::Literal { value: x.value@, location: x.location },
        Expression::Identifier(x) => ExprSpec::Identifier { name: x.name@, location: x.location },
        Expression::Binary(x) => ExprSpec::Binary {
            left: Box::new(expr_view(*x.left)),
            operator: x.operator,
            right: Box::new(expr_view(*x.right)),
            location: x.location,
        },
        Expression::Unary(x) => ExprSpec::Unary {
            operator: x.operator,
            operand: Box::new(expr_view(*x.operand)),
            location: x.location,
        },
        Expression::Call(x) => ExprSpec::Call {
            function: x.function@,
            arguments: Seq::new(
                x.arguments@.len(),
                |i: int|
                    if 0 <= i < x.arguments@.len() {
                        expr_view(x.arguments@[i])
                    } else {
                        arbitrary()
                    },
            ),
            location: x.location,
        },
        Expression::Assignment(x) => ExprSpec::Assignment {
            target: x.target@,
            value: Box::new(expr_view(*x.value)),
            location: x.location,
        },
    }
}

impl View for Expression {
    type V = ExprSpec;

    open spec fn view(&self) -> ExprSpec {
        expr_view(*self)
    }
}

/// The models of a sequence of expressions, element by element.
pub open spec fn exprs_view(es: Seq<Expression>) -> Seq<ExprSpec> {
    Seq::new(es.len(), |i: int| es[i]@)
}

impl View for Parameter {
    type V = ParamSpec;

    open spec fn view(&self) -> ParamSpec {
        ParamSpec { name: self.name@, param_type: self.param_type@, location: self.location }
    }
}

/// The models of a sequence of parameters, element by element.
pub open spec fn params_view(ps: Seq<Parameter>) -> Seq<ParamSpec> {
    Seq::new(ps.len(), |i: int| ps[i]@)
}

/// The model of an expression that may be missing.
pub open spec fn option_expr_view(e: Option<Expression>) -> Option<ExprSpec> {
    match e {
        Some(e) => Some(e@),
        None => None,
    }
}

/// The model of a statement.
pub open spec fn stmt_view(s: Statement) -> StmtSpec
    decreases s,
{
    match s {
        Statement::Expression(x) => StmtSpec::Expression {
            expression: x.expression@,
            location: x.location,
        },
        Statement::Declaration(x) => StmtSpec::Declaration {
            name: x.name@,
            var_type: x.var_type@,
            initializer: option_expr_view(x.initializer),
            location: x.location,
        },
        Statement::Assignment(x) => StmtSpec::Assignment {
            target: x.target@,
            value: x.value@,
            location: x.location,
        },
        Statement::If(x) => StmtSpec::If {
            condition: x.condition@,
            then_branch: Box::new(stmt_view(*x.then_branch)),
            else_branch: match x.else_branch {
                Some(b) => Some(Box::new(stmt_view(*b))),
                None => None,
            },
            location: x.location,
        },
        Statement::While(x) => StmtSpec::While {
            condition: x.condition@,
            body: Box::new(stmt_view(*x.body)),
            location: x.location,
        },
        Statement::Function(x) => StmtSpec::Function {
            name: x.name@,
            parameters: params_view(x.parameters@),
            return_type: x.return_type@,
            body: Seq::new(
                x.body.statements@.len(),
                |i: int|
                    if 0 <= i < x.body.statements@.len() {
                        stmt_view(x.body.statements@[i])
                    } else {
                        arbitrary()
                    },
            ),
            body_location: x.body.location,
            location: x.location,
        },
        Statement::Return(x) => StmtSpec::Return {
            value: option_expr_view(x.value),
            location: x.location,
        },
        Statement::Block(x) => StmtSpec::Block {
            statements: Seq::new(
                x.statements@.len(),
                |i: int|
                    if 0 <= i < x.statements@.len() {
                        stmt_view(x.statements@[i])
                    } else {
                        arbitrary()
                    },
            ),
            location: x.location,
        },
    }
}

impl View for Statement {
    type V = StmtSpec;

    open spec fn view(&self) -> StmtSpec {
        stmt_view(*self)
    }
}

/// The models of a sequence of statements, element by element.
pub open spec fn stmts_view(ss: Seq<Statement>) -> Seq<StmtSpec> {
    Seq::new(ss.len(), |i: int| ss[i]@)
}

impl View for Program {
    type V = ProgramSpec;

    open spec fn view(&self) -> ProgramSpec {
        ProgramSpec { statements: stmts_view(self.statements@) }
    }
}

/// The model of a call's arguments is the sequence of the arguments' models.
pub proof fn lemma_call_view(x: CallExpression)
    ensures
        Expression::Call(x)@ == (ExprSpec::Call {
            function: x.function@,
            arguments: exprs_view(x.arguments@),
            location: x.location,
        }),
{
    assert(Expression::Call(x)@->Call_arguments =~= exprs_view(x.arguments@));
}

/// The model of a block is the sequence of its statements' models.
pub proof fn lemma_block_view(x: BlockStatement)
    ensures
        Statement::Block(x)@ == (StmtSpec::Block {
            statements: stmts_view(x.statements@),
            location: x.location,
        }),
{
    assert(Statement::Block(x)@->Block_statements =~= stmts_view(x.statements@));
}

/// The model of a function definition holds the models of its body's statements.
pub proof fn lemma_function_view(x: FunctionStatement)
    ensures
        Statement::Function(x)@ == (StmtSpec::Function {
            name: x.name@,
            parameters: params_view(x.parameters@),
            return_type: x.return_type@,
            body: stmts_view(x.body.statements@),
            body_location: x.body.location,
            location: x.location,
        }),
{
    assert(Statement::Function(x)@->Function_body =~= stmts_view(x.body.statements@));
}

/// The model of a function type holds the models of its parameter types.
pub proof fn lemma_function_type_view(parameters: Vec<Type>, return_type: Box<Type>)
    ensures
        (Type::Function { parameters, return_type })@ == (TypeSpec::Function {
            parameters: types_view(parameters@),
            return_type: Box::new((*return_type)@),
        }),
{
    assert((Type::Function { parameters, return_type })@->Function_parameters =~= types_view(
        parameters@,
    ));
}

// ---------------------------------------------------------------------------
// Copies of types.
// ---------------------------------------------------------------------------

impl Clone for Type {
    fn clone(&self) -> (r: Self)
        ensures
            r@ == self@,
        decreases self,
    {
        match self {
            Type::Int => Type::Int,
            Type::Float => Type::Float,
            Type::Bool => Type::Bool,
            Type::String => Type::String,
            Type::Void => Type::Void,
            Type::Function { parameters, return_type } => {
                let params = clone_types(parameters);
                let ret = (**return_type).clone();
                proof {
                    lemma_function_type_view(*parameters, *return_type);
                    lemma_function_type_view(params, Box::new(ret));
                }
                Type::Function { parameters: params, return_type: Box::new(ret) }
            },
        }
    }
}

/// A copy of a list of types.
pub(crate) fn clone_types(ts: &Vec<Type>) -> (r: Vec<Type>)
    ensures
        types_view(r@) == types_view(ts@),
    decreases ts,
{
    let mut r: Vec<Type> = Vec::new();
    let mut i: usize = 0;
    while i < ts.len()
        invariant
            i <= ts.len(),
            r@.len() == i,
            forall|j: int| 0 <= j < i ==> (#[trigger] r@[j])@ == ts@[j]@,
        decreases ts.len() - i,
    {
        assert(decreases_to!(ts => ts@[i as int]));
        r.push(ts[i].clone());
        i += 1;
    }
    assert(types_view(r@) =~= types_view(ts@));
    r
}

impl Clone for Literal {
    fn clone(&self) -> (r: Self)
        ensures
            r@ == self@,
    {
        match self {
            Literal::Integer(n) => Literal::Integer(*n),
            Literal::Float(text) => Literal::Float(text.clone()),
            Literal::Boolean(b) => Literal::Boolean(*b),
            Literal::String(s) => Literal::String(s.clone()),
        }
    }
}

impl Clone for LiteralExpression {
    fn clone(&self) -> (r: Self)
        ensures
            Expression::Literal(r)@ == Expression::Literal(*self)@,
    {
        LiteralExpression { value: self.value.clone(), location: self.location }
    }
}

impl Clone for IdentifierExpression {
    fn clone(&self) -> (r: Self)
        ensures
            Expression::Identifier(r)@ == Expression::Identifier(*self)@,
    {
        IdentifierExpression { name: self.name.clone(), location: self.location }
    }
}

impl Clone for Expression {
    fn clone(&self) -> (r: Self)
        ensures
            r@ == self@,
        decreases self,
    {
        match self {
            Expression::Literal(x) => Expression::Literal(
                LiteralExpression { value: x.value.clone(), location: x.location },
            ),
            Expression::Identifier(x) => Expression::Identifier(
                IdentifierExpression { name: x.name.clone(), location: x.location },
            ),
            Expression::Binary(x) => Expression::Binary(
                BinaryExpression {
                    left: Box::new((*x.left).clone()),
                    operator: x.operator,
                    right: Box::new((*x.right).clone()),
                    location: x.location,
                },
            ),
            Expression::Unary(x) => Expression::Unary(
                UnaryExpression {
                    operator: x.operator,
                    operand: Box::new((*x.operand).clone()),
                    location: x.location,
                },
            ),
            Expression::Call(x) => {
                let call = CallExpression {
                    function: x.function.clone(),
                    arguments: clone_expressions(&x.arguments),
                    location: x.location,
                };
                proof {
                    lemma_call_view(*x);
                    lemma_call_view(call);
                }
                Expression::Call(call)
            },
            Expression::Assignment(x) => Expression::Assignment(
                AssignmentExpression {
                    target: x.target.clone(),
                    value: Box::new((*x.value).clone()),
                    location: x.location,
                },
            ),
        }
    }
}

/// A copy of a list of expressions.
pub(crate) fn clone_expressions(es: &Vec<Expression>) -> (r: Vec<Expression>)
    ensures
        exprs_view(r@) == exprs_view(es@),
    decreases es,
{
    let mut r: Vec<Expression> = Vec::new();
    let mut i: usize = 0;
    while i < es.len()
        invariant
            i <= es.len(),
            r@.len() == i,
            forall|j: int| 0 <= j < i ==> (#[trigger] r@[j])@ == es@[j]@,
        decreases es.len() - i,
    {
        assert(decreases_to!(es => es@[i as int]));
        r.push(es[i].clone());
        i += 1;
    }
    assert(exprs_view(r@) =~= exprs_view(es@));
    r
}

impl Clone for BinaryExpression {
    fn clone(&self) -> (r: Self)
        ensures
            Expression::Binary(r)@ == Expression::Binary(*self)@,
    {
        BinaryExpression {
            left: Box::new((*self.left).clone()),
            operator: self.operator,
            right: Box::new((*self.right).clone()),
            location: self.location,
        }
    }
}

impl Clone for UnaryExpression {
    fn clone(&self) -> (r: Self)
        ensures
            Expression::Unary(r)@ == Expression::Unary(*self)@,
    {
        UnaryExpression {
            operator: self.operator,
            operand: Box::new((*self.operand).clone()),
            location: self.location,
        }
    }
}

impl Clone for CallExpression {
    fn clone(&self) -> (r: Self)
        ensures
            Expression::Call(r)@ == Expression::Call(*self)@,
    {
        let call = CallExpression {
            function: self.function.clone(),
            arguments: clone_expressions(&self.arguments),
            location: self.location,
        };
        proof {
            lemma_call_view(*self);
            lemma_call_view(call);
        }
        call
    }
}

impl Clone for AssignmentExpression {
    fn clone(&self) -> (r: Self)
        ensures
            Expression::Assignment(r)@ == Expression::Assignment(*self)@,
    {
        AssignmentExpression {
            target: self.target.clone(),
            value: Box::new((*self.value).clone()),
            location: self.location,
        }
    }
}

impl Clone for Parameter {
    fn clone(&self) -> (r: Self)
        ensures
            r@ == self@,
    {
        Parameter {
            name: self.name.clone(),
            param_type: self.param_type.clone(),
            location: self.location,
        }
    }
}

/// A copy of a list of parameters.
pub(crate) fn clone_parameters(ps: &Vec<Parameter>) -> (r: Vec<Parameter>)
    ensures
        params_view(r@) == params_view(ps@),
{
    let mut r: Vec<Parameter> = Vec::new();
    let mut i: usize = 0;
    while i < ps.len()
        invariant
            i <= ps.len(),
            r@.len() == i,
            forall|j: int| 0 <= j < i ==> (#[trigger] r@[j])@ == ps@[j]@,
        decreases ps.len() - i,
    {
        r.push(ps[i].clone());
        i += 1;
    }
    assert(params_view(r@) =~= params_view(ps@));
    r
}

/// A copy of an expression that may be missing.
fn clone_option(e: &Option<Expression>) -> (r: Option<Expression>)
    ensures
        option_expr_view(r) == option_expr_view(*e),
{
    match e {
        Some(e) => Some(e.clone()),
        None => None,
    }
}

impl Clone for Statement {
    fn clone(&self) -> (r: Self)
        ensures
            r@ == self@,
        decreases self,
    {
        match self {
            Statement::Expression(x) => Statement::Expression(
                ExpressionStatement { expression: x.expression.clone(), location: x.location },
            ),
            Statement::Declaration(x) => Statement::Declaration(
                DeclarationStatement {
                    name: x.name.clone(),
                    var_type: x.var_type.clone(),
                    initializer: clone_option(&x.initializer),
                    location: x.location,
                },
            ),
            Statement::Assignment(x) => Statement::Assignment(
                AssignmentStatement {
                    target: x.target.clone(),
                    value: x.value.clone(),
                    location: x.location,
                },
            ),
            Statement::If(x) => Statement::If(
                IfStatement {
                    condition: x.condition.clone(),
                    then_branch: Box::new((*x.then_branch).clone()),
                    else_branch: match &x.else_branch {
                        Some(b) => Some(Box::new((**b).clone())),
                        None => None,
                    },
                    location: x.location,
                },
            ),
            Statement::While(x) => Statement::While(
                WhileStatement {
                    condition: x.condition.clone(),
                    body: Box::new((*x.body).clone()),
                    location: x.location,
                },
            ),
            Statement::Function(x) => {
                let function = FunctionStatement {
                    name: x.name.clone(),
                    parameters: clone_parameters(&x.parameters),
                    return_type: x.return_type.clone(),
                    body: BlockStatement {
                        statements: clone_statements(&x.body.statements),
                        location: x.body.location,
                    },
                    location: x.location,
                };
                proof {
                    lemma_function_view(*x);
                    lemma_function_view(function);
                }
                Statement::Function(function)
            },
            Statement::Return(x) => Statement::Return(
                ReturnStatement { value: clone_option(&x.value), location: x.location },
            ),
            Statement::Block(x) => {
                let block = BlockStatement {
                    statements: clone_statements(&x.statements),
                    location: x.location,
                };
                proof {
                    lemma_block_view(*x);
                    lemma_block_view(block);
                }
                Statement::Block(block)
            },
        }
    }
}

/// A copy of a list of statements.
pub(crate) fn clone_statements(ss: &Vec<Statement>) -> (r: Vec<Statement>)
    ensures
        stmts_view(r@) == stmts_view(ss@),
    decreases ss,
{
    let mut r: Vec<Statement> = Vec::new();
    let mut i: usize = 0;
    while i < ss.len()
        invariant
            i <= ss.len(),
            r@.len() == i,
            forall|j: int| 0 <= j < i ==> (#[trigger] r@[j])@ == ss@[j]@,
        decreases ss.len() - i,
    {
        assert(decreases_to!(ss => ss@[i as int]));
        r.push(ss[i].clone());
        i += 1;
    }
    assert(stmts_view(r@) =~= stmts_view(ss@));
    r
}

impl Clone for ExpressionStatement {
    fn clone(&self) -> (r: Self)
        ensures
            Statement::Expression(r)@ == Statement::Expression(*self)@,
    {
        ExpressionStatement { expression: self.expression.clone(), location: self.location }
    }
}

impl Clone for DeclarationStatement {
    fn clone(&self) -> (r: Self)
        ensures
            Statement::Declaration(r)@ == Statement::Declaration(*self)@,
    {
        DeclarationStatement {
            name: self.name.clone(),
            var_type: self.var_type.clone(),
            initializer: clone_option(&self.initializer),
            location: self.location,
        }
    }
}

impl Clone for AssignmentStatement {
    fn clone(&self) -> (r: Self)
        ensures
            Statement::Assignment(r)@ == Statement::Assignment(*self)@,
    {
        AssignmentStatement {
            target: self.target.clone(),
            value: self.value.clone(),
            location: self.location,
        }
    }
}

impl Clone for IfStatement {
    fn clone(&self) -> (r: Self)
        ensures
            Statement::If(r)@ == Statement::If(*self)@,
    {
        IfStatement {
            condition: self.condition.clone(),
            then_branch: Box::new((*self.then_branch).clone()),
            else_branch: match &self.else_branch {
                Some(b) => Some(Box::new((**b).clone())),
                None => None,
            },
            location: self.location,
        }
    }
}

impl Clone for WhileStatement {
    fn clone(&self) -> (r: Self)
        ensures
            Statement::While(r)@ == Statement::While(*self)@,
    {
        WhileStatement {
            condition: self.condition.clone(),
            body: Box::new((*self.body).clone()),
            location: self.location,
        }
    }
}

impl Clone for BlockStatement {
    fn clone(&self) -> (r: Self)
        ensures
            Statement::Block(r)@ == Statement::Block(*self)@,
    {
        let block = BlockStatement {
            statements: clone_statements(&self.statements),
            location: self.location,
        };
        proof {
            lemma_block_view(*self);
            lemma_block_view(block);
        }
        block
    }
}

impl Clone for FunctionStatement {
    fn clone(&self) -> (r: Self)
        ensures
            Statement::Function(r)@ == Statement::Function(*self)@,
    {
        let function = FunctionStatement {
            name: self.name.clone(),
            parameters: clone_parameters(&self.parameters),
            return_type: self.return_type.clone(),
            body: BlockStatement {
                statements: clone_statements(&self.body.statements),
                location: self.body.location,
            },
            location: self.location,
        };
        proof {
            lemma_function_view(*self);
            lemma_function_view(function);
        }
        function
    }
}

impl Clone for ReturnStatement {
    fn clone(&self) -> (r: Self)
        ensures
            Statement::Return(r)@ == Statement::Return(*self)@,
    {
        ReturnStatement { value: clone_option(&self.value), location: self.location }
    }
}

impl Clone for Program {
    fn clone(&self) -> (r: Self)
        ensures
            r@ == self@,
    {
        Program { statements: clone_statements(&self.statements) }
    }
}

// ---------------------------------------------------------------------------
// Textual forms.
// ---------------------------------------------------------------------------

/// The spelling of a type: `int`, `float`, `bool`, `string`, `void`, or the
/// parameter types in parentheses, an arrow and the return type.
pub open spec fn type_text(t: TypeSpec) -> Seq<char>
    decreases t,
{
    match t {
        TypeSpec::Int => "int"@,
        TypeSpec::Float => "float"@,
        TypeSpec::Bool => "bool"@,
        TypeSpec::String => "string"@,
        TypeSpec::Void => "void"@,
        TypeSpec::Function { parameters, return_type } => "("@ + type_list_text(parameters)
            + ") -> "@ + type_text(*return_type),
    }
}

/// The spellings of the types of a list, separated by a comma and a space.
pub open spec fn type_list_text(ts: Seq<TypeSpec>) -> Seq<char>
    decreases ts,
{
    if ts.len() == 0 {
        Seq::empty()
    } else if ts.len() == 1 {
        type_text(ts[0])
    } else {
        type_list_text(ts.drop_last()) + ", "@ + type_text(ts.last())
    }
}

/// The spelling of a binary operator.
pub open spec fn binary_operator_text(op: BinaryOperator) -> Seq<char> {
    match op {
        BinaryOperator::Add => "+"@,
        BinaryOperator::Subtract => "-"@,
        BinaryOperator::Multiply => "*"@,
        BinaryOperator::Divide => "/"@,
        BinaryOperator::Modulo => "%"@,
        BinaryOperator::Equal => "=="@,
        BinaryOperator::NotEqual => "!="@,
        BinaryOperator::LessThan => "<"@,
        BinaryOperator::LessThanEqual => "<="@,
        BinaryOperator::GreaterThan => ">"@,
        BinaryOperator::GreaterThanEqual => ">="@,
        BinaryOperator::And => "&&"@,
        BinaryOperator::Or => "||"@,
    }
}

/// The spelling of a unary operator: `~` for the bitwise negation, `!` for the
/// logical one, `-` for the arithmetic one.
pub open spec fn unary_operator_text(op: UnaryOperator) -> Seq<char> {
    match op {
        UnaryOperator::Negate => "~"@,
        UnaryOperator::Not => "!"@,
        UnaryOperator::Minus => "-"@,
    }
}

/// The spelling of a literal: a number in decimal, `true` or `false`, or the
/// text between double quotes.
pub open spec fn literal_text(l: LiteralSpec) -> Seq<char> {
    match l {
        LiteralSpec::Integer(n) => signed_decimal(n as int),
        LiteralSpec::Float(text) => text,
        LiteralSpec::Boolean(b) => if b {
            "true"@
        } else {
            "false"@
        },
        LiteralSpec::String(s) => "\""@ + s + "\""@,
    }
}

impl Type {
    /// Appends the spelling of the type to `buf`.
    pub fn append_to(&self, buf: &mut String)
        ensures
            final(buf)@ == old(buf)@ + type_text(self@),
        decreases self,
    {
        match self {
            Type::Int => buf.append("int"),
            Type::Float => buf.append("float"),
            Type::Bool => buf.append("bool"),
            Type::String => buf.append("string"),
            Type::Void => buf.append("void"),
            Type::Function { parameters, return_type } => {
                proof {
                    lemma_function_type_view(*parameters, *return_type);
                }
                buf.append("(");
                append_type_list(parameters, buf);
                buf.append(") -> ");
                return_type.append_to(buf);
                assert(buf@ =~= old(buf)@ + type_text(self@));
            },
        }
    }

    /// The spelling of the type.
    pub fn to_string(&self) -> (s: String)
        ensures
            s@ == type_text(self@),
    {
        let mut s = String::new();
        self.append_to(&mut s);
        assert(s@ =~= type_text(self@));
        s
    }
}

/// Appends the spellings of `ts`, separated by a comma and a space, to `buf`.
pub(crate) fn append_type_list(ts: &Vec<Type>, buf: &mut String)
    ensures
        final(buf)@ == old(buf)@ + type_list_text(types_view(ts@)),
    decreases ts,
{
    let ghost all = types_view(ts@);
    let mut i: usize = 0;
    while i < ts.len()
        invariant
            i <= ts.len(),
            all == types_view(ts@),
            buf@ == old(buf)@ + type_list_text(all.take(i as int)),
        decreases ts.len() - i,
    {
        assert(decreases_to!(ts => ts@[i as int]));
        let ghost before = buf@;
        if i > 0 {
            buf.append(", ");
        }
        ts[i].append_to(buf);
        proof {
            let next = all.take(i + 1);
            assert(next.drop_last() =~= all.take(i as int));
            assert(next.last() == ts@[i as int]@);
            assert(buf@ =~= old(buf)@ + type_list_text(next));
        }
        i += 1;
    }
    assert(all.take(ts.len() as int) =~= all);
}

impl BinaryOperator {
    /// The operator's spelling.
    pub fn symbol(&self) -> (s: &'static str)
        ensures
            s@ == binary_operator_text(*self),
    {
        match self {
            BinaryOperator::Add => "+",
            BinaryOperator::Subtract => "-",
            BinaryOperator::Multiply => "*",
            BinaryOperator::Divide => "/",
            BinaryOperator::Modulo => "%",
            BinaryOperator::Equal => "==",
            BinaryOperator::NotEqual => "!=",
            BinaryOperator::LessThan => "<",
            BinaryOperator::LessThanEqual => "<=",
            BinaryOperator::GreaterThan => ">",
            BinaryOperator::GreaterThanEqual => ">=",
            BinaryOperator::And => "&&",
            BinaryOperator::Or => "||",
        }
    }

    /// The operator's spelling as a string.
    pub fn to_string(&self) -> (s: String)
        ensures
            s@ == binary_operator_text(*self),
    {
        String::from_str(self.symbol())
    }
}

impl UnaryOperator {
    /// The operator's spelling.
    pub fn symbol(&self) -> (s: &'static str)
        ensures
            s@ == unary_operator_text(*self),
    {
        match self {
            UnaryOperator::Negate => "~",
            UnaryOperator::Not => "!",
            UnaryOperator::Minus => "-",
        }
    }

    /// The operator's spelling as a string.
    pub fn to_string(&self) -> (s: String)
        ensures
            s@ == unary_operator_text(*self),
    {
        String::from_str(self.symbol())
    }
}

impl Literal {
    /// The literal's spelling: a number in decimal, `true` or `false`, or the
    /// text between double quotes.
    pub fn to_string(&self) -> (s: String)
        ensures
            s@ == literal_text(self@),
    {
        let mut s = String::new();
        match self {
            Literal::Integer(n) => {
                append_signed_decimal(&mut s, *n);
            },
            Literal::Float(text) => {
                s.append(text.as_str());
            },
            Literal::Boolean(b) => {
                if *b {
                    s.append("true");
                } else {
                    s.append("false");
                }
            },
            Literal::String(text) => {
                s.append("\"");
                s.append(text.as_str());
                s.append("\"");
            },
        }
        assert(s@ =~= literal_text(self@));
        s
    }
}

} // verus!
