//! The grammar, as functions from a position in the token sequence to the
//! tree found there and the position after it, or to the first syntax error.
//!
//! Expressions bind in this order, tightest first: primary expressions and
//! calls, the unary operators `!` and `-`, then `* / %`, `+ -`,
//! `< <= > >=`, `== !=`, `&&`, `||`, and last the assignment. Binary
//! operators associate to the left, the assignment to the right.

use crate::ast::{
    BinaryOperator, ExprSpec, LiteralSpec, Location, ParamSpec, ProgramSpec, StmtSpec, TypeSpec,
    UnaryOperator,
};
use crate::error::{syntax_error, ErrorSpec};
use crate::token::{same_kind, token_debug, TokenInfoSpec, TokenSpec};
pub use crate::token::terminated;
use vstd::prelude::*;

verus! {

/// The outcome of parsing from a position: what was found and the position
/// after it, or the error.
pub type Parsed<T> = Result<(T, int), ErrorSpec>;

/// No token is left to read at `pos`.
pub open spec fn at_end(tokens: Seq<TokenInfoSpec>, pos: int) -> bool {
    !(0 <= pos < tokens.len()) || tokens[pos].token == TokenSpec::Eof
}

/// The token at `pos` is of the kind of `token`.
pub open spec fn check(tokens: Seq<TokenInfoSpec>, pos: int, token: TokenSpec) -> bool {
    !at_end(tokens, pos) && same_kind(tokens[pos].token, token)
}

/// The position `next` lies after `pos` and within the tokens.
pub open spec fn advanced(tokens: Seq<TokenInfoSpec>, pos: int, next: int) -> bool {
    pos < next <= tokens.len()
}

/// The error for a token of another kind than `expected` at `pos`.
pub open spec fn expected_error(tokens: Seq<TokenInfoSpec>, pos: int, expected: TokenSpec) -> ErrorSpec {
    syntax_error(
        tokens[pos].location.line,
        tokens[pos].location.column,
        "Esperado '"@ + token_debug(expected) + "'"@,
    )
}

/// The position after the token at `pos`, which must be of the kind of
/// `expected`.
pub open spec fn expect(tokens: Seq<TokenInfoSpec>, pos: int, expected: TokenSpec) -> Result<
    int,
    ErrorSpec,
> {
    if check(tokens, pos, expected) {
        Ok(pos + 1)
    } else {
        Err(expected_error(tokens, pos, expected))
    }
}

/// The error of a step that did not advance. No parse ever yields it.
pub open spec fn stuck() -> ErrorSpec {
    ErrorSpec::InternalError { message: Seq::empty() }
}

/// The error at the token at `pos`, or at line 0 and column 0 where no token
/// is left.
pub open spec fn error_here(tokens: Seq<TokenInfoSpec>, pos: int, message: Seq<char>) -> ErrorSpec {
    if at_end(tokens, pos) {
        syntax_error(0, 0, message)
    } else {
        syntax_error(tokens[pos].location.line, tokens[pos].location.column, message)
    }
}

/// The error at the token before `pos`.
pub open spec fn error_before(tokens: Seq<TokenInfoSpec>, pos: int, message: Seq<char>) -> ErrorSpec {
    syntax_error(tokens[pos - 1].location.line, tokens[pos - 1].location.column, message)
}

/// A type name.
pub open spec fn parse_type(tokens: Seq<TokenInfoSpec>, pos: int) -> Parsed<TypeSpec> {
    if at_end(tokens, pos) {
        Err(syntax_error(0, 0, "Tipo esperado"@))
    } else {
        match tokens[pos].token {
            TokenSpec::Int => Ok((TypeSpec::Int, pos + 1)),
            TokenSpec::FloatType => Ok((TypeSpec::Float, pos + 1)),
            TokenSpec::Bool => Ok((TypeSpec::Bool, pos + 1)),
            TokenSpec::StringType => Ok((TypeSpec::String, pos + 1)),
            TokenSpec::Void => Ok((TypeSpec::Void, pos + 1)),
            _ => Err(error_here(tokens, pos, "Tipo inválido"@)),
        }
    }
}

/// A name: an identifier token. `message` is the error where none stands.
pub open spec fn parse_name(tokens: Seq<TokenInfoSpec>, pos: int, message: Seq<char>) -> Parsed<
    Seq<char>,
> {
    if at_end(tokens, pos) {
        Err(syntax_error(0, 0, message))
    } else {
        match tokens[pos].token {
            TokenSpec::Identifier(name) => Ok((name, pos + 1)),
            _ => Err(error_here(tokens, pos, message)),
        }
    }
}

/// The binary operator that a token spells at a level of precedence: level 0
/// binds tightest.
pub open spec fn binary_operator_at(level: nat, token: TokenSpec) -> Option<BinaryOperator> {
    if level == 0 {
        match token {
            TokenSpec::Star => Some(BinaryOperator::Multiply),
            TokenSpec::Slash => Some(BinaryOperator::Divide),
            TokenSpec::Percent => Some(BinaryOperator::Modulo),
            _ => None,
        }
    } else if level == 1 {
        match token {
            TokenSpec::Plus => Some(BinaryOperator::Add),
            TokenSpec::Minus => Some(BinaryOperator::Subtract),
            _ => None,
        }
    } else if level == 2 {
        match token {
            TokenSpec::LessThan => Some(BinaryOperator::LessThan),
            TokenSpec::LessThanEqual => Some(BinaryOperator::LessThanEqual),
            TokenSpec::GreaterThan => Some(BinaryOperator::GreaterThan),
            TokenSpec::GreaterThanEqual => Some(BinaryOperator::GreaterThanEqual),
            _ => None,
        }
    } else if level == 3 {
        match token {
            TokenSpec::Equal => Some(BinaryOperator::Equal),
            TokenSpec::NotEqual => Some(BinaryOperator::NotEqual),
            _ => None,
        }
    } else if level == 4 {
        match token {
            TokenSpec::And => Some(BinaryOperator::And),
            _ => None,
        }
    } else if level == 5 {
        match token {
            TokenSpec::Or => Some(BinaryOperator::Or),
            _ => None,
        }
    } else {
        None
    }
}

/// The loosest level of precedence of the binary operators.
pub open spec fn loosest_level() -> nat {
    5
}

/// The binary operator at `pos` for the level, if one stands there.
pub open spec fn operator_here(tokens: Seq<TokenInfoSpec>, pos: int, level: nat) -> Option<
    BinaryOperator,
> {
    if at_end(tokens, pos) {
        None
    } else {
        binary_operator_at(level, tokens[pos].token)
    }
}

/// A primary expression: a literal, an identifier, or an expression in
/// parentheses.
pub open spec fn parse_primary(tokens: Seq<TokenInfoSpec>, pos: int) -> Parsed<ExprSpec>
    decreases tokens.len() - pos, 1nat,
{
    if at_end(tokens, pos) {
        Err(syntax_error(0, 0, "Expressão inesperada no fim do arquivo"@))
    } else {
        let location = tokens[pos].location;
        match tokens[pos].token {
            TokenSpec::Integer(n) => Ok(
                (ExprSpec::Literal { value: LiteralSpec::Integer(n), location }, pos + 1),
            ),
            TokenSpec::Float(x) => Ok(
                (ExprSpec::Literal { value: LiteralSpec::Float(x), location }, pos + 1),
            ),
            TokenSpec::String(s) => Ok(
                (ExprSpec::Literal { value: LiteralSpec::String(s), location }, pos + 1),
            ),
            TokenSpec::Boolean(b) => Ok(
                (ExprSpec::Literal { value: LiteralSpec::Boolean(b), location }, pos + 1),
            ),
            TokenSpec::Identifier(name) => Ok((ExprSpec::Identifier { name, location }, pos + 1)),
            TokenSpec::LeftParen => match parse_expression(tokens, pos + 1) {
                Err(e) => Err(e),
                Ok((e, p)) => match expect(tokens, p, TokenSpec::RightParen) {
                    Err(e) => Err(e),
                    Ok(q) => Ok((e, q)),
                },
            },
            token => Err(
                error_here(tokens, pos, "Expressão inesperada: "@ + token_debug(token)),
            ),
        }
    }
}

/// The arguments of a call from `pos` on, after those in `found`, up to the
/// first that no comma follows.
pub open spec fn parse_arguments(tokens: Seq<TokenInfoSpec>, pos: int, found: Seq<ExprSpec>) -> Parsed<
    Seq<ExprSpec>,
>
    decreases tokens.len() - pos, 22nat,
{
    match parse_expression(tokens, pos) {
        Err(e) => Err(e),
        Ok((e, p)) => if !advanced(tokens, pos, p) {
            Err(stuck())
        } else if check(tokens, p, TokenSpec::Comma) {
            parse_arguments(tokens, p + 1, found.push(e))
        } else {
            Ok((found.push(e), p))
        },
    }
}

/// The rest of a call whose opening parenthesis stands before `pos`: the
/// arguments and the closing parenthesis. The callee must be an identifier.
pub open spec fn parse_call_end(tokens: Seq<TokenInfoSpec>, pos: int, callee: ExprSpec) -> Parsed<
    ExprSpec,
>
    decreases tokens.len() - pos, 23nat,
{
    let arguments = if check(tokens, pos, TokenSpec::RightParen) {
        Ok((Seq::empty(), pos))
    } else {
        parse_arguments(tokens, pos, Seq::empty())
    };
    match arguments {
        Err(e) => Err(e),
        Ok((arguments, p)) => match expect(tokens, p, TokenSpec::RightParen) {
            Err(e) => Err(e),
            Ok(q) => match callee {
                ExprSpec::Identifier { name, .. } => Ok(
                    (
                        ExprSpec::Call { function: name, arguments, location: tokens[p].location },
                        q,
                    ),
                ),
                _ => Err(error_here(tokens, p, "Esperado nome de função"@)),
            },
        },
    }
}

/// The calls that follow `callee` from `pos` on.
pub open spec fn parse_calls(tokens: Seq<TokenInfoSpec>, pos: int, callee: ExprSpec) -> Parsed<
    ExprSpec,
>
    decreases tokens.len() - pos, 14nat,
{
    if check(tokens, pos, TokenSpec::LeftParen) {
        match parse_call_end(tokens, pos + 1, callee) {
            Err(e) => Err(e),
            Ok((e, p)) => if advanced(tokens, pos, p) {
                parse_calls(tokens, p, e)
            } else {
                Err(stuck())
            },
        }
    } else {
        Ok((callee, pos))
    }
}

/// A primary expression and the calls that follow it.
pub open spec fn parse_call(tokens: Seq<TokenInfoSpec>, pos: int) -> Parsed<ExprSpec>
    decreases tokens.len() - pos, 2nat,
{
    match parse_primary(tokens, pos) {
        Err(e) => Err(e),
        Ok((e, p)) => if advanced(tokens, pos, p) {
            parse_calls(tokens, p, e)
        } else {
            Err(stuck())
        },
    }
}

/// A call, or a unary operator and its operand.
pub open spec fn parse_unary(tokens: Seq<TokenInfoSpec>, pos: int) -> Parsed<ExprSpec>
    decreases tokens.len() - pos, 3nat,
{
    if check(tokens, pos, TokenSpec::Not) || check(tokens, pos, TokenSpec::Minus) {
        let operator = if tokens[pos].token == TokenSpec::Not {
            UnaryOperator::Not
        } else {
            UnaryOperator::Minus
        };
        match parse_unary(tokens, pos + 1) {
            Err(e) => Err(e),
            Ok((operand, p)) => Ok(
                (
                    ExprSpec::Unary {
                        operator,
                        operand: Box::new(operand),
                        location: tokens[p - 1].location,
                    },
                    p,
                ),
            ),
        }
    } else {
        parse_call(tokens, pos)
    }
}

/// An operand of the binary operators of a level: an expression of the next
/// tighter level.
pub open spec fn parse_operand(tokens: Seq<TokenInfoSpec>, pos: int, level: nat) -> Parsed<ExprSpec>
    decreases tokens.len() - pos, 4 + 2 * level,
{
    if level == 0 {
        parse_unary(tokens, pos)
    } else {
        parse_binary(tokens, pos, (level - 1) as nat)
    }
}

/// The operators of a level and their right operands from `pos` on, applied
/// to `left` one after the other.
pub open spec fn parse_binary_rest(
    tokens: Seq<TokenInfoSpec>,
    pos: int,
    level: nat,
    left: ExprSpec,
) -> Parsed<ExprSpec>
    decreases tokens.len() - pos, 0nat,
{
    match operator_here(tokens, pos, level) {
        None => Ok((left, pos)),
        Some(operator) => match parse_operand(tokens, pos + 1, level) {
            Err(e) => Err(e),
            Ok((right, p)) => if advanced(tokens, pos, p) {
                parse_binary_rest(
                    tokens,
                    p,
                    level,
                    ExprSpec::Binary {
                        left: Box::new(left),
                        operator,
                        right: Box::new(right),
                        location: tokens[p - 1].location,
                    },
                )
            } else {
                Err(stuck())
            },
        },
    }
}

/// An expression of the binary operators of a level.
pub open spec fn parse_binary(tokens: Seq<TokenInfoSpec>, pos: int, level: nat) -> Parsed<ExprSpec>
    decreases tokens.len() - pos, 5 + 2 * level,
{
    match parse_operand(tokens, pos, level) {
        Err(e) => Err(e),
        Ok((left, p)) => if advanced(tokens, pos, p) {
            parse_binary_rest(tokens, p, level, left)
        } else {
            Err(stuck())
        },
    }
}

/// An assignment, or an expression of the binary operators. The target of an
/// assignment must be an identifier.
pub open spec fn parse_assignment(tokens: Seq<TokenInfoSpec>, pos: int) -> Parsed<ExprSpec>
    decreases tokens.len() - pos, 20nat,
{
    match parse_binary(tokens, pos, loosest_level()) {
        Err(e) => Err(e),
        Ok((e, p)) => if !check(tokens, p, TokenSpec::Assign) {
            Ok((e, p))
        } else if !advanced(tokens, pos, p) {
            Err(stuck())
        } else {
            match parse_assignment(tokens, p + 1) {
                Err(e) => Err(e),
                Ok((value, q)) => match e {
                    ExprSpec::Identifier { name, .. } => Ok(
                        (
                            ExprSpec::Assignment {
                                target: name,
                                value: Box::new(value),
                                location: tokens[q - 1].location,
                            },
                            q,
                        ),
                    ),
                    _ => Err(error_before(tokens, q, "Expressão inválida para atribuição"@)),
                },
            }
        },
    }
}

/// An expression.
pub open spec fn parse_expression(tokens: Seq<TokenInfoSpec>, pos: int) -> Parsed<ExprSpec>
    decreases tokens.len() - pos, 21nat,
{
    parse_assignment(tokens, pos)
}

/// An expression followed by a semicolon.
pub open spec fn parse_expression_statement(tokens: Seq<TokenInfoSpec>, pos: int) -> Parsed<StmtSpec>
    decreases tokens.len() - pos, 22nat,
{
    match parse_expression(tokens, pos) {
        Err(e) => Err(e),
        Ok((expression, p)) => match expect(tokens, p, TokenSpec::Semicolon) {
            Err(e) => Err(e),
            Ok(q) => Ok(
                (StmtSpec::Expression { expression, location: tokens[p - 1].location }, q),
            ),
        },
    }
}

/// The rest of a `return` statement: a value, unless a semicolon stands at
/// once, and the semicolon.
pub open spec fn parse_return(tokens: Seq<TokenInfoSpec>, pos: int, location: Location) -> Parsed<
    StmtSpec,
>
    decreases tokens.len() - pos, 22nat,
{
    let value = if check(tokens, pos, TokenSpec::Semicolon) {
        Ok((None, pos))
    } else {
        match parse_expression(tokens, pos) {
            Err(e) => Err(e),
            Ok((e, p)) => Ok((Some(e), p)),
        }
    };
    match value {
        Err(e) => Err(e),
        Ok((value, p)) => match expect(tokens, p, TokenSpec::Semicolon) {
            Err(e) => Err(e),
            Ok(q) => Ok((StmtSpec::Return { value, location }, q)),
        },
    }
}

/// A condition in parentheses.
pub open spec fn parse_condition(tokens: Seq<TokenInfoSpec>, pos: int) -> Parsed<ExprSpec>
    decreases tokens.len() - pos, 22nat,
{
    match expect(tokens, pos, TokenSpec::LeftParen) {
        Err(e) => Err(e),
        Ok(p) => match parse_expression(tokens, p) {
            Err(e) => Err(e),
            Ok((condition, q)) => match expect(tokens, q, TokenSpec::RightParen) {
                Err(e) => Err(e),
                Ok(r) => Ok((condition, r)),
            },
        },
    }
}

/// The rest of an `if` statement: the condition, the statement for a true
/// condition and, after `else`, the statement for a false one.
pub open spec fn parse_if(tokens: Seq<TokenInfoSpec>, pos: int, location: Location) -> Parsed<StmtSpec>
    decreases tokens.len() - pos, 23nat,
{
    match parse_condition(tokens, pos) {
        Err(e) => Err(e),
        Ok((condition, p)) => if !advanced(tokens, pos, p) {
            Err(stuck())
        } else {
            match parse_statement(tokens, p) {
                Err(e) => Err(e),
                Ok((then_branch, q)) => if !check(tokens, q, TokenSpec::Else) {
                    Ok(
                        (
                            StmtSpec::If {
                                condition,
                                then_branch: Box::new(then_branch),
                                else_branch: None,
                                location,
                            },
                            q,
                        ),
                    )
                } else if !advanced(tokens, pos, q) {
                    Err(stuck())
                } else {
                    match parse_statement(tokens, q + 1) {
                        Err(e) => Err(e),
                        Ok((else_branch, r)) => Ok(
                            (
                                StmtSpec::If {
                                    condition,
                                    then_branch: Box::new(then_branch),
                                    else_branch: Some(Box::new(else_branch)),
                                    location,
                                },
                                r,
                            ),
                        ),
                    }
                },
            }
        },
    }
}

/// The rest of a `while` statement: the condition and the body.
pub open spec fn parse_while(tokens: Seq<TokenInfoSpec>, pos: int, location: Location) -> Parsed<
    StmtSpec,
>
    decreases tokens.len() - pos, 23nat,
{
    match parse_condition(tokens, pos) {
        Err(e) => Err(e),
        Ok((condition, p)) => if !advanced(tokens, pos, p) {
            Err(stuck())
        } else {
            match parse_statement(tokens, p) {
                Err(e) => Err(e),
                Ok((body, q)) => Ok(
                    (StmtSpec::While { condition, body: Box::new(body), location }, q),
                ),
            }
        },
    }
}

/// The statements of a block from `pos` on, after those in `found`, up to
/// the closing brace or the end of the tokens.
pub open spec fn parse_block_items(tokens: Seq<TokenInfoSpec>, pos: int, found: Seq<StmtSpec>) -> Parsed<
    Seq<StmtSpec>,
>
    decreases tokens.len() - pos, 26nat,
{
    if check(tokens, pos, TokenSpec::RightBrace) || at_end(tokens, pos) {
        Ok((found, pos))
    } else {
        match parse_declaration(tokens, pos) {
            Err(e) => Err(e),
            Ok((s, p)) => if advanced(tokens, pos, p) {
                parse_block_items(tokens, p, found.push(s))
            } else {
                Err(stuck())
            },
        }
    }
}

/// The rest of a block whose opening brace stands before `pos`: statements
/// and the closing brace.
pub open spec fn parse_block(tokens: Seq<TokenInfoSpec>, pos: int) -> Parsed<Seq<StmtSpec>>
    decreases tokens.len() - pos, 27nat,
{
    match parse_block_items(tokens, pos, Seq::empty()) {
        Err(e) => Err(e),
        Ok((statements, p)) => if at_end(tokens, p) {
            Err(error_before(tokens, p, "Esperado '}' antes do fim do arquivo"@))
        } else {
            match expect(tokens, p, TokenSpec::RightBrace) {
                Err(e) => Err(e),
                Ok(q) => Ok((statements, q)),
            }
        },
    }
}

/// A statement: by its first token an `if`, a `while`, a `return` or a
/// block, or else an expression statement.
pub open spec fn parse_statement(tokens: Seq<TokenInfoSpec>, pos: int) -> Parsed<StmtSpec>
    decreases tokens.len() - pos, 24nat,
{
    if check(tokens, pos, TokenSpec::If) {
        parse_if(tokens, pos + 1, tokens[pos].location)
    } else if check(tokens, pos, TokenSpec::While) {
        parse_while(tokens, pos + 1, tokens[pos].location)
    } else if check(tokens, pos, TokenSpec::Return) {
        parse_return(tokens, pos + 1, tokens[pos].location)
    } else if check(tokens, pos, TokenSpec::LeftBrace) {
        match parse_block(tokens, pos + 1) {
            Err(e) => Err(e),
            Ok((statements, p)) => Ok(
                (StmtSpec::Block { statements, location: tokens[pos].location }, p),
            ),
        }
    } else {
        parse_expression_statement(tokens, pos)
    }
}

/// The rest of a variable declaration: the name, a type after a colon or else
/// the integer type, an initializer after `=` if there is one, and a
/// semicolon.
pub open spec fn parse_var(tokens: Seq<TokenInfoSpec>, pos: int, location: Location) -> Parsed<StmtSpec>
    decreases tokens.len() - pos, 23nat,
{
    match parse_name(tokens, pos, "Esperado nome de variável"@) {
        Err(e) => Err(e),
        Ok((name, p)) => {
            let typed = if check(tokens, p, TokenSpec::Colon) {
                parse_type(tokens, p + 1)
            } else {
                Ok((TypeSpec::Int, p))
            };
            match typed {
                Err(e) => Err(e),
                Ok((var_type, q)) => {
                    let initialized = if !check(tokens, q, TokenSpec::Assign) {
                        Ok((None, q))
                    } else if !advanced(tokens, pos, q) {
                        Err(stuck())
                    } else {
                        match parse_expression(tokens, q + 1) {
                            Err(e) => Err(e),
                            Ok((e, r)) => Ok((Some(e), r)),
                        }
                    };
                    match initialized {
                        Err(e) => Err(e),
                        Ok((initializer, r)) => match expect(tokens, r, TokenSpec::Semicolon) {
                            Err(e) => Err(e),
                            Ok(s) => Ok(
                                (
                                    StmtSpec::Declaration { name, var_type, initializer, location },
                                    s,
                                ),
                            ),
                        },
                    }
                },
            }
        },
    }
}

/// The parameters of a function from `pos` on, after those in `found`: each a
/// name, a colon and a type, up to the first that no comma follows.
pub open spec fn parse_parameters(tokens: Seq<TokenInfoSpec>, pos: int, found: Seq<ParamSpec>) -> Parsed<
    Seq<ParamSpec>,
>
    decreases tokens.len() - pos,
{
    match parse_name(tokens, pos, "Esperado nome de parâmetro"@) {
        Err(e) => Err(e),
        Ok((name, p)) => match expect(tokens, p, TokenSpec::Colon) {
            Err(e) => Err(e),
            Ok(q) => match parse_type(tokens, q) {
                Err(e) => Err(e),
                Ok((param_type, r)) => {
                    let parameter = ParamSpec {
                        name,
                        param_type,
                        location: tokens[r - 1].location,
                    };
                    if check(tokens, r, TokenSpec::Comma) {
                        parse_parameters(tokens, r + 1, found.push(parameter))
                    } else {
                        Ok((found.push(parameter), r))
                    }
                },
            },
        },
    }
}

/// What stands between a function's name and its body: the parameters in
/// parentheses, and a return type after an arrow or else no value.
pub open spec fn parse_signature(tokens: Seq<TokenInfoSpec>, pos: int) -> Parsed<
    (Seq<ParamSpec>, TypeSpec),
> {
    match expect(tokens, pos, TokenSpec::LeftParen) {
        Err(e) => Err(e),
        Ok(p) => {
            let listed = if check(tokens, p, TokenSpec::RightParen) {
                Ok((Seq::empty(), p))
            } else {
                parse_parameters(tokens, p, Seq::empty())
            };
            match listed {
                Err(e) => Err(e),
                Ok((parameters, q)) => match expect(tokens, q, TokenSpec::RightParen) {
                    Err(e) => Err(e),
                    Ok(r) => if check(tokens, r, TokenSpec::Arrow) {
                        match parse_type(tokens, r + 1) {
                            Err(e) => Err(e),
                            Ok((return_type, s)) => Ok(((parameters, return_type), s)),
                        }
                    } else {
                        Ok(((parameters, TypeSpec::Void), r))
                    },
                },
            }
        },
    }
}

/// The rest of a function definition: the name, the signature, and the body
/// in braces.
pub open spec fn parse_function(tokens: Seq<TokenInfoSpec>, pos: int, location: Location) -> Parsed<
    StmtSpec,
>
    decreases tokens.len() - pos, 28nat,
{
    match parse_name(tokens, pos, "Esperado nome de função"@) {
        Err(e) => Err(e),
        Ok((name, p)) => match parse_signature(tokens, p) {
            Err(e) => Err(e),
            Ok(((parameters, return_type), q)) => match expect(tokens, q, TokenSpec::LeftBrace) {
                Err(e) => Err(e),
                Ok(r) => if !advanced(tokens, pos, r) {
                    Err(stuck())
                } else {
                    match parse_block(tokens, r) {
                        Err(e) => Err(e),
                        Ok((body, s)) => Ok(
                            (
                                StmtSpec::Function {
                                    name,
                                    parameters,
                                    return_type,
                                    body,
                                    body_location: tokens[q].location,
                                    location,
                                },
                                s,
                            ),
                        ),
                    }
                },
            },
        },
    }
}

/// A declaration: after `var` a variable, after `func` a function, or else a
/// statement.
pub open spec fn parse_declaration(tokens: Seq<TokenInfoSpec>, pos: int) -> Parsed<StmtSpec>
    decreases tokens.len() - pos, 25nat,
{
    if check(tokens, pos, TokenSpec::Var) {
        parse_var(tokens, pos + 1, tokens[pos].location)
    } else if check(tokens, pos, TokenSpec::Func) {
        parse_function(tokens, pos + 1, tokens[pos].location)
    } else {
        parse_statement(tokens, pos)
    }
}

/// The declarations from `pos` on, after those in `found`, up to the end of
/// the tokens.
pub open spec fn parse_items(tokens: Seq<TokenInfoSpec>, pos: int, found: Seq<StmtSpec>) -> Parsed<
    Seq<StmtSpec>,
>
    decreases tokens.len() - pos,
{
    if at_end(tokens, pos) {
        Ok((found, pos))
    } else {
        match parse_declaration(tokens, pos) {
            Err(e) => Err(e),
            Ok((s, p)) => if advanced(tokens, pos, p) {
                parse_items(tokens, p, found.push(s))
            } else {
                Err(stuck())
            },
        }
    }
}

/// The program that the tokens from `pos` on spell.
pub open spec fn parse_spec(tokens: Seq<TokenInfoSpec>, pos: int) -> Result<ProgramSpec, ErrorSpec> {
    match parse_items(tokens, pos, Seq::empty()) {
        Err(e) => Err(e),
        Ok((statements, _)) => Ok(ProgramSpec { statements }),
    }
}

} // verus!
