//! The typing rules: which types are compatible, and the type of each
//! operator applied to operands of given types.

use crate::ast::{
    binary_operator_text, lemma_function_type_view, type_text, types_view, BinaryOperator,
    Literal, LiteralSpec, Location, Type, TypeSpec, UnaryOperator,
};
use crate::error::{type_error_at, CompilerError, CompilerResult, ErrorSpec};
use vstd::prelude::*;

verus! {

/// A value of type `actual` may stand where `expected` is asked for: the two
/// are the same primitive type, or an integer stands for a floating-point
/// number, or both are function types of as many parameters, compatible one by
/// one and in their return types.
pub open spec fn compatible(expected: TypeSpec, actual: TypeSpec) -> bool
    decreases expected,
{
    match (expected, actual) {
        (TypeSpec::Int, TypeSpec::Int) => true,
        (TypeSpec::Float, TypeSpec::Float) => true,
        (TypeSpec::Float, TypeSpec::Int) => true,
        (TypeSpec::Bool, TypeSpec::Bool) => true,
        (TypeSpec::String, TypeSpec::String) => true,
        (TypeSpec::Void, TypeSpec::Void) => true,
        (
            TypeSpec::Function { parameters: wanted, return_type: wanted_result },
            TypeSpec::Function { parameters: given, return_type: given_result },
        ) => {
            &&& wanted.len() == given.len()
            &&& forall|i: int| 0 <= i < wanted.len() ==> compatible(#[trigger] wanted[i], given[i])
            &&& compatible(*wanted_result, *given_result)
        },
        _ => false,
    }
}

/// The type is that of the integers or that of the floating-point numbers.
pub open spec fn is_numeric(t: TypeSpec) -> bool {
    t == TypeSpec::Int || t == TypeSpec::Float
}

/// The type of a literal.
pub open spec fn literal_type(l: LiteralSpec) -> TypeSpec {
    match l {
        LiteralSpec::Integer(_) => TypeSpec::Int,
        LiteralSpec::Float(_) => TypeSpec::Float,
        LiteralSpec::Boolean(_) => TypeSpec::Bool,
        LiteralSpec::String(_) => TypeSpec::String,
    }
}

/// The words "between `left` and `right`" that end an operator's error.
pub open spec fn between_text(left: TypeSpec, right: TypeSpec) -> Seq<char> {
    " não suportada entre "@ + type_text(left) + " e "@ + type_text(right)
}

/// The type of a binary operation on operands of types `left` and `right`, or
/// the type error at `location`.
///
/// `+ - * /` ask for two numbers and give an integer for two integers, else a
/// floating-point number. `%` asks for two integers. `< <= > >=` ask for two
/// numbers, `== !=` for a right operand compatible with the left one; both
/// give a boolean. `&& ||` ask for two booleans.
pub open spec fn binary_type(
    operator: BinaryOperator,
    left: TypeSpec,
    right: TypeSpec,
    location: Location,
) -> Result<TypeSpec, ErrorSpec> {
    match operator {
        BinaryOperator::Add
        | BinaryOperator::Subtract
        | BinaryOperator::Multiply
        | BinaryOperator::Divide => {
            if left == TypeSpec::Int && right == TypeSpec::Int {
                Ok(TypeSpec::Int)
            } else if is_numeric(left) && is_numeric(right) {
                Ok(TypeSpec::Float)
            } else {
                Err(
                    type_error_at(
                        "Operação "@ + binary_operator_text(operator) + between_text(left, right),
                        location.line,
                        location.column,
                    ),
                )
            }
        },
        BinaryOperator::Equal | BinaryOperator::NotEqual => {
            if compatible(left, right) {
                Ok(TypeSpec::Bool)
            } else {
                Err(
                    type_error_at(
                        "Comparação "@ + binary_operator_text(operator) + between_text(left, right),
                        location.line,
                        location.column,
                    ),
                )
            }
        },
        BinaryOperator::LessThan
        | BinaryOperator::LessThanEqual
        | BinaryOperator::GreaterThan
        | BinaryOperator::GreaterThanEqual => {
            if is_numeric(left) && is_numeric(right) {
                Ok(TypeSpec::Bool)
            } else {
                Err(
                    type_error_at(
                        "Comparação "@ + binary_operator_text(operator) + between_text(left, right),
                        location.line,
                        location.column,
                    ),
                )
            }
        },
        BinaryOperator::And | BinaryOperator::Or => {
            if left == TypeSpec::Bool && right == TypeSpec::Bool {
                Ok(TypeSpec::Bool)
            } else {
                Err(
                    type_error_at(
                        "Operação lógica "@ + binary_operator_text(operator) + between_text(
                            left,
                            right,
                        ),
                        location.line,
                        location.column,
                    ),
                )
            }
        },
        BinaryOperator::Modulo => {
            if left == TypeSpec::Int && right == TypeSpec::Int {
                Ok(TypeSpec::Int)
            } else {
                Err(
                    type_error_at(
                        "Operação módulo"@ + between_text(left, right),
                        location.line,
                        location.column,
                    ),
                )
            }
        },
    }
}

/// The type of a unary operation on an operand of type `operand`, or the type
/// error at `location`: `-` asks for a number and keeps its type, `!` asks for
/// a boolean, `~` for an integer.
pub open spec fn unary_type(operator: UnaryOperator, operand: TypeSpec, location: Location) -> Result<
    TypeSpec,
    ErrorSpec,
> {
    match operator {
        UnaryOperator::Minus => if is_numeric(operand) {
            Ok(operand)
        } else {
            Err(
                type_error_at(
                    "Operador - não suportado para tipo "@ + type_text(operand),
                    location.line,
                    location.column,
                ),
            )
        },
        UnaryOperator::Not => if operand == TypeSpec::Bool {
            Ok(TypeSpec::Bool)
        } else {
            Err(
                type_error_at(
                    "Operador ! não suportado para tipo "@ + type_text(operand),
                    location.line,
                    location.column,
                ),
            )
        },
        UnaryOperator::Negate => if operand == TypeSpec::Int {
            Ok(TypeSpec::Int)
        } else {
            Err(
                type_error_at(
                    "Operador ~ não suportado para tipo "@ + type_text(operand),
                    location.line,
                    location.column,
                ),
            )
        },
    }
}

/// A typing result and its model say the same.
pub open spec fn type_result_is(r: CompilerResult<Type>, model: Result<TypeSpec, ErrorSpec>) -> bool {
    match r {
        Ok(t) => model == Ok::<TypeSpec, ErrorSpec>(t@),
        Err(e) => model == Err::<TypeSpec, ErrorSpec>(e@),
    }
}

impl Type {
    /// Whether the type is that of the integers.
    pub fn is_int(&self) -> (b: bool)
        ensures
            b == (self@ == TypeSpec::Int),
    {
        match self {
            Type::Int => true,
            _ => false,
        }
    }

    /// Whether the type is that of the floating-point numbers.
    pub fn is_float(&self) -> (b: bool)
        ensures
            b == (self@ == TypeSpec::Float),
    {
        match self {
            Type::Float => true,
            _ => false,
        }
    }

    /// Whether the type is that of the booleans.
    pub fn is_bool(&self) -> (b: bool)
        ensures
            b == (self@ == TypeSpec::Bool),
    {
        match self {
            Type::Bool => true,
            _ => false,
        }
    }

    /// Whether the type is that of no value.
    pub fn is_void(&self) -> (b: bool)
        ensures
            b == (self@ == TypeSpec::Void),
    {
        match self {
            Type::Void => true,
            _ => false,
        }
    }

    /// Whether the type is that of the integers or of the floating-point numbers.
    pub fn is_numeric(&self) -> (b: bool)
        ensures
            b == is_numeric(self@),
    {
        self.is_int() || self.is_float()
    }
}

/// A value of type `actual` may stand where `expected` is asked for.
#[verifier::loop_isolation(false)]
pub fn types_compatible(expected: &Type, actual: &Type) -> (b: bool)
    ensures
        b == compatible(expected@, actual@),
    decreases expected,
{
    match (expected, actual) {
        (Type::Int, Type::Int) => true,
        (Type::Float, Type::Float) => true,
        (Type::Float, Type::Int) => true,
        (Type::Bool, Type::Bool) => true,
        (Type::String, Type::String) => true,
        (Type::Void, Type::Void) => true,
        (
            Type::Function { parameters: wanted, return_type: wanted_result },
            Type::Function { parameters: given, return_type: given_result },
        ) => {
            proof {
                lemma_function_type_view(*wanted, *wanted_result);
                lemma_function_type_view(*given, *given_result);
            }
            if wanted.len() != given.len() {
                return false;
            }
            let mut i: usize = 0;
            while i < wanted.len()
                invariant
                    i <= wanted.len(),
                    wanted.len() == given.len(),
                    forall|j: int| 0 <= j < i ==> compatible(#[trigger] wanted@[j]@, given@[j]@),
                decreases wanted.len() - i,
            {
                assert(decreases_to!(expected => wanted@[i as int]));
                if !types_compatible(&wanted[i], &given[i]) {
                    assert(types_view(wanted@)[i as int] == wanted@[i as int]@);
                    return false;
                }
                i += 1;
            }
            assert forall|j: int| 0 <= j < types_view(wanted@).len() implies compatible(
                #[trigger] types_view(wanted@)[j],
                types_view(given@)[j],
            ) by {
                assert(compatible(wanted@[j]@, given@[j]@));
            }
            types_compatible(wanted_result, given_result)
        },
        _ => false,
    }
}

/// The type of a literal.
pub fn type_of_literal(literal: &Literal) -> (t: Type)
    ensures
        t@ == literal_type(literal@),
{
    match literal {
        Literal::Integer(_) => Type::Int,
        Literal::Float(_) => Type::Float,
        Literal::Boolean(_) => Type::Bool,
        Literal::String(_) => Type::String,
    }
}

/// The type error for operands that an operator does not take. `prefix` ends
/// just before the operator's spelling, where the message has one.
fn operands_error(
    prefix: &str,
    operator: Option<BinaryOperator>,
    left: &Type,
    right: &Type,
    location: &Location,
) -> (e: CompilerError)
    ensures
        e@ == type_error_at(
            prefix@ + match operator {
                Some(op) => binary_operator_text(op),
                None => Seq::empty(),
            } + between_text(left@, right@),
            location.line,
            location.column,
        ),
{
    let mut message = String::from_str(prefix);
    match operator {
        Some(op) => message.append(op.symbol()),
        None => {},
    }
    let ghost head = message@;
    message.append(" não suportada entre ");
    left.append_to(&mut message);
    message.append(" e ");
    right.append_to(&mut message);
    assert(message@ =~= head + between_text(left@, right@));
    CompilerError::type_error_with_location(message, location.line, location.column)
}

/// The type of a binary operation on operands of the given types.
pub fn type_of_binary(operator: BinaryOperator, left: &Type, right: &Type, location: &Location) -> (r:
    CompilerResult<Type>)
    ensures
        type_result_is(r, binary_type(operator, left@, right@, *location)),
{
    match operator {
        BinaryOperator::Add
        | BinaryOperator::Subtract
        | BinaryOperator::Multiply
        | BinaryOperator::Divide => {
            if left.is_int() && right.is_int() {
                Ok(Type::Int)
            } else if left.is_numeric() && right.is_numeric() {
                Ok(Type::Float)
            } else {
                Err(operands_error("Operação ", Some(operator), left, right, location))
            }
        },
        BinaryOperator::Equal | BinaryOperator::NotEqual => {
            if types_compatible(left, right) {
                Ok(Type::Bool)
            } else {
                Err(operands_error("Comparação ", Some(operator), left, right, location))
            }
        },
        BinaryOperator::LessThan
        | BinaryOperator::LessThanEqual
        | BinaryOperator::GreaterThan
        | BinaryOperator::GreaterThanEqual => {
            if left.is_numeric() && right.is_numeric() {
                Ok(Type::Bool)
            } else {
                Err(operands_error("Comparação ", Some(operator), left, right, location))
            }
        },
        BinaryOperator::And | BinaryOperator::Or => {
            if left.is_bool() && right.is_bool() {
                Ok(Type::Bool)
            } else {
                Err(operands_error("Operação lógica ", Some(operator), left, right, location))
            }
        },
        BinaryOperator::Modulo => {
            if left.is_int() && right.is_int() {
                Ok(Type::Int)
            } else {
                let e = operands_error("Operação módulo", None, left, right, location);
                assert("Operação módulo"@ + Seq::<char>::empty() =~= "Operação módulo"@);
                Err(e)
            }
        },
    }
}

/// The type error for an operand that a unary operator does not take.
fn operand_error(prefix: &str, operand: &Type, location: &Location) -> (e: CompilerError)
    ensures
        e@ == type_error_at(prefix@ + type_text(operand@), location.line, location.column),
{
    let mut message = String::from_str(prefix);
    operand.append_to(&mut message);
    CompilerError::type_error_with_location(message, location.line, location.column)
}

/// The type of a unary operation on an operand of the given type.
pub fn type_of_unary(operator: UnaryOperator, operand: Type, location: &Location) -> (r:
    CompilerResult<Type>)
    ensures
        type_result_is(r, unary_type(operator, operand@, *location)),
{
    match operator {
        UnaryOperator::Minus => {
            if operand.is_numeric() {
                Ok(operand)
            } else {
                Err(operand_error("Operador - não suportado para tipo ", &operand, location))
            }
        },
        UnaryOperator::Not => {
            if operand.is_bool() {
                Ok(Type::Bool)
            } else {
                Err(operand_error("Operador ! não suportado para tipo ", &operand, location))
            }
        },
        UnaryOperator::Negate => {
            if operand.is_int() {
                Ok(Type::Int)
            } else {
                Err(operand_error("Operador ~ não suportado para tipo ", &operand, location))
            }
        },
    }
}

} // verus!
