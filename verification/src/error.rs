//! The errors of the compiler, one kind for each stage, and their messages.

use crate::text::{append_decimal, decimal};
use vstd::prelude::*;

verus! {

/// An error of the compiler: a lexical, a syntax, a semantic or a type error of
/// the source, an error of code generation, or an internal error.
#[derive(Debug, Clone, PartialEq)]
#[allow(inconsistent_fields)]
pub enum CompilerError {
    LexicalError { line: usize, column: usize, message: String },
    SyntaxError { line: usize, column: usize, message: String },
    SemanticError { message: String, line: Option<usize>, column: Option<usize> },
    TypeError { message: String, line: Option<usize>, column: Option<usize> },
    CodeGenError { message: String },
    InternalError { message: String },
}

/// The mathematical model of an error: its kind, its position where it has
/// one, and the characters of its message.
#[allow(inconsistent_fields)]
pub enum ErrorSpec {
    LexicalError { line: usize, column: usize, message: Seq<char> },
    SyntaxError { line: usize, column: usize, message: Seq<char> },
    SemanticError { message: Seq<char>, line: Option<usize>, column: Option<usize> },
    TypeError { message: Seq<char>, line: Option<usize>, column: Option<usize> },
    CodeGenError { message: Seq<char> },
    InternalError { message: Seq<char> },
}

/// A result of the compiler.
pub type CompilerResult<T> = Result<T, CompilerError>;

impl View for CompilerError {
    type V = ErrorSpec;

    open spec fn view(&self) -> ErrorSpec {
        match self {
            CompilerError::LexicalError { line, column, message } => ErrorSpec::LexicalError {
                line: *line,
                column: *column,
                message: message@,
            },
            CompilerError::SyntaxError { line, column, message } => ErrorSpec::SyntaxError {
                line: *line,
                column: *column,
                message: message@,
            },
            CompilerError::SemanticError { message, line, column } => ErrorSpec::SemanticError {
                message: message@,
                line: *line,
                column: *column,
            },
            CompilerError::TypeError { message, line, column } => ErrorSpec::TypeError {
                message: message@,
                line: *line,
                column: *column,
            },
            CompilerError::CodeGenError { message } => ErrorSpec::CodeGenError {
                message: message@,
            },
            CompilerError::InternalError { message } => ErrorSpec::InternalError {
                message: message@,
            },
        }
    }
}

/// A syntax error at a position.
pub open spec fn syntax_error(line: usize, column: usize, message: Seq<char>) -> ErrorSpec {
    ErrorSpec::SyntaxError { line, column, message }
}

/// A semantic error at a position.
pub open spec fn semantic_error_at(message: Seq<char>, line: usize, column: usize) -> ErrorSpec {
    ErrorSpec::SemanticError { message, line: Some(line), column: Some(column) }
}

/// A type error at a position.
pub open spec fn type_error_at(message: Seq<char>, line: usize, column: usize) -> ErrorSpec {
    ErrorSpec::TypeError { message, line: Some(line), column: Some(column) }
}

/// The message shown for an error: the kind, the position for lexical and
/// syntax errors, and the error's own message.
pub open spec fn error_text(e: ErrorSpec) -> Seq<char> {
    match e {
        ErrorSpec::LexicalError { line, column, message } => "Erro léxico na linha "@ + decimal(
            line as nat,
        ) + ", coluna "@ + decimal(column as nat) + ": "@ + message,
        ErrorSpec::SyntaxError { line, column, message } => "Erro de sintaxe na linha "@ + decimal(
            line as nat,
        ) + ", coluna "@ + decimal(column as nat) + ": "@ + message,
        ErrorSpec::SemanticError { message, .. } => "Erro semântico: "@ + message,
        ErrorSpec::TypeError { message, .. } => "Erro de tipo: "@ + message,
        ErrorSpec::CodeGenError { message } => "Erro de geração de código: "@ + message,
        ErrorSpec::InternalError { message } => "Erro interno do compilador: "@ + message,
    }
}

impl CompilerError {
    /// A lexical error at a position.
    pub fn lexical(line: usize, column: usize, message: String) -> (e: Self)
        ensures
            e@ == (ErrorSpec::LexicalError { line, column, message: message@ }),
    {
        CompilerError::LexicalError { line, column, message }
    }

    /// A syntax error at a position.
    pub fn syntax(line: usize, column: usize, message: String) -> (e: Self)
        ensures
            e@ == syntax_error(line, column, message@),
    {
        CompilerError::SyntaxError { line, column, message }
    }

    /// A semantic error without a position.
    pub fn semantic(message: String) -> (e: Self)
        ensures
            e@ == (ErrorSpec::SemanticError { message: message@, line: None, column: None }),
    {
        CompilerError::SemanticError { message, line: None, column: None }
    }

    /// A semantic error at a position.
    pub fn semantic_with_location(message: String, line: usize, column: usize) -> (e: Self)
        ensures
            e@ == semantic_error_at(message@, line, column),
    {
        CompilerError::SemanticError { message, line: Some(line), column: Some(column) }
    }

    /// A type error without a position.
    pub fn type_error(message: String) -> (e: Self)
        ensures
            e@ == (ErrorSpec::TypeError { message: message@, line: None, column: None }),
    {
        CompilerError::TypeError { message, line: None, column: None }
    }

    /// A type error at a position.
    pub fn type_error_with_location(message: String, line: usize, column: usize) -> (e: Self)
        ensures
            e@ == type_error_at(message@, line, column),
    {
        CompilerError::TypeError { message, line: Some(line), column: Some(column) }
    }

    /// An error of code generation.
    pub fn codegen(message: String) -> (e: Self)
        ensures
            e@ == (ErrorSpec::CodeGenError { message: message@ }),
    {
        CompilerError::CodeGenError { message }
    }

    /// An internal error.
    pub fn internal(message: String) -> (e: Self)
        ensures
            e@ == (ErrorSpec::InternalError { message: message@ }),
    {
        CompilerError::InternalError { message }
    }

    /// The message shown for the error.
    pub fn to_string(&self) -> (s: String)
        ensures
            s@ == error_text(self@),
    {
        let mut s = String::new();
        match self {
            CompilerError::LexicalError { line, column, message } => {
                s.append("Erro léxico na linha ");
                append_decimal(&mut s, *line as u128);
                s.append(", coluna ");
                append_decimal(&mut s, *column as u128);
                s.append(": ");
                s.append(message.as_str());
            },
            CompilerError::SyntaxError { line, column, message } => {
                s.append("Erro de sintaxe na linha ");
                append_decimal(&mut s, *line as u128);
                s.append(", coluna ");
                append_decimal(&mut s, *column as u128);
                s.append(": ");
                s.append(message.as_str());
            },
            CompilerError::SemanticError { message, .. } => {
                s.append("Erro semântico: ");
                s.append(message.as_str());
            },
            CompilerError::TypeError { message, .. } => {
                s.append("Erro de tipo: ");
                s.append(message.as_str());
            },
            CompilerError::CodeGenError { message } => {
                s.append("Erro de geração de código: ");
                s.append(message.as_str());
            },
            CompilerError::InternalError { message } => {
                s.append("Erro interno do compilador: ");
                s.append(message.as_str());
            },
        }
        assert(s@ =~= error_text(self@));
        s
    }
}

impl From<String> for CompilerError {
    fn from(message: String) -> (e: Self) {
        CompilerError::InternalError { message }
    }
}

impl vstd::std_specs::convert::FromSpecImpl<String> for CompilerError {
    open spec fn obeys_from_spec() -> bool {
        true
    }

    open spec fn from_spec(message: String) -> Self {
        CompilerError::InternalError { message }
    }
}

/// A position attached to a diagnostic.
#[derive(Debug, Clone)]
pub struct ErrorLocation {
    pub line: usize,
    pub column: usize,
    pub _length: usize,
}

/// The words that name a position: the line and the column.
pub open spec fn location_text(line: usize, column: usize) -> Seq<char> {
    "linha "@ + decimal(line as nat) + ", coluna "@ + decimal(column as nat)
}

impl ErrorLocation {
    /// The position in words.
    pub fn to_string(&self) -> (s: String)
        ensures
            s@ == location_text(self.line, self.column),
    {
        let mut s = String::new();
        s.append("linha ");
        append_decimal(&mut s, self.line as u128);
        s.append(", coluna ");
        append_decimal(&mut s, self.column as u128);
        assert(s@ =~= location_text(self.line, self.column));
        s
    }
}

} // verus!
