//! Tokens: the vocabulary that the lexer produces and the parser reads.

use crate::ast::{Literal, LiteralSpec, Location};
use crate::text::{append_signed_decimal, signed_decimal};
use vstd::prelude::*;

verus! {

/// A token. A floating-point literal carries its decimal spelling, a string
/// literal the characters between its quotes, unprocessed.
#[derive(Debug, PartialEq)]
pub enum Token {
    Integer(i64),
    Float(String),
    String(String),
    Boolean(bool),
    Identifier(String),
    Plus,
    Minus,
    Star,
    Slash,
    Percent,
    Equal,
    NotEqual,
    LessThan,
    LessThanEqual,
    GreaterThan,
    GreaterThanEqual,
    And,
    Or,
    Not,
    Assign,
    LeftParen,
    RightParen,
    LeftBrace,
    RightBrace,
    LeftBracket,
    RightBracket,
    Semicolon,
    Comma,
    Dot,
    If,
    Else,
    While,
    For,
    Return,
    Var,
    Func,
    Int,
    FloatType,
    Bool,
    StringType,
    Void,
    Colon,
    Arrow,
    Error,
    Eof,
}

/// The mathematical model of a token.
pub enum TokenSpec {
    Integer(i64),
    Float(Seq<char>),
    String(Seq<char>),
    Boolean(bool),
    Identifier(Seq<char>),
    Plus,
    Minus,
    Star,
    Slash,
    Percent,
    Equal,
    NotEqual,
    LessThan,
    LessThanEqual,
    GreaterThan,
    GreaterThanEqual,
    And,
    Or,
    Not,
    Assign,
    LeftParen,
    RightParen,
    LeftBrace,
    RightBrace,
    LeftBracket,
    RightBracket,
    Semicolon,
    Comma,
    Dot,
    If,
    Else,
    While,
    For,
    Return,
    Var,
    Func,
    Int,
    FloatType,
    Bool,
    StringType,
    Void,
    Colon,
    Arrow,
    Error,
    Eof,
}

impl View for Token {
    type V = TokenSpec;

    open spec fn view(&self) -> TokenSpec {
        match self {
            Token::Integer(n) => TokenSpec::Integer(*n),
            Token::Float(s) => TokenSpec::Float(s@),
            Token::String(s) => TokenSpec::String(s@),
            Token::Boolean(b) => TokenSpec::Boolean(*b),
            Token::Identifier(s) => TokenSpec::Identifier(s@),
            Token::Plus => TokenSpec::Plus,
            Token::Minus => TokenSpec::Minus,
            Token::Star => TokenSpec::Star,
            Token::Slash => TokenSpec::Slash,
            Token::Percent => TokenSpec::Percent,
            Token::Equal => TokenSpec::Equal,
            Token::NotEqual => TokenSpec::NotEqual,
            Token::LessThan => TokenSpec::LessThan,
            Token::LessThanEqual => TokenSpec::LessThanEqual,
            Token::GreaterThan => TokenSpec::GreaterThan,
            Token::GreaterThanEqual => TokenSpec::GreaterThanEqual,
            Token::And => TokenSpec::And,
            Token::Or => TokenSpec::Or,
            Token::Not => TokenSpec::Not,
            Token::Assign => TokenSpec::Assign,
            Token::LeftParen => TokenSpec::LeftParen,
            Token::RightParen => TokenSpec::RightParen,
            Token::LeftBrace => TokenSpec::LeftBrace,
            Token::RightBrace => TokenSpec::RightBrace,
            Token::LeftBracket => TokenSpec::LeftBracket,
            Token::RightBracket => TokenSpec::RightBracket,
            Token::Semicolon => TokenSpec::Semicolon,
            Token::Comma => TokenSpec::Comma,
            Token::Dot => TokenSpec::Dot,
            Token::If => TokenSpec::If,
            Token::Else => TokenSpec::Else,
            Token::While => TokenSpec::While,
            Token::For => TokenSpec::For,
            Token::Return => TokenSpec::Return,
            Token::Var => TokenSpec::Var,
            Token::Func => TokenSpec::Func,
            Token::Int => TokenSpec::Int,
            Token::FloatType => TokenSpec::FloatType,
            Token::Bool => TokenSpec::Bool,
            Token::StringType => TokenSpec::StringType,
            Token::Void => TokenSpec::Void,
            Token::Colon => TokenSpec::Colon,
            Token::Arrow => TokenSpec::Arrow,
            Token::Error => TokenSpec::Error,
            Token::Eof => TokenSpec::Eof,
        }
    }
}

/// The number of a token's kind: two tokens are of one kind when they are the
/// same variant, whatever they carry.
pub open spec fn token_kind(t: TokenSpec) -> nat {
    match t {
        TokenSpec::Integer(_) => 0,
        TokenSpec::Float(_) => 1,
        TokenSpec::String(_) => 2,
        TokenSpec::Boolean(_) => 3,
        TokenSpec::Identifier(_) => 4,
        TokenSpec::Plus => 5,
        TokenSpec::Minus => 6,
        TokenSpec::Star => 7,
        TokenSpec::Slash => 8,
        TokenSpec::Percent => 9,
        TokenSpec::Equal => 10,
        TokenSpec::NotEqual => 11,
        TokenSpec::LessThan => 12,
        TokenSpec::LessThanEqual => 13,
        TokenSpec::GreaterThan => 14,
        TokenSpec::GreaterThanEqual => 15,
        TokenSpec::And => 16,
        TokenSpec::Or => 17,
        TokenSpec::Not => 18,
        TokenSpec::Assign => 19,
        TokenSpec::LeftParen => 20,
        TokenSpec::RightParen => 21,
        TokenSpec::LeftBrace => 22,
        TokenSpec::RightBrace => 23,
        TokenSpec::LeftBracket => 24,
        TokenSpec::RightBracket => 25,
        TokenSpec::Semicolon => 26,
        TokenSpec::Comma => 27,
        TokenSpec::Dot => 28,
        TokenSpec::If => 29,
        TokenSpec::Else => 30,
        TokenSpec::While => 31,
        TokenSpec::For => 32,
        TokenSpec::Return => 33,
        TokenSpec::Var => 34,
        TokenSpec::Func => 35,
        TokenSpec::Int => 36,
        TokenSpec::FloatType => 37,
        TokenSpec::Bool => 38,
        TokenSpec::StringType => 39,
        TokenSpec::Void => 40,
        TokenSpec::Colon => 41,
        TokenSpec::Arrow => 42,
        TokenSpec::Error => 43,
        TokenSpec::Eof => 44,
    }
}

/// The two tokens are the same variant.
pub open spec fn same_kind(a: TokenSpec, b: TokenSpec) -> bool {
    token_kind(a) == token_kind(b)
}

/// The token is a keyword: `if else while for return var func` or the name of
/// a type.
pub open spec fn is_keyword_token(t: TokenSpec) -> bool {
    29 <= token_kind(t) <= 40
}

/// The token names a type: `int float bool string void`.
pub open spec fn is_type_token(t: TokenSpec) -> bool {
    36 <= token_kind(t) <= 40
}

/// The literal that a token stands for, if it is a literal token.
pub open spec fn token_literal(t: TokenSpec) -> Option<LiteralSpec> {
    match t {
        TokenSpec::Integer(n) => Some(LiteralSpec::Integer(n)),
        TokenSpec::Float(x) => Some(LiteralSpec::Float(x)),
        TokenSpec::String(s) => Some(LiteralSpec::String(s)),
        TokenSpec::Boolean(b) => Some(LiteralSpec::Boolean(b)),
        _ => None,
    }
}

/// The model of a literal that may be missing.
pub open spec fn option_literal_view(l: Option<Literal>) -> Option<LiteralSpec> {
    match l {
        Some(l) => Some(l@),
        None => None,
    }
}

/// What `{:?}` prints for a string: the text between double quotes, with the
/// escapes of the standard library's `Debug` for `str`.
pub uninterp spec fn debug_quoted(s: Seq<char>) -> Seq<char>;

/// The `Debug` form of a string, as the standard library's formatter for `str`
/// writes it. It depends on the characters alone.
#[verifier::external_body]
fn debug_quote(s: &str) -> (r: String)
    ensures
        r@ == debug_quoted(s@),
{
    format!("{:?}", s)
}

/// Appends `text` between parentheses to `buf`.
pub fn append_in_parentheses(buf: &mut String, text: &str)
    ensures
        final(buf)@ == old(buf)@ + ("("@ + text@ + ")"@),
{
    buf.append("(");
    buf.append(text);
    buf.append(")");
    assert(buf@ =~= old(buf)@ + ("("@ + text@ + ")"@));
}

/// The name of a token's variant.
pub open spec fn token_name(t: TokenSpec) -> Seq<char> {
    match t {
        TokenSpec::Integer(_) => "Integer"@,
        TokenSpec::Float(_) => "Float"@,
        TokenSpec::String(_) => "String"@,
        TokenSpec::Boolean(_) => "Boolean"@,
        TokenSpec::Identifier(_) => "Identifier"@,
        TokenSpec::Plus => "Plus"@,
        TokenSpec::Minus => "Minus"@,
        TokenSpec::Star => "Star"@,
        TokenSpec::Slash => "Slash"@,
        TokenSpec::Percent => "Percent"@,
        TokenSpec::Equal => "Equal"@,
        TokenSpec::NotEqual => "NotEqual"@,
        TokenSpec::LessThan => "LessThan"@,
        TokenSpec::LessThanEqual => "LessThanEqual"@,
        TokenSpec::GreaterThan => "GreaterThan"@,
        TokenSpec::GreaterThanEqual => "GreaterThanEqual"@,
        TokenSpec::And => "And"@,
        TokenSpec::Or => "Or"@,
        TokenSpec::Not => "Not"@,
        TokenSpec::Assign => "Assign"@,
        TokenSpec::LeftParen => "LeftParen"@,
        TokenSpec::RightParen => "RightParen"@,
        TokenSpec::LeftBrace => "LeftBrace"@,
        TokenSpec::RightBrace => "RightBrace"@,
        TokenSpec::LeftBracket => "LeftBracket"@,
        TokenSpec::RightBracket => "RightBracket"@,
        TokenSpec::Semicolon => "Semicolon"@,
        TokenSpec::Comma => "Comma"@,
        TokenSpec::Dot => "Dot"@,
        TokenSpec::If => "If"@,
        TokenSpec::Else => "Else"@,
        TokenSpec::While => "While"@,
        TokenSpec::For => "For"@,
        TokenSpec::Return => "Return"@,
        TokenSpec::Var => "Var"@,
        TokenSpec::Func => "Func"@,
        TokenSpec::Int => "Int"@,
        TokenSpec::FloatType => "FloatType"@,
        TokenSpec::Bool => "Bool"@,
        TokenSpec::StringType => "StringType"@,
        TokenSpec::Void => "Void"@,
        TokenSpec::Colon => "Colon"@,
        TokenSpec::Arrow => "Arrow"@,
        TokenSpec::Error => "Error"@,
        TokenSpec::Eof => "Eof"@,
    }
}

/// What a token carries, in parentheses, or nothing for a token that carries
/// nothing.
pub open spec fn token_payload(t: TokenSpec) -> Seq<char> {
    match t {
        TokenSpec::Integer(n) => "("@ + signed_decimal(n as int) + ")"@,
        TokenSpec::Float(x) => "("@ + x + ")"@,
        TokenSpec::String(s) => "("@ + debug_quoted(s) + ")"@,
        TokenSpec::Boolean(b) => if b {
            "(true)"@
        } else {
            "(false)"@
        },
        TokenSpec::Identifier(s) => "("@ + debug_quoted(s) + ")"@,
        _ => Seq::empty(),
    }
}

/// The form in which a token appears in messages: the variant's name and what
/// it carries.
pub open spec fn token_debug(t: TokenSpec) -> Seq<char> {
    token_name(t) + token_payload(t)
}

impl Token {
    /// The name of the token's variant.
    pub fn name(&self) -> (s: &'static str)
        ensures
            s@ == token_name(self@),
    {
        match self {
            Token::Integer(_) => "Integer",
            Token::Float(_) => "Float",
            Token::String(_) => "String",
            Token::Boolean(_) => "Boolean",
            Token::Identifier(_) => "Identifier",
            Token::Plus => "Plus",
            Token::Minus => "Minus",
            Token::Star => "Star",
            Token::Slash => "Slash",
            Token::Percent => "Percent",
            Token::Equal => "Equal",
            Token::NotEqual => "NotEqual",
            Token::LessThan => "LessThan",
            Token::LessThanEqual => "LessThanEqual",
            Token::GreaterThan => "GreaterThan",
            Token::GreaterThanEqual => "GreaterThanEqual",
            Token::And => "And",
            Token::Or => "Or",
            Token::Not => "Not",
            Token::Assign => "Assign",
            Token::LeftParen => "LeftParen",
            Token::RightParen => "RightParen",
            Token::LeftBrace => "LeftBrace",
            Token::RightBrace => "RightBrace",
            Token::LeftBracket => "LeftBracket",
            Token::RightBracket => "RightBracket",
            Token::Semicolon => "Semicolon",
            Token::Comma => "Comma",
            Token::Dot => "Dot",
            Token::If => "If",
            Token::Else => "Else",
            Token::While => "While",
            Token::For => "For",
            Token::Return => "Return",
            Token::Var => "Var",
            Token::Func => "Func",
            Token::Int => "Int",
            Token::FloatType => "FloatType",
            Token::Bool => "Bool",
            Token::StringType => "StringType",
            Token::Void => "Void",
            Token::Colon => "Colon",
            Token::Arrow => "Arrow",
            Token::Error => "Error",
            Token::Eof => "Eof",
        }
    }

    /// Appends the form in which the token appears in messages to `buf`.
    pub fn append_debug(&self, buf: &mut String)
        ensures
            final(buf)@ == old(buf)@ + token_debug(self@),
    {
        buf.append(self.name());
        let ghost named = buf@;
        match self {
            Token::Integer(n) => {
                let mut digits = String::new();
                append_signed_decimal(&mut digits, *n);
                assert(digits@ =~= signed_decimal(*n as int));
                append_in_parentheses(buf, digits.as_str());
            },
            Token::Float(x) => append_in_parentheses(buf, x.as_str()),
            Token::String(s) => {
                let quoted = debug_quote(s.as_str());
                append_in_parentheses(buf, quoted.as_str());
            },
            Token::Boolean(b) => {
                if *b {
                    buf.append("(true)");
                } else {
                    buf.append("(false)");
                }
            },
            Token::Identifier(s) => {
                let quoted = debug_quote(s.as_str());
                append_in_parentheses(buf, quoted.as_str());
            },
            _ => {
                assert(buf@ =~= named + Seq::<char>::empty());
            },
        }
        assert(buf@ =~= old(buf)@ + token_debug(self@));
    }

    /// The number of the token's kind.
    pub fn kind(&self) -> (k: u8)
        ensures
            k == token_kind(self@),
    {
        match self {
            Token::Integer(_) => 0,
            Token::Float(_) => 1,
            Token::String(_) => 2,
            Token::Boolean(_) => 3,
            Token::Identifier(_) => 4,
            Token::Plus => 5,
            Token::Minus => 6,
            Token::Star => 7,
            Token::Slash => 8,
            Token::Percent => 9,
            Token::Equal => 10,
            Token::NotEqual => 11,
            Token::LessThan => 12,
            Token::LessThanEqual => 13,
            Token::GreaterThan => 14,
            Token::GreaterThanEqual => 15,
            Token::And => 16,
            Token::Or => 17,
            Token::Not => 18,
            Token::Assign => 19,
            Token::LeftParen => 20,
            Token::RightParen => 21,
            Token::LeftBrace => 22,
            Token::RightBrace => 23,
            Token::LeftBracket => 24,
            Token::RightBracket => 25,
            Token::Semicolon => 26,
            Token::Comma => 27,
            Token::Dot => 28,
            Token::If => 29,
            Token::Else => 30,
            Token::While => 31,
            Token::For => 32,
            Token::Return => 33,
            Token::Var => 34,
            Token::Func => 35,
            Token::Int => 36,
            Token::FloatType => 37,
            Token::Bool => 38,
            Token::StringType => 39,
            Token::Void => 40,
            Token::Colon => 41,
            Token::Arrow => 42,
            Token::Error => 43,
            Token::Eof => 44,
        }
    }

    /// The two tokens are the same variant.
    pub fn same_kind(&self, other: &Token) -> (b: bool)
        ensures
            b == same_kind(self@, other@),
    {
        self.kind() == other.kind()
    }

    /// The literal that the token stands for, if it is a literal token.
    pub fn to_literal(&self) -> (l: Option<Literal>)
        ensures
            option_literal_view(l) == token_literal(self@),
    {
        match self {
            Token::Integer(n) => Some(Literal::Integer(*n)),
            Token::Float(x) => Some(Literal::Float(x.clone())),
            Token::String(s) => Some(Literal::String(s.clone())),
            Token::Boolean(b) => Some(Literal::Boolean(*b)),
            _ => None,
        }
    }

    /// Whether the token is a keyword.
    pub fn is_keyword(&self) -> (b: bool)
        ensures
            b == is_keyword_token(self@),
    {
        let k = self.kind();
        29 <= k && k <= 40
    }

    /// Whether the token names a type.
    pub fn is_type(&self) -> (b: bool)
        ensures
            b == is_type_token(self@),
    {
        let k = self.kind();
        36 <= k && k <= 40
    }
}

impl Clone for Token {
    fn clone(&self) -> (r: Self)
        ensures
            r@ == self@,
    {
        match self {
            Token::Integer(n) => Token::Integer(*n),
            Token::Float(s) => Token::Float(s.clone()),
            Token::String(s) => Token::String(s.clone()),
            Token::Boolean(b) => Token::Boolean(*b),
            Token::Identifier(s) => Token::Identifier(s.clone()),
            Token::Plus => Token::Plus,
            Token::Minus => Token::Minus,
            Token::Star => Token::Star,
            Token::Slash => Token::Slash,
            Token::Percent => Token::Percent,
            Token::Equal => Token::Equal,
            Token::NotEqual => Token::NotEqual,
            Token::LessThan => Token::LessThan,
            Token::LessThanEqual => Token::LessThanEqual,
            Token::GreaterThan => Token::GreaterThan,
            Token::GreaterThanEqual => Token::GreaterThanEqual,
            Token::And => Token::And,
            Token::Or => Token::Or,
            Token::Not => Token::Not,
            Token::Assign => Token::Assign,
            Token::LeftParen => Token::LeftParen,
            Token::RightParen => Token::RightParen,
            Token::LeftBrace => Token::LeftBrace,
            Token::RightBrace => Token::RightBrace,
            Token::LeftBracket => Token::LeftBracket,
            Token::RightBracket => Token::RightBracket,
            Token::Semicolon => Token::Semicolon,
            Token::Comma => Token::Comma,
            Token::Dot => Token::Dot,
            Token::If => Token::If,
            Token::Else => Token::Else,
            Token::While => Token::While,
            Token::For => Token::For,
            Token::Return => Token::Return,
            Token::Var => Token::Var,
            Token::Func => Token::Func,
            Token::Int => Token::Int,
            Token::FloatType => Token::FloatType,
            Token::Bool => Token::Bool,
            Token::StringType => Token::StringType,
            Token::Void => Token::Void,
            Token::Colon => Token::Colon,
            Token::Arrow => Token::Arrow,
            Token::Error => Token::Error,
            Token::Eof => Token::Eof,
        }
    }
}

/// A token with its position in the source text.
#[derive(Debug)]
pub struct TokenInfo {
    pub token: Token,
    pub location: Location,
}

/// The mathematical model of a located token.
pub struct TokenInfoSpec {
    pub token: TokenSpec,
    pub location: Location,
}

impl View for TokenInfo {
    type V = TokenInfoSpec;

    open spec fn view(&self) -> TokenInfoSpec {
        TokenInfoSpec { token: self.token@, location: self.location }
    }
}

impl Clone for TokenInfo {
    fn clone(&self) -> (r: Self)
        ensures
            r@ == self@,
    {
        TokenInfo { token: self.token.clone(), location: self.location }
    }
}

/// The models of a sequence of located tokens, element by element.
pub open spec fn tokens_view(ts: Seq<TokenInfo>) -> Seq<TokenInfoSpec> {
    Seq::new(ts.len(), |i: int| ts[i]@)
}

/// The token sequence ends with the end-of-stream token.
pub open spec fn terminated(tokens: Seq<TokenInfoSpec>) -> bool {
    tokens.len() > 0 && tokens.last().token == TokenSpec::Eof
}

/// A copy of a list of located tokens.
pub(crate) fn clone_tokens(ts: &Vec<TokenInfo>) -> (r: Vec<TokenInfo>)
    ensures
        tokens_view(r@) == tokens_view(ts@),
{
    let mut r: Vec<TokenInfo> = Vec::new();
    let mut i: usize = 0;
    while i < ts.len()
        invariant
            i <= ts.len(),
            r@.len() == i,
            forall|j: int| 0 <= j < i ==> (#[trigger] r@[j])@ == ts@[j]@,
        decreases ts.len() - i,
    {
        r.push(ts[i].clone());
        i += 1;
    }
    assert(tokens_view(r@) =~= tokens_view(ts@));
    r
}

} // verus!
