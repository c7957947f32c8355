//! The lexical grammar: character classes, the extent of each kind of lexeme,
//! and the token that stands at a position of the source text.

use crate::text::{string_of};
use crate::token::{Token, TokenSpec};
use vstd::prelude::*;

verus! {

/// A decimal digit.
pub open spec fn is_digit(c: char) -> bool {
    '0' <= c <= '9'
}

/// A character that an identifier may begin with: a letter or an underscore.
pub open spec fn is_ident_start(c: char) -> bool {
    ('a' <= c <= 'z') || ('A' <= c <= 'Z') || c == '_'
}

/// A character that an identifier may go on with: a letter, an underscore or a
/// digit.
pub open spec fn is_ident_char(c: char) -> bool {
    is_ident_start(c) || is_digit(c)
}

/// Blank characters between tokens: space, tab, line feed and form feed.
pub open spec fn is_space(c: char) -> bool {
    c == ' ' || c == '\t' || c == '\n' || c == '\x0c'
}

/// A set of characters that a run is made of.
#[derive(Clone, Copy, PartialEq, Eq, Structural)]
pub enum CharClass {
    Digit,
    IdentChar,
    NotLineFeed,
}

/// The character belongs to the class.
pub open spec fn in_class(class: CharClass, c: char) -> bool {
    match class {
        CharClass::Digit => is_digit(c),
        CharClass::IdentChar => is_ident_char(c),
        CharClass::NotLineFeed => c != '\n',
    }
}

/// The end of the longest run of characters of `class` that starts at `pos`.
pub open spec fn run_end(src: Seq<char>, pos: int, class: CharClass) -> int
    decreases src.len() - pos,
{
    if 0 <= pos < src.len() && in_class(class, src[pos]) {
        run_end(src, pos + 1, class)
    } else {
        pos
    }
}

/// The end of the string literal whose opening quote is at `open`, scanning on
/// from `pos`: the closing quote is the last quote up to and including the
/// first one that no backslash precedes. `last` is the end found so far.
pub open spec fn string_scan(src: Seq<char>, open: int, pos: int, last: Option<int>) -> Option<int>
    decreases src.len() - pos,
{
    if !(0 <= pos < src.len()) {
        last
    } else if src[pos] == '"' {
        if pos > open + 1 && src[pos - 1] == '\\' {
            string_scan(src, open, pos + 1, Some(pos + 1))
        } else {
            Some(pos + 1)
        }
    } else {
        string_scan(src, open, pos + 1, last)
    }
}

/// The end of the string literal that opens at `open`, if it is closed.
pub open spec fn string_end(src: Seq<char>, open: int) -> Option<int> {
    string_scan(src, open, open + 1, None)
}

/// The end of the first `*/` at or after `pos`, if there is one.
pub open spec fn comment_end(src: Seq<char>, pos: int) -> Option<int>
    decreases src.len() - pos,
{
    if !(0 <= pos && pos + 1 < src.len()) {
        None
    } else if src[pos] == '*' && src[pos + 1] == '/' {
        Some(pos + 2)
    } else {
        comment_end(src, pos + 1)
    }
}

/// The number that a decimal digit stands for.
pub open spec fn digit_value(c: char) -> nat {
    (c as u32 - '0' as u32) as nat
}

/// The number that a sequence of decimal digits spells.
pub open spec fn digits_value(s: Seq<char>) -> nat
    decreases s.len(),
{
    if s.len() == 0 {
        0
    } else {
        digits_value(s.drop_last()) * 10 + digit_value(s.last())
    }
}

/// The value of an integer literal: the number it spells, or zero when that
/// number does not fit in 64 signed bits.
pub open spec fn integer_value(s: Seq<char>) -> i64 {
    if digits_value(s) <= i64::MAX {
        digits_value(s) as i64
    } else {
        0
    }
}

/// The token for a word: a boolean literal, a keyword, or else an identifier.
pub open spec fn word_token(w: Seq<char>) -> TokenSpec {
    if w == "true"@ {
        TokenSpec::Boolean(true)
    } else if w == "false"@ {
        TokenSpec::Boolean(false)
    } else if w == "if"@ {
        TokenSpec::If
    } else if w == "else"@ {
        TokenSpec::Else
    } else if w == "while"@ {
        TokenSpec::While
    } else if w == "for"@ {
        TokenSpec::For
    } else if w == "return"@ {
        TokenSpec::Return
    } else if w == "var"@ {
        TokenSpec::Var
    } else if w == "func"@ {
        TokenSpec::Func
    } else if w == "int"@ {
        TokenSpec::Int
    } else if w == "float"@ {
        TokenSpec::FloatType
    } else if w == "bool"@ {
        TokenSpec::Bool
    } else if w == "string"@ {
        TokenSpec::StringType
    } else if w == "void"@ {
        TokenSpec::Void
    } else {
        TokenSpec::Identifier(w)
    }
}

/// The operator spelled by two characters, if they spell one.
pub open spec fn two_char_operator(a: char, b: char) -> Option<TokenSpec> {
    if a == '=' && b == '=' {
        Some(TokenSpec::Equal)
    } else if a == '!' && b == '=' {
        Some(TokenSpec::NotEqual)
    } else if a == '<' && b == '=' {
        Some(TokenSpec::LessThanEqual)
    } else if a == '>' && b == '=' {
        Some(TokenSpec::GreaterThanEqual)
    } else if a == '&' && b == '&' {
        Some(TokenSpec::And)
    } else if a == '|' && b == '|' {
        Some(TokenSpec::Or)
    } else if a == '-' && b == '>' {
        Some(TokenSpec::Arrow)
    } else {
        None
    }
}

/// The operator or punctuation mark spelled by one character, if it spells one.
pub open spec fn one_char_operator(c: char) -> Option<TokenSpec> {
    if c == '+' {
        Some(TokenSpec::Plus)
    } else if c == '-' {
        Some(TokenSpec::Minus)
    } else if c == '*' {
        Some(TokenSpec::Star)
    } else if c == '/' {
        Some(TokenSpec::Slash)
    } else if c == '%' {
        Some(TokenSpec::Percent)
    } else if c == '<' {
        Some(TokenSpec::LessThan)
    } else if c == '>' {
        Some(TokenSpec::GreaterThan)
    } else if c == '!' {
        Some(TokenSpec::Not)
    } else if c == '=' {
        Some(TokenSpec::Assign)
    } else if c == '(' {
        Some(TokenSpec::LeftParen)
    } else if c == ')' {
        Some(TokenSpec::RightParen)
    } else if c == '{' {
        Some(TokenSpec::LeftBrace)
    } else if c == '}' {
        Some(TokenSpec::RightBrace)
    } else if c == '[' {
        Some(TokenSpec::LeftBracket)
    } else if c == ']' {
        Some(TokenSpec::RightBracket)
    } else if c == ';' {
        Some(TokenSpec::Semicolon)
    } else if c == ',' {
        Some(TokenSpec::Comma)
    } else if c == '.' {
        Some(TokenSpec::Dot)
    } else if c == ':' {
        Some(TokenSpec::Colon)
    } else {
        None
    }
}

/// What stands at a position of the source: text to skip, a token, or
/// something that is no token at all. `end` is where the next step begins.
pub enum LexStep {
    Skip { end: int },
    Emit { token: TokenSpec, end: int },
    Invalid,
}

/// The step for a number: an integer literal, or a floating-point literal
/// where a point and at least one more digit follow the first digits.
pub open spec fn number_step(src: Seq<char>, pos: int) -> LexStep {
    let whole = run_end(src, pos, CharClass::Digit);
    if whole + 1 < src.len() && src[whole] == '.' && is_digit(src[whole + 1]) {
        let end = run_end(src, whole + 1, CharClass::Digit);
        LexStep::Emit { token: TokenSpec::Float(src.subrange(pos, end)), end }
    } else {
        LexStep::Emit { token: TokenSpec::Integer(integer_value(src.subrange(pos, whole))), end: whole }
    }
}

/// The step at a slash: a line comment, a closed block comment, or the
/// division operator.
pub open spec fn slash_step(src: Seq<char>, pos: int) -> LexStep {
    if pos + 1 < src.len() && src[pos + 1] == '/' {
        LexStep::Skip { end: run_end(src, pos + 2, CharClass::NotLineFeed) }
    } else if pos + 1 < src.len() && src[pos + 1] == '*' {
        match comment_end(src, pos + 2) {
            Some(end) => LexStep::Skip { end },
            None => LexStep::Emit { token: TokenSpec::Slash, end: pos + 1 },
        }
    } else {
        LexStep::Emit { token: TokenSpec::Slash, end: pos + 1 }
    }
}

/// The step at an operator character: the longest operator that starts there.
pub open spec fn operator_step(src: Seq<char>, pos: int) -> LexStep {
    let two = if pos + 1 < src.len() {
        two_char_operator(src[pos], src[pos + 1])
    } else {
        None
    };
    match two {
        Some(token) => LexStep::Emit { token, end: pos + 2 },
        None => match one_char_operator(src[pos]) {
            Some(token) => LexStep::Emit { token, end: pos + 1 },
            None => LexStep::Invalid,
        },
    }
}

/// The step at `pos`, by the first rule that applies: blank, number, string,
/// word, comment or slash, operator.
pub open spec fn lex_step(src: Seq<char>, pos: int) -> LexStep
    recommends
        0 <= pos < src.len(),
{
    let c = src[pos];
    if is_space(c) {
        LexStep::Skip { end: pos + 1 }
    } else if is_digit(c) {
        number_step(src, pos)
    } else if c == '"' {
        match string_end(src, pos) {
            Some(end) => LexStep::Emit {
                token: TokenSpec::String(src.subrange(pos + 1, end - 1)),
                end,
            },
            None => LexStep::Invalid,
        }
    } else if is_ident_start(c) {
        let end = run_end(src, pos, CharClass::IdentChar);
        LexStep::Emit { token: word_token(src.subrange(pos, end)), end }
    } else if c == '/' {
        slash_step(src, pos)
    } else {
        operator_step(src, pos)
    }
}

/// Where the step at `pos` ends; a step never ends where it began.
pub open spec fn step_end(src: Seq<char>, pos: int) -> int {
    match lex_step(src, pos) {
        LexStep::Skip { end } => end,
        LexStep::Emit { end, .. } => end,
        LexStep::Invalid => pos + 1,
    }
}

/// A run ends within the source, holds only characters of its class, and what
/// follows it is of another class.
pub proof fn lemma_run_end_bounds(src: Seq<char>, pos: int, class: CharClass)
    requires
        0 <= pos <= src.len(),
    ensures
        pos <= run_end(src, pos, class) <= src.len(),
        forall|i: int| pos <= i < run_end(src, pos, class) ==> in_class(class, #[trigger] src[i]),
        run_end(src, pos, class) < src.len() ==> !in_class(
            class,
            src[run_end(src, pos, class)],
        ),
    decreases src.len() - pos,
{
    if pos < src.len() && in_class(class, src[pos]) {
        lemma_run_end_bounds(src, pos + 1, class);
    }
}

/// A string literal ends after its opening quote and within the source.
pub proof fn lemma_string_scan_bounds(src: Seq<char>, open: int, pos: int, last: Option<int>)
    requires
        0 <= open < pos <= src.len(),
        last is Some ==> open + 1 < last->0 <= pos,
    ensures
        string_scan(src, open, pos, last) is Some ==> open + 1 < string_scan(
            src,
            open,
            pos,
            last,
        )->0 <= src.len(),
    decreases src.len() - pos,
{
    if pos < src.len() {
        if src[pos] == '"' {
            if pos > open + 1 && src[pos - 1] == '\\' {
                lemma_string_scan_bounds(src, open, pos + 1, Some(pos + 1));
            }
        } else {
            lemma_string_scan_bounds(src, open, pos + 1, last);
        }
    }
}

/// A block comment ends within the source.
pub proof fn lemma_comment_end_bounds(src: Seq<char>, pos: int)
    requires
        0 <= pos <= src.len(),
    ensures
        comment_end(src, pos) is Some ==> pos + 2 <= comment_end(src, pos)->0 <= src.len(),
    decreases src.len() - pos,
{
    if pos + 1 < src.len() && !(src[pos] == '*' && src[pos + 1] == '/') {
        lemma_comment_end_bounds(src, pos + 1);
    }
}

/// Every step ends after the position where it began, and within the source.
pub proof fn lemma_step_advances(src: Seq<char>, pos: int)
    requires
        0 <= pos < src.len(),
    ensures
        pos < step_end(src, pos) <= src.len(),
{
    let c = src[pos];
    lemma_run_end_bounds(src, pos, CharClass::Digit);
    lemma_run_end_bounds(src, pos, CharClass::IdentChar);
    let whole = run_end(src, pos, CharClass::Digit);
    if whole + 1 < src.len() {
        lemma_run_end_bounds(src, whole + 1, CharClass::Digit);
    }
    lemma_string_scan_bounds(src, pos, pos + 1, None);
    if pos + 2 <= src.len() {
        lemma_run_end_bounds(src, pos + 2, CharClass::NotLineFeed);
        lemma_comment_end_bounds(src, pos + 2);
    }
}

/// One more digit multiplies the number by ten and adds the digit.
pub proof fn lemma_digits_value_push(s: Seq<char>, c: char)
    ensures
        digits_value(s.push(c)) == digits_value(s) * 10 + digit_value(c),
{
    assert(s.push(c).drop_last() =~= s);
}

// ---------------------------------------------------------------------------
// Scanning.
// ---------------------------------------------------------------------------

pub(crate) fn char_is_digit(c: char) -> (b: bool)
    ensures
        b == is_digit(c),
{
    '0' <= c && c <= '9'
}

pub(crate) fn char_is_ident_start(c: char) -> (b: bool)
    ensures
        b == is_ident_start(c),
{
    ('a' <= c && c <= 'z') || ('A' <= c && c <= 'Z') || c == '_'
}

pub(crate) fn char_is_space(c: char) -> (b: bool)
    ensures
        b == is_space(c),
{
    c == ' ' || c == '\t' || c == '\n' || c == '\x0c'
}

pub(crate) fn char_in_class(class: CharClass, c: char) -> (b: bool)
    ensures
        b == in_class(class, c),
{
    match class {
        CharClass::Digit => char_is_digit(c),
        CharClass::IdentChar => char_is_ident_start(c) || char_is_digit(c),
        CharClass::NotLineFeed => c != '\n',
    }
}

/// The end of the longest run of characters of `class` that starts at `pos`.
pub(crate) fn scan_run(chars: &Vec<char>, pos: usize, class: CharClass) -> (end: usize)
    requires
        pos <= chars@.len(),
    ensures
        end == run_end(chars@, pos as int, class),
        pos <= end <= chars@.len(),
{
    let mut i: usize = pos;
    while i < chars.len() && char_in_class(class, chars[i])
        invariant
            pos <= i <= chars@.len(),
            run_end(chars@, pos as int, class) == run_end(chars@, i as int, class),
        decreases chars@.len() - i,
    {
        i += 1;
    }
    i
}

/// The end of the string literal whose opening quote is at `open`.
pub(crate) fn scan_string(chars: &Vec<char>, open: usize) -> (end: Option<usize>)
    requires
        open < chars@.len(),
    ensures
        match end {
            Some(e) => string_end(chars@, open as int) == Some(e as int) && open + 1 < e
                <= chars@.len(),
            None => string_end(chars@, open as int) is None,
        },
{
    proof {
        assert(chars@.len() == chars.len());
    }
    let mut last: Option<usize> = None;
    let mut i: usize = open + 1;
    let ghost spec_last: Option<int> = None;
    while i < chars.len()
        invariant
            open < i <= chars@.len(),
            match last {
                Some(e) => spec_last == Some(e as int) && open + 1 < e <= i,
                None => spec_last is None,
            },
            string_end(chars@, open as int) == string_scan(chars@, open as int, i as int, spec_last),
        decreases chars@.len() - i,
    {
        if chars[i] == '"' {
            if i > open + 1 && chars[i - 1] == '\\' {
                last = Some(i + 1);
                proof {
                    spec_last = Some(i + 1);
                }
            } else {
                return Some(i + 1);
            }
        }
        i += 1;
    }
    last
}

/// The end of the first `*/` at or after `pos`.
pub(crate) fn scan_comment(chars: &Vec<char>, pos: usize) -> (end: Option<usize>)
    requires
        pos <= chars@.len(),
    ensures
        match end {
            Some(e) => comment_end(chars@, pos as int) == Some(e as int) && pos + 2 <= e
                <= chars@.len(),
            None => comment_end(chars@, pos as int) is None,
        },
{
    let mut i: usize = pos;
    while i < chars.len() && i + 1 < chars.len()
        invariant
            pos <= i <= chars@.len(),
            comment_end(chars@, pos as int) == comment_end(chars@, i as int),
        decreases chars@.len() - i,
    {
        if chars[i] == '*' && chars[i + 1] == '/' {
            return Some(i + 2);
        }
        i += 1;
    }
    None
}

/// The number that the digits `chars[from..to]` spell, if it fits in 64
/// signed bits.
pub(crate) fn scan_digits(chars: &Vec<char>, from: usize, to: usize) -> (value: Option<i64>)
    requires
        from <= to <= chars@.len(),
        forall|i: int| from <= i < to ==> is_digit(#[trigger] chars@[i]),
    ensures
        match value {
            Some(v) => v == digits_value(chars@.subrange(from as int, to as int)),
            None => digits_value(chars@.subrange(from as int, to as int)) > i64::MAX,
        },
{
    let mut acc: u64 = 0;
    let mut overflow: bool = false;
    let mut i: usize = from;
    while i < to
        invariant
            from <= i <= to <= chars@.len(),
            forall|j: int| from <= j < to ==> is_digit(#[trigger] chars@[j]),
            acc <= i64::MAX,
            !overflow ==> acc == digits_value(chars@.subrange(from as int, i as int)),
            overflow ==> digits_value(chars@.subrange(from as int, i as int)) > i64::MAX,
        decreases to - i,
    {
        let c = chars[i];
        let d: u64 = (c as u32 - '0' as u32) as u64;
        proof {
            lemma_digits_value_push(chars@.subrange(from as int, i as int), c);
            assert(chars@.subrange(from as int, i as int).push(c) =~= chars@.subrange(
                from as int,
                i + 1,
            ));
            assert(d == digit_value(c));
        }
        if !overflow {
            if acc > (0x7fff_ffff_ffff_ffffu64 - d) / 10 {
                overflow = true;
                acc = 0;
            } else {
                acc = acc * 10 + d;
            }
        }
        i += 1;
    }
    if overflow {
        None
    } else {
        Some(acc as i64)
    }
}

/// The value of the integer literal `chars[from..to]`.
pub(crate) fn scan_integer(chars: &Vec<char>, from: usize, to: usize) -> (value: i64)
    requires
        from <= to <= chars@.len(),
        forall|i: int| from <= i < to ==> is_digit(#[trigger] chars@[i]),
    ensures
        value == integer_value(chars@.subrange(from as int, to as int)),
{
    match scan_digits(chars, from, to) {
        Some(v) => v,
        None => 0,
    }
}

/// `chars[from..to]` spells `word`.
pub(crate) fn spells(chars: &Vec<char>, from: usize, to: usize, word: &str) -> (b: bool)
    requires
        from <= to <= chars@.len(),
    ensures
        b == (chars@.subrange(from as int, to as int) == word@),
{
    let n = word.unicode_len();
    if to - from != n {
        return false;
    }
    let mut i: usize = 0;
    while i < n
        invariant
            from <= to <= chars@.len(),
            to - from == n,
            n == word@.len(),
            i <= n,
            forall|j: int| 0 <= j < i ==> chars@[from + j] == word@[j],
        decreases n - i,
    {
        if chars[from + i] != word.get_char(i) {
            assert(chars@.subrange(from as int, to as int)[i as int] != word@[i as int]);
            return false;
        }
        i += 1;
    }
    assert(chars@.subrange(from as int, to as int) =~= word@);
    true
}

/// The token for the word `chars[from..to]`.
pub(crate) fn scan_word(chars: &Vec<char>, from: usize, to: usize) -> (token: Token)
    requires
        from <= to <= chars@.len(),
    ensures
        token@ == word_token(chars@.subrange(from as int, to as int)),
{
    if spells(chars, from, to, "true") {
        Token::Boolean(true)
    } else if spells(chars, from, to, "false") {
        Token::Boolean(false)
    } else if spells(chars, from, to, "if") {
        Token::If
    } else if spells(chars, from, to, "else") {
        Token::Else
    } else if spells(chars, from, to, "while") {
        Token::While
    } else if spells(chars, from, to, "for") {
        Token::For
    } else if spells(chars, from, to, "return") {
        Token::Return
    } else if spells(chars, from, to, "var") {
        Token::Var
    } else if spells(chars, from, to, "func") {
        Token::Func
    } else if spells(chars, from, to, "int") {
        Token::Int
    } else if spells(chars, from, to, "float") {
        Token::FloatType
    } else if spells(chars, from, to, "bool") {
        Token::Bool
    } else if spells(chars, from, to, "string") {
        Token::StringType
    } else if spells(chars, from, to, "void") {
        Token::Void
    } else {
        Token::Identifier(string_of(chars, from, to))
    }
}

/// The model of a token that may be missing.
pub open spec fn option_token_view(t: Option<Token>) -> Option<TokenSpec> {
    match t {
        Some(t) => Some(t@),
        None => None,
    }
}

pub(crate) fn scan_two_char_operator(a: char, b: char) -> (t: Option<Token>)
    ensures
        option_token_view(t) == two_char_operator(a, b),
{
    if a == '=' && b == '=' {
        Some(Token::Equal)
    } else if a == '!' && b == '=' {
        Some(Token::NotEqual)
    } else if a == '<' && b == '=' {
        Some(Token::LessThanEqual)
    } else if a == '>' && b == '=' {
        Some(Token::GreaterThanEqual)
    } else if a == '&' && b == '&' {
        Some(Token::And)
    } else if a == '|' && b == '|' {
        Some(Token::Or)
    } else if a == '-' && b == '>' {
        Some(Token::Arrow)
    } else {
        None
    }
}

pub(crate) fn scan_one_char_operator(c: char) -> (t: Option<Token>)
    ensures
        option_token_view(t) == one_char_operator(c),
{
    if c == '+' {
        Some(Token::Plus)
    } else if c == '-' {
        Some(Token::Minus)
    } else if c == '*' {
        Some(Token::Star)
    } else if c == '/' {
        Some(Token::Slash)
    } else if c == '%' {
        Some(Token::Percent)
    } else if c == '<' {
        Some(Token::LessThan)
    } else if c == '>' {
        Some(Token::GreaterThan)
    } else if c == '!' {
        Some(Token::Not)
    } else if c == '=' {
        Some(Token::Assign)
    } else if c == '(' {
        Some(Token::LeftParen)
    } else if c == ')' {
        Some(Token::RightParen)
    } else if c == '{' {
        Some(Token::LeftBrace)
    } else if c == '}' {
        Some(Token::RightBrace)
    } else if c == '[' {
        Some(Token::LeftBracket)
    } else if c == ']' {
        Some(Token::RightBracket)
    } else if c == ';' {
        Some(Token::Semicolon)
    } else if c == ',' {
        Some(Token::Comma)
    } else if c == '.' {
        Some(Token::Dot)
    } else if c == ':' {
        Some(Token::Colon)
    } else {
        None
    }
}

/// What the scanner found at a position.
pub enum Scanned {
    Skip { end: usize },
    Emit { token: Token, end: usize },
    Invalid,
}

impl View for Scanned {
    type V = LexStep;

    open spec fn view(&self) -> LexStep {
        match self {
            Scanned::Skip { end } => LexStep::Skip { end: *end as int },
            Scanned::Emit { token, end } => LexStep::Emit { token: token@, end: *end as int },
            Scanned::Invalid => LexStep::Invalid,
        }
    }
}

fn scan_number(chars: &Vec<char>, pos: usize) -> (step: Scanned)
    requires
        pos < chars@.len(),
    ensures
        step@ == number_step(chars@, pos as int),
{
    let whole = scan_run(chars, pos, CharClass::Digit);
    proof {
        lemma_run_end_bounds(chars@, pos as int, CharClass::Digit);
    }
    if whole < chars.len() && whole + 1 < chars.len() && chars[whole] == '.' && char_is_digit(
        chars[whole + 1],
    ) {
        let end = scan_run(chars, whole + 1, CharClass::Digit);
        Scanned::Emit { token: Token::Float(string_of(chars, pos, end)), end }
    } else {
        Scanned::Emit { token: Token::Integer(scan_integer(chars, pos, whole)), end: whole }
    }
}

fn scan_slash(chars: &Vec<char>, pos: usize) -> (step: Scanned)
    requires
        pos < chars@.len(),
    ensures
        step@ == slash_step(chars@, pos as int),
{
    let n = chars.len();
    if pos + 1 < n && chars[pos + 1] == '/' {
        Scanned::Skip { end: scan_run(chars, pos + 2, CharClass::NotLineFeed) }
    } else if pos + 1 < n && chars[pos + 1] == '*' {
        match scan_comment(chars, pos + 2) {
            Some(end) => Scanned::Skip { end },
            None => Scanned::Emit { token: Token::Slash, end: pos + 1 },
        }
    } else {
        Scanned::Emit { token: Token::Slash, end: pos + 1 }
    }
}

fn scan_operator(chars: &Vec<char>, pos: usize) -> (step: Scanned)
    requires
        pos < chars@.len(),
    ensures
        step@ == operator_step(chars@, pos as int),
{
    let n = chars.len();
    let two = if pos + 1 < n {
        scan_two_char_operator(chars[pos], chars[pos + 1])
    } else {
        None
    };
    match two {
        Some(token) => Scanned::Emit { token, end: pos + 2 },
        None => match scan_one_char_operator(chars[pos]) {
            Some(token) => Scanned::Emit { token, end: pos + 1 },
            None => Scanned::Invalid,
        },
    }
}

/// The step at `pos`.
pub(crate) fn scan_step(chars: &Vec<char>, pos: usize) -> (step: Scanned)
    requires
        pos < chars@.len(),
    ensures
        step@ == lex_step(chars@, pos as int),
        pos < step_end(chars@, pos as int) <= chars@.len(),
{
    proof {
        lemma_step_advances(chars@, pos as int);
        assert(chars@.len() == chars.len());
    }
    let c = chars[pos];
    if char_is_space(c) {
        Scanned::Skip { end: pos + 1 }
    } else if char_is_digit(c) {
        scan_number(chars, pos)
    } else if c == '"' {
        match scan_string(chars, pos) {
            Some(end) => Scanned::Emit { token: Token::String(string_of(chars, pos + 1, end - 1)), end },
            None => Scanned::Invalid,
        }
    } else if char_is_ident_start(c) {
        let end = scan_run(chars, pos, CharClass::IdentChar);
        Scanned::Emit { token: scan_word(chars, pos, end), end }
    } else if c == '/' {
        scan_slash(chars, pos)
    } else {
        scan_operator(chars, pos)
    }
}

} // verus!
