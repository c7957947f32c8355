//! Lexical analysis: the source text as a sequence of located tokens.

use crate::ast::Location;
use crate::error::{syntax_error, CompilerError, CompilerResult, ErrorSpec};
use crate::scan::{lemma_step_advances, lex_step, scan_step, step_end, LexStep, Scanned};
use crate::text::{char_width, chars_of, lemma_utf8_len_push, utf8_len, utf8_width};
pub use crate::token::{Token, TokenInfo};
use crate::token::{
    clone_tokens, same_kind, terminated, token_debug, tokens_view, TokenInfoSpec, TokenSpec,
};
use vstd::prelude::*;

verus! {

/// The number `n`, or the greatest machine word where `n` is beyond it.
pub open spec fn clip(n: nat) -> usize {
    if n <= usize::MAX {
        n as usize
    } else {
        usize::MAX
    }
}

/// The one-based line of position `pos`: one more than the line feeds before it.
pub open spec fn line_at(src: Seq<char>, pos: int) -> nat
    decreases pos,
{
    if pos <= 0 {
        1
    } else if src[pos - 1] == '\n' {
        line_at(src, pos - 1) + 1
    } else {
        line_at(src, pos - 1)
    }
}

/// The one-based column of position `pos`: one more than the bytes between
/// the start of its line and it.
pub open spec fn column_at(src: Seq<char>, pos: int) -> nat
    decreases pos,
{
    if pos <= 0 {
        1
    } else if src[pos - 1] == '\n' {
        1
    } else {
        column_at(src, pos - 1) + utf8_width(src[pos - 1])
    }
}

/// The location of the lexeme `src[start..end]`.
pub open spec fn location_at(src: Seq<char>, start: int, end: int) -> Location {
    Location {
        line: clip(line_at(src, start)),
        column: clip(column_at(src, start)),
        length: clip(utf8_len(src.subrange(start, end))),
    }
}

/// The error for a position where no token starts: it names the character
/// found there.
pub open spec fn invalid_token_error(src: Seq<char>, pos: int) -> ErrorSpec {
    ErrorSpec::LexicalError {
        line: clip(line_at(src, pos)),
        column: clip(column_at(src, pos)),
        message: "Token inválido: '"@ + src.subrange(pos, pos + 1) + "'"@,
    }
}

/// The end-of-stream token, placed at the end of the source.
pub open spec fn eof_token(src: Seq<char>) -> TokenInfoSpec {
    TokenInfoSpec {
        token: TokenSpec::Eof,
        location: location_at(src, src.len() as int, src.len() as int),
    }
}

/// The tokens of `src` from `pos` on, the end-of-stream token last, or the
/// error for the first position where no token starts.
pub open spec fn tokens_from(src: Seq<char>, pos: int) -> Result<Seq<TokenInfoSpec>, ErrorSpec>
    decreases src.len() - pos,
{
    if !(0 <= pos < src.len()) {
        Ok(seq![eof_token(src)])
    } else {
        proof {
            lemma_step_advances(src, pos);
        }
        match lex_step(src, pos) {
            LexStep::Skip { end } => tokens_from(src, end),
            LexStep::Emit { token, end } => match tokens_from(src, end) {
                Ok(rest) => Ok(
                    seq![TokenInfoSpec { token, location: location_at(src, pos, end) }] + rest,
                ),
                Err(e) => Err(e),
            },
            LexStep::Invalid => Err(invalid_token_error(src, pos)),
        }
    }
}

/// The tokens of a source text.
pub open spec fn tokenize_spec(src: Seq<char>) -> Result<Seq<TokenInfoSpec>, ErrorSpec> {
    tokens_from(src, 0)
}

/// `found` in front of what follows it, unless what follows is an error.
pub open spec fn prepend(
    found: Seq<TokenInfoSpec>,
    rest: Result<Seq<TokenInfoSpec>, ErrorSpec>,
) -> Result<Seq<TokenInfoSpec>, ErrorSpec> {
    match rest {
        Ok(rest) => Ok(found + rest),
        Err(e) => Err(e),
    }
}

/// A successful tokenization ends with the end-of-stream token.
pub proof fn lemma_tokens_end_with_eof(src: Seq<char>, pos: int)
    ensures
        tokens_from(src, pos) is Ok ==> tokens_from(src, pos)->Ok_0.len() > 0 && tokens_from(
            src,
            pos,
        )->Ok_0.last().token == TokenSpec::Eof,
    decreases src.len() - pos,
{
    if 0 <= pos < src.len() {
        lemma_step_advances(src, pos);
        lemma_tokens_end_with_eof(src, step_end(src, pos));
    }
}

/// The sum of two machine words, or the greatest machine word where the sum is
/// beyond it.
pub(crate) fn clipped_add(a: usize, b: usize) -> (r: usize)
    ensures
        r == clip((a + b) as nat),
{
    if a > usize::MAX - b {
        usize::MAX
    } else {
        a + b
    }
}

/// A position in the source with its line and column.
struct Cursor {
    pos: usize,
    line: usize,
    column: usize,
}

impl Cursor {
    spec fn at(&self, src: Seq<char>) -> bool {
        &&& self.pos <= src.len()
        &&& self.line == clip(line_at(src, self.pos as int))
        &&& self.column == clip(column_at(src, self.pos as int))
    }

    /// Moves to `end`; the result is the byte length of what was passed.
    fn advance(&mut self, chars: &Vec<char>, end: usize) -> (bytes: usize)
        requires
            old(self).at(chars@),
            old(self).pos <= end <= chars@.len(),
        ensures
            final(self).at(chars@),
            final(self).pos == end,
            bytes == clip(utf8_len(chars@.subrange(old(self).pos as int, end as int))),
    {
        let start = self.pos;
        let mut bytes: usize = 0;
        assert(chars@.subrange(start as int, start as int) =~= Seq::<char>::empty());
        while self.pos < end
            invariant
                start <= self.pos <= end <= chars@.len(),
                self.at(chars@),
                bytes == clip(utf8_len(chars@.subrange(start as int, self.pos as int))),
            decreases end - self.pos,
        {
            let c = chars[self.pos];
            let w = char_width(c);
            proof {
                lemma_utf8_len_push(chars@.subrange(start as int, self.pos as int), c);
                assert(chars@.subrange(start as int, self.pos as int).push(c) =~= chars@.subrange(
                    start as int,
                    self.pos + 1,
                ));
            }
            bytes = clipped_add(bytes, w);
            if c == '\n' {
                self.line = clipped_add(self.line, 1);
                self.column = 1;
            } else {
                self.column = clipped_add(self.column, w);
            }
            self.pos = self.pos + 1;
        }
        bytes
    }
}

/// The error for the position of `cursor`, where no token starts.
fn invalid_token(chars: &Vec<char>, cursor: &Cursor) -> (e: CompilerError)
    requires
        cursor.at(chars@),
        cursor.pos < chars@.len(),
    ensures
        e@ == invalid_token_error(chars@, cursor.pos as int),
{
    let mut message = String::from_str("Token inválido: '");
    message.push(chars[cursor.pos]);
    assert(message@ =~= "Token inválido: '"@ + chars@.subrange(
        cursor.pos as int,
        cursor.pos + 1,
    ));
    message.append("'");
    CompilerError::lexical(cursor.line, cursor.column, message)
}

/// The message for a token of another kind than the expected one.
pub open spec fn expected_found_message(expected: TokenSpec, found: TokenSpec) -> Seq<char> {
    "Esperado '"@ + token_debug(expected) + "', encontrado '"@ + token_debug(found) + "'"@
}

/// The message for an expected token where the tokens have run out.
pub open spec fn expected_at_end_message(expected: TokenSpec) -> Seq<char> {
    "Esperado '"@ + token_debug(expected) + "', mas chegou ao fim do arquivo"@
}

/// A lexer over one source text. After `tokenize` it also holds the tokens
/// and a position among them.
pub struct Lexer {
    source: String,
    tokens: Vec<TokenInfo>,
    _current_pos: usize,
}

impl Lexer {
    /// The source text.
    pub closed spec fn source(&self) -> Seq<char> {
        self.source@
    }

    /// The tokens that the lexer holds.
    pub closed spec fn tokens(&self) -> Seq<TokenInfoSpec> {
        tokens_view(self.tokens@)
    }

    /// The position among the tokens.
    pub closed spec fn position(&self) -> nat {
        self._current_pos as nat
    }

    /// The token `offset` places after the position, if there is one.
    pub open spec fn token_at(&self, offset: nat) -> Option<TokenInfoSpec> {
        if self.position() + offset < self.tokens().len() {
            Some(self.tokens()[(self.position() + offset) as int])
        } else {
            None
        }
    }

    /// A lexer over `source` that holds no tokens yet.
    pub fn new(source: &str) -> (lexer: Self)
        ensures
            lexer.source() == source@,
            lexer.tokens() == Seq::<TokenInfoSpec>::empty(),
            lexer.position() == 0,
    {
        let lexer = Lexer { source: String::from_str(source), tokens: Vec::new(), _current_pos: 0 };
        assert(tokens_view(lexer.tokens@) =~= Seq::<TokenInfoSpec>::empty());
        lexer
    }

    /// Splits the source into tokens and appends the end-of-stream token, so
    /// that a parser can read the result. The lexer keeps a copy of the tokens.
    /// Where no token starts, the result is a lexical error and the lexer is
    /// left as it was.
    pub fn tokenize(&mut self) -> (result: CompilerResult<Vec<TokenInfo>>)
        ensures
            final(self).source() == old(self).source(),
            final(self).position() == old(self).position(),
            match result {
                Ok(tokens) => {
                    &&& tokenize_spec(old(self).source()) == Ok::<_, ErrorSpec>(tokens_view(tokens@))
                    &&& final(self).tokens() == tokens_view(tokens@)
                    &&& terminated(tokens_view(tokens@))
                },
                Err(e) => {
                    &&& tokenize_spec(old(self).source()) == Err::<Seq<TokenInfoSpec>, _>(e@)
                    &&& final(self).tokens() == old(self).tokens()
                },
            },
    {
        let chars = chars_of(self.source.as_str());
        let n = chars.len();
        let mut tokens: Vec<TokenInfo> = Vec::new();
        let mut cursor = Cursor { pos: 0, line: 1, column: 1 };
        assert(tokens_view(tokens@) =~= Seq::<TokenInfoSpec>::empty());
        while cursor.pos < n
            invariant
                n == chars@.len(),
                chars@ == self.source@,
                cursor.at(chars@),
                tokenize_spec(chars@) == prepend(
                    tokens_view(tokens@),
                    tokens_from(chars@, cursor.pos as int),
                ),
            decreases n - cursor.pos,
        {
            let ghost found = tokens_view(tokens@);
            let ghost pos = cursor.pos as int;
            match scan_step(&chars, cursor.pos) {
                Scanned::Skip { end } => {
                    cursor.advance(&chars, end);
                },
                Scanned::Emit { token, end } => {
                    let line = cursor.line;
                    let column = cursor.column;
                    let length = cursor.advance(&chars, end);
                    let info = TokenInfo { token, location: Location { line, column, length } };
                    tokens.push(info);
                    proof {
                        let rest = tokens_from(chars@, end as int);
                        assert(tokens_view(tokens@) =~= found + seq![info@]);
                        if rest is Ok {
                            assert(found + (seq![info@] + rest->Ok_0) =~= (found + seq![info@])
                                + rest->Ok_0);
                        }
                    }
                },
                Scanned::Invalid => {
                    return Err(invalid_token(&chars, &cursor));
                },
            }
        }
        let eof = TokenInfo {
            token: Token::Eof,
            location: Location { line: cursor.line, column: cursor.column, length: 0 },
        };
        proof {
            assert(chars@.subrange(n as int, n as int) =~= Seq::<char>::empty());
            assert(eof@ == eof_token(chars@));
        }
        let ghost found = tokens_view(tokens@);
        tokens.push(eof);
        assert(tokens_view(tokens@) =~= found + seq![eof@]);
        self.tokens = clone_tokens(&tokens);
        proof {
            lemma_tokens_end_with_eof(chars@, 0);
        }
        Ok(tokens)
    }

    /// The token `offset` places after the position, if there is one.
    pub fn peek(&self, offset: usize) -> (t: Option<&TokenInfo>)
        ensures
            match t {
                Some(t) => self.token_at(offset as nat) == Some(t@),
                None => self.token_at(offset as nat) is None,
            },
    {
        let n = self.tokens.len();
        if offset > usize::MAX - self._current_pos {
            return None;
        }
        let i = self._current_pos + offset;
        if i < n {
            Some(&self.tokens[i])
        } else {
            None
        }
    }

    /// The token at the position, if there is one.
    pub fn current(&self) -> (t: Option<&TokenInfo>)
        ensures
            match t {
                Some(t) => self.token_at(0) == Some(t@),
                None => self.token_at(0) is None,
            },
    {
        self.peek(0)
    }

    /// Steps over the token at the position, if there is one, and returns it.
    pub fn advance(&mut self) -> (t: Option<&TokenInfo>)
        ensures
            final(self).source() == old(self).source(),
            final(self).tokens() == old(self).tokens(),
            match t {
                Some(t) => old(self).token_at(0) == Some(t@) && final(self).position() == old(
                    self,
                ).position() + 1,
                None => old(self).token_at(0) is None && final(self).position() == old(
                    self,
                ).position(),
            },
    {
        if self._current_pos < self.tokens.len() {
            self._current_pos += 1;
            Some(&self.tokens[self._current_pos - 1])
        } else {
            None
        }
    }

    /// Steps over the token at the position if it is of the kind of
    /// `expected`, and returns it. Otherwise the result is a syntax error at
    /// that token, or at line 0 and column 0 where the tokens have run out,
    /// and the position stays.
    pub fn expect(&mut self, expected: Token) -> (result: CompilerResult<&TokenInfo>)
        ensures
            final(self).source() == old(self).source(),
            final(self).tokens() == old(self).tokens(),
            match result {
                Ok(t) => {
                    &&& old(self).at_kind(expected@)
                    &&& old(self).token_at(0) == Some(t@)
                    &&& final(self).position() == old(self).position() + 1
                },
                Err(e) => {
                    &&& !old(self).at_kind(expected@)
                    &&& final(self).position() == old(self).position()
                    &&& e@ == match old(self).token_at(0) {
                        Some(found) => syntax_error(
                            found.location.line,
                            found.location.column,
                            expected_found_message(expected@, found.token),
                        ),
                        None => syntax_error(0, 0, expected_at_end_message(expected@)),
                    }
                },
            },
    {
        if self._current_pos < self.tokens.len() {
            if self.tokens[self._current_pos].token.same_kind(&expected) {
                self._current_pos += 1;
                Ok(&self.tokens[self._current_pos - 1])
            } else {
                let found = &self.tokens[self._current_pos];
                let mut message = String::from_str("Esperado '");
                expected.append_debug(&mut message);
                message.append("', encontrado '");
                found.token.append_debug(&mut message);
                message.append("'");
                Err(CompilerError::syntax(found.location.line, found.location.column, message))
            }
        } else {
            let mut message = String::from_str("Esperado '");
            expected.append_debug(&mut message);
            message.append("', mas chegou ao fim do arquivo");
            Err(CompilerError::syntax(0, 0, message))
        }
    }

    /// Steps over the token at the position if it is of the kind of `token`,
    /// and says whether it did.
    pub fn match_token(&mut self, token: Token) -> (b: bool)
        ensures
            final(self).source() == old(self).source(),
            final(self).tokens() == old(self).tokens(),
            b == old(self).at_kind(token@),
            final(self).position() == old(self).position() + if b {
                1nat
            } else {
                0nat
            },
    {
        if self._current_pos < self.tokens.len() && self.tokens[self._current_pos].token.same_kind(
            &token,
        ) {
            self._current_pos += 1;
            true
        } else {
            false
        }
    }

    /// The token at the position is of the kind of `token`.
    pub open spec fn at_kind(&self, token: TokenSpec) -> bool {
        match self.token_at(0) {
            Some(t) => same_kind(t.token, token),
            None => false,
        }
    }

    /// Whether the token at the position is of the kind of `token`.
    pub fn check(&self, token: Token) -> (b: bool)
        ensures
            b == self.at_kind(token@),
    {
        match self.current() {
            Some(info) => info.token.same_kind(&token),
            None => false,
        }
    }
}

} // verus!
