//! Syntax analysis: a recursive-descent parser with one token of lookahead.

use crate::ast::{
    lemma_block_view, lemma_call_view, lemma_function_view, params_view, stmts_view, exprs_view,
    AssignmentExpression, BinaryExpression, BinaryOperator, BlockStatement, CallExpression,
    DeclarationStatement, ExprSpec, Expression, ExpressionStatement, FunctionStatement,
    IdentifierExpression, IfStatement, Literal, LiteralExpression, Location, ParamSpec, Parameter,
    Program, ProgramSpec, ReturnStatement, Statement, StmtSpec, Type, TypeSpec, UnaryExpression,
    UnaryOperator, WhileStatement,
};
use crate::error::{CompilerError, CompilerResult, ErrorSpec};
use crate::grammar::{
    advanced, at_end, binary_operator_at, check, error_here, expect, operator_here,
    parse_arguments, parse_assignment, parse_binary, parse_binary_rest, parse_block,
    parse_block_items, parse_call, parse_call_end, parse_calls, parse_condition,
    parse_declaration, parse_expression, parse_expression_statement, parse_function, parse_if,
    parse_items, parse_name, parse_operand, parse_parameters, parse_primary, parse_return,
    parse_signature, parse_spec, parse_statement, parse_type, parse_unary, parse_var, parse_while,
    terminated, Parsed,
};
use crate::token::{tokens_view, Token, TokenInfo, TokenInfoSpec};
use vstd::prelude::*;

verus! {

/// A parser over a token sequence that ends with the end-of-stream token.
pub struct Parser {
    tokens: Vec<TokenInfo>,
    current: usize,
}

/// What a step that parses an expression did: on success the grammar finds
/// the same expression and ends at `position`.
pub open spec fn expr_parsed(
    result: CompilerResult<Expression>,
    position: int,
    model: Parsed<ExprSpec>,
) -> bool {
    match result {
        Ok(e) => model == Ok::<(ExprSpec, int), ErrorSpec>((e@, position)),
        Err(e) => model == Err::<(ExprSpec, int), ErrorSpec>(e@),
    }
}

/// What a step that parses a statement did.
pub open spec fn stmt_parsed(
    result: CompilerResult<Statement>,
    position: int,
    model: Parsed<StmtSpec>,
) -> bool {
    match result {
        Ok(s) => model == Ok::<(StmtSpec, int), ErrorSpec>((s@, position)),
        Err(e) => model == Err::<(StmtSpec, int), ErrorSpec>(e@),
    }
}

/// What parsing a program did.
pub open spec fn program_parsed(
    result: CompilerResult<Program>,
    model: Result<ProgramSpec, ErrorSpec>,
) -> bool {
    match result {
        Ok(p) => model == Ok::<ProgramSpec, ErrorSpec>(p@),
        Err(e) => model == Err::<ProgramSpec, ErrorSpec>(e@),
    }
}

/// The binary operator that a token spells at a level of precedence.
fn operator_of(level: u8, token: &Token) -> (operator: Option<BinaryOperator>)
    ensures
        operator == binary_operator_at(level as nat, token@),
{
    if level == 0 {
        match token {
            Token::Star => Some(BinaryOperator::Multiply),
            Token::Slash => Some(BinaryOperator::Divide),
            Token::Percent => Some(BinaryOperator::Modulo),
            _ => None,
        }
    } else if level == 1 {
        match token {
            Token::Plus => Some(BinaryOperator::Add),
            Token::Minus => Some(BinaryOperator::Subtract),
            _ => None,
        }
    } else if level == 2 {
        match token {
            Token::LessThan => Some(BinaryOperator::LessThan),
            Token::LessThanEqual => Some(BinaryOperator::LessThanEqual),
            Token::GreaterThan => Some(BinaryOperator::GreaterThan),
            Token::GreaterThanEqual => Some(BinaryOperator::GreaterThanEqual),
            _ => None,
        }
    } else if level == 3 {
        match token {
            Token::Equal => Some(BinaryOperator::Equal),
            Token::NotEqual => Some(BinaryOperator::NotEqual),
            _ => None,
        }
    } else if level == 4 {
        match token {
            Token::And => Some(BinaryOperator::And),
            _ => None,
        }
    } else if level == 5 {
        match token {
            Token::Or => Some(BinaryOperator::Or),
            _ => None,
        }
    } else {
        None
    }
}

impl Parser {
    /// The tokens end with the end-of-stream token and the parser stands at
    /// one of them.
    #[verifier::type_invariant]
    closed spec fn well_formed(&self) -> bool {
        &&& terminated(tokens_view(self.tokens@))
        &&& self.current < self.tokens@.len()
    }

    /// The tokens that the parser reads.
    pub closed spec fn tokens(&self) -> Seq<TokenInfoSpec> {
        tokens_view(self.tokens@)
    }

    /// The index of the token that the parser stands at.
    pub closed spec fn position(&self) -> int {
        self.current as int
    }

    /// A parser at the first of the tokens, which must end with the
    /// end-of-stream token.
    pub fn new(tokens: Vec<TokenInfo>) -> (parser: Self)
        requires
            terminated(tokens_view(tokens@)),
        ensures
            parser.tokens() == tokens_view(tokens@),
            parser.position() == 0,
    {
        Parser { tokens, current: 0 }
    }

    /// Parses the declarations from the parser's position to the end of the
    /// tokens, where the parser then stands. The result is the first syntax
    /// error, if there is one; the parser then stands where it stood.
    #[verifier::loop_isolation(false)]
    #[verifier::rlimit(40)]
    pub fn parse(&mut self) -> (result: CompilerResult<Program>)
        ensures
            final(self).tokens() == old(self).tokens(),
            result is Err ==> result->Err_0@ is SyntaxError,
            program_parsed(result, parse_spec(old(self).tokens(), old(self).position())),
            match result {
                Ok(_) => parse_items(old(self).tokens(), old(self).position(), Seq::empty())
                    matches Ok(found) && found.1 == final(self).position(),
                Err(_) => final(self).position() == old(self).position(),
            },
    {
        proof {
            use_type_invariant(&*self);
        }
        let start = self.current;
        let ghost toks = self.tokens();
        let ghost whole = parse_items(toks, self.position(), Seq::empty());
        let mut statements: Vec<Statement> = Vec::new();
        assert(stmts_view(statements@) =~= Seq::<StmtSpec>::empty());
        while !self.is_at_end()
            invariant
                self.tokens() == toks,
                whole == parse_items(toks, self.position(), stmts_view(statements@)),
            decreases toks.len() - self.position(),
        {
            proof {
                use_type_invariant(&*self);
            }
            let ghost found = stmts_view(statements@);
            let statement = match self.declaration() {
                Err(e) => {
                    proof {
                        use_type_invariant(&*self);
                    }
                    self.current = start;
                    return Err(e);
                },
                Ok(s) => s,
            };
            statements.push(statement);
            assert(stmts_view(statements@) =~= found.push(statement@));
        }
        Ok(Program { statements })
    }

    fn is_at_end(&self) -> (b: bool)
        ensures
            b == at_end(self.tokens(), self.position()),
            self.position() < self.tokens().len(),
            !b ==> self.position() + 1 < self.tokens().len(),
    {
        proof {
            use_type_invariant(self);
        }
        match &self.tokens[self.current].token {
            Token::Eof => true,
            _ => false,
        }
    }

    fn check(&self, token: &Token) -> (b: bool)
        ensures
            b == check(self.tokens(), self.position(), token@),
    {
        proof {
            use_type_invariant(self);
        }
        if self.is_at_end() {
            false
        } else {
            self.tokens[self.current].token.same_kind(token)
        }
    }

    /// The location of the token that the parser stands at.
    fn location(&self) -> (location: Location)
        ensures
            location == self.tokens()[self.position()].location,
    {
        proof {
            use_type_invariant(self);
        }
        self.tokens[self.current].location
    }

    /// The location of the token before the one that the parser stands at.
    fn previous_location(&self) -> (location: Location)
        requires
            self.position() > 0,
        ensures
            location == self.tokens()[self.position() - 1].location,
    {
        proof {
            use_type_invariant(self);
        }
        self.tokens[self.current - 1].location
    }

    fn step(&mut self)
        requires
            !at_end(old(self).tokens(), old(self).position()),
        ensures
            final(self).tokens() == old(self).tokens(),
            final(self).position() == old(self).position() + 1,
    {
        proof {
            use_type_invariant(&*self);
            assert(self.tokens@.len() == self.tokens.len());
        }
        self.current = self.current + 1;
    }

    /// Steps over the token that the parser stands at if it is of the kind of
    /// `token`.
    fn match_token(&mut self, token: &Token) -> (b: bool)
        ensures
            final(self).tokens() == old(self).tokens(),
            b == check(old(self).tokens(), old(self).position(), token@),
            final(self).position() == if b {
                old(self).position() + 1
            } else {
                old(self).position()
            },
    {
        if self.check(token) {
            self.step();
            true
        } else {
            false
        }
    }

    /// Steps over the token that the parser stands at, which must be of the
    /// kind of `token`; the result is its location.
    fn expect(&mut self, token: &Token) -> (result: CompilerResult<Location>)
        ensures
            final(self).tokens() == old(self).tokens(),
            result is Err ==> result->Err_0@ is SyntaxError,
            match result {
                Ok(location) => {
                    &&& expect(old(self).tokens(), old(self).position(), token@) == Ok::<
                        int,
                        ErrorSpec,
                    >(final(self).position())
                    &&& final(self).position() == old(self).position() + 1
                    &&& location == old(self).tokens()[old(self).position()].location
                },
                Err(e) => expect(old(self).tokens(), old(self).position(), token@) == Err::<
                    int,
                    ErrorSpec,
                >(e@),
            },
    {
        if self.check(token) {
            let location = self.location();
            self.step();
            Ok(location)
        } else {
            let location = self.location();
            let mut message = String::from_str("Esperado '");
            token.append_debug(&mut message);
            message.append("'");
            Err(CompilerError::syntax(location.line, location.column, message))
        }
    }

    /// The error with `message` at the token that the parser stands at, or at
    /// line 0 and column 0 where no token is left.
    fn error(&self, message: String) -> (e: CompilerError)
        ensures
            e@ == error_here(self.tokens(), self.position(), message@),
    {
        if self.is_at_end() {
            CompilerError::syntax(0, 0, message)
        } else {
            let location = self.location();
            CompilerError::syntax(location.line, location.column, message)
        }
    }

    fn parse_type(&mut self) -> (result: CompilerResult<Type>)
        ensures
            final(self).tokens() == old(self).tokens(),
            result is Err ==> result->Err_0@ is SyntaxError,
            match result {
                Ok(t) => {
                    &&& parse_type(old(self).tokens(), old(self).position()) == Ok::<
                        (TypeSpec, int),
                        ErrorSpec,
                    >((t@, final(self).position()))
                    &&& final(self).position() == old(self).position() + 1
                },
                Err(e) => parse_type(old(self).tokens(), old(self).position()) == Err::<
                    (TypeSpec, int),
                    ErrorSpec,
                >(e@),
            },
    {
        if self.is_at_end() {
            return Err(CompilerError::syntax(0, 0, String::from_str("Tipo esperado")));
        }
        proof {
            use_type_invariant(&*self);
        }
        let found = match &self.tokens[self.current].token {
            Token::Int => Some(Type::Int),
            Token::FloatType => Some(Type::Float),
            Token::Bool => Some(Type::Bool),
            Token::StringType => Some(Type::String),
            Token::Void => Some(Type::Void),
            _ => None,
        };
        match found {
            Some(t) => {
                self.step();
                Ok(t)
            },
            None => Err(self.error(String::from_str("Tipo inválido"))),
        }
    }

    /// An identifier; `message` is the error where none stands.
    fn name(&mut self, message: &str) -> (result: CompilerResult<String>)
        ensures
            final(self).tokens() == old(self).tokens(),
            result is Err ==> result->Err_0@ is SyntaxError,
            match result {
                Ok(name) => {
                    &&& parse_name(old(self).tokens(), old(self).position(), message@) == Ok::<
                        (Seq<char>, int),
                        ErrorSpec,
                    >((name@, final(self).position()))
                    &&& final(self).position() == old(self).position() + 1
                },
                Err(e) => parse_name(old(self).tokens(), old(self).position(), message@) == Err::<
                    (Seq<char>, int),
                    ErrorSpec,
                >(e@),
            },
    {
        if self.is_at_end() {
            return Err(CompilerError::syntax(0, 0, String::from_str(message)));
        }
        proof {
            use_type_invariant(&*self);
        }
        let found = match &self.tokens[self.current].token {
            Token::Identifier(name) => Some(name.clone()),
            _ => None,
        };
        match found {
            Some(name) => {
                self.step();
                Ok(name)
            },
            None => Err(self.error(String::from_str(message))),
        }
    }

    #[verifier::rlimit(40)]
    fn declaration(&mut self) -> (result: CompilerResult<Statement>)
        ensures
            final(self).tokens() == old(self).tokens(),
            result is Err ==> result->Err_0@ is SyntaxError,
            stmt_parsed(
                result,
                final(self).position(),
                parse_declaration(old(self).tokens(), old(self).position()),
            ),
            result is Ok ==> advanced(
                old(self).tokens(),
                old(self).position(),
                final(self).position(),
            ),
        decreases old(self).tokens().len() - old(self).position(), 25nat,
    {
        proof {
            use_type_invariant(&*self);
        }
        if self.check(&Token::Var) {
            let location = self.location();
            self.step();
            self.var_declaration(location)
        } else if self.check(&Token::Func) {
            let location = self.location();
            self.step();
            self.function_declaration(location)
        } else {
            self.statement()
        }
    }

    #[verifier::rlimit(40)]
    fn var_declaration(&mut self, location: Location) -> (result: CompilerResult<Statement>)
        ensures
            final(self).tokens() == old(self).tokens(),
            result is Err ==> result->Err_0@ is SyntaxError,
            stmt_parsed(
                result,
                final(self).position(),
                parse_var(old(self).tokens(), old(self).position(), location),
            ),
            result is Ok ==> advanced(
                old(self).tokens(),
                old(self).position(),
                final(self).position(),
            ),
        decreases old(self).tokens().len() - old(self).position(), 23nat,
    {
        proof {
            use_type_invariant(&*self);
        }
        let name = match self.name("Esperado nome de variável") {
            Err(e) => {
                return Err(e);
            },
            Ok(name) => name,
        };
        let var_type = if self.match_token(&Token::Colon) {
            match self.parse_type() {
                Err(e) => {
                    return Err(e);
                },
                Ok(t) => t,
            }
        } else {
            Type::Int
        };
        let initializer = if self.match_token(&Token::Assign) {
            match self.expression() {
                Err(e) => {
                    return Err(e);
                },
                Ok(e) => Some(e),
            }
        } else {
            None
        };
        match self.expect(&Token::Semicolon) {
            Err(e) => {
                return Err(e);
            },
            Ok(_) => {},
        }
        Ok(Statement::Declaration(DeclarationStatement { name, var_type, initializer, location }))
    }

    /// The parameters of a function, up to the first that no comma follows.
    #[verifier::loop_isolation(false)]
    #[verifier::rlimit(40)]
    fn parameters(&mut self) -> (result: CompilerResult<Vec<Parameter>>)
        ensures
            final(self).tokens() == old(self).tokens(),
            result is Err ==> result->Err_0@ is SyntaxError,
            match result {
                Ok(v) => {
                    &&& parse_parameters(old(self).tokens(), old(self).position(), Seq::empty())
                        == Ok::<(Seq<ParamSpec>, int), ErrorSpec>(
                        (params_view(v@), final(self).position()),
                    )
                    &&& old(self).position() < final(self).position()
                },
                Err(e) => parse_parameters(old(self).tokens(), old(self).position(), Seq::empty())
                    == Err::<(Seq<ParamSpec>, int), ErrorSpec>(e@),
            },
    {
        proof {
            use_type_invariant(&*self);
        }
        let ghost toks = self.tokens();
        let ghost whole = parse_parameters(toks, self.position(), Seq::empty());
        let mut parameters: Vec<Parameter> = Vec::new();
        let mut more = true;
        assert(params_view(parameters@) =~= Seq::<ParamSpec>::empty());
        while more
            invariant
                self.tokens() == toks,
                old(self).position() <= self.position() < toks.len(),
                !more ==> old(self).position() < self.position(),
                more ==> whole == parse_parameters(
                    toks,
                    self.position(),
                    params_view(parameters@),
                ),
                !more ==> whole == Ok::<(Seq<ParamSpec>, int), ErrorSpec>(
                    (params_view(parameters@), self.position()),
                ),
            decreases toks.len() - self.position(),
        {
            proof {
                use_type_invariant(&*self);
            }
            let ghost found = params_view(parameters@);
            let name = match self.name("Esperado nome de parâmetro") {
                Err(e) => {
                    return Err(e);
                },
                Ok(name) => name,
            };
            match self.expect(&Token::Colon) {
                Err(e) => {
                    return Err(e);
                },
                Ok(_) => {},
            }
            let param_type = match self.parse_type() {
                Err(e) => {
                    return Err(e);
                },
                Ok(t) => t,
            };
            let parameter = Parameter { name, param_type, location: self.previous_location() };
            parameters.push(parameter);
            assert(params_view(parameters@) =~= found.push(parameter@));
            more = self.match_token(&Token::Comma);
            proof {
                use_type_invariant(&*self);
            }
        }
        Ok(parameters)
    }

    /// What stands between a function's name and its body.
    #[verifier::rlimit(40)]
    fn signature(&mut self) -> (result: CompilerResult<(Vec<Parameter>, Type)>)
        ensures
            final(self).tokens() == old(self).tokens(),
            result is Err ==> result->Err_0@ is SyntaxError,
            match result {
                Ok(found) => {
                    &&& parse_signature(old(self).tokens(), old(self).position()) == Ok::<
                        ((Seq<ParamSpec>, TypeSpec), int),
                        ErrorSpec,
                    >(((params_view(found.0@), found.1@), final(self).position()))
                    &&& old(self).position() < final(self).position()
                },
                Err(e) => parse_signature(old(self).tokens(), old(self).position()) == Err::<
                    ((Seq<ParamSpec>, TypeSpec), int),
                    ErrorSpec,
                >(e@),
            },
    {
        match self.expect(&Token::LeftParen) {
            Err(e) => {
                return Err(e);
            },
            Ok(_) => {},
        }
        let parameters = if !self.check(&Token::RightParen) {
            match self.parameters() {
                Err(e) => {
                    return Err(e);
                },
                Ok(v) => v,
            }
        } else {
            let v: Vec<Parameter> = Vec::new();
            assert(params_view(v@) =~= Seq::<ParamSpec>::empty());
            v
        };
        match self.expect(&Token::RightParen) {
            Err(e) => {
                return Err(e);
            },
            Ok(_) => {},
        }
        let return_type = if self.match_token(&Token::Arrow) {
            match self.parse_type() {
                Err(e) => {
                    return Err(e);
                },
                Ok(t) => t,
            }
        } else {
            Type::Void
        };
        Ok((parameters, return_type))
    }

    #[verifier::rlimit(40)]
    fn function_declaration(&mut self, location: Location) -> (result: CompilerResult<Statement>)
        ensures
            final(self).tokens() == old(self).tokens(),
            result is Err ==> result->Err_0@ is SyntaxError,
            stmt_parsed(
                result,
                final(self).position(),
                parse_function(old(self).tokens(), old(self).position(), location),
            ),
            result is Ok ==> advanced(
                old(self).tokens(),
                old(self).position(),
                final(self).position(),
            ),
        decreases old(self).tokens().len() - old(self).position(), 28nat,
    {
        proof {
            use_type_invariant(&*self);
        }
        let name = match self.name("Esperado nome de função") {
            Err(e) => {
                return Err(e);
            },
            Ok(name) => name,
        };
        let (parameters, return_type) = match self.signature() {
            Err(e) => {
                return Err(e);
            },
            Ok(found) => found,
        };
        let body_location = match self.expect(&Token::LeftBrace) {
            Err(e) => {
                return Err(e);
            },
            Ok(l) => l,
        };
        proof {
            use_type_invariant(&*self);
        }
        let body = match self.block_statement(body_location) {
            Err(e) => {
                return Err(e);
            },
            Ok(b) => b,
        };
        let func = FunctionStatement { name, parameters, return_type, body, location };
        proof {
            lemma_function_view(func);
        }
        Ok(Statement::Function(func))
    }

    #[verifier::rlimit(40)]
    fn statement(&mut self) -> (result: CompilerResult<Statement>)
        ensures
            final(self).tokens() == old(self).tokens(),
            result is Err ==> result->Err_0@ is SyntaxError,
            stmt_parsed(
                result,
                final(self).position(),
                parse_statement(old(self).tokens(), old(self).position()),
            ),
            result is Ok ==> advanced(
                old(self).tokens(),
                old(self).position(),
                final(self).position(),
            ),
        decreases old(self).tokens().len() - old(self).position(), 24nat,
    {
        proof {
            use_type_invariant(&*self);
        }
        if self.check(&Token::If) {
            let location = self.location();
            self.step();
            self.if_statement(location)
        } else if self.check(&Token::While) {
            let location = self.location();
            self.step();
            self.while_statement(location)
        } else if self.check(&Token::Return) {
            let location = self.location();
            self.step();
            self.return_statement(location)
        } else if self.check(&Token::LeftBrace) {
            let location = self.location();
            self.step();
            match self.block_statement(location) {
                Err(e) => Err(e),
                Ok(block) => {
                    proof {
                        lemma_block_view(block);
                    }
                    Ok(Statement::Block(block))
                },
            }
        } else {
            self.expression_statement()
        }
    }

    /// A condition in parentheses.
    fn condition(&mut self) -> (result: CompilerResult<Expression>)
        ensures
            final(self).tokens() == old(self).tokens(),
            result is Err ==> result->Err_0@ is SyntaxError,
            expr_parsed(
                result,
                final(self).position(),
                parse_condition(old(self).tokens(), old(self).position()),
            ),
            result is Ok ==> advanced(
                old(self).tokens(),
                old(self).position(),
                final(self).position(),
            ),
        decreases old(self).tokens().len() - old(self).position(), 22nat,
    {
        proof {
            use_type_invariant(&*self);
        }
        match self.expect(&Token::LeftParen) {
            Err(e) => {
                return Err(e);
            },
            Ok(_) => {},
        }
        let condition = match self.expression() {
            Err(e) => {
                return Err(e);
            },
            Ok(e) => e,
        };
        match self.expect(&Token::RightParen) {
            Err(e) => {
                return Err(e);
            },
            Ok(_) => {},
        }
        Ok(condition)
    }

    #[verifier::rlimit(40)]
    fn if_statement(&mut self, location: Location) -> (result: CompilerResult<Statement>)
        ensures
            final(self).tokens() == old(self).tokens(),
            result is Err ==> result->Err_0@ is SyntaxError,
            stmt_parsed(
                result,
                final(self).position(),
                parse_if(old(self).tokens(), old(self).position(), location),
            ),
            result is Ok ==> advanced(
                old(self).tokens(),
                old(self).position(),
                final(self).position(),
            ),
        decreases old(self).tokens().len() - old(self).position(), 23nat,
    {
        proof {
            use_type_invariant(&*self);
        }
        let condition = match self.condition() {
            Err(e) => {
                return Err(e);
            },
            Ok(e) => e,
        };
        let then_branch = match self.statement() {
            Err(e) => {
                return Err(e);
            },
            Ok(s) => Box::new(s),
        };
        let else_branch = if self.match_token(&Token::Else) {
            match self.statement() {
                Err(e) => {
                    return Err(e);
                },
                Ok(s) => Some(Box::new(s)),
            }
        } else {
            None
        };
        Ok(Statement::If(IfStatement { condition, then_branch, else_branch, location }))
    }

    #[verifier::rlimit(40)]
    fn while_statement(&mut self, location: Location) -> (result: CompilerResult<Statement>)
        ensures
            final(self).tokens() == old(self).tokens(),
            result is Err ==> result->Err_0@ is SyntaxError,
            stmt_parsed(
                result,
                final(self).position(),
                parse_while(old(self).tokens(), old(self).position(), location),
            ),
            result is Ok ==> advanced(
                old(self).tokens(),
                old(self).position(),
                final(self).position(),
            ),
        decreases old(self).tokens().len() - old(self).position(), 23nat,
    {
        proof {
            use_type_invariant(&*self);
        }
        let condition = match self.condition() {
            Err(e) => {
                return Err(e);
            },
            Ok(e) => e,
        };
        let body = match self.statement() {
            Err(e) => {
                return Err(e);
            },
            Ok(s) => Box::new(s),
        };
        Ok(Statement::While(WhileStatement { condition, body, location }))
    }

    fn return_statement(&mut self, location: Location) -> (result: CompilerResult<Statement>)
        ensures
            final(self).tokens() == old(self).tokens(),
            result is Err ==> result->Err_0@ is SyntaxError,
            stmt_parsed(
                result,
                final(self).position(),
                parse_return(old(self).tokens(), old(self).position(), location),
            ),
            result is Ok ==> advanced(
                old(self).tokens(),
                old(self).position(),
                final(self).position(),
            ),
        decreases old(self).tokens().len() - old(self).position(), 22nat,
    {
        proof {
            use_type_invariant(&*self);
        }
        let value = if !self.check(&Token::Semicolon) {
            match self.expression() {
                Err(e) => {
                    return Err(e);
                },
                Ok(e) => Some(e),
            }
        } else {
            None
        };
        match self.expect(&Token::Semicolon) {
            Err(e) => {
                return Err(e);
            },
            Ok(_) => {},
        }
        Ok(Statement::Return(ReturnStatement { value, location }))
    }

    /// The rest of a block whose opening brace, at `location`, the parser has
    /// stepped over.
    #[verifier::loop_isolation(false)]
    #[verifier::rlimit(40)]
    fn block_statement(&mut self, location: Location) -> (result: CompilerResult<BlockStatement>)
        requires
            old(self).position() > 0,
        ensures
            final(self).tokens() == old(self).tokens(),
            result is Err ==> result->Err_0@ is SyntaxError,
            match result {
                Ok(b) => {
                    &&& parse_block(old(self).tokens(), old(self).position()) == Ok::<
                        (Seq<StmtSpec>, int),
                        ErrorSpec,
                    >((stmts_view(b.statements@), final(self).position()))
                    &&& b.location == location
                    &&& advanced(old(self).tokens(), old(self).position(), final(self).position())
                },
                Err(e) => parse_block(old(self).tokens(), old(self).position()) == Err::<
                    (Seq<StmtSpec>, int),
                    ErrorSpec,
                >(e@),
            },
        decreases old(self).tokens().len() - old(self).position(), 27nat,
    {
        proof {
            use_type_invariant(&*self);
        }
        let ghost toks = self.tokens();
        let ghost whole = parse_block_items(toks, self.position(), Seq::empty());
        let mut statements: Vec<Statement> = Vec::new();
        assert(stmts_view(statements@) =~= Seq::<StmtSpec>::empty());
        while !self.check(&Token::RightBrace) && !self.is_at_end()
            invariant
                self.tokens() == toks,
                old(self).position() <= self.position(),
                whole == parse_block_items(toks, self.position(), stmts_view(statements@)),
            decreases toks.len() - self.position(),
        {
            proof {
                use_type_invariant(&*self);
            }
            let ghost found = stmts_view(statements@);
            let statement = match self.declaration() {
                Err(e) => {
                    return Err(e);
                },
                Ok(s) => s,
            };
            statements.push(statement);
            assert(stmts_view(statements@) =~= found.push(statement@));
        }
        if self.is_at_end() {
            let previous = self.previous_location();
            return Err(
                CompilerError::syntax(
                    previous.line,
                    previous.column,
                    String::from_str("Esperado '}' antes do fim do arquivo"),
                ),
            );
        }
        match self.expect(&Token::RightBrace) {
            Err(e) => {
                return Err(e);
            },
            Ok(_) => {},
        }
        Ok(BlockStatement { statements, location })
    }

    fn expression_statement(&mut self) -> (result: CompilerResult<Statement>)
        ensures
            final(self).tokens() == old(self).tokens(),
            result is Err ==> result->Err_0@ is SyntaxError,
            stmt_parsed(
                result,
                final(self).position(),
                parse_expression_statement(old(self).tokens(), old(self).position()),
            ),
            result is Ok ==> advanced(
                old(self).tokens(),
                old(self).position(),
                final(self).position(),
            ),
        decreases old(self).tokens().len() - old(self).position(), 22nat,
    {
        proof {
            use_type_invariant(&*self);
        }
        let expression = match self.expression() {
            Err(e) => {
                return Err(e);
            },
            Ok(e) => e,
        };
        let location = self.previous_location();
        match self.expect(&Token::Semicolon) {
            Err(e) => {
                return Err(e);
            },
            Ok(_) => {},
        }
        Ok(Statement::Expression(ExpressionStatement { expression, location }))
    }

    fn expression(&mut self) -> (result: CompilerResult<Expression>)
        ensures
            final(self).tokens() == old(self).tokens(),
            result is Err ==> result->Err_0@ is SyntaxError,
            expr_parsed(
                result,
                final(self).position(),
                parse_expression(old(self).tokens(), old(self).position()),
            ),
            result is Ok ==> advanced(
                old(self).tokens(),
                old(self).position(),
                final(self).position(),
            ),
        decreases old(self).tokens().len() - old(self).position(), 21nat,
    {
        proof {
            use_type_invariant(&*self);
        }
        self.assignment()
    }

    #[verifier::rlimit(40)]
    fn assignment(&mut self) -> (result: CompilerResult<Expression>)
        ensures
            final(self).tokens() == old(self).tokens(),
            result is Err ==> result->Err_0@ is SyntaxError,
            expr_parsed(
                result,
                final(self).position(),
                parse_assignment(old(self).tokens(), old(self).position()),
            ),
            result is Ok ==> advanced(
                old(self).tokens(),
                old(self).position(),
                final(self).position(),
            ),
        decreases old(self).tokens().len() - old(self).position(), 20nat,
    {
        proof {
            use_type_invariant(&*self);
        }
        let expr = match self.binary(5) {
            Err(e) => {
                return Err(e);
            },
            Ok(e) => e,
        };
        if self.match_token(&Token::Assign) {
            let value = match self.assignment() {
                Err(e) => {
                    return Err(e);
                },
                Ok(e) => e,
            };
            let location = self.previous_location();
            match expr {
                Expression::Identifier(identifier) => Ok(
                    Expression::Assignment(
                        AssignmentExpression {
                            target: identifier.name,
                            value: Box::new(value),
                            location,
                        },
                    ),
                ),
                _ => Err(
                    CompilerError::syntax(
                        location.line,
                        location.column,
                        String::from_str("Expressão inválida para atribuição"),
                    ),
                ),
            }
        } else {
            Ok(expr)
        }
    }

    /// An operand of the binary operators of a level.
    fn operand(&mut self, level: u8) -> (result: CompilerResult<Expression>)
        requires
            level <= 5,
        ensures
            final(self).tokens() == old(self).tokens(),
            result is Err ==> result->Err_0@ is SyntaxError,
            expr_parsed(
                result,
                final(self).position(),
                parse_operand(old(self).tokens(), old(self).position(), level as nat),
            ),
            result is Ok ==> advanced(
                old(self).tokens(),
                old(self).position(),
                final(self).position(),
            ),
        decreases old(self).tokens().len() - old(self).position(), 4 + 2 * level,
    {
        proof {
            use_type_invariant(&*self);
        }
        if level == 0 {
            self.unary()
        } else {
            self.binary(level - 1)
        }
    }

    /// The binary operator of the level that the parser stands at.
    fn operator(&self, level: u8) -> (operator: Option<BinaryOperator>)
        ensures
            operator == operator_here(self.tokens(), self.position(), level as nat),
    {
        proof {
            use_type_invariant(self);
        }
        if self.is_at_end() {
            None
        } else {
            operator_of(level, &self.tokens[self.current].token)
        }
    }

    /// An expression of the binary operators of a level: operands of the next
    /// tighter level, joined from left to right.
    #[verifier::loop_isolation(false)]
    #[verifier::rlimit(40)]
    fn binary(&mut self, level: u8) -> (result: CompilerResult<Expression>)
        requires
            level <= 5,
        ensures
            final(self).tokens() == old(self).tokens(),
            result is Err ==> result->Err_0@ is SyntaxError,
            expr_parsed(
                result,
                final(self).position(),
                parse_binary(old(self).tokens(), old(self).position(), level as nat),
            ),
            result is Ok ==> advanced(
                old(self).tokens(),
                old(self).position(),
                final(self).position(),
            ),
        decreases old(self).tokens().len() - old(self).position(), 5 + 2 * level,
    {
        proof {
            use_type_invariant(&*self);
        }
        let ghost toks = self.tokens();
        let mut expr = match self.operand(level) {
            Err(e) => {
                return Err(e);
            },
            Ok(e) => e,
        };
        let ghost whole = parse_binary_rest(toks, self.position(), level as nat, expr@);
        loop
            invariant
                self.tokens() == toks,
                advanced(toks, old(self).position(), self.position()),
                whole == parse_binary_rest(toks, self.position(), level as nat, expr@),
            decreases toks.len() - self.position(),
        {
            proof {
                use_type_invariant(&*self);
            }
            let operator = match self.operator(level) {
                None => {
                    return Ok(expr);
                },
                Some(operator) => operator,
            };
            self.step();
            let right = match self.operand(level) {
                Err(e) => {
                    return Err(e);
                },
                Ok(e) => e,
            };
            let location = self.previous_location();
            expr = Expression::Binary(
                BinaryExpression { left: Box::new(expr), operator, right: Box::new(right), location },
            );
        }
    }

    fn unary(&mut self) -> (result: CompilerResult<Expression>)
        ensures
            final(self).tokens() == old(self).tokens(),
            result is Err ==> result->Err_0@ is SyntaxError,
            expr_parsed(
                result,
                final(self).position(),
                parse_unary(old(self).tokens(), old(self).position()),
            ),
            result is Ok ==> advanced(
                old(self).tokens(),
                old(self).position(),
                final(self).position(),
            ),
        decreases old(self).tokens().len() - old(self).position(), 3nat,
    {
        proof {
            use_type_invariant(&*self);
        }
        if self.check(&Token::Not) || self.check(&Token::Minus) {
            let operator = if self.check(&Token::Not) {
                UnaryOperator::Not
            } else {
                UnaryOperator::Minus
            };
            self.step();
            let operand = match self.unary() {
                Err(e) => {
                    return Err(e);
                },
                Ok(e) => Box::new(e),
            };
            let location = self.previous_location();
            Ok(Expression::Unary(UnaryExpression { operator, operand, location }))
        } else {
            self.call()
        }
    }

    /// A primary expression and the calls that follow it.
    #[verifier::loop_isolation(false)]
    #[verifier::rlimit(40)]
    fn call(&mut self) -> (result: CompilerResult<Expression>)
        ensures
            final(self).tokens() == old(self).tokens(),
            result is Err ==> result->Err_0@ is SyntaxError,
            expr_parsed(
                result,
                final(self).position(),
                parse_call(old(self).tokens(), old(self).position()),
            ),
            result is Ok ==> advanced(
                old(self).tokens(),
                old(self).position(),
                final(self).position(),
            ),
        decreases old(self).tokens().len() - old(self).position(), 2nat,
    {
        proof {
            use_type_invariant(&*self);
        }
        let ghost toks = self.tokens();
        let mut expr = match self.primary() {
            Err(e) => {
                return Err(e);
            },
            Ok(e) => e,
        };
        let ghost whole = parse_calls(toks, self.position(), expr@);
        while self.check(&Token::LeftParen)
            invariant
                self.tokens() == toks,
                advanced(toks, old(self).position(), self.position()),
                whole == parse_calls(toks, self.position(), expr@),
            decreases toks.len() - self.position(),
        {
            proof {
                use_type_invariant(&*self);
            }
            self.step();
            expr = match self.finish_call(expr) {
                Err(e) => {
                    return Err(e);
                },
                Ok(e) => e,
            };
        }
        Ok(expr)
    }

    /// The arguments of a call, up to the first that no comma follows.
    #[verifier::loop_isolation(false)]
    #[verifier::rlimit(40)]
    fn arguments(&mut self) -> (result: CompilerResult<Vec<Expression>>)
        ensures
            final(self).tokens() == old(self).tokens(),
            result is Err ==> result->Err_0@ is SyntaxError,
            match result {
                Ok(v) => {
                    &&& parse_arguments(old(self).tokens(), old(self).position(), Seq::empty())
                        == Ok::<(Seq<ExprSpec>, int), ErrorSpec>(
                        (exprs_view(v@), final(self).position()),
                    )
                    &&& advanced(old(self).tokens(), old(self).position(), final(self).position())
                },
                Err(e) => parse_arguments(old(self).tokens(), old(self).position(), Seq::empty())
                    == Err::<(Seq<ExprSpec>, int), ErrorSpec>(e@),
            },
        decreases old(self).tokens().len() - old(self).position(), 22nat,
    {
        proof {
            use_type_invariant(&*self);
        }
        let ghost toks = self.tokens();
        let ghost whole = parse_arguments(toks, self.position(), Seq::empty());
        let mut arguments: Vec<Expression> = Vec::new();
        let mut more = true;
        assert(exprs_view(arguments@) =~= Seq::<ExprSpec>::empty());
        while more
            invariant
                self.tokens() == toks,
                old(self).position() <= self.position() < toks.len(),
                !more ==> old(self).position() < self.position(),
                more ==> whole == parse_arguments(toks, self.position(), exprs_view(arguments@)),
                !more ==> whole == Ok::<(Seq<ExprSpec>, int), ErrorSpec>(
                    (exprs_view(arguments@), self.position()),
                ),
            decreases toks.len() - self.position(),
        {
            proof {
                use_type_invariant(&*self);
            }
            let ghost found = exprs_view(arguments@);
            let argument = match self.expression() {
                Err(e) => {
                    return Err(e);
                },
                Ok(e) => e,
            };
            arguments.push(argument);
            assert(exprs_view(arguments@) =~= found.push(argument@));
            more = self.match_token(&Token::Comma);
            proof {
                use_type_invariant(&*self);
            }
        }
        Ok(arguments)
    }

    /// The rest of a call whose opening parenthesis the parser has stepped
    /// over.
    #[verifier::rlimit(40)]
    fn finish_call(&mut self, callee: Expression) -> (result: CompilerResult<Expression>)
        ensures
            final(self).tokens() == old(self).tokens(),
            result is Err ==> result->Err_0@ is SyntaxError,
            expr_parsed(
                result,
                final(self).position(),
                parse_call_end(old(self).tokens(), old(self).position(), callee@),
            ),
            result is Ok ==> advanced(
                old(self).tokens(),
                old(self).position(),
                final(self).position(),
            ),
        decreases old(self).tokens().len() - old(self).position(), 23nat,
    {
        proof {
            use_type_invariant(&*self);
        }
        let arguments = if !self.check(&Token::RightParen) {
            match self.arguments() {
                Err(e) => {
                    return Err(e);
                },
                Ok(v) => v,
            }
        } else {
            let v: Vec<Expression> = Vec::new();
            assert(exprs_view(v@) =~= Seq::<ExprSpec>::empty());
            v
        };
        let location = match self.expect(&Token::RightParen) {
            Err(e) => {
                return Err(e);
            },
            Ok(l) => l,
        };
        match callee {
            Expression::Identifier(identifier) => {
                let call = CallExpression { function: identifier.name, arguments, location };
                proof {
                    lemma_call_view(call);
                }
                Ok(Expression::Call(call))
            },
            _ => Err(
                CompilerError::syntax(
                    location.line,
                    location.column,
                    String::from_str("Esperado nome de função"),
                ),
            ),
        }
    }

    #[verifier::rlimit(40)]
    fn primary(&mut self) -> (result: CompilerResult<Expression>)
        ensures
            final(self).tokens() == old(self).tokens(),
            result is Err ==> result->Err_0@ is SyntaxError,
            expr_parsed(
                result,
                final(self).position(),
                parse_primary(old(self).tokens(), old(self).position()),
            ),
            result is Ok ==> advanced(
                old(self).tokens(),
                old(self).position(),
                final(self).position(),
            ),
        decreases old(self).tokens().len() - old(self).position(), 1nat,
    {
        proof {
            use_type_invariant(&*self);
        }
        if self.is_at_end() {
            return Err(
                CompilerError::syntax(
                    0,
                    0,
                    String::from_str("Expressão inesperada no fim do arquivo"),
                ),
            );
        }
        proof {
            use_type_invariant(&*self);
        }
        let location = self.location();
        let found = match &self.tokens[self.current].token {
            Token::Integer(n) => Some(
                Expression::Literal(LiteralExpression { value: Literal::Integer(*n), location }),
            ),
            Token::Float(x) => Some(
                Expression::Literal(LiteralExpression { value: Literal::Float(x.clone()), location }),
            ),
            Token::String(s) => Some(
                Expression::Literal(
                    LiteralExpression { value: Literal::String(s.clone()), location },
                ),
            ),
            Token::Boolean(b) => Some(
                Expression::Literal(LiteralExpression { value: Literal::Boolean(*b), location }),
            ),
            Token::Identifier(name) => Some(
                Expression::Identifier(IdentifierExpression { name: name.clone(), location }),
            ),
            _ => None,
        };
        match found {
            Some(expression) => {
                self.step();
                return Ok(expression);
            },
            None => {},
        }
        if self.check(&Token::LeftParen) {
            self.step();
            let expression = match self.expression() {
                Err(e) => {
                    return Err(e);
                },
                Ok(e) => e,
            };
            match self.expect(&Token::RightParen) {
                Err(e) => {
                    return Err(e);
                },
                Ok(_) => {},
            }
            Ok(expression)
        } else {
            let mut message = String::from_str("Expressão inesperada: ");
            self.tokens[self.current].token.append_debug(&mut message);
            Err(CompilerError::syntax(location.line, location.column, message))
        }
    }
}

} // verus!
