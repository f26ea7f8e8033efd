//! The recursive-descent parser: tokens to statements.

use vstd::prelude::*;
use vstd::string::*;
use crate::grammar;
use crate::grammar::{Cursor, Level, ParseErrorView, Step, at_end, check, level_rank};
use crate::lexer::{Token, TokenType, TokenView, lemma_token_views_push, token_views};
use crate::literal::Literal;
use crate::stmt::{
    Expr, ExprView, Stmt, StmtView, expr_views, lemma_block_view, lemma_call_view,
    lemma_expr_views_push, lemma_stmt_views_push, stmt_views,
};

verus! {

/// A syntax error: the token at which it was found, and what was expected.
#[derive(Debug, PartialEq)]
pub struct ParseError {
    pub token: Token,
    pub message: String,
}

impl View for ParseError {
    type V = ParseErrorView;

    open spec fn view(&self) -> ParseErrorView {
        ParseErrorView { token: self.token@, message: self.message@ }
    }
}

/// The views of a sequence of syntax errors.
pub open spec fn parse_error_views(errors: Seq<ParseError>) -> Seq<ParseErrorView> {
    errors.map_values(|e: ParseError| e@)
}

/// The views of a sequence with one more syntax error.
pub proof fn lemma_parse_error_views_push(errors: Seq<ParseError>, last: ParseError)
    ensures
        parse_error_views(errors.push(last)) == parse_error_views(errors).push(last@),
{
    assert(parse_error_views(errors.push(last)) =~= parse_error_views(errors).push(last@));
}

/// The view of an expression or the error in its place.
pub open spec fn expr_outcome(r: Result<Expr, ParseError>) -> Result<ExprView, ParseErrorView> {
    match r {
        Ok(expr) => Ok(expr@),
        Err(error) => Err(error@),
    }
}

/// The view of a statement or the error in its place.
pub open spec fn stmt_outcome(r: Result<Stmt, ParseError>) -> Result<StmtView, ParseErrorView> {
    match r {
        Ok(stmt) => Ok(stmt@),
        Err(error) => Err(error@),
    }
}

/// The views of a list of statements or the error in its place.
pub open spec fn program_outcome(r: Result<Vec<Stmt>, ParseError>) -> Result<
    Seq<StmtView>,
    ParseErrorView,
> {
    match r {
        Ok(stmts) => Ok(stmt_views(stmts@)),
        Err(error) => Err(error@),
    }
}

/// A parser over one token sequence.
pub struct Parser {
    pub tokens: Vec<Token>,
    /// The position of the next token.
    pub current: usize,
    /// The errors that were reported without stopping the parse.
    pub errors: Vec<ParseError>,
}

impl Parser {
    /// The tokens, over views.
    pub open spec fn input(&self) -> Seq<TokenView> {
        token_views(self.tokens@)
    }

    /// Where the parser stands.
    pub open spec fn cursor(&self) -> Cursor {
        Cursor { at: self.current as nat, reports: parse_error_views(self.errors@) }
    }

    /// The tokens end with the end-of-input token and the parser stands on
    /// one of them.
    pub open spec fn wf(&self) -> bool {
        &&& self.tokens.len() > 0
        &&& self.tokens@.last().token_type == TokenType::EOF
        &&& self.current < self.tokens.len()
    }

    /// From `before`, the parser took `step` and returned its result: it
    /// stands where the step ends, not before where it began.
    pub open spec fn stepped<T>(
        &self,
        before: &Parser,
        result: Result<T, ParseErrorView>,
        step: Step<T>,
    ) -> bool {
        &&& self.tokens == before.tokens
        &&& self.current >= before.current
        &&& self.cursor() == step.to
        &&& result == step.result
    }

    /// A parser at the first of the tokens, which end with the end-of-input
    /// token.
    pub fn new(tokens: Vec<Token>) -> (r: Self)
        requires
            tokens@.len() > 0,
            tokens@.last().token_type == TokenType::EOF,
        ensures
            r.wf(),
            r.tokens == tokens,
            r.cursor() == (Cursor { at: 0, reports: Seq::empty() }),
    {
        let r = Self { tokens, current: 0, errors: Vec::new() };
        assert(r.cursor().reports =~= Seq::empty());
        r
    }

    /// The next token.
    pub fn peek(&self) -> (r: &Token)
        requires
            self.wf(),
        ensures
            *r == self.tokens@[self.current as int],
            r@ == self.input()[self.current as int],
    {
        &self.tokens[self.current]
    }

    /// The token before the next one. The parser is not at its first token.
    pub fn previous(&self) -> (r: &Token)
        requires
            self.wf(),
            self.current > 0,
        ensures
            *r == self.tokens@[self.current - 1],
            r@ == self.input()[self.current - 1],
    {
        &self.tokens[self.current - 1]
    }

    /// Whether the next token ends the input.
    pub fn is_at_end(&self) -> (r: bool)
        requires
            self.wf(),
        ensures
            r == at_end(self.input(), self.current as nat),
    {
        self.peek().token_type == TokenType::EOF
    }

    /// Whether the next token has the given type; the end-of-input token has none.
    pub fn check(&self, token_type: &TokenType) -> (r: bool)
        requires
            self.wf(),
        ensures
            r == check(self.input(), self.current as nat, *token_type),
            r ==> self.current + 1 < self.tokens@.len(),
    {
        if self.is_at_end() {
            return false;
        }
        self.peek().token_type == *token_type
    }

    /// Moves past the next token unless it ends the input, and returns the
    /// token then before the parser. The parser is not at its first token
    /// with nothing to consume.
    pub fn advance(&mut self) -> (r: Token)
        requires
            old(self).wf(),
            old(self).current > 0 || !at_end(old(self).input(), old(self).current as nat),
        ensures
            final(self).wf(),
            final(self).tokens == old(self).tokens,
            final(self).errors == old(self).errors,
            final(self).current == if at_end(old(self).input(), old(self).current as nat) {
                old(self).current as int
            } else {
                old(self).current + 1
            },
            r == final(self).tokens@[final(self).current - 1],
            !at_end(old(self).input(), old(self).current as nat) ==> final(self).cursor() == old(
                self,
            ).cursor().next() && r@ == old(self).input()[old(self).current as int],
            at_end(old(self).input(), old(self).current as nat) ==> final(self).cursor() == old(
                self,
            ).cursor(),
    {
        if !self.is_at_end() {
            self.current += 1;
        }
        self.previous().clone()
    }

    /// Consumes the next token if it has one of the given types.
    pub fn match_token_type(&mut self, token_types: &[TokenType]) -> (r: bool)
        requires
            old(self).wf(),
        ensures
            final(self).wf(),
            final(self).tokens == old(self).tokens,
            final(self).errors == old(self).errors,
            r == (exists|i: int|
                0 <= i < token_types@.len() && check(
                    old(self).input(),
                    old(self).current as nat,
                    #[trigger] token_types@[i],
                )),
            final(self).current == if r {
                old(self).current + 1
            } else {
                old(self).current as int
            },
    {
        let mut i: usize = 0;
        while i < token_types.len()
            invariant
                i <= token_types@.len(),
                self.wf(),
                *self == *old(self),
                forall|j: int|
                    0 <= j < i ==> !check(
                        self.input(),
                        self.current as nat,
                        #[trigger] token_types@[j],
                    ),
            decreases token_types.len() - i,
        {
            if self.check(&token_types[i]) {
                self.advance();
                return true;
            }
            i += 1;
        }
        false
    }

    /// Consumes the next token if it has the given type.
    fn accept(&mut self, token_type: TokenType) -> (r: bool)
        requires
            old(self).wf(),
        ensures
            final(self).wf(),
            final(self).tokens == old(self).tokens,
            final(self).errors == old(self).errors,
            r == check(old(self).input(), old(self).current as nat, token_type),
            r ==> final(self).cursor() == old(self).cursor().next(),
            !r ==> final(self).cursor() == old(self).cursor(),
    {
        if self.check(&token_type) {
            self.current += 1;
            true
        } else {
            false
        }
    }

    /// Moves past the next token, which does not end the input.
    fn bump(&mut self)
        requires
            old(self).wf(),
            !at_end(old(self).input(), old(self).current as nat),
        ensures
            final(self).wf(),
            final(self).tokens == old(self).tokens,
            final(self).errors == old(self).errors,
            final(self).cursor() == old(self).cursor().next(),
    {
        self.current += 1;
    }

    /// Moves past the next token, which does not end the input, and returns it.
    fn take(&mut self) -> (r: Token)
        requires
            old(self).wf(),
            !at_end(old(self).input(), old(self).current as nat),
        ensures
            final(self).wf(),
            final(self).tokens == old(self).tokens,
            final(self).errors == old(self).errors,
            final(self).cursor() == old(self).cursor().next(),
            r == old(self).tokens@[old(self).current as int],
            r@ == old(self).input()[old(self).current as int],
    {
        let token = self.peek().clone();
        self.current += 1;
        token
    }

    /// An error at the next token.
    fn error_here(&self, message: &str) -> (r: ParseError)
        requires
            self.wf(),
        ensures
            r@ == (ParseErrorView { token: self.input()[self.current as int], message: message@ }),
    {
        ParseError { token: self.peek().clone(), message: message.to_owned() }
    }

    /// Reports an error at the next token and goes on.
    fn report(&mut self, message: &str)
        requires
            old(self).wf(),
        ensures
            final(self).wf(),
            final(self).tokens == old(self).tokens,
            final(self).current == old(self).current,
            final(self).cursor() == old(self).cursor().reporting(
                ParseErrorView {
                    token: old(self).input()[old(self).current as int],
                    message: message@,
                },
            ),
    {
        let error = self.error_here(message);
        let ghost reports = self.errors@;
        self.errors.push(error);
        proof {
            lemma_parse_error_views_push(reports, error);
        }
    }

    /// Consumes the next token if it has the given type, and fails with the
    /// message at that token if it has not.
    pub fn consume(
        &mut self,
        token_type: TokenType,
        message: &str,
    ) -> (r: Result<Token, ParseError>)
        requires
            old(self).wf(),
        ensures
            final(self).wf(),
            final(self).tokens == old(self).tokens,
            final(self).errors == old(self).errors,
            r is Ok == check(old(self).input(), old(self).current as nat, token_type),
            r is Ok ==> final(self).cursor() == old(self).cursor().next(),
            r is Ok ==> r->Ok_0 == old(self).tokens@[old(self).current as int],
            r is Ok ==> r->Ok_0@ == old(self).input()[old(self).current as int],
            r is Err ==> final(self).cursor() == old(self).cursor(),
            r is Err ==> r->Err_0@ == (ParseErrorView {
                token: old(self).input()[old(self).current as int],
                message: message@,
            }),
    {
        if self.check(&token_type) {
            Ok(self.advance())
        } else {
            Err(self.error_here(message))
        }
    }

    /// Reads the whole token sequence as a list of declarations.
    pub fn parse(&mut self) -> (r: Result<Vec<Stmt>, ParseError>)
        requires
            old(self).wf(),
        ensures
            final(self).wf(),
            final(self).stepped(
                old(self),
                program_outcome(r),
                grammar::program(old(self).input(), old(self).cursor()),
            ),
    {
        let ghost input = self.input();
        let ghost target = grammar::program(input, self.cursor());
        let mut statements: Vec<Stmt> = Vec::new();
        assert(stmt_views(statements@) =~= Seq::<StmtView>::empty());
        while !self.is_at_end()
            invariant
                self.wf(),
                self.tokens == old(self).tokens,
                self.current >= old(self).current,
                input == self.input(),
                target == grammar::program(input, old(self).cursor()),
                target == grammar::program_tail(input, self.cursor(), stmt_views(statements@)),
            decreases self.tokens.len() - self.current,
        {
            let ghost before = statements@;
            match self.declaration() {
                Ok(statement) => {
                    statements.push(statement);
                    proof {
                        lemma_stmt_views_push(before, statement);
                    }
                },
                Err(error) => {
                    return Err(error);
                },
            }
        }
        Ok(statements)
    }

    /// Reads a declaration: of a variable, of a function, or a statement.
    pub fn declaration(&mut self) -> (r: Result<Stmt, ParseError>)
        requires
            old(self).wf(),
        ensures
            final(self).wf(),
            final(self).stepped(
                old(self),
                stmt_outcome(r),
                grammar::declaration(old(self).input(), old(self).cursor()),
            ),
            r is Ok ==> final(self).current > old(self).current,
        decreases old(self).tokens.len() - old(self).current, 2nat,
    {
        match self.peek().token_type {
            TokenType::Let => {
                self.bump();
                self.var_declaration()
            },
            TokenType::Fn => {
                self.bump();
                self.fn_declaration("function")
            },
            _ => self.statement(),
        }
    }

    /// The message that a missing part of a declaration of the given kind
    /// gives: `before`, the kind, `after`.
    fn expected(before: &str, kind: &str, after: &str) -> (r: String)
        ensures
            r@ == before@ + kind@ + after@,
    {
        let mut message = before.to_owned();
        message.append(kind);
        message.append(after);
        message
    }

    /// Reads the name and the parameters of a function, up to the opening
    /// brace of its body.
    fn function_header(&mut self, kind: &str) -> (r: Result<(Token, Vec<Token>), ParseError>)
        requires
            old(self).wf(),
        ensures
            final(self).wf(),
            final(self).stepped(
                old(self),
                match r {
                    Ok(header) => Ok((header.0@, token_views(header.1@))),
                    Err(error) => Err(error@),
                },
                grammar::function_header(old(self).input(), old(self).cursor(), kind@),
            ),
            r is Ok ==> final(self).current > old(self).current,
    {
        let ghost input = self.input();
        let message = Self::expected("Expected ", kind, " name");
        let name = match self.consume(TokenType::Identifier, message.as_str()) {
            Ok(token) => token,
            Err(error) => {
                return Err(error);
            },
        };
        let message = Self::expected("Expected '(' after ", kind, " name");
        match self.consume(TokenType::LeftParen, message.as_str()) {
            Ok(_) => {},
            Err(error) => {
                return Err(error);
            },
        }
        let ghost c1 = self.cursor();
        let mut parameters: Vec<Token> = Vec::new();
        assert(token_views(parameters@) =~= Seq::<TokenView>::empty());
        let ghost target = if check(input, c1.at, TokenType::RightParen) {
            grammar::done(c1, Seq::<TokenView>::empty())
        } else {
            grammar::parameters_tail(input, c1, Seq::<TokenView>::empty())
        };
        let mut more = !self.check(&TokenType::RightParen);
        while more
            invariant
                self.wf(),
                self.tokens == old(self).tokens,
                input == self.input(),
                self.current >= c1.at,
                c1 == old(self).cursor().next().next(),
                name@ == input[old(self).current as int],
                check(input, old(self).cursor().at, TokenType::Identifier),
                check(input, old(self).cursor().at + 1, TokenType::LeftParen),
                target == if check(input, c1.at, TokenType::RightParen) {
                    grammar::done(c1, Seq::<TokenView>::empty())
                } else {
                    grammar::parameters_tail(input, c1, Seq::<TokenView>::empty())
                },
                more ==> target == grammar::parameters_tail(
                    input,
                    self.cursor(),
                    token_views(parameters@),
                ),
                !more ==> target == grammar::done(self.cursor(), token_views(parameters@)),
            decreases self.tokens.len() - self.current + if more { 1int } else { 0int },
        {
            if parameters.len() >= 255 {
                return Err(self.error_here("Can't have more than 255 parameters."));
            }
            let ghost before = parameters@;
            match self.consume(TokenType::Identifier, "Expected parameter name") {
                Ok(token) => {
                    parameters.push(token);
                    proof {
                        lemma_token_views_push(before, token);
                    }
                },
                Err(error) => {
                    return Err(error);
                },
            }
            more = self.accept(TokenType::Comma);
        }
        match self.consume(TokenType::RightParen, "Expected ')' after parameters") {
            Ok(_) => {},
            Err(error) => {
                return Err(error);
            },
        }
        let message = Self::expected("Expected '{' before ", kind, " body");
        match self.consume(TokenType::LeftBrace, message.as_str()) {
            Ok(_) => {},
            Err(error) => {
                return Err(error);
            },
        }
        Ok((name, parameters))
    }

    /// Reads the name, the parameters and the body of a function, after `fn`.
    pub fn fn_declaration(&mut self, kind: &str) -> (r: Result<Stmt, ParseError>)
        requires
            old(self).wf(),
        ensures
            final(self).wf(),
            final(self).stepped(
                old(self),
                stmt_outcome(r),
                grammar::fn_declaration(old(self).input(), old(self).cursor(), kind@),
            ),
            r is Ok ==> final(self).current > old(self).current,
        decreases old(self).tokens.len() - old(self).current, 0nat,
    {
        let (name, parameters) = match self.function_header(kind) {
            Ok(header) => header,
            Err(error) => {
                return Err(error);
            },
        };
        match self.block() {
            Ok(body) => Ok(Stmt::Function(name, parameters, Box::new(body))),
            Err(error) => Err(error),
        }
    }

    /// Reads an expression and the token that closes it.
    fn closed_expression(
        &mut self,
        closing: TokenType,
        message: &str,
    ) -> (r: Result<Expr, ParseError>)
        requires
            old(self).wf(),
        ensures
            final(self).wf(),
            final(self).stepped(
                old(self),
                expr_outcome(r),
                grammar::closed_expression(
                    old(self).input(),
                    old(self).cursor(),
                    closing,
                    message@,
                ),
            ),
            r is Ok ==> final(self).current > old(self).current,
        decreases old(self).tokens.len() - old(self).current, 19nat,
    {
        reveal(grammar::closed_expression);
        let expr = match self.expression() {
            Ok(expr) => expr,
            Err(error) => {
                return Err(error);
            },
        };
        match self.consume(closing, message) {
            Ok(_) => Ok(expr),
            Err(error) => Err(error),
        }
    }

    /// Reads the name and the initializer of a variable, after `let`.
    pub fn var_declaration(&mut self) -> (r: Result<Stmt, ParseError>)
        requires
            old(self).wf(),
        ensures
            final(self).wf(),
            final(self).stepped(
                old(self),
                stmt_outcome(r),
                grammar::var_declaration(old(self).input(), old(self).cursor()),
            ),
            r is Ok ==> final(self).current > old(self).current,
    {
        reveal(grammar::var_declaration);
        let name = match self.consume(TokenType::Identifier, "Expected variable name") {
            Ok(token) => token,
            Err(error) => {
                return Err(error);
            },
        };
        if self.accept(TokenType::Equal) {
            match self.closed_expression(TokenType::Semicolon, "Expected ';'") {
                Ok(initializer) => Ok(Stmt::Var(name, initializer)),
                Err(error) => Err(error),
            }
        } else {
            match self.consume(TokenType::Semicolon, "Expected ';'") {
                Ok(_) => Ok(Stmt::Var(name, Expr::Literal(Literal::Null))),
                Err(error) => Err(error),
            }
        }
    }

    /// Reads a statement.
    pub fn statement(&mut self) -> (r: Result<Stmt, ParseError>)
        requires
            old(self).wf(),
        ensures
            final(self).wf(),
            final(self).stepped(
                old(self),
                stmt_outcome(r),
                grammar::statement(old(self).input(), old(self).cursor()),
            ),
            r is Ok ==> final(self).current > old(self).current,
        decreases old(self).tokens.len() - old(self).current, 1nat,
    {
        match self.peek().token_type {
            TokenType::Print => {
                self.bump();
                self.print_statement()
            },
            TokenType::LeftBrace => {
                self.bump();
                self.block()
            },
            TokenType::If => {
                self.bump();
                self.if_statement()
            },
            TokenType::While => {
                self.bump();
                self.while_statement()
            },
            TokenType::For => {
                self.bump();
                self.for_statement()
            },
            TokenType::Return => {
                self.bump();
                self.return_statement()
            },
            _ => self.expression_statement(),
        }
    }

    /// Reads the value of a `print` statement, after `print`.
    pub fn print_statement(&mut self) -> (r: Result<Stmt, ParseError>)
        requires
            old(self).wf(),
        ensures
            final(self).wf(),
            final(self).stepped(
                old(self),
                stmt_outcome(r),
                grammar::print_statement(old(self).input(), old(self).cursor()),
            ),
            r is Ok ==> final(self).current > old(self).current,
    {
        reveal(grammar::print_statement);
        match self.closed_expression(TokenType::Semicolon, "';' expected.") {
            Ok(expr) => Ok(Stmt::Print(expr)),
            Err(error) => Err(error),
        }
    }

    /// Reads the value of a `return` statement, after `return`.
    pub fn return_statement(&mut self) -> (r: Result<Stmt, ParseError>)
        requires
            old(self).wf(),
            old(self).current > 0,
        ensures
            final(self).wf(),
            final(self).stepped(
                old(self),
                stmt_outcome(r),
                grammar::return_statement(
                    old(self).input(),
                    old(self).cursor(),
                    old(self).input()[old(self).current - 1],
                ),
            ),
            r is Ok ==> final(self).current > old(self).current,
    {
        reveal(grammar::return_statement);
        let keyword = self.previous().clone();
        if self.accept(TokenType::Semicolon) {
            return Ok(Stmt::Return(keyword, Expr::Absent));
        }
        match self.closed_expression(TokenType::Semicolon, "Expected ';' after return value.") {
            Ok(value) => Ok(Stmt::Return(keyword, value)),
            Err(error) => Err(error),
        }
    }

    /// Reads an expression and the semicolon that makes it a statement.
    pub fn expression_statement(&mut self) -> (r: Result<Stmt, ParseError>)
        requires
            old(self).wf(),
        ensures
            final(self).wf(),
            final(self).stepped(
                old(self),
                stmt_outcome(r),
                grammar::expression_statement(old(self).input(), old(self).cursor()),
            ),
            r is Ok ==> final(self).current > old(self).current,
    {
        reveal(grammar::expression_statement);
        match self.closed_expression(TokenType::Semicolon, "';' expected.") {
            Ok(expr) => Ok(Stmt::Expression(expr)),
            Err(error) => Err(error),
        }
    }

    /// Reads a condition in parentheses.
    fn condition(&mut self) -> (r: Result<Expr, ParseError>)
        requires
            old(self).wf(),
        ensures
            final(self).wf(),
            final(self).stepped(
                old(self),
                expr_outcome(r),
                grammar::condition(old(self).input(), old(self).cursor()),
            ),
            r is Ok ==> final(self).current > old(self).current,
    {
        match self.consume(TokenType::LeftParen, "Expected '(' before expression.") {
            Ok(_) => {},
            Err(error) => {
                return Err(error);
            },
        }
        self.closed_expression(TokenType::RightParen, "Expected ')' after expression.")
    }

    /// Reads the branches of an `if` statement, after its condition.
    fn branches(&mut self, test: Expr) -> (r: Result<Stmt, ParseError>)
        requires
            old(self).wf(),
        ensures
            final(self).wf(),
            final(self).stepped(
                old(self),
                stmt_outcome(r),
                grammar::branches(old(self).input(), old(self).cursor(), test@),
            ),
            r is Ok ==> final(self).current > old(self).current,
        decreases old(self).tokens.len() - old(self).current, 2nat,
    {
        let then_stmt = match self.statement() {
            Ok(stmt) => stmt,
            Err(error) => {
                return Err(error);
            },
        };
        if self.accept(TokenType::Else) {
            match self.statement() {
                Ok(else_stmt) => Ok(Stmt::If(test, Box::new(then_stmt), Box::new(else_stmt))),
                Err(error) => Err(error),
            }
        } else {
            let else_stmt = Stmt::Absent;
            assert(else_stmt@ == StmtView::Absent);
            Ok(Stmt::If(test, Box::new(then_stmt), Box::new(else_stmt)))
        }
    }

    /// Reads the condition and the branches of an `if` statement, after `if`.
    pub fn if_statement(&mut self) -> (r: Result<Stmt, ParseError>)
        requires
            old(self).wf(),
        ensures
            final(self).wf(),
            final(self).stepped(
                old(self),
                stmt_outcome(r),
                grammar::if_statement(old(self).input(), old(self).cursor()),
            ),
            r is Ok ==> final(self).current > old(self).current,
        decreases old(self).tokens.len() - old(self).current, 0nat,
    {
        let expr = match self.condition() {
            Ok(expr) => expr,
            Err(error) => {
                return Err(error);
            },
        };
        self.branches(expr)
    }

    /// Reads the condition and the body of a `while` statement, after `while`.
    pub fn while_statement(&mut self) -> (r: Result<Stmt, ParseError>)
        requires
            old(self).wf(),
        ensures
            final(self).wf(),
            final(self).stepped(
                old(self),
                stmt_outcome(r),
                grammar::while_statement(old(self).input(), old(self).cursor()),
            ),
            r is Ok ==> final(self).current > old(self).current,
        decreases old(self).tokens.len() - old(self).current, 0nat,
    {
        let condition = match self.condition() {
            Ok(expr) => expr,
            Err(error) => {
                return Err(error);
            },
        };
        match self.statement() {
            Ok(body) => Ok(Stmt::While(condition, Box::new(body))),
            Err(error) => Err(error),
        }
    }

    /// Reads a clause of a `for` statement that may be left out, and the
    /// token that closes it.
    fn for_clause(&mut self, closing: TokenType, message: &str) -> (r: Result<Expr, ParseError>)
        requires
            old(self).wf(),
        ensures
            final(self).wf(),
            final(self).stepped(
                old(self),
                expr_outcome(r),
                grammar::for_clause(old(self).input(), old(self).cursor(), closing, message@),
            ),
            r is Ok ==> final(self).current > old(self).current,
    {
        reveal(grammar::for_clause);
        if self.accept(closing) {
            return Ok(Expr::Absent);
        }
        self.closed_expression(closing, message)
    }

    /// Reads the opening parenthesis and the initializer of a `for` statement.
    fn for_initializer(&mut self) -> (r: Result<Stmt, ParseError>)
        requires
            old(self).wf(),
        ensures
            final(self).wf(),
            final(self).stepped(
                old(self),
                stmt_outcome(r),
                grammar::for_initializer(old(self).input(), old(self).cursor()),
            ),
            r is Ok ==> final(self).current > old(self).current,
    {
        match self.consume(TokenType::LeftParen, "Expected '(' before expressions.") {
            Ok(_) => {},
            Err(error) => {
                return Err(error);
            },
        }
        if self.accept(TokenType::Semicolon) {
            Ok(Stmt::Absent)
        } else if self.accept(TokenType::Let) {
            self.var_declaration()
        } else {
            self.expression_statement()
        }
    }

    /// Reads the three clauses of a `for` statement, after `for`.
    fn for_clauses(&mut self) -> (r: Result<(Stmt, Expr, Expr), ParseError>)
        requires
            old(self).wf(),
        ensures
            final(self).wf(),
            final(self).stepped(
                old(self),
                match r {
                    Ok(clauses) => Ok((clauses.0@, clauses.1@, clauses.2@)),
                    Err(error) => Err(error@),
                },
                grammar::for_clauses(old(self).input(), old(self).cursor()),
            ),
            r is Ok ==> final(self).current > old(self).current,
    {
        let initializer = match self.for_initializer() {
            Ok(stmt) => stmt,
            Err(error) => {
                return Err(error);
            },
        };
        let condition = match self.for_clause(
            TokenType::Semicolon,
            "Expected ';' after loop condition.",
        ) {
            Ok(expr) => expr,
            Err(error) => {
                return Err(error);
            },
        };
        match self.for_clause(TokenType::RightParen, "Expected ')' after for clauses.") {
            Ok(increment) => Ok((initializer, condition, increment)),
            Err(error) => Err(error),
        }
    }

    /// The loop that a `for` statement with the given clauses and body
    /// stands for.
    fn for_loop(initializer: Stmt, condition: Expr, increment: Expr, body: Stmt) -> (r: Stmt)
        ensures
            r@ == grammar::for_loop(initializer@, condition@, increment@, body@),
    {
        let ghost inner = body@;
        let ghost step = increment@;
        let stepped = match increment {
            Expr::Absent => body,
            increment => {
                let mut pair: Vec<Stmt> = Vec::new();
                pair.push(body);
                pair.push(Stmt::Expression(increment));
                proof {
                    lemma_block_view(pair);
                    assert(stmt_views(pair@) =~= seq![inner, StmtView::Expression(step)]);
                }
                Stmt::Block(pair)
            },
        };
        let test = match condition {
            Expr::Absent => Expr::Literal(Literal::Bool(true)),
            condition => condition,
        };
        let repeated = Stmt::While(test, Box::new(stepped));
        let ghost first = initializer@;
        let ghost second = repeated@;
        match initializer {
            Stmt::Absent => repeated,
            initializer => {
                let mut pair: Vec<Stmt> = Vec::new();
                pair.push(initializer);
                pair.push(repeated);
                proof {
                    lemma_block_view(pair);
                    assert(stmt_views(pair@) =~= seq![first, second]);
                }
                Stmt::Block(pair)
            },
        }
    }

    /// Reads the clauses and the body of a `for` statement, after `for`, and
    /// builds the loop that it stands for.
    pub fn for_statement(&mut self) -> (r: Result<Stmt, ParseError>)
        requires
            old(self).wf(),
        ensures
            final(self).wf(),
            final(self).stepped(
                old(self),
                stmt_outcome(r),
                grammar::for_statement(old(self).input(), old(self).cursor()),
            ),
            r is Ok ==> final(self).current > old(self).current,
        decreases old(self).tokens.len() - old(self).current, 0nat,
    {
        let (initializer, condition, increment) = match self.for_clauses() {
            Ok(clauses) => clauses,
            Err(error) => {
                return Err(error);
            },
        };
        match self.statement() {
            Ok(body) => Ok(Self::for_loop(initializer, condition, increment, body)),
            Err(error) => Err(error),
        }
    }

    /// Reads the declarations of a block and its closing brace, after the
    /// opening brace.
    pub fn block(&mut self) -> (r: Result<Stmt, ParseError>)
        requires
            old(self).wf(),
        ensures
            final(self).wf(),
            final(self).stepped(
                old(self),
                stmt_outcome(r),
                grammar::block(old(self).input(), old(self).cursor()),
            ),
            r is Ok ==> final(self).current > old(self).current,
        decreases old(self).tokens.len() - old(self).current, 4nat,
    {
        let ghost input = self.input();
        let ghost target = grammar::block_tail(input, self.cursor(), Seq::<StmtView>::empty());
        let mut statements: Vec<Stmt> = Vec::new();
        assert(stmt_views(statements@) =~= Seq::<StmtView>::empty());
        while !self.check(&TokenType::RightBrace) && !self.is_at_end()
            invariant
                self.wf(),
                self.tokens == old(self).tokens,
                self.current >= old(self).current,
                input == self.input(),
                target == grammar::block_tail(input, old(self).cursor(), Seq::<StmtView>::empty()),
                target == grammar::block_tail(input, self.cursor(), stmt_views(statements@)),
            decreases self.tokens.len() - self.current,
        {
            let ghost before = statements@;
            match self.declaration() {
                Ok(statement) => {
                    statements.push(statement);
                    proof {
                        lemma_stmt_views_push(before, statement);
                    }
                },
                Err(error) => {
                    return Err(error);
                },
            }
        }
        match self.consume(TokenType::RightBrace, "Expected '}'.") {
            Ok(_) => {},
            Err(error) => {
                return Err(error);
            },
        }
        proof {
            lemma_block_view(statements);
        }
        Ok(Stmt::Block(statements))
    }

    /// Reads an expression.
    pub fn expression(&mut self) -> (r: Result<Expr, ParseError>)
        requires
            old(self).wf(),
        ensures
            final(self).wf(),
            final(self).stepped(
                old(self),
                expr_outcome(r),
                grammar::expression(old(self).input(), old(self).cursor()),
            ),
        decreases old(self).tokens.len() - old(self).current, 18nat,
    {
        self.assignment()
    }

    /// Reads an assignment, or an expression of the next level.
    pub fn assignment(&mut self) -> (r: Result<Expr, ParseError>)
        requires
            old(self).wf(),
        ensures
            final(self).wf(),
            final(self).stepped(
                old(self),
                expr_outcome(r),
                grammar::assignment(old(self).input(), old(self).cursor()),
            ),
        decreases old(self).tokens.len() - old(self).current, 17nat,
    {
        let expr = match self.or() {
            Ok(expr) => expr,
            Err(error) => {
                return Err(error);
            },
        };
        if self.check(&TokenType::Equal) {
            let equals = self.take();
            let value = match self.assignment() {
                Ok(value) => value,
                Err(error) => {
                    return Err(error);
                },
            };
            match expr {
                Expr::Variable(name) => {
                    return Ok(Expr::Assign(name, Box::new(value)));
                },
                _ => {
                    return Err(
                        ParseError {
                            token: equals,
                            message: "invalid assignment target.".to_owned(),
                        },
                    );
                },
            }
        }
        Ok(expr)
    }

    /// Whether the next token is an operator of the level.
    fn level_operator(&self, level: Level) -> (r: bool)
        requires
            self.wf(),
        ensures
            r == grammar::level_operator(level, self.input(), self.current as nat),
            r ==> !at_end(self.input(), self.current as nat),
    {
        match level {
            Level::Or => self.check(&TokenType::Or),
            Level::And => self.check(&TokenType::And),
            Level::Equality => self.check(&TokenType::BangEqual) || self.check(
                &TokenType::EqualEqual,
            ),
            Level::Comparison => self.check(&TokenType::Greater) || self.check(
                &TokenType::GreaterEqual,
            ) || self.check(&TokenType::Less) || self.check(&TokenType::LessEqual),
            Level::Term => self.check(&TokenType::Plus) || self.check(&TokenType::Minus),
            Level::Factor => self.check(&TokenType::Star) || self.check(&TokenType::Slash),
        }
    }

    /// Reads an operand of an operator of the level.
    fn operand(&mut self, level: Level) -> (r: Result<Expr, ParseError>)
        requires
            old(self).wf(),
        ensures
            final(self).wf(),
            final(self).stepped(
                old(self),
                expr_outcome(r),
                grammar::operand(old(self).input(), old(self).cursor(), level),
            ),
        decreases old(self).tokens.len() - old(self).current, 2 + 2 * level_rank(level),
    {
        match level {
            Level::Or => self.binary(Level::And),
            Level::And => self.binary(Level::Equality),
            Level::Equality => self.binary(Level::Comparison),
            Level::Comparison => self.binary(Level::Term),
            Level::Term => self.binary(Level::Factor),
            Level::Factor => self.unary(),
        }
    }

    /// The node that an operator of the level makes of its operands.
    fn level_node(level: Level, left: Expr, operator: Token, right: Expr) -> (r: Expr)
        ensures
            r@ == grammar::level_node(level, left@, operator@, right@),
    {
        match level {
            Level::Or => Expr::Logical(Box::new(left), operator, Box::new(right)),
            Level::And => Expr::Logical(Box::new(left), operator, Box::new(right)),
            _ => Expr::Binary(Box::new(left), operator, Box::new(right)),
        }
    }

    /// Reads the operands and operators of one precedence level, folding
    /// them to the left.
    fn binary(&mut self, level: Level) -> (r: Result<Expr, ParseError>)
        requires
            old(self).wf(),
        ensures
            final(self).wf(),
            final(self).stepped(
                old(self),
                expr_outcome(r),
                grammar::binary(old(self).input(), old(self).cursor(), level),
            ),
        decreases old(self).tokens.len() - old(self).current, 3 + 2 * level_rank(level),
    {
        let ghost input = self.input();
        let ghost target = grammar::binary(input, self.cursor(), level);
        let mut expr = match self.operand(level) {
            Ok(expr) => expr,
            Err(error) => {
                return Err(error);
            },
        };
        while self.level_operator(level)
            invariant
                self.wf(),
                self.tokens == old(self).tokens,
                self.current >= old(self).current,
                input == self.input(),
                target == grammar::binary(input, old(self).cursor(), level),
                target == grammar::binary_tail(input, self.cursor(), level, expr@),
            decreases self.tokens.len() - self.current,
        {
            let operator = self.take();
            let right = match self.operand(level) {
                Ok(expr) => expr,
                Err(error) => {
                    return Err(error);
                },
            };
            expr = Self::level_node(level, expr, operator, right);
        }
        Ok(expr)
    }

    /// Reads the operands of `or`.
    pub fn or(&mut self) -> (r: Result<Expr, ParseError>)
        requires
            old(self).wf(),
        ensures
            final(self).wf(),
            final(self).stepped(
                old(self),
                expr_outcome(r),
                grammar::binary(old(self).input(), old(self).cursor(), Level::Or),
            ),
        decreases old(self).tokens.len() - old(self).current, 16nat,
    {
        self.binary(Level::Or)
    }

    /// Reads the operands of `and`.
    pub fn and(&mut self) -> (r: Result<Expr, ParseError>)
        requires
            old(self).wf(),
        ensures
            final(self).wf(),
            final(self).stepped(
                old(self),
                expr_outcome(r),
                grammar::binary(old(self).input(), old(self).cursor(), Level::And),
            ),
    {
        self.binary(Level::And)
    }

    /// Reads the operands of `==` and `!=`.
    pub fn equality(&mut self) -> (r: Result<Expr, ParseError>)
        requires
            old(self).wf(),
        ensures
            final(self).wf(),
            final(self).stepped(
                old(self),
                expr_outcome(r),
                grammar::binary(old(self).input(), old(self).cursor(), Level::Equality),
            ),
    {
        self.binary(Level::Equality)
    }

    /// Reads the operands of `<`, `<=`, `>` and `>=`.
    pub fn comparison(&mut self) -> (r: Result<Expr, ParseError>)
        requires
            old(self).wf(),
        ensures
            final(self).wf(),
            final(self).stepped(
                old(self),
                expr_outcome(r),
                grammar::binary(old(self).input(), old(self).cursor(), Level::Comparison),
            ),
    {
        self.binary(Level::Comparison)
    }

    /// Reads the operands of `+` and `-`.
    pub fn term(&mut self) -> (r: Result<Expr, ParseError>)
        requires
            old(self).wf(),
        ensures
            final(self).wf(),
            final(self).stepped(
                old(self),
                expr_outcome(r),
                grammar::binary(old(self).input(), old(self).cursor(), Level::Term),
            ),
    {
        self.binary(Level::Term)
    }

    /// Reads the operands of `*` and `/`.
    pub fn factor(&mut self) -> (r: Result<Expr, ParseError>)
        requires
            old(self).wf(),
        ensures
            final(self).wf(),
            final(self).stepped(
                old(self),
                expr_outcome(r),
                grammar::binary(old(self).input(), old(self).cursor(), Level::Factor),
            ),
    {
        self.binary(Level::Factor)
    }

    /// Reads a unary expression, or a call.
    pub fn unary(&mut self) -> (r: Result<Expr, ParseError>)
        requires
            old(self).wf(),
        ensures
            final(self).wf(),
            final(self).stepped(
                old(self),
                expr_outcome(r),
                grammar::unary(old(self).input(), old(self).cursor()),
            ),
        decreases old(self).tokens.len() - old(self).current, 3nat,
    {
        if self.check(&TokenType::Bang) || self.check(&TokenType::Minus) {
            let operator = self.take();
            match self.unary() {
                Ok(right) => Ok(Expr::Unary(operator, Box::new(right))),
                Err(error) => Err(error),
            }
        } else {
            self.call()
        }
    }

    /// Reads a primary expression and the calls made of it.
    pub fn call(&mut self) -> (r: Result<Expr, ParseError>)
        requires
            old(self).wf(),
        ensures
            final(self).wf(),
            final(self).stepped(
                old(self),
                expr_outcome(r),
                grammar::call(old(self).input(), old(self).cursor()),
            ),
        decreases old(self).tokens.len() - old(self).current, 2nat,
    {
        let ghost input = self.input();
        let ghost target = grammar::call(input, self.cursor());
        let mut expr = match self.primary() {
            Ok(expr) => expr,
            Err(error) => {
                return Err(error);
            },
        };
        while self.check(&TokenType::LeftParen)
            invariant
                self.wf(),
                self.tokens == old(self).tokens,
                self.current >= old(self).current,
                input == self.input(),
                target == grammar::call(input, old(self).cursor()),
                target == grammar::call_tail(input, self.cursor(), expr@),
            decreases self.tokens.len() - self.current,
        {
            self.bump();
            expr = match self.finish_call(expr) {
                Ok(expr) => expr,
                Err(error) => {
                    return Err(error);
                },
            };
        }
        Ok(expr)
    }

    /// Reads one argument of a call that has `count` arguments before it, and
    /// reports it if it is one too many.
    fn argument(&mut self, count: usize) -> (r: Result<Expr, ParseError>)
        requires
            old(self).wf(),
        ensures
            final(self).wf(),
            count >= 255 ==> final(self).stepped(
                old(self),
                expr_outcome(r),
                grammar::expression(
                    old(self).input(),
                    old(self).cursor().reporting(
                        ParseErrorView {
                            token: old(self).input()[old(self).current as int],
                            message: "Can't have more than 255 arguments."@,
                        },
                    ),
                ),
            ),
            count < 255 ==> final(self).stepped(
                old(self),
                expr_outcome(r),
                grammar::expression(old(self).input(), old(self).cursor()),
            ),
        decreases old(self).tokens.len() - old(self).current, 19nat,
    {
        if count >= 255 {
            self.report("Can't have more than 255 arguments.");
            self.expression()
        } else {
            self.expression()
        }
    }

    /// Reads the arguments and the closing parenthesis of a call, after the
    /// opening parenthesis.
    pub fn finish_call(&mut self, callee: Expr) -> (r: Result<Expr, ParseError>)
        requires
            old(self).wf(),
        ensures
            final(self).wf(),
            final(self).stepped(
                old(self),
                expr_outcome(r),
                grammar::finish_call(old(self).input(), old(self).cursor(), callee@),
            ),
        decreases old(self).tokens.len() - old(self).current, 20nat,
    {
        let ghost input = self.input();
        let ghost c0 = self.cursor();
        let ghost target = if check(input, c0.at, TokenType::RightParen) {
            grammar::done(c0, Seq::<ExprView>::empty())
        } else {
            grammar::arguments_tail(input, c0, Seq::<ExprView>::empty())
        };
        let mut arguments: Vec<Expr> = Vec::new();
        assert(expr_views(arguments@) =~= Seq::<ExprView>::empty());
        let mut more = !self.check(&TokenType::RightParen);
        while more
            invariant
                self.wf(),
                self.tokens == old(self).tokens,
                self.current >= old(self).current,
                input == self.input(),
                c0 == old(self).cursor(),
                target == if check(input, c0.at, TokenType::RightParen) {
                    grammar::done(c0, Seq::<ExprView>::empty())
                } else {
                    grammar::arguments_tail(input, c0, Seq::<ExprView>::empty())
                },
                more ==> target == grammar::arguments_tail(
                    input,
                    self.cursor(),
                    expr_views(arguments@),
                ),
                !more ==> target == grammar::done(self.cursor(), expr_views(arguments@)),
            decreases self.tokens.len() - self.current + if more { 1int } else { 0int },
        {
            let ghost before = arguments@;
            match self.argument(arguments.len()) {
                Ok(argument) => {
                    arguments.push(argument);
                    proof {
                        lemma_expr_views_push(before, argument);
                    }
                },
                Err(error) => {
                    return Err(error);
                },
            }
            more = self.accept(TokenType::Comma);
        }
        let paren = match self.consume(TokenType::RightParen, "Expected ')' after arguments.") {
            Ok(token) => token,
            Err(error) => {
                return Err(error);
            },
        };
        proof {
            lemma_call_view(callee, paren, arguments);
        }
        Ok(Expr::Call(Box::new(callee), paren, arguments))
    }

    /// Reads a literal, a variable or an expression in parentheses.
    pub fn primary(&mut self) -> (r: Result<Expr, ParseError>)
        requires
            old(self).wf(),
        ensures
            final(self).wf(),
            final(self).stepped(
                old(self),
                expr_outcome(r),
                grammar::primary(old(self).input(), old(self).cursor()),
            ),
        decreases old(self).tokens.len() - old(self).current, 0nat,
    {
        reveal(grammar::closed_expression);
        match self.peek().token_type {
            TokenType::True => {
                self.bump();
                Ok(Expr::Literal(Literal::Bool(true)))
            },
            TokenType::False => {
                self.bump();
                Ok(Expr::Literal(Literal::Bool(false)))
            },
            TokenType::Number | TokenType::String => {
                let token = self.take();
                Ok(Expr::Literal(token.literal))
            },
            TokenType::LeftParen => {
                self.bump();
                match self.closed_expression(
                    TokenType::RightParen,
                    "Expected ')' after expression.",
                ) {
                    Ok(expr) => Ok(Expr::Grouping(Box::new(expr))),
                    Err(error) => Err(error),
                }
            },
            TokenType::Nil => {
                self.bump();
                Ok(Expr::Literal(Literal::Null))
            },
            TokenType::Identifier => Ok(Expr::Variable(self.take())),
            _ => Err(self.error_here("Unable to parse the provided expression")),
        }
    }
}

} // verus!
