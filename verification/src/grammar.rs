//! The grammar, as functions from a token sequence and a position to a tree.
//!
//! Each function reads one construct at a cursor and says what tree it is,
//! where it ends and which recoverable errors were reported on the way. A
//! construct ends at or after the cursor it was read from; the functions go on
//! from the end of a part only where it did.

use vstd::prelude::*;
use crate::lexer::{TokenType, TokenView};
use crate::literal::LiteralView;
use crate::stmt::{ExprView, StmtView};

verus! {

/// A syntax error: the token at which it was found, and what was expected.
pub struct ParseErrorView {
    pub token: TokenView,
    pub message: Seq<char>,
}

/// Where the parser stands: the position of the next token, and the
/// recoverable errors reported so far.
pub struct Cursor {
    pub at: nat,
    pub reports: Seq<ParseErrorView>,
}

/// What reading one construct gave: its tree or the error that stopped it,
/// and where the parser stands after it.
pub struct Step<T> {
    pub result: Result<T, ParseErrorView>,
    pub to: Cursor,
}

impl Cursor {
    /// The cursor one token further.
    pub open spec fn next(self) -> Cursor {
        Cursor { at: self.at + 1, ..self }
    }

    /// The cursor with one more report.
    pub open spec fn reporting(self, error: ParseErrorView) -> Cursor {
        Cursor { reports: self.reports.push(error), ..self }
    }
}

impl<T> Step<T> {
    /// The step yielded a value and ended at or after `from`.
    pub open spec fn ok_from(self, from: Cursor) -> bool {
        self.result is Ok && self.to.at >= from.at
    }

    /// The value of a step that yielded one.
    pub open spec fn value(self) -> T {
        self.result->Ok_0
    }

    /// The failure of a step that yielded no value, as a step of another type.
    pub open spec fn failure<U>(self) -> Step<U> {
        Step { result: Err(self.result->Err_0), to: self.to }
    }
}

/// The step that ends at `to` with `value`.
pub open spec fn done<T>(to: Cursor, value: T) -> Step<T> {
    Step { result: Ok(value), to }
}

/// The step that fails at the token under `at`.
pub open spec fn fail<T>(tokens: Seq<TokenView>, at: Cursor, message: Seq<char>) -> Step<T> {
    Step { result: Err(ParseErrorView { token: tokens[at.at as int], message }), to: at }
}

/// The number of tokens from `at` to the end of the sequence.
pub open spec fn remaining(tokens: Seq<TokenView>, at: nat) -> nat {
    if at < tokens.len() {
        (tokens.len() - at) as nat
    } else {
        0
    }
}

/// Whether the token at `at` ends the input.
pub open spec fn at_end(tokens: Seq<TokenView>, at: nat) -> bool {
    at >= tokens.len() || tokens[at as int].token_type == TokenType::EOF
}

/// Whether the token at `at` has the given type; the end-of-input token has none.
pub open spec fn check(tokens: Seq<TokenView>, at: nat, token_type: TokenType) -> bool {
    !at_end(tokens, at) && tokens[at as int].token_type == token_type
}

/// The precedence levels of the binary operators, lowest first.
#[derive(Debug, Clone, Copy, PartialEq, Eq, Structural)]
pub enum Level {
    Or,
    And,
    Equality,
    Comparison,
    Term,
    Factor,
}

/// Whether the token at `at` is an operator of the level.
pub open spec fn level_operator(level: Level, tokens: Seq<TokenView>, at: nat) -> bool {
    match level {
        Level::Or => check(tokens, at, TokenType::Or),
        Level::And => check(tokens, at, TokenType::And),
        Level::Equality => check(tokens, at, TokenType::BangEqual) || check(
            tokens,
            at,
            TokenType::EqualEqual,
        ),
        Level::Comparison => check(tokens, at, TokenType::Greater) || check(
            tokens,
            at,
            TokenType::GreaterEqual,
        ) || check(tokens, at, TokenType::Less) || check(tokens, at, TokenType::LessEqual),
        Level::Term => check(tokens, at, TokenType::Plus) || check(tokens, at, TokenType::Minus),
        Level::Factor => check(tokens, at, TokenType::Star) || check(tokens, at, TokenType::Slash),
    }
}

/// The node that an operator of the level makes of its operands.
pub open spec fn level_node(
    level: Level,
    left: ExprView,
    operator: TokenView,
    right: ExprView,
) -> ExprView {
    match level {
        Level::Or => ExprView::Logical(Box::new(left), operator, Box::new(right)),
        Level::And => ExprView::Logical(Box::new(left), operator, Box::new(right)),
        _ => ExprView::Binary(Box::new(left), operator, Box::new(right)),
    }
}

/// A number that is larger for a level that binds less.
pub open spec fn level_rank(level: Level) -> nat {
    match level {
        Level::Or => 6,
        Level::And => 5,
        Level::Equality => 4,
        Level::Comparison => 3,
        Level::Term => 2,
        Level::Factor => 1,
    }
}

/// The most arguments a call may have, and the most parameters a function.
pub open spec fn max_arity() -> nat {
    255
}

/// expression → assignment
pub open spec fn expression(tokens: Seq<TokenView>, c: Cursor) -> Step<ExprView>
    decreases remaining(tokens, c.at), 17nat,
{
    assignment(tokens, c)
}

/// assignment → IDENTIFIER "=" assignment | logic_or
///
/// The left side is read as an expression; unless it is a bare variable the
/// assignment is an error at the `=`.
pub open spec fn assignment(tokens: Seq<TokenView>, c: Cursor) -> Step<ExprView>
    decreases remaining(tokens, c.at), 16nat,
{
    let target = binary(tokens, c, Level::Or);
    if target.ok_from(c) && check(tokens, target.to.at, TokenType::Equal) {
        let value = assignment(tokens, target.to.next());
        match value.result {
            Err(_) => value,
            Ok(right) => match target.value() {
                ExprView::Variable(name) => done(value.to, ExprView::Assign(name, Box::new(right))),
                _ => Step {
                    result: Err(
                        ParseErrorView {
                            token: tokens[target.to.at as int],
                            message: "invalid assignment target."@,
                        },
                    ),
                    to: value.to,
                },
            },
        }
    } else {
        target
    }
}

/// The operand of an operator of the level: an expression of the next level.
pub open spec fn operand(tokens: Seq<TokenView>, c: Cursor, level: Level) -> Step<ExprView>
    decreases remaining(tokens, c.at), 2 + 2 * level_rank(level),
{
    match level {
        Level::Or => binary(tokens, c, Level::And),
        Level::And => binary(tokens, c, Level::Equality),
        Level::Equality => binary(tokens, c, Level::Comparison),
        Level::Comparison => binary(tokens, c, Level::Term),
        Level::Term => binary(tokens, c, Level::Factor),
        Level::Factor => unary(tokens, c),
    }
}

/// level → operand ( operator operand )*
///
/// The operators of one level associate to the left.
pub open spec fn binary(tokens: Seq<TokenView>, c: Cursor, level: Level) -> Step<ExprView>
    decreases remaining(tokens, c.at), 3 + 2 * level_rank(level),
{
    let first = operand(tokens, c, level);
    if first.ok_from(c) {
        binary_tail(tokens, first.to, level, first.value())
    } else {
        first
    }
}

/// ( operator operand )* after the operands that make up `left`.
pub open spec fn binary_tail(
    tokens: Seq<TokenView>,
    c: Cursor,
    level: Level,
    left: ExprView,
) -> Step<ExprView>
    decreases remaining(tokens, c.at), 0nat,
{
    if level_operator(level, tokens, c.at) {
        let right = operand(tokens, c.next(), level);
        if right.ok_from(c.next()) {
            binary_tail(
                tokens,
                right.to,
                level,
                level_node(level, left, tokens[c.at as int], right.value()),
            )
        } else {
            right
        }
    } else {
        done(c, left)
    }
}

/// unary → ( "!" | "-" ) unary | call
pub open spec fn unary(tokens: Seq<TokenView>, c: Cursor) -> Step<ExprView>
    decreases remaining(tokens, c.at), 3nat,
{
    if check(tokens, c.at, TokenType::Bang) || check(tokens, c.at, TokenType::Minus) {
        let right = unary(tokens, c.next());
        match right.result {
            Err(_) => right,
            Ok(value) => done(right.to, ExprView::Unary(tokens[c.at as int], Box::new(value))),
        }
    } else {
        call(tokens, c)
    }
}

/// call → primary ( "(" arguments? ")" )*
pub open spec fn call(tokens: Seq<TokenView>, c: Cursor) -> Step<ExprView>
    decreases remaining(tokens, c.at), 2nat,
{
    let first = primary(tokens, c);
    if first.ok_from(c) {
        call_tail(tokens, first.to, first.value())
    } else {
        first
    }
}

/// ( "(" arguments? ")" )* after the callee.
pub open spec fn call_tail(tokens: Seq<TokenView>, c: Cursor, callee: ExprView) -> Step<ExprView>
    decreases remaining(tokens, c.at), 0nat,
{
    if check(tokens, c.at, TokenType::LeftParen) {
        let invocation = finish_call(tokens, c.next(), callee);
        if invocation.ok_from(c.next()) {
            call_tail(tokens, invocation.to, invocation.value())
        } else {
            invocation
        }
    } else {
        done(c, callee)
    }
}

/// arguments? ")" after the opening parenthesis of a call.
pub open spec fn finish_call(tokens: Seq<TokenView>, c: Cursor, callee: ExprView) -> Step<ExprView>
    decreases remaining(tokens, c.at), 19nat,
{
    let arguments = if check(tokens, c.at, TokenType::RightParen) {
        done(c, Seq::<ExprView>::empty())
    } else {
        arguments_tail(tokens, c, Seq::<ExprView>::empty())
    };
    match arguments.result {
        Err(_) => arguments.failure(),
        Ok(values) => if check(tokens, arguments.to.at, TokenType::RightParen) {
            done(
                arguments.to.next(),
                ExprView::Call(Box::new(callee), tokens[arguments.to.at as int], values),
            )
        } else {
            fail(tokens, arguments.to, "Expected ')' after arguments."@)
        },
    }
}

/// expression ( "," expression )* after the arguments in `before`.
///
/// An argument beyond the limit is reported at its first token and read all
/// the same.
pub open spec fn arguments_tail(tokens: Seq<TokenView>, c: Cursor, before: Seq<ExprView>) -> Step<
    Seq<ExprView>,
>
    decreases remaining(tokens, c.at), 18nat,
{
    let c0 = if before.len() >= max_arity() {
        c.reporting(
            ParseErrorView {
                token: tokens[c.at as int],
                message: "Can't have more than 255 arguments."@,
            },
        )
    } else {
        c
    };
    let argument = expression(tokens, c0);
    if argument.ok_from(c) && check(tokens, argument.to.at, TokenType::Comma) {
        arguments_tail(tokens, argument.to.next(), before.push(argument.value()))
    } else {
        match argument.result {
            Err(_) => argument.failure(),
            Ok(value) => done(argument.to, before.push(value)),
        }
    }
}

/// primary → "true" | "false" | "nil" | NUMBER | STRING | IDENTIFIER | "(" expression ")"
pub open spec fn primary(tokens: Seq<TokenView>, c: Cursor) -> Step<ExprView>
    decreases remaining(tokens, c.at), 0nat,
{
    if check(tokens, c.at, TokenType::True) {
        done(c.next(), ExprView::Literal(LiteralView::Bool(true)))
    } else if check(tokens, c.at, TokenType::False) {
        done(c.next(), ExprView::Literal(LiteralView::Bool(false)))
    } else if check(tokens, c.at, TokenType::Number) || check(tokens, c.at, TokenType::String) {
        done(c.next(), ExprView::Literal(tokens[c.at as int].literal))
    } else if check(tokens, c.at, TokenType::LeftParen) {
        let inner = expression(tokens, c.next());
        match inner.result {
            Err(_) => inner,
            Ok(value) => if check(tokens, inner.to.at, TokenType::RightParen) {
                done(inner.to.next(), ExprView::Grouping(Box::new(value)))
            } else {
                fail(tokens, inner.to, "Expected ')' after expression."@)
            },
        }
    } else if check(tokens, c.at, TokenType::Nil) {
        done(c.next(), ExprView::Literal(LiteralView::Null))
    } else if check(tokens, c.at, TokenType::Identifier) {
        done(c.next(), ExprView::Variable(tokens[c.at as int]))
    } else {
        fail(tokens, c, "Unable to parse the provided expression"@)
    }
}

/// An expression followed by the given closing token.
#[verifier::opaque]
pub open spec fn closed_expression(
    tokens: Seq<TokenView>,
    c: Cursor,
    closing: TokenType,
    message: Seq<char>,
) -> Step<ExprView> {
    let inner = expression(tokens, c);
    match inner.result {
        Err(_) => inner,
        Ok(value) => if check(tokens, inner.to.at, closing) {
            done(inner.to.next(), value)
        } else {
            fail(tokens, inner.to, message)
        },
    }
}

/// exprStmt → expression ";"
#[verifier::opaque]
pub open spec fn expression_statement(tokens: Seq<TokenView>, c: Cursor) -> Step<StmtView> {
    let inner = closed_expression(tokens, c, TokenType::Semicolon, "';' expected."@);
    match inner.result {
        Err(_) => inner.failure(),
        Ok(value) => done(inner.to, StmtView::Expression(value)),
    }
}

/// expression ";" after `print`.
#[verifier::opaque]
pub open spec fn print_statement(tokens: Seq<TokenView>, c: Cursor) -> Step<StmtView> {
    let inner = closed_expression(tokens, c, TokenType::Semicolon, "';' expected."@);
    match inner.result {
        Err(_) => inner.failure(),
        Ok(value) => done(inner.to, StmtView::Print(value)),
    }
}

/// expression? ";" after `return`, whose token is `keyword`. Without a value
/// the statement returns nil.
#[verifier::opaque]
pub open spec fn return_statement(tokens: Seq<TokenView>, c: Cursor, keyword: TokenView) -> Step<
    StmtView,
> {
    if check(tokens, c.at, TokenType::Semicolon) {
        done(c.next(), StmtView::Return(keyword, ExprView::Absent))
    } else {
        let inner = closed_expression(
            tokens,
            c,
            TokenType::Semicolon,
            "Expected ';' after return value."@,
        );
        match inner.result {
            Err(_) => inner.failure(),
            Ok(value) => done(inner.to, StmtView::Return(keyword, value)),
        }
    }
}

/// IDENTIFIER ( "=" expression )? ";" after `let`. Without an initializer the
/// variable starts as nil.
#[verifier::opaque]
pub open spec fn var_declaration(tokens: Seq<TokenView>, c: Cursor) -> Step<StmtView> {
    if !check(tokens, c.at, TokenType::Identifier) {
        fail(tokens, c, "Expected variable name"@)
    } else {
        let name = tokens[c.at as int];
        let c1 = c.next();
        if check(tokens, c1.at, TokenType::Equal) {
            let inner = closed_expression(tokens, c1.next(), TokenType::Semicolon, "Expected ';'"@);
            match inner.result {
                Err(_) => inner.failure(),
                Ok(value) => done(inner.to, StmtView::Var(name, value)),
            }
        } else if check(tokens, c1.at, TokenType::Semicolon) {
            done(c1.next(), StmtView::Var(name, ExprView::Literal(LiteralView::Null)))
        } else {
            fail(tokens, c1, "Expected ';'"@)
        }
    }
}

/// IDENTIFIER ( "," IDENTIFIER )* after the parameters in `before`.
pub open spec fn parameters_tail(tokens: Seq<TokenView>, c: Cursor, before: Seq<TokenView>) -> Step<
    Seq<TokenView>,
>
    decreases remaining(tokens, c.at),
{
    if before.len() >= max_arity() {
        fail(tokens, c, "Can't have more than 255 parameters."@)
    } else if !check(tokens, c.at, TokenType::Identifier) {
        fail(tokens, c, "Expected parameter name"@)
    } else if check(tokens, c.at + 1, TokenType::Comma) {
        parameters_tail(tokens, c.next().next(), before.push(tokens[c.at as int]))
    } else {
        done(c.next(), before.push(tokens[c.at as int]))
    }
}

/// IDENTIFIER "(" parameters? ")" up to the "{" of the body, after `fn`: the
/// name and the parameters. The messages name the `kind` of thing declared.
pub open spec fn function_header(tokens: Seq<TokenView>, c: Cursor, kind: Seq<char>) -> Step<
    (TokenView, Seq<TokenView>),
> {
    if !check(tokens, c.at, TokenType::Identifier) {
        fail(tokens, c, "Expected "@ + kind + " name"@)
    } else if !check(tokens, c.at + 1, TokenType::LeftParen) {
        fail(tokens, c.next(), "Expected '(' after "@ + kind + " name"@)
    } else {
        let name = tokens[c.at as int];
        let c1 = c.next().next();
        let parameters = if check(tokens, c1.at, TokenType::RightParen) {
            done(c1, Seq::<TokenView>::empty())
        } else {
            parameters_tail(tokens, c1, Seq::<TokenView>::empty())
        };
        match parameters.result {
            Err(_) => parameters.failure(),
            Ok(names) => if !check(tokens, parameters.to.at, TokenType::RightParen) {
                fail(tokens, parameters.to, "Expected ')' after parameters"@)
            } else if !check(tokens, parameters.to.at + 1, TokenType::LeftBrace) {
                fail(tokens, parameters.to.next(), "Expected '{' before "@ + kind + " body"@)
            } else {
                done(parameters.to.next().next(), (name, names))
            },
        }
    }
}

/// The loop that a `for` statement stands for: the body followed by the
/// increment, under a `while` whose condition is `true` when none is given,
/// after the initializer.
pub open spec fn for_loop(
    initializer: StmtView,
    condition: ExprView,
    increment: ExprView,
    body: StmtView,
) -> StmtView {
    let stepped = if increment is Absent {
        body
    } else {
        StmtView::Block(seq![body, StmtView::Expression(increment)])
    };
    let test = if condition is Absent {
        ExprView::Literal(LiteralView::Bool(true))
    } else {
        condition
    };
    let repeated = StmtView::While(test, Box::new(stepped));
    if initializer is Absent {
        repeated
    } else {
        StmtView::Block(seq![initializer, repeated])
    }
}

/// "(" ( varDecl | exprStmt | ";" ) up to the condition of a `for` statement:
/// the initializer.
pub open spec fn for_initializer(tokens: Seq<TokenView>, c: Cursor) -> Step<StmtView> {
    if !check(tokens, c.at, TokenType::LeftParen) {
        fail(tokens, c, "Expected '(' before expressions."@)
    } else {
        let c1 = c.next();
        if check(tokens, c1.at, TokenType::Semicolon) {
            done(c1.next(), StmtView::Absent)
        } else if check(tokens, c1.at, TokenType::Let) {
            var_declaration(tokens, c1.next())
        } else {
            expression_statement(tokens, c1)
        }
    }
}

/// expression? followed by the closing token: a clause of a `for` statement
/// that may be left out.
#[verifier::opaque]
pub open spec fn for_clause(
    tokens: Seq<TokenView>,
    c: Cursor,
    closing: TokenType,
    message: Seq<char>,
) -> Step<ExprView> {
    if check(tokens, c.at, closing) {
        done(c.next(), ExprView::Absent)
    } else {
        closed_expression(tokens, c, closing, message)
    }
}

/// "(" initializer condition? ";" increment? ")" after `for`: the three clauses.
pub open spec fn for_clauses(tokens: Seq<TokenView>, c: Cursor) -> Step<
    (StmtView, ExprView, ExprView),
> {
    let initializer = for_initializer(tokens, c);
    match initializer.result {
        Err(_) => initializer.failure(),
        Ok(first) => {
            let condition = for_clause(
                tokens,
                initializer.to,
                TokenType::Semicolon,
                "Expected ';' after loop condition."@,
            );
            match condition.result {
                Err(_) => condition.failure(),
                Ok(second) => {
                    let increment = for_clause(
                        tokens,
                        condition.to,
                        TokenType::RightParen,
                        "Expected ')' after for clauses."@,
                    );
                    match increment.result {
                        Err(_) => increment.failure(),
                        Ok(third) => done(increment.to, (first, second, third)),
                    }
                },
            }
        },
    }
}

/// "(" expression ")" after `if` or `while`: the condition.
pub open spec fn condition(tokens: Seq<TokenView>, c: Cursor) -> Step<ExprView> {
    if !check(tokens, c.at, TokenType::LeftParen) {
        fail(tokens, c, "Expected '(' before expression."@)
    } else {
        closed_expression(
            tokens,
            c.next(),
            TokenType::RightParen,
            "Expected ')' after expression."@,
        )
    }
}

/// declaration → "let" varDecl | "fn" function | statement
pub open spec fn declaration(tokens: Seq<TokenView>, c: Cursor) -> Step<StmtView>
    decreases remaining(tokens, c.at), 2nat,
{
    if check(tokens, c.at, TokenType::Let) {
        var_declaration(tokens, c.next())
    } else if check(tokens, c.at, TokenType::Fn) {
        fn_declaration(tokens, c.next(), "function"@)
    } else {
        statement(tokens, c)
    }
}

/// The name, the parameters and the body of a function, after `fn`.
pub open spec fn fn_declaration(tokens: Seq<TokenView>, c: Cursor, kind: Seq<char>) -> Step<
    StmtView,
>
    decreases remaining(tokens, c.at), 0nat,
{
    let header = function_header(tokens, c, kind);
    if header.ok_from(c.next()) {
        let body = block(tokens, header.to);
        match body.result {
            Err(_) => body,
            Ok(statements) => done(
                body.to,
                StmtView::Function(header.value().0, header.value().1, Box::new(statements)),
            ),
        }
    } else {
        header.failure()
    }
}

/// statement → "print" printStmt | "{" block | "if" ifStmt | "while" whileStmt
///           | "for" forStmt | "return" returnStmt | exprStmt
pub open spec fn statement(tokens: Seq<TokenView>, c: Cursor) -> Step<StmtView>
    decreases remaining(tokens, c.at), 1nat,
{
    if check(tokens, c.at, TokenType::Print) {
        print_statement(tokens, c.next())
    } else if check(tokens, c.at, TokenType::LeftBrace) {
        block(tokens, c.next())
    } else if check(tokens, c.at, TokenType::If) {
        if_statement(tokens, c.next())
    } else if check(tokens, c.at, TokenType::While) {
        while_statement(tokens, c.next())
    } else if check(tokens, c.at, TokenType::For) {
        for_statement(tokens, c.next())
    } else if check(tokens, c.at, TokenType::Return) {
        return_statement(tokens, c.next(), tokens[c.at as int])
    } else {
        expression_statement(tokens, c)
    }
}

/// statement ( "else" statement )? after the condition of an `if` statement.
pub open spec fn branches(tokens: Seq<TokenView>, c: Cursor, test: ExprView) -> Step<StmtView>
    decreases remaining(tokens, c.at), 2nat,
{
    let then_branch = statement(tokens, c);
    if then_branch.ok_from(c) && check(tokens, then_branch.to.at, TokenType::Else) {
        let else_branch = statement(tokens, then_branch.to.next());
        match else_branch.result {
            Err(_) => else_branch,
            Ok(second) => done(
                else_branch.to,
                StmtView::If(test, Box::new(then_branch.value()), Box::new(second)),
            ),
        }
    } else {
        match then_branch.result {
            Err(_) => then_branch,
            Ok(first) => done(
                then_branch.to,
                StmtView::If(test, Box::new(first), Box::new(StmtView::Absent)),
            ),
        }
    }
}

/// "(" expression ")" statement ( "else" statement )? after `if`.
pub open spec fn if_statement(tokens: Seq<TokenView>, c: Cursor) -> Step<StmtView>
    decreases remaining(tokens, c.at), 0nat,
{
    let test = condition(tokens, c);
    if test.ok_from(c.next()) {
        branches(tokens, test.to, test.value())
    } else {
        test.failure()
    }
}

/// "(" expression ")" statement after `while`.
pub open spec fn while_statement(tokens: Seq<TokenView>, c: Cursor) -> Step<StmtView>
    decreases remaining(tokens, c.at), 0nat,
{
    let test = condition(tokens, c);
    if test.ok_from(c.next()) {
        let body = statement(tokens, test.to);
        match body.result {
            Err(_) => body,
            Ok(inner) => done(body.to, StmtView::While(test.value(), Box::new(inner))),
        }
    } else {
        test.failure()
    }
}

/// The clauses and the body of a `for` statement, after `for`, as the loop
/// they stand for.
pub open spec fn for_statement(tokens: Seq<TokenView>, c: Cursor) -> Step<StmtView>
    decreases remaining(tokens, c.at), 0nat,
{
    let clauses = for_clauses(tokens, c);
    if clauses.ok_from(c.next()) {
        let body = statement(tokens, clauses.to);
        match body.result {
            Err(_) => body,
            Ok(inner) => done(
                body.to,
                for_loop(clauses.value().0, clauses.value().1, clauses.value().2, inner),
            ),
        }
    } else {
        clauses.failure()
    }
}

/// declaration* "}" after the opening brace.
pub open spec fn block(tokens: Seq<TokenView>, c: Cursor) -> Step<StmtView>
    decreases remaining(tokens, c.at), 4nat,
{
    let body = block_tail(tokens, c, Seq::<StmtView>::empty());
    match body.result {
        Err(_) => body.failure(),
        Ok(statements) => done(body.to, StmtView::Block(statements)),
    }
}

/// declaration* "}" after the statements in `before`.
pub open spec fn block_tail(tokens: Seq<TokenView>, c: Cursor, before: Seq<StmtView>) -> Step<
    Seq<StmtView>,
>
    decreases remaining(tokens, c.at), 3nat,
{
    if check(tokens, c.at, TokenType::RightBrace) {
        done(c.next(), before)
    } else if at_end(tokens, c.at) {
        fail(tokens, c, "Expected '}'."@)
    } else {
        let first = declaration(tokens, c);
        if first.ok_from(c.next()) {
            block_tail(tokens, first.to, before.push(first.value()))
        } else {
            first.failure()
        }
    }
}

/// declaration* up to the end of the input, after the statements in `before`.
pub open spec fn program_tail(tokens: Seq<TokenView>, c: Cursor, before: Seq<StmtView>) -> Step<
    Seq<StmtView>,
>
    decreases remaining(tokens, c.at),
{
    if at_end(tokens, c.at) {
        done(c, before)
    } else {
        let first = declaration(tokens, c);
        if first.ok_from(c.next()) {
            program_tail(tokens, first.to, before.push(first.value()))
        } else {
            first.failure()
        }
    }
}

/// program → declaration* EOF
pub open spec fn program(tokens: Seq<TokenView>, c: Cursor) -> Step<Seq<StmtView>> {
    program_tail(tokens, c, Seq::<StmtView>::empty())
}

/// No expression ends before it begins.
pub proof fn lemma_expression_forward(tokens: Seq<TokenView>, c: Cursor)
    ensures
        expression(tokens, c).to.at >= c.at,
    decreases remaining(tokens, c.at), 17nat,
{
    lemma_assignment_forward(tokens, c);
}

proof fn lemma_assignment_forward(tokens: Seq<TokenView>, c: Cursor)
    ensures
        assignment(tokens, c).to.at >= c.at,
    decreases remaining(tokens, c.at), 16nat,
{
    let target = binary(tokens, c, Level::Or);
    lemma_binary_forward(tokens, c, Level::Or);
    if target.ok_from(c) && check(tokens, target.to.at, TokenType::Equal) {
        lemma_assignment_forward(tokens, target.to.next());
    }
}

proof fn lemma_operand_forward(tokens: Seq<TokenView>, c: Cursor, level: Level)
    ensures
        operand(tokens, c, level).to.at >= c.at,
    decreases remaining(tokens, c.at), 2 + 2 * level_rank(level),
{
    match level {
        Level::Or => lemma_binary_forward(tokens, c, Level::And),
        Level::And => lemma_binary_forward(tokens, c, Level::Equality),
        Level::Equality => lemma_binary_forward(tokens, c, Level::Comparison),
        Level::Comparison => lemma_binary_forward(tokens, c, Level::Term),
        Level::Term => lemma_binary_forward(tokens, c, Level::Factor),
        Level::Factor => lemma_unary_forward(tokens, c),
    }
}

proof fn lemma_binary_forward(tokens: Seq<TokenView>, c: Cursor, level: Level)
    ensures
        binary(tokens, c, level).to.at >= c.at,
    decreases remaining(tokens, c.at), 3 + 2 * level_rank(level),
{
    let first = operand(tokens, c, level);
    lemma_operand_forward(tokens, c, level);
    if first.ok_from(c) {
        lemma_binary_tail_forward(tokens, first.to, level, first.value());
    }
}

proof fn lemma_binary_tail_forward(tokens: Seq<TokenView>, c: Cursor, level: Level, left: ExprView)
    ensures
        binary_tail(tokens, c, level, left).to.at >= c.at,
    decreases remaining(tokens, c.at), 0nat,
{
    if level_operator(level, tokens, c.at) {
        let right = operand(tokens, c.next(), level);
        lemma_operand_forward(tokens, c.next(), level);
        if right.ok_from(c.next()) {
            lemma_binary_tail_forward(
                tokens,
                right.to,
                level,
                level_node(level, left, tokens[c.at as int], right.value()),
            );
        }
    }
}

proof fn lemma_unary_forward(tokens: Seq<TokenView>, c: Cursor)
    ensures
        unary(tokens, c).to.at >= c.at,
    decreases remaining(tokens, c.at), 3nat,
{
    if check(tokens, c.at, TokenType::Bang) || check(tokens, c.at, TokenType::Minus) {
        lemma_unary_forward(tokens, c.next());
    } else {
        lemma_call_forward(tokens, c);
    }
}

proof fn lemma_call_forward(tokens: Seq<TokenView>, c: Cursor)
    ensures
        call(tokens, c).to.at >= c.at,
    decreases remaining(tokens, c.at), 2nat,
{
    let first = primary(tokens, c);
    lemma_primary_forward(tokens, c);
    if first.ok_from(c) {
        lemma_call_tail_forward(tokens, first.to, first.value());
    }
}

proof fn lemma_call_tail_forward(tokens: Seq<TokenView>, c: Cursor, callee: ExprView)
    ensures
        call_tail(tokens, c, callee).to.at >= c.at,
    decreases remaining(tokens, c.at), 0nat,
{
    if check(tokens, c.at, TokenType::LeftParen) {
        let invocation = finish_call(tokens, c.next(), callee);
        lemma_finish_call_forward(tokens, c.next(), callee);
        if invocation.ok_from(c.next()) {
            lemma_call_tail_forward(tokens, invocation.to, invocation.value());
        }
    }
}

proof fn lemma_finish_call_forward(tokens: Seq<TokenView>, c: Cursor, callee: ExprView)
    ensures
        finish_call(tokens, c, callee).to.at >= c.at,
    decreases remaining(tokens, c.at), 19nat,
{
    if !check(tokens, c.at, TokenType::RightParen) {
        lemma_arguments_tail_forward(tokens, c, Seq::<ExprView>::empty());
    }
}

proof fn lemma_arguments_tail_forward(tokens: Seq<TokenView>, c: Cursor, before: Seq<ExprView>)
    ensures
        arguments_tail(tokens, c, before).to.at >= c.at,
    decreases remaining(tokens, c.at), 18nat,
{
    let c0 = if before.len() >= max_arity() {
        c.reporting(
            ParseErrorView {
                token: tokens[c.at as int],
                message: "Can't have more than 255 arguments."@,
            },
        )
    } else {
        c
    };
    let argument = expression(tokens, c0);
    lemma_expression_forward(tokens, c0);
    if argument.ok_from(c) && check(tokens, argument.to.at, TokenType::Comma) {
        lemma_arguments_tail_forward(tokens, argument.to.next(), before.push(argument.value()));
    }
}

proof fn lemma_primary_forward(tokens: Seq<TokenView>, c: Cursor)
    ensures
        primary(tokens, c).to.at >= c.at,
    decreases remaining(tokens, c.at), 0nat,
{
    if check(tokens, c.at, TokenType::LeftParen) {
        lemma_expression_forward(tokens, c.next());
    }
}

/// No operand ends before it begins.
pub proof fn lemma_operand_moves_forward(tokens: Seq<TokenView>, c: Cursor, level: Level)
    ensures
        operand(tokens, c, level).to.at >= c.at,
{
    lemma_operand_forward(tokens, c, level);
}

/// An expression with its closing token spans at least that token.
pub proof fn lemma_closed_expression_forward(
    tokens: Seq<TokenView>,
    c: Cursor,
    closing: TokenType,
    message: Seq<char>,
)
    ensures
        closed_expression(tokens, c, closing, message).to.at >= c.at,
        closed_expression(tokens, c, closing, message).result is Ok ==> closed_expression(
            tokens,
            c,
            closing,
            message,
        ).to.at > c.at,
{
    reveal(closed_expression);
    lemma_expression_forward(tokens, c);
}

/// No declaration ends before it begins, and one that is read whole spans
/// at least one token: the rules that go on from the end of a part never
/// stop for want of progress.
pub proof fn lemma_declaration_forward(tokens: Seq<TokenView>, c: Cursor)
    ensures
        declaration(tokens, c).to.at >= c.at,
        declaration(tokens, c).result is Ok ==> declaration(tokens, c).to.at > c.at,
    decreases remaining(tokens, c.at), 2nat,
{
    if check(tokens, c.at, TokenType::Let) {
        lemma_var_declaration_forward(tokens, c.next());
    } else if check(tokens, c.at, TokenType::Fn) {
        lemma_fn_declaration_forward(tokens, c.next(), "function"@);
    } else {
        lemma_statement_forward(tokens, c);
    }
}

proof fn lemma_var_declaration_forward(tokens: Seq<TokenView>, c: Cursor)
    ensures
        var_declaration(tokens, c).to.at >= c.at,
        var_declaration(tokens, c).result is Ok ==> var_declaration(tokens, c).to.at > c.at,
{
    reveal(var_declaration);
    lemma_closed_expression_forward(tokens, c.next().next(), TokenType::Semicolon, "Expected ';'"@);
}

proof fn lemma_parameters_tail_forward(tokens: Seq<TokenView>, c: Cursor, before: Seq<TokenView>)
    ensures
        parameters_tail(tokens, c, before).to.at >= c.at,
    decreases remaining(tokens, c.at),
{
    if before.len() < max_arity() && check(tokens, c.at, TokenType::Identifier) && check(
        tokens,
        c.at + 1,
        TokenType::Comma,
    ) {
        lemma_parameters_tail_forward(tokens, c.next().next(), before.push(tokens[c.at as int]));
    }
}

proof fn lemma_function_header_forward(tokens: Seq<TokenView>, c: Cursor, kind: Seq<char>)
    ensures
        function_header(tokens, c, kind).to.at >= c.at,
        function_header(tokens, c, kind).result is Ok ==> function_header(tokens, c, kind).to.at
            > c.at,
{
    lemma_parameters_tail_forward(tokens, c.next().next(), Seq::<TokenView>::empty());
}

proof fn lemma_fn_declaration_forward(tokens: Seq<TokenView>, c: Cursor, kind: Seq<char>)
    ensures
        fn_declaration(tokens, c, kind).to.at >= c.at,
        fn_declaration(tokens, c, kind).result is Ok ==> fn_declaration(tokens, c, kind).to.at
            > c.at,
    decreases remaining(tokens, c.at), 0nat,
{
    let header = function_header(tokens, c, kind);
    lemma_function_header_forward(tokens, c, kind);
    if header.ok_from(c.next()) {
        lemma_block_forward(tokens, header.to);
    }
}

proof fn lemma_statement_forward(tokens: Seq<TokenView>, c: Cursor)
    ensures
        statement(tokens, c).to.at >= c.at,
        statement(tokens, c).result is Ok ==> statement(tokens, c).to.at > c.at,
    decreases remaining(tokens, c.at), 1nat,
{
    reveal(print_statement);
    reveal(return_statement);
    reveal(expression_statement);
    if check(tokens, c.at, TokenType::Print) {
        lemma_closed_expression_forward(tokens, c.next(), TokenType::Semicolon, "';' expected."@);
    } else if check(tokens, c.at, TokenType::LeftBrace) {
        lemma_block_forward(tokens, c.next());
    } else if check(tokens, c.at, TokenType::If) {
        lemma_if_statement_forward(tokens, c.next());
    } else if check(tokens, c.at, TokenType::While) {
        lemma_while_statement_forward(tokens, c.next());
    } else if check(tokens, c.at, TokenType::For) {
        lemma_for_statement_forward(tokens, c.next());
    } else if check(tokens, c.at, TokenType::Return) {
        lemma_closed_expression_forward(
            tokens,
            c.next(),
            TokenType::Semicolon,
            "Expected ';' after return value."@,
        );
    } else {
        lemma_closed_expression_forward(tokens, c, TokenType::Semicolon, "';' expected."@);
    }
}

proof fn lemma_condition_forward(tokens: Seq<TokenView>, c: Cursor)
    ensures
        condition(tokens, c).to.at >= c.at,
        condition(tokens, c).result is Ok ==> condition(tokens, c).to.at > c.at,
{
    lemma_closed_expression_forward(
        tokens,
        c.next(),
        TokenType::RightParen,
        "Expected ')' after expression."@,
    );
}

proof fn lemma_branches_forward(tokens: Seq<TokenView>, c: Cursor, test: ExprView)
    ensures
        branches(tokens, c, test).to.at >= c.at,
    decreases remaining(tokens, c.at), 2nat,
{
    let then_branch = statement(tokens, c);
    lemma_statement_forward(tokens, c);
    if then_branch.ok_from(c) && check(tokens, then_branch.to.at, TokenType::Else) {
        lemma_statement_forward(tokens, then_branch.to.next());
    }
}

proof fn lemma_if_statement_forward(tokens: Seq<TokenView>, c: Cursor)
    ensures
        if_statement(tokens, c).to.at >= c.at,
        if_statement(tokens, c).result is Ok ==> if_statement(tokens, c).to.at > c.at,
    decreases remaining(tokens, c.at), 0nat,
{
    let test = condition(tokens, c);
    lemma_condition_forward(tokens, c);
    if test.ok_from(c.next()) {
        lemma_branches_forward(tokens, test.to, test.value());
    }
}

proof fn lemma_while_statement_forward(tokens: Seq<TokenView>, c: Cursor)
    ensures
        while_statement(tokens, c).to.at >= c.at,
        while_statement(tokens, c).result is Ok ==> while_statement(tokens, c).to.at > c.at,
    decreases remaining(tokens, c.at), 0nat,
{
    let test = condition(tokens, c);
    lemma_condition_forward(tokens, c);
    if test.ok_from(c.next()) {
        lemma_statement_forward(tokens, test.to);
    }
}

proof fn lemma_for_clause_forward(
    tokens: Seq<TokenView>,
    c: Cursor,
    closing: TokenType,
    message: Seq<char>,
)
    ensures
        for_clause(tokens, c, closing, message).to.at >= c.at,
{
    reveal(for_clause);
    lemma_closed_expression_forward(tokens, c, closing, message);
}

proof fn lemma_for_clauses_forward(tokens: Seq<TokenView>, c: Cursor)
    ensures
        for_clauses(tokens, c).to.at >= c.at,
        for_clauses(tokens, c).result is Ok ==> for_clauses(tokens, c).to.at > c.at,
{
    reveal(expression_statement);
    let initializer = for_initializer(tokens, c);
    lemma_var_declaration_forward(tokens, c.next().next());
    lemma_closed_expression_forward(tokens, c.next(), TokenType::Semicolon, "';' expected."@);
    let second = for_clause(
        tokens,
        initializer.to,
        TokenType::Semicolon,
        "Expected ';' after loop condition."@,
    );
    lemma_for_clause_forward(
        tokens,
        initializer.to,
        TokenType::Semicolon,
        "Expected ';' after loop condition."@,
    );
    lemma_for_clause_forward(
        tokens,
        second.to,
        TokenType::RightParen,
        "Expected ')' after for clauses."@,
    );
}

proof fn lemma_for_statement_forward(tokens: Seq<TokenView>, c: Cursor)
    ensures
        for_statement(tokens, c).to.at >= c.at,
        for_statement(tokens, c).result is Ok ==> for_statement(tokens, c).to.at > c.at,
    decreases remaining(tokens, c.at), 0nat,
{
    let clauses = for_clauses(tokens, c);
    lemma_for_clauses_forward(tokens, c);
    if clauses.ok_from(c.next()) {
        lemma_statement_forward(tokens, clauses.to);
    }
}

proof fn lemma_block_forward(tokens: Seq<TokenView>, c: Cursor)
    ensures
        block(tokens, c).to.at >= c.at,
        block(tokens, c).result is Ok ==> block(tokens, c).to.at > c.at,
    decreases remaining(tokens, c.at), 4nat,
{
    lemma_block_tail_forward(tokens, c, Seq::<StmtView>::empty());
}

proof fn lemma_block_tail_forward(tokens: Seq<TokenView>, c: Cursor, before: Seq<StmtView>)
    ensures
        block_tail(tokens, c, before).to.at >= c.at,
        block_tail(tokens, c, before).result is Ok ==> block_tail(tokens, c, before).to.at > c.at,
    decreases remaining(tokens, c.at), 3nat,
{
    if !check(tokens, c.at, TokenType::RightBrace) && !at_end(tokens, c.at) {
        let first = declaration(tokens, c);
        lemma_declaration_forward(tokens, c);
        if first.ok_from(c.next()) {
            lemma_block_tail_forward(tokens, first.to, before.push(first.value()));
        }
    }
}

/// Where a rule goes on from the end of a part that was read, the part did
/// not end before it began: an expression that is read moves forward.
pub proof fn lemma_read_expression_goes_on(tokens: Seq<TokenView>, c: Cursor)
    ensures
        expression(tokens, c).result is Ok ==> expression(tokens, c).ok_from(c),
{
    lemma_expression_forward(tokens, c);
}

/// A declaration that was read is one that the rules go on from.
pub proof fn lemma_read_declaration_goes_on(tokens: Seq<TokenView>, c: Cursor)
    ensures
        declaration(tokens, c).result is Ok ==> declaration(tokens, c).ok_from(c.next()),
{
    lemma_declaration_forward(tokens, c);
}

} // verus!
