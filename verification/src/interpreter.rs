//! The evaluator: it walks the syntax tree and keeps the scopes.
//!
//! A run cannot go on for ever: at most `max_depth` calls are nested, and no
//! loop goes more than `limit` rounds; a program that would ends with
//! [`RuntimeException::Exhausted`]. What `print` prints is kept in `output`,
//! in order, for the caller to write. Arithmetic on two numbers is asked of
//! the `host` that the caller passes in; where the host returns the same
//! result for the same numbers, what a program does is what
//! [`crate::semantics`] says it means.

use vstd::prelude::*;
use vstd::string::*;
use crate::environment::{Environment, ScopeView, innermost};
use crate::function::{Function, FunctionView, function_views, lemma_function_views_push};
use crate::lexer::{Token, TokenType, TokenView, token_views};
use crate::literal::{
    ArithOp, Literal, LiteralView, host_deterministic, host_function, host_total,
    lemma_literal_views_push, less, literal_views, negated,
};
use crate::semantics;
use crate::semantics::{Outcome, State};
use crate::stmt::{
    Expr, ExprView, Stmt, StmtView, expr_views, lemma_block_view, lemma_call_view, stmt_views,
};
use crate::text::decimal;

verus! {

/// A fault at run time: the token at which it arose, and what went wrong.
#[derive(Debug, PartialEq)]
pub struct RuntimeError {
    pub token: Token,
    pub message: String,
}

/// The value that a `return` statement carries to the call it ends.
#[derive(Debug, PartialEq)]
pub struct Return {
    pub value: Literal,
}

/// What ends an evaluation early.
#[derive(Debug, PartialEq)]
pub enum RuntimeException {
    /// A fault; it ends the whole run.
    Error(RuntimeError),
    /// A `return` statement on its way to the call that it ends.
    Return(Return),
    /// A limit of the interpreter was reached: calls nested too deep, or a
    /// loop that ran too long.
    Exhausted,
}

/// The mathematical content of a [`RuntimeException`].
pub enum Signal {
    Error { token: TokenView, message: Seq<char> },
    Return { value: LiteralView },
    Exhausted,
}

impl View for RuntimeException {
    type V = Signal;

    open spec fn view(&self) -> Signal {
        match self {
            RuntimeException::Error(error) => Signal::Error {
                token: error.token@,
                message: error.message@,
            },
            RuntimeException::Return(carried) => Signal::Return { value: carried.value@ },
            RuntimeException::Exhausted => Signal::Exhausted,
        }
    }
}

/// The view of a value or of the signal in its place.
pub open spec fn value_outcome(r: Result<Literal, RuntimeException>) -> Result<
    LiteralView,
    Signal,
> {
    match r {
        Ok(value) => Ok(value@),
        Err(signal) => Err(signal@),
    }
}

/// The view of the result of a statement.
pub open spec fn unit_outcome(r: Result<(), RuntimeException>) -> Result<(), Signal> {
    match r {
        Ok(_) => Ok(()),
        Err(signal) => Err(signal@),
    }
}

/// The most calls that may be nested, unless the interpreter is told otherwise.
pub const DEFAULT_DEPTH: usize = 100;

/// The interpreter: the state of a run, and the limits that bound it.
pub struct Interpreter {
    pub environment: Environment,
    /// The functions declared so far, each at the place that its value names.
    pub functions: Vec<Function>,
    /// The values printed so far.
    pub output: Vec<Literal>,
    /// The most calls that may be nested.
    pub max_depth: usize,
    /// The most rounds that one loop may go.
    pub limit: usize,
}

impl View for Interpreter {
    type V = State;

    open spec fn view(&self) -> State {
        State {
            scopes: self.environment@,
            functions: function_views(self.functions@),
            output: literal_views(self.output@),
        }
    }
}

/// A fault at `token`.
fn fault(token: &Token, message: &str) -> (r: RuntimeException)
    ensures
        r@ == semantics::fault(token@, message@),
{
    RuntimeException::Error(RuntimeError { token: token.clone(), message: message.to_owned() })
}

impl Interpreter {
    /// The scopes form a chain that ends in the global scope.
    pub open spec fn wf(&self) -> bool {
        self.environment.wf()
    }

    /// The interpreter has the limits of `before`, and as many scopes.
    pub open spec fn kept(&self, before: &Interpreter) -> bool {
        &&& self.wf()
        &&& self.max_depth == before.max_depth
        &&& self.limit == before.limit
        &&& self@.scopes.len() == before@.scopes.len()
    }

    /// The interpreter is in the state of `outcome` and returned its value.
    pub open spec fn reached<T>(&self, result: Result<T, Signal>, outcome: Outcome<T>) -> bool {
        &&& self@ == outcome.state
        &&& result == outcome.result
    }

    /// An interpreter with the global scope alone and the default limits.
    pub fn new() -> (r: Self)
        ensures
            r.wf(),
            r.max_depth == DEFAULT_DEPTH,
            r.limit == usize::MAX,
            r@ == (State {
                scopes: seq![ScopeView { values: Map::empty(), enclosing: None }],
                functions: Seq::empty(),
                output: Seq::empty(),
            }),
    {
        Self::with_limits(DEFAULT_DEPTH, usize::MAX)
    }

    /// An interpreter with the global scope alone, in which at most
    /// `max_depth` calls are nested and a loop goes at most `limit` rounds.
    pub fn with_limits(max_depth: usize, limit: usize) -> (r: Self)
        ensures
            r.wf(),
            r.max_depth == max_depth,
            r.limit == limit,
            r@ == (State {
                scopes: seq![ScopeView { values: Map::empty(), enclosing: None }],
                functions: Seq::empty(),
                output: Seq::empty(),
            }),
    {
        let r = Interpreter {
            environment: Environment::new(None),
            functions: Vec::new(),
            output: Vec::new(),
            max_depth,
            limit,
        };
        assert(r@.functions =~= Seq::empty());
        assert(r@.output =~= Seq::empty());
        r
    }

    /// Only nil and `false` are false.
    pub fn is_true(&self, value: &Literal) -> (r: bool)
        ensures
            r == semantics::truthy(value@),
    {
        match value {
            Literal::Null => false,
            Literal::Bool(x) => *x,
            _ => true,
        }
    }

    /// Equality as `==` computes it: nil equals nothing, not even nil.
    pub fn is_equal(&self, left: &Literal, right: &Literal) -> (r: bool)
        ensures
            r == semantics::language_equal(left@, right@),
    {
        match (left, right) {
            (Literal::Null, _) => false,
            (a, b) => *a == *b,
        }
    }

    /// Fails unless the operand is a number.
    pub fn check_number_operand(
        &self,
        operator: &Token,
        operand: &Literal,
    ) -> (r: Result<(), RuntimeException>)
        ensures
            operand@ is Number ==> r is Ok,
            !(operand@ is Number) ==> r is Err && r->Err_0@ == semantics::fault(
                operator@,
                "Expected the operand to be a double."@,
            ),
    {
        if operand.is_double() {
            Ok(())
        } else {
            Err(fault(operator, "Expected the operand to be a double."))
        }
    }

    /// Fails unless both operands are numbers.
    pub fn check_number_operands(
        &self,
        left: &Literal,
        operator: &Token,
        right: &Literal,
    ) -> (r: Result<(), RuntimeException>)
        ensures
            left@ is Number && right@ is Number ==> r is Ok,
            !(left@ is Number && right@ is Number) ==> r is Err && r->Err_0@ == semantics::fault(
                operator@,
                "Expected both operands to be double."@,
            ),
    {
        if left.is_double() && right.is_double() {
            Ok(())
        } else {
            Err(fault(operator, "Expected both operands to be double."))
        }
    }

    /// Applies a unary operator to the value of its operand.
    pub fn unary_operation(
        &self,
        operator: &Token,
        operand: Literal,
    ) -> (r: Result<Literal, RuntimeException>)
        ensures
            value_outcome(r) == semantics::unary_value(operator@, operand@),
    {
        match self.check_number_operand(operator, &operand) {
            Err(signal) => {
                return Err(signal);
            },
            Ok(_) => {},
        }
        match operand {
            Literal::Number(bits) => match operator.token_type {
                TokenType::Minus => Ok(Literal::Number(negated(bits))),
                TokenType::Plus => Ok(Literal::Number(bits)),
                TokenType::Bang => Ok(Literal::Bool(false)),
                _ => Ok(Literal::Null),
            },
            _ => Ok(Literal::Null),
        }
    }

    /// Applies an arithmetic operator, asking `host` for the result on two
    /// numbers.
    fn arithmetic_operation<A: Fn(ArithOp, u32, u32) -> u32>(
        operator: &Token,
        op: ArithOp,
        left: Literal,
        right: Literal,
        host: &A,
    ) -> (r: Result<Literal, RuntimeException>)
        requires
            host_total(host),
            semantics::arithmetic_of(operator@.token_type) == Some(op),
        ensures
            !semantics::asks_host(operator@, left@, right@) ==> value_outcome(r)
                == semantics::binary_value_given(operator@, left@, right@, 0),
            semantics::asks_host(operator@, left@, right@) ==> r is Ok && r->Ok_0 is Number
                && call_ensures(
                host,
                (
                    semantics::arithmetic_of(operator@.token_type)->Some_0,
                    left@->Number_0,
                    right@->Number_0,
                ),
                r->Ok_0->Number_0,
            ),
            host_deterministic(host) ==> value_outcome(r) == semantics::binary_value(
                host_function(host),
                operator@,
                left@,
                right@,
            ),
    {
        match op {
            ArithOp::Add => {},
            _ => {
                if !(left.is_double() && right.is_double()) {
                    return Err(fault(operator, "Expected both operands to be double."));
                }
            },
        }
        match left.arithmetic(op, right, host) {
            Ok(value) => Ok(value),
            Err(message) => Err(
                RuntimeException::Error(RuntimeError { token: operator.clone(), message }),
            ),
        }
    }

    /// Applies a comparison operator to two values.
    fn comparison_operation(
        operator: &Token,
        left: Literal,
        right: Literal,
    ) -> (r: Result<Literal, RuntimeException>)
        requires
            operator@.token_type == TokenType::Greater || operator@.token_type == TokenType::Less
                || operator@.token_type == TokenType::GreaterEqual || operator@.token_type
                == TokenType::LessEqual,
        ensures
            forall|f: spec_fn(ArithOp, u32, u32) -> u32|
                value_outcome(r) == #[trigger] semantics::binary_value(
                    f,
                    operator@,
                    left@,
                    right@,
                ),
    {
        match (left, right) {
            (Literal::Number(a), Literal::Number(b)) => {
                let outcome = match operator.token_type {
                    TokenType::Greater => less(b, a),
                    TokenType::Less => less(a, b),
                    TokenType::GreaterEqual => !less(a, b),
                    _ => !less(b, a),
                };
                Ok(Literal::Bool(outcome))
            },
            _ => Err(fault(operator, "Expected both operands to be double.")),
        }
    }

    /// Applies a binary operator to the values of its operands. For the
    /// result of arithmetic on two numbers it asks `host`, and returns what
    /// the host answers; every other result is fixed by the operands.
    pub fn binary_operation<A: Fn(ArithOp, u32, u32) -> u32>(
        &self,
        operator: &Token,
        left: Literal,
        right: Literal,
        host: &A,
    ) -> (r: Result<Literal, RuntimeException>)
        requires
            host_total(host),
        ensures
            !semantics::asks_host(operator@, left@, right@) ==> value_outcome(r)
                == semantics::binary_value_given(operator@, left@, right@, 0),
            semantics::asks_host(operator@, left@, right@) ==> r is Ok && r->Ok_0 is Number
                && call_ensures(
                host,
                (
                    semantics::arithmetic_of(operator@.token_type)->Some_0,
                    left@->Number_0,
                    right@->Number_0,
                ),
                r->Ok_0->Number_0,
            ),
            host_deterministic(host) ==> value_outcome(r) == semantics::binary_value(
                host_function(host),
                operator@,
                left@,
                right@,
            ),
    {
        match operator.token_type {
            TokenType::Minus => Self::arithmetic_operation(
                operator,
                ArithOp::Sub,
                left,
                right,
                host,
            ),
            TokenType::Plus => Self::arithmetic_operation(
                operator,
                ArithOp::Add,
                left,
                right,
                host,
            ),
            TokenType::Star => Self::arithmetic_operation(
                operator,
                ArithOp::Mul,
                left,
                right,
                host,
            ),
            TokenType::Slash => Self::arithmetic_operation(
                operator,
                ArithOp::Div,
                left,
                right,
                host,
            ),
            TokenType::Greater
            | TokenType::Less
            | TokenType::GreaterEqual
            | TokenType::LessEqual => Self::comparison_operation(operator, left, right),
            TokenType::EqualEqual => Ok(Literal::Bool(self.is_equal(&left, &right))),
            TokenType::BangEqual => Ok(Literal::Bool(!self.is_equal(&left, &right))),
            _ => Ok(Literal::Null),
        }
    }

    /// The fault for a call with the wrong number of arguments.
    fn arity_fault(paren: &Token, expected: usize, got: usize) -> (r: RuntimeException)
        ensures
            r@ == semantics::fault(paren@, semantics::arity_message(expected as nat, got as nat)),
    {
        let mut message = "Expected ".to_owned();
        message.append(decimal(expected).as_str());
        message.append(" arguments but got ");
        message.append(decimal(got).as_str());
        message.append(".");
        RuntimeException::Error(RuntimeError { token: paren.clone(), message })
    }

    /// Binds a name in the innermost scope.
    fn define(&mut self, name: String, value: Literal)
        requires
            old(self).wf(),
        ensures
            final(self).kept(old(self)),
            final(self)@ == old(self)@.defined(name@, value@),
    {
        self.environment.define(name, value);
        proof {
            crate::environment::lemma_bound_chained(
                old(self)@.scopes,
                innermost(old(self)@.scopes),
                name@,
                value@,
            );
        }
    }

    /// Enters a fresh scope for a block.
    fn enter(&mut self)
        requires
            old(self).wf(),
        ensures
            final(self).wf(),
            final(self).max_depth == old(self).max_depth,
            final(self).limit == old(self).limit,
            final(self)@ == old(self)@.entered(),
            final(self)@.scopes.len() == old(self)@.scopes.len() + 1,
    {
        self.environment.enter();
    }

    /// Enters a fresh scope for a call.
    fn enter_call(&mut self)
        requires
            old(self).wf(),
        ensures
            final(self).wf(),
            final(self).max_depth == old(self).max_depth,
            final(self).limit == old(self).limit,
            final(self)@ == old(self)@.entered_call(),
            final(self)@.scopes.len() == old(self)@.scopes.len() + 1,
    {
        self.environment.enter_call();
    }

    /// Leaves the innermost scope, which is not the global one.
    fn leave(&mut self)
        requires
            old(self).wf(),
            old(self)@.scopes.len() > 1,
        ensures
            final(self).wf(),
            final(self).max_depth == old(self).max_depth,
            final(self).limit == old(self).limit,
            final(self)@ == old(self)@.left(),
            final(self)@.scopes.len() == old(self)@.scopes.len() - 1,
    {
        self.environment.leave();
    }

    /// Records a printed value.
    fn print(&mut self, value: Literal)
        requires
            old(self).wf(),
        ensures
            final(self).kept(old(self)),
            final(self)@ == old(self)@.printed(value@),
    {
        let ghost before = self.output@;
        self.output.push(value);
        proof {
            lemma_literal_views_push(before, value);
        }
    }

    /// Adds a function to the table and returns its place.
    fn declare(&mut self, function: Function) -> (index: usize)
        requires
            old(self).wf(),
        ensures
            final(self).kept(old(self)),
            final(self)@ == old(self)@.declared(function@),
            index == old(self)@.functions.len(),
    {
        let ghost before = self.functions@;
        let index = self.functions.len();
        self.functions.push(function);
        proof {
            lemma_function_views_push(before, function);
        }
        index
    }

    /// The value of a variable.
    fn visit_variable_expr(&mut self, name: &Token) -> (r: Result<Literal, RuntimeException>)
        requires
            old(self).wf(),
        ensures
            final(self).kept(old(self)),
            final(self).reached(value_outcome(r), semantics::eval_variable(name@, old(self)@)),
    {
        self.environment.get(name.clone())
    }

    /// A copy of a literal.
    fn visit_literal_expr(&mut self, literal: &Literal) -> (r: Result<Literal, RuntimeException>)
        requires
            old(self).wf(),
        ensures
            final(self).kept(old(self)),
            final(self).reached(value_outcome(r), semantics::yields(old(self)@, literal@)),
    {
        Ok(literal.clone())
    }

    /// Assigns a value to a name that is bound already.
    fn assign(&mut self, name: &Token, value: Literal) -> (r: Result<Literal, RuntimeException>)
        requires
            old(self).wf(),
        ensures
            final(self).kept(old(self)),
            crate::environment::assigned(old(self)@.scopes, name@.lexeme, value@) is Some ==> final(self).reached(
                value_outcome(r),
                semantics::yields(
                    old(self)@.with_scopes(
                        crate::environment::assigned(
                            old(self)@.scopes,
                            name@.lexeme,
                            value@,
                        )->Some_0,
                    ),
                    value@,
                ),
            ),
            crate::environment::assigned(old(self)@.scopes, name@.lexeme, value@) is None ==> final(self).reached(
                value_outcome(r),
                semantics::ends(
                    old(self)@,
                    semantics::fault(
                        name@,
                        crate::environment::undefined_message(name@.lexeme),
                    ),
                ),
            ),
    {
        proof {
            crate::environment::lemma_holder_bounds(
                old(self)@.scopes,
                innermost(old(self)@.scopes),
                name@.lexeme,
            );
            if crate::environment::holder(
                old(self)@.scopes,
                innermost(old(self)@.scopes),
                name@.lexeme,
            ) is Some {
                crate::environment::lemma_bound_chained(
                    old(self)@.scopes,
                    crate::environment::holder(
                        old(self)@.scopes,
                        innermost(old(self)@.scopes),
                        name@.lexeme,
                    )->Some_0,
                    name@.lexeme,
                    value@,
                );
            }
        }
        match self.environment.assign(name.clone(), value.clone()) {
            Ok(_) => Ok(value),
            Err(signal) => Err(signal),
        }
    }

    /// The value of an expression. `depth` calls may be nested in it.
    pub fn evaluate<A: Fn(ArithOp, u32, u32) -> u32>(
        &mut self,
        expr: &Expr,
        host: &A,
        depth: usize,
    ) -> (r: Result<Literal, RuntimeException>)
        requires
            old(self).wf(),
            host_total(host),
        ensures
            final(self).kept(old(self)),
            host_deterministic(host) ==> final(self).reached(
                value_outcome(r),
                semantics::eval(
                    host_function(host),
                    expr@,
                    old(self)@,
                    depth as nat,
                    old(self).limit as nat,
                ),
            ),
        decreases depth, 0nat, expr, 4nat,
    {
        self.walk_expr(expr, host, depth)
    }

    /// Walks an expression: the value it has.
    pub fn walk_expr<A: Fn(ArithOp, u32, u32) -> u32>(
        &mut self,
        expr: &Expr,
        host: &A,
        depth: usize,
    ) -> (r: Result<Literal, RuntimeException>)
        requires
            old(self).wf(),
            host_total(host),
        ensures
            final(self).kept(old(self)),
            host_deterministic(host) ==> final(self).reached(
                value_outcome(r),
                semantics::eval(
                    host_function(host),
                    expr@,
                    old(self)@,
                    depth as nat,
                    old(self).limit as nat,
                ),
            ),
        decreases depth, 0nat, expr, 3nat,
    {
        self.visit_expr(expr, host, depth)
    }

    /// The value of an expression, by its kind.
    pub fn visit_expr<A: Fn(ArithOp, u32, u32) -> u32>(
        &mut self,
        expr: &Expr,
        host: &A,
        depth: usize,
    ) -> (r: Result<Literal, RuntimeException>)
        requires
            old(self).wf(),
            host_total(host),
        ensures
            final(self).kept(old(self)),
            host_deterministic(host) ==> final(self).reached(
                value_outcome(r),
                semantics::eval(
                    host_function(host),
                    expr@,
                    old(self)@,
                    depth as nat,
                    old(self).limit as nat,
                ),
            ),
        decreases depth, 0nat, expr, 2nat,
    {
        match expr {
            Expr::Literal(literal) => self.visit_literal_expr(literal),
            Expr::Grouping(inner) => self.visit_grouping_expr(inner, host, depth),
            Expr::Unary(_, _) => self.visit_unary_expr(expr, host, depth),
            Expr::Logical(_, _, _) => self.visit_logical_expr(expr, host, depth),
            Expr::Binary(_, _, _) => self.visit_binary_expr(expr, host, depth),
            Expr::Variable(name) => self.visit_variable_expr(name),
            Expr::Assign(_, _) => self.visit_assign_expr(expr, host, depth),
            Expr::Call(_, _, _) => self.visit_call_expr(expr, host, depth),
            Expr::Absent => Ok(Literal::Null),
        }
    }

    /// The value of an expression in parentheses.
    fn visit_grouping_expr<A: Fn(ArithOp, u32, u32) -> u32>(
        &mut self,
        expr: &Box<Expr>,
        host: &A,
        depth: usize,
    ) -> (r: Result<Literal, RuntimeException>)
        requires
            old(self).wf(),
            host_total(host),
        ensures
            final(self).kept(old(self)),
            host_deterministic(host) ==> final(self).reached(
                value_outcome(r),
                semantics::eval(
                    host_function(host),
                    expr@,
                    old(self)@,
                    depth as nat,
                    old(self).limit as nat,
                ),
            ),
        decreases depth, 0nat, expr, 5nat,
    {
        self.evaluate(expr, host, depth)
    }

    /// The value of a unary expression.
    fn visit_unary_expr<A: Fn(ArithOp, u32, u32) -> u32>(
        &mut self,
        expr: &Expr,
        host: &A,
        depth: usize,
    ) -> (r: Result<Literal, RuntimeException>)
        requires
            old(self).wf(),
            host_total(host),
        ensures
            final(self).kept(old(self)),
            host_deterministic(host) ==> final(self).reached(
                value_outcome(r),
                semantics::eval_unary(
                    host_function(host),
                    expr@,
                    old(self)@,
                    depth as nat,
                    old(self).limit as nat,
                ),
            ),
        decreases depth, 0nat, expr, 1nat,
    {
        match expr {
            Expr::Unary(operator, operand) => {
                let right = match self.evaluate(operand, host, depth) {
                    Ok(value) => value,
                    Err(signal) => {
                        return Err(signal);
                    },
                };
                self.unary_operation(operator, right)
            },
            _ => Ok(Literal::Null),
        }
    }

    /// The value of `and` and `or`: the right operand is evaluated only
    /// where the left one does not decide.
    fn visit_logical_expr<A: Fn(ArithOp, u32, u32) -> u32>(
        &mut self,
        expr: &Expr,
        host: &A,
        depth: usize,
    ) -> (r: Result<Literal, RuntimeException>)
        requires
            old(self).wf(),
            host_total(host),
        ensures
            final(self).kept(old(self)),
            host_deterministic(host) ==> final(self).reached(
                value_outcome(r),
                semantics::eval_logical(
                    host_function(host),
                    expr@,
                    old(self)@,
                    depth as nat,
                    old(self).limit as nat,
                ),
            ),
        decreases depth, 0nat, expr, 1nat,
    {
        match expr {
            Expr::Logical(left, operator, right) => {
                let first = match self.evaluate(left, host, depth) {
                    Ok(value) => value,
                    Err(signal) => {
                        return Err(signal);
                    },
                };
                if operator.token_type == TokenType::And {
                    if !self.is_true(&first) {
                        return Ok(first);
                    }
                } else {
                    if self.is_true(&first) {
                        return Ok(first);
                    }
                }
                self.evaluate(right, host, depth)
            },
            _ => Ok(Literal::Null),
        }
    }

    /// The value of a binary expression.
    fn visit_binary_expr<A: Fn(ArithOp, u32, u32) -> u32>(
        &mut self,
        expr: &Expr,
        host: &A,
        depth: usize,
    ) -> (r: Result<Literal, RuntimeException>)
        requires
            old(self).wf(),
            host_total(host),
        ensures
            final(self).kept(old(self)),
            host_deterministic(host) ==> final(self).reached(
                value_outcome(r),
                semantics::eval_binary(
                    host_function(host),
                    expr@,
                    old(self)@,
                    depth as nat,
                    old(self).limit as nat,
                ),
            ),
        decreases depth, 0nat, expr, 1nat,
    {
        match expr {
            Expr::Binary(left, operator, right) => {
                let first = match self.evaluate(left, host, depth) {
                    Ok(value) => value,
                    Err(signal) => {
                        return Err(signal);
                    },
                };
                let second = match self.evaluate(right, host, depth) {
                    Ok(value) => value,
                    Err(signal) => {
                        return Err(signal);
                    },
                };
                self.binary_operation(operator, first, second, host)
            },
            _ => Ok(Literal::Null),
        }
    }

    /// The value of an assignment.
    fn visit_assign_expr<A: Fn(ArithOp, u32, u32) -> u32>(
        &mut self,
        expr: &Expr,
        host: &A,
        depth: usize,
    ) -> (r: Result<Literal, RuntimeException>)
        requires
            old(self).wf(),
            host_total(host),
        ensures
            final(self).kept(old(self)),
            host_deterministic(host) ==> final(self).reached(
                value_outcome(r),
                semantics::eval_assign(
                    host_function(host),
                    expr@,
                    old(self)@,
                    depth as nat,
                    old(self).limit as nat,
                ),
            ),
        decreases depth, 0nat, expr, 1nat,
    {
        match expr {
            Expr::Assign(name, value) => {
                let right = match self.evaluate(value, host, depth) {
                    Ok(value) => value,
                    Err(signal) => {
                        return Err(signal);
                    },
                };
                self.assign(name, right)
            },
            _ => Ok(Literal::Null),
        }
    }

    /// The values of the arguments of a call, left to right.
    fn evaluate_arguments<A: Fn(ArithOp, u32, u32) -> u32>(
        &mut self,
        arguments: &Vec<Expr>,
        host: &A,
        depth: usize,
    ) -> (r: Result<Vec<Literal>, RuntimeException>)
        requires
            old(self).wf(),
            host_total(host),
        ensures
            final(self).kept(old(self)),
            host_deterministic(host) ==> final(self).reached(
                match r {
                    Ok(values) => Ok(literal_views(values@)),
                    Err(signal) => Err(signal@),
                },
                semantics::eval_arguments(
                    host_function(host),
                    expr_views(arguments@),
                    0,
                    Seq::empty(),
                    old(self)@,
                    depth as nat,
                    old(self).limit as nat,
                ),
            ),
        decreases depth, 0nat, arguments, 0nat,
    {
        let ghost views = expr_views(arguments@);
        let ghost target = semantics::eval_arguments(
            host_function(host),
            views,
            0,
            Seq::empty(),
            self@,
            depth as nat,
            self.limit as nat,
        );
        let mut values: Vec<Literal> = Vec::new();
        assert(literal_views(values@) =~= Seq::<LiteralView>::empty());
        let mut i: usize = 0;
        while i < arguments.len()
            invariant
                i <= arguments@.len(),
                self.kept(old(self)),
                host_total(host),
                views == expr_views(arguments@),
                target == semantics::eval_arguments(
                    host_function(host),
                    views,
                    0,
                    Seq::empty(),
                    old(self)@,
                    depth as nat,
                    old(self).limit as nat,
                ),
                host_deterministic(host) ==> target == semantics::eval_arguments(
                    host_function(host),
                    views,
                    i as nat,
                    literal_views(values@),
                    self@,
                    depth as nat,
                    self.limit as nat,
                ),
            decreases arguments.len() - i,
        {
            let ghost before = values@;
            match self.evaluate(&arguments[i], host, depth) {
                Ok(value) => {
                    values.push(value);
                    proof {
                        lemma_literal_views_push(before, value);
                    }
                },
                Err(signal) => {
                    return Err(signal);
                },
            }
            i += 1;
        }
        Ok(values)
    }

    /// The value of a call.
    fn visit_call_expr<A: Fn(ArithOp, u32, u32) -> u32>(
        &mut self,
        expr: &Expr,
        host: &A,
        depth: usize,
    ) -> (r: Result<Literal, RuntimeException>)
        requires
            old(self).wf(),
            host_total(host),
        ensures
            final(self).kept(old(self)),
            host_deterministic(host) ==> final(self).reached(
                value_outcome(r),
                semantics::eval_call(
                    host_function(host),
                    expr@,
                    old(self)@,
                    depth as nat,
                    old(self).limit as nat,
                ),
            ),
        decreases depth, 0nat, expr, 1nat,
    {
        match expr {
            Expr::Call(callee, paren, arguments) => {
                proof {
                    lemma_call_view(**callee, *paren, *arguments);
                }
                let target = match self.evaluate(callee, host, depth) {
                    Ok(value) => value,
                    Err(signal) => {
                        return Err(signal);
                    },
                };
                let values = match self.evaluate_arguments(arguments, host, depth) {
                    Ok(values) => values,
                    Err(signal) => {
                        return Err(signal);
                    },
                };
                match target {
                    Literal::Function(index) => {
                        if index >= self.functions.len() {
                            return Err(fault(paren, "Can only call functions and classes."));
                        }
                        let function = self.functions[index].clone();
                        if values.len() != function.arity() {
                            return Err(Self::arity_fault(paren, function.arity(), values.len()));
                        }
                        if depth == 0 {
                            return Err(RuntimeException::Exhausted);
                        }
                        function.call(self, values, host, depth - 1)
                    },
                    _ => Err(fault(paren, "Can only call functions and classes.")),
                }
            },
            _ => Ok(Literal::Null),
        }
    }

    /// Executes the statements of a program in order, in the scopes as they
    /// stand, with at most `max_depth` nested calls.
    pub fn interpret<A: Fn(ArithOp, u32, u32) -> u32>(
        &mut self,
        stmts: &[Stmt],
        host: &A,
    ) -> (r: Result<(), RuntimeException>)
        requires
            old(self).wf(),
            host_total(host),
        ensures
            final(self).kept(old(self)),
            host_deterministic(host) ==> final(self).reached(
                unit_outcome(r),
                semantics::run(
                    host_function(host),
                    stmt_views(stmts@),
                    old(self)@,
                    old(self).max_depth as nat,
                    old(self).limit as nat,
                ),
            ),
    {
        let depth = self.max_depth;
        let ghost views = stmt_views(stmts@);
        let mut i: usize = 0;
        while i < stmts.len()
            invariant
                i <= stmts@.len(),
                self.kept(old(self)),
                host_total(host),
                depth == self.max_depth,
                views == stmt_views(stmts@),
                host_deterministic(host) ==> semantics::exec_block(
                    host_function(host),
                    views,
                    0,
                    old(self)@,
                    depth as nat,
                    old(self).limit as nat,
                ) == semantics::exec_block(
                    host_function(host),
                    views,
                    i as nat,
                    self@,
                    depth as nat,
                    self.limit as nat,
                ),
            decreases stmts.len() - i,
        {
            match self.execute(&stmts[i], host, depth) {
                Ok(_) => {},
                Err(signal) => {
                    return Err(signal);
                },
            }
            i += 1;
        }
        Ok(())
    }

    /// The effect of a statement. `depth` calls may be nested in it.
    pub fn execute<A: Fn(ArithOp, u32, u32) -> u32>(
        &mut self,
        stmt: &Stmt,
        host: &A,
        depth: usize,
    ) -> (r: Result<(), RuntimeException>)
        requires
            old(self).wf(),
            host_total(host),
        ensures
            final(self).kept(old(self)),
            host_deterministic(host) ==> final(self).reached(
                unit_outcome(r),
                semantics::exec(
                    host_function(host),
                    stmt@,
                    old(self)@,
                    depth as nat,
                    old(self).limit as nat,
                ),
            ),
        decreases depth, 1nat, stmt, 4nat,
    {
        self.walk_stmt(stmt, host, depth)
    }

    /// Walks a statement: the effect it has.
    pub fn walk_stmt<A: Fn(ArithOp, u32, u32) -> u32>(
        &mut self,
        stmt: &Stmt,
        host: &A,
        depth: usize,
    ) -> (r: Result<(), RuntimeException>)
        requires
            old(self).wf(),
            host_total(host),
        ensures
            final(self).kept(old(self)),
            host_deterministic(host) ==> final(self).reached(
                unit_outcome(r),
                semantics::exec(
                    host_function(host),
                    stmt@,
                    old(self)@,
                    depth as nat,
                    old(self).limit as nat,
                ),
            ),
        decreases depth, 1nat, stmt, 3nat,
    {
        self.visit_stmt(stmt, host, depth)
    }

    /// The effect of a statement, by its kind.
    pub fn visit_stmt<A: Fn(ArithOp, u32, u32) -> u32>(
        &mut self,
        stmt: &Stmt,
        host: &A,
        depth: usize,
    ) -> (r: Result<(), RuntimeException>)
        requires
            old(self).wf(),
            host_total(host),
        ensures
            final(self).kept(old(self)),
            host_deterministic(host) ==> final(self).reached(
                unit_outcome(r),
                semantics::exec(
                    host_function(host),
                    stmt@,
                    old(self)@,
                    depth as nat,
                    old(self).limit as nat,
                ),
            ),
        decreases depth, 1nat, stmt, 2nat,
    {
        match stmt {
            Stmt::Expression(expr) => self.visit_expr_stmt(expr, host, depth),
            Stmt::Print(expr) => self.visit_print_stmt(expr, host, depth),
            Stmt::If(_, _, _) => self.visit_if_stmt(stmt, host, depth),
            Stmt::While(_, _) => self.visit_while_stmt(stmt, host, depth),
            Stmt::Var(name, initializer) => self.visit_var_stmt(name, initializer, host, depth),
            Stmt::Block(statements) => {
                proof {
                    lemma_block_view(*statements);
                }
                self.visit_block_stmt(statements, host, depth)
            },
            Stmt::Function(name, parameters, body) => self.visit_function_stmt(
                name,
                parameters,
                body,
            ),
            Stmt::Return(keyword, value) => self.visit_return_stmt(keyword, value, host, depth),
            Stmt::Absent => Ok(()),
        }
    }

    /// An expression for its effects.
    fn visit_expr_stmt<A: Fn(ArithOp, u32, u32) -> u32>(
        &mut self,
        expr: &Expr,
        host: &A,
        depth: usize,
    ) -> (r: Result<(), RuntimeException>)
        requires
            old(self).wf(),
            host_total(host),
        ensures
            final(self).kept(old(self)),
            host_deterministic(host) ==> final(self).reached(
                unit_outcome(r),
                semantics::exec(
                    host_function(host),
                    StmtView::Expression(expr@),
                    old(self)@,
                    depth as nat,
                    old(self).limit as nat,
                ),
            ),
        decreases depth, 0nat, expr, 6nat,
    {
        match self.evaluate(expr, host, depth) {
            Ok(_) => Ok(()),
            Err(signal) => Err(signal),
        }
    }

    /// `print`: the value is added to the output.
    fn visit_print_stmt<A: Fn(ArithOp, u32, u32) -> u32>(
        &mut self,
        expr: &Expr,
        host: &A,
        depth: usize,
    ) -> (r: Result<(), RuntimeException>)
        requires
            old(self).wf(),
            host_total(host),
        ensures
            final(self).kept(old(self)),
            host_deterministic(host) ==> final(self).reached(
                unit_outcome(r),
                semantics::exec(
                    host_function(host),
                    StmtView::Print(expr@),
                    old(self)@,
                    depth as nat,
                    old(self).limit as nat,
                ),
            ),
        decreases depth, 0nat, expr, 6nat,
    {
        match self.evaluate(expr, host, depth) {
            Ok(value) => {
                self.print(value);
                Ok(())
            },
            Err(signal) => Err(signal),
        }
    }

    /// `let`: the name is bound in the innermost scope.
    fn visit_var_stmt<A: Fn(ArithOp, u32, u32) -> u32>(
        &mut self,
        name: &Token,
        initializer: &Expr,
        host: &A,
        depth: usize,
    ) -> (r: Result<(), RuntimeException>)
        requires
            old(self).wf(),
            host_total(host),
        ensures
            final(self).kept(old(self)),
            host_deterministic(host) ==> final(self).reached(
                unit_outcome(r),
                semantics::exec(
                    host_function(host),
                    StmtView::Var(name@, initializer@),
                    old(self)@,
                    depth as nat,
                    old(self).limit as nat,
                ),
            ),
        decreases depth, 0nat, initializer, 6nat,
    {
        match self.evaluate(initializer, host, depth) {
            Ok(value) => {
                self.define(name.lexeme.clone(), value);
                Ok(())
            },
            Err(signal) => Err(signal),
        }
    }

    /// `if`: the branch that the condition chooses.
    fn visit_if_stmt<A: Fn(ArithOp, u32, u32) -> u32>(
        &mut self,
        stmt: &Stmt,
        host: &A,
        depth: usize,
    ) -> (r: Result<(), RuntimeException>)
        requires
            old(self).wf(),
            host_total(host),
        ensures
            final(self).kept(old(self)),
            host_deterministic(host) ==> final(self).reached(
                unit_outcome(r),
                semantics::exec_if(
                    host_function(host),
                    stmt@,
                    old(self)@,
                    depth as nat,
                    old(self).limit as nat,
                ),
            ),
        decreases depth, 1nat, stmt, 1nat,
    {
        match stmt {
            Stmt::If(condition, then_stmt, else_stmt) => {
                let test = match self.evaluate(condition, host, depth) {
                    Ok(value) => value,
                    Err(signal) => {
                        return Err(signal);
                    },
                };
                if self.is_true(&test) {
                    self.execute(then_stmt, host, depth)
                } else {
                    self.execute(else_stmt, host, depth)
                }
            },
            _ => Ok(()),
        }
    }

    /// `while`: the body runs as long as the condition holds, and no more
    /// rounds than the limit allows.
    fn visit_while_stmt<A: Fn(ArithOp, u32, u32) -> u32>(
        &mut self,
        stmt: &Stmt,
        host: &A,
        depth: usize,
    ) -> (r: Result<(), RuntimeException>)
        requires
            old(self).wf(),
            host_total(host),
        ensures
            final(self).kept(old(self)),
            host_deterministic(host) ==> final(self).reached(
                unit_outcome(r),
                semantics::exec_while(
                    host_function(host),
                    stmt@,
                    old(self)@,
                    depth as nat,
                    old(self).limit as nat,
                    old(self).limit as nat,
                ),
            ),
        decreases depth, 1nat, stmt, 1nat,
    {
        match stmt {
            Stmt::While(condition, body) => {
                let mut remaining = self.limit;
                loop
                    invariant
                        self.kept(old(self)),
                        host_total(host),
                        stmt matches Stmt::While(c, b) && c == condition && b == body,
                        host_deterministic(host) ==> semantics::exec_while(
                            host_function(host),
                            stmt@,
                            old(self)@,
                            depth as nat,
                            old(self).limit as nat,
                            old(self).limit as nat,
                        ) == semantics::exec_while(
                            host_function(host),
                            stmt@,
                            self@,
                            depth as nat,
                            self.limit as nat,
                            remaining as nat,
                        ),
                    decreases remaining,
                {
                    let test = match self.evaluate(condition, host, depth) {
                        Ok(value) => value,
                        Err(signal) => {
                            return Err(signal);
                        },
                    };
                    if !self.is_true(&test) {
                        return Ok(());
                    }
                    if remaining == 0 {
                        return Err(RuntimeException::Exhausted);
                    }
                    remaining -= 1;
                    match self.execute(body, host, depth) {
                        Ok(_) => {},
                        Err(signal) => {
                            return Err(signal);
                        },
                    }
                }
            },
            _ => Ok(()),
        }
    }

    /// A block: its statements run in a fresh scope.
    fn visit_block_stmt<A: Fn(ArithOp, u32, u32) -> u32>(
        &mut self,
        stmts: &Vec<Stmt>,
        host: &A,
        depth: usize,
    ) -> (r: Result<(), RuntimeException>)
        requires
            old(self).wf(),
            host_total(host),
        ensures
            final(self).kept(old(self)),
            host_deterministic(host) ==> final(self).reached(
                unit_outcome(r),
                semantics::exec_scope(
                    host_function(host),
                    stmt_views(stmts@),
                    old(self)@.entered(),
                    depth as nat,
                    old(self).limit as nat,
                ),
            ),
        decreases depth, 1nat, stmts, 3nat,
    {
        self.enter();
        self.execute_block(stmts, host, depth)
    }

    /// `fn`: the function is added to the table, and its name is bound to it.
    fn visit_function_stmt(
        &mut self,
        name: &Token,
        parameters: &Vec<Token>,
        body: &Stmt,
    ) -> (r: Result<(), RuntimeException>)
        requires
            old(self).wf(),
        ensures
            final(self).kept(old(self)),
            final(self).reached(
                unit_outcome(r),
                semantics::yields(
                    old(self)@.declared(
                        FunctionView {
                            name: name@,
                            parameters: token_views(parameters@),
                            body: body@,
                        },
                    ).defined(name@.lexeme, LiteralView::Function(old(self)@.functions.len())),
                    (),
                ),
            ),
    {
        let function = Function::new(name.clone(), parameters.as_slice(), body.clone());
        let index = self.declare(function);
        self.define(name.lexeme.clone(), Literal::Function(index));
        Ok(())
    }

    /// `return`: the value is carried to the call that the statement ends.
    fn visit_return_stmt<A: Fn(ArithOp, u32, u32) -> u32>(
        &mut self,
        _keyword: &Token,
        value: &Expr,
        host: &A,
        depth: usize,
    ) -> (r: Result<(), RuntimeException>)
        requires
            old(self).wf(),
            host_total(host),
        ensures
            final(self).kept(old(self)),
            host_deterministic(host) ==> final(self).reached(
                unit_outcome(r),
                semantics::exec(
                    host_function(host),
                    StmtView::Return(_keyword@, value@),
                    old(self)@,
                    depth as nat,
                    old(self).limit as nat,
                ),
            ),
        decreases depth, 0nat, value, 6nat,
    {
        match self.evaluate(value, host, depth) {
            Ok(carried) => Err(RuntimeException::Return(Return { value: carried })),
            Err(signal) => Err(signal),
        }
    }

    /// Executes statements in order, up to the first that ends with a signal.
    fn run_statements<A: Fn(ArithOp, u32, u32) -> u32>(
        &mut self,
        stmts: &Vec<Stmt>,
        host: &A,
        depth: usize,
    ) -> (r: Result<(), RuntimeException>)
        requires
            old(self).wf(),
            host_total(host),
        ensures
            final(self).kept(old(self)),
            host_deterministic(host) ==> final(self).reached(
                unit_outcome(r),
                semantics::exec_block(
                    host_function(host),
                    stmt_views(stmts@),
                    0,
                    old(self)@,
                    depth as nat,
                    old(self).limit as nat,
                ),
            ),
        decreases depth, 1nat, stmts, 1nat,
    {
        let ghost views = stmt_views(stmts@);
        let mut i: usize = 0;
        while i < stmts.len()
            invariant
                i <= stmts@.len(),
                self.kept(old(self)),
                host_total(host),
                views == stmt_views(stmts@),
                host_deterministic(host) ==> semantics::exec_block(
                    host_function(host),
                    views,
                    0,
                    old(self)@,
                    depth as nat,
                    old(self).limit as nat,
                ) == semantics::exec_block(
                    host_function(host),
                    views,
                    i as nat,
                    self@,
                    depth as nat,
                    self.limit as nat,
                ),
            decreases stmts.len() - i,
        {
            match self.execute(&stmts[i], host, depth) {
                Ok(_) => {},
                Err(signal) => {
                    return Err(signal);
                },
            }
            i += 1;
        }
        Ok(())
    }

    /// Executes the statements of a block or a body in the innermost scope,
    /// which the caller has entered, and leaves that scope however they end.
    pub fn execute_block<A: Fn(ArithOp, u32, u32) -> u32>(
        &mut self,
        stmts: &Vec<Stmt>,
        host: &A,
        depth: usize,
    ) -> (r: Result<(), RuntimeException>)
        requires
            old(self).wf(),
            old(self)@.scopes.len() > 1,
            host_total(host),
        ensures
            final(self).wf(),
            final(self).max_depth == old(self).max_depth,
            final(self).limit == old(self).limit,
            final(self)@.scopes.len() == old(self)@.scopes.len() - 1,
            host_deterministic(host) ==> final(self).reached(
                unit_outcome(r),
                semantics::exec_scope(
                    host_function(host),
                    stmt_views(stmts@),
                    old(self)@,
                    depth as nat,
                    old(self).limit as nat,
                ),
            ),
        decreases depth, 1nat, stmts, 2nat,
    {
        let r = self.run_statements(stmts, host, depth);
        self.leave();
        r
    }
}

impl Function {
    /// Calls the function with as many arguments as it has parameters: the
    /// body runs in a fresh scope inside the global one, with the parameters
    /// bound to the arguments.
    pub fn call<A: Fn(ArithOp, u32, u32) -> u32>(
        &self,
        interpreter: &mut Interpreter,
        arguments: Vec<Literal>,
        host: &A,
        depth: usize,
    ) -> (r: Result<Literal, RuntimeException>)
        requires
            old(interpreter).wf(),
            host_total(host),
            arguments@.len() == self@.parameters.len(),
        ensures
            final(interpreter).kept(old(interpreter)),
            host_deterministic(host) ==> final(interpreter).reached(
                value_outcome(r),
                semantics::invoke(
                    host_function(host),
                    self@,
                    literal_views(arguments@),
                    old(interpreter)@,
                    depth as nat,
                    old(interpreter).limit as nat,
                ),
            ),
        decreases depth, 2nat, self, 0nat,
    {
        interpreter.enter_call();
        let ghost parameters = self@.parameters;
        let ghost values = literal_views(arguments@);
        let ghost entered = interpreter@.scopes;
        let mut i: usize = 0;
        while i < self.parameters.len()
            invariant
                i <= self.parameters@.len(),
                arguments@.len() == self.parameters@.len(),
                parameters == token_views(self.parameters@),
                values == literal_views(arguments@),
                interpreter.wf(),
                interpreter.max_depth == old(interpreter).max_depth,
                interpreter.limit == old(interpreter).limit,
                interpreter@.scopes.len() == old(interpreter)@.scopes.len() + 1,
                interpreter@.functions == old(interpreter)@.functions,
                interpreter@.output == old(interpreter)@.output,
                entered == crate::environment::entered(old(interpreter)@.scopes, 0),
                semantics::bound_parameters(entered, parameters, values, 0)
                    == semantics::bound_parameters(
                    interpreter@.scopes,
                    parameters,
                    values,
                    i as nat,
                ),
            decreases self.parameters.len() - i,
        {
            interpreter.define(self.parameters[i].lexeme.clone(), arguments[i].clone());
            i += 1;
        }
        let run = match &self.body {
            Stmt::Block(statements) => {
                proof {
                    lemma_block_view(*statements);
                }
                interpreter.execute_block(statements, host, depth)
            },
            _ => {
                interpreter.leave();
                Ok(())
            },
        };
        match run {
            Ok(_) => Ok(Literal::Null),
            Err(RuntimeException::Return(carried)) => Ok(carried.value),
            Err(signal) => Err(signal),
        }
    }
}

} // verus!
