//! What a program means: the value of each expression and the effect of each
//! statement, as functions of the tree and the state.
//!
//! The functions take the arithmetic of the host as `f`. Two numbers bound a
//! run: `depth`, the number of calls that may still be nested, and `limit`,
//! the number of times one loop may go round.
//!
//! A function is called in a fresh scope inside the global one, whatever
//! scope it was declared or called in. The unary operators take a number.
//! Comparing anything but two numbers with `<`, `<=`, `>` or `>=` is a fault.

use vstd::prelude::*;
use crate::environment::{ScopeView, assigned, defined, entered, innermost, lookup, undefined_message};
use crate::function::FunctionView;
use crate::interpreter::Signal;
use crate::lexer::{TokenType, TokenView};
use crate::literal::{
    ArithOp, LiteralView, arithmetic_result, literal_equal, number_less, number_negated,
};
use crate::stmt::{ExprView, StmtView};
use crate::text::decimal_digits;

verus! {

/// The state of a run: the scopes, the functions declared so far, and the
/// values printed so far.
pub struct State {
    pub scopes: Seq<ScopeView>,
    pub functions: Seq<FunctionView>,
    pub output: Seq<LiteralView>,
}

/// What evaluating or executing gave: a value or the signal that ended it,
/// and the state after it.
pub struct Outcome<T> {
    pub result: Result<T, Signal>,
    pub state: State,
}

impl State {
    /// The state with other scopes.
    pub open spec fn with_scopes(self, scopes: Seq<ScopeView>) -> State {
        State { scopes, ..self }
    }

    /// The state after `let`.
    pub open spec fn defined(self, name: Seq<char>, value: LiteralView) -> State {
        self.with_scopes(defined(self.scopes, name, value))
    }

    /// The state in a fresh scope for a block.
    pub open spec fn entered(self) -> State {
        self.with_scopes(entered(self.scopes, innermost(self.scopes)))
    }

    /// The state in a fresh scope for a call.
    pub open spec fn entered_call(self) -> State {
        self.with_scopes(entered(self.scopes, 0))
    }

    /// The state without its innermost scope.
    pub open spec fn left(self) -> State {
        self.with_scopes(self.scopes.drop_last())
    }

    /// The state with one more value printed.
    pub open spec fn printed(self, value: LiteralView) -> State {
        State { output: self.output.push(value), ..self }
    }

    /// The state with one more function declared.
    pub open spec fn declared(self, function: FunctionView) -> State {
        State { functions: self.functions.push(function), ..self }
    }
}

/// The outcome that yields `value` in `state`.
pub open spec fn yields<T>(state: State, value: T) -> Outcome<T> {
    Outcome { result: Ok(value), state }
}

/// The outcome that ends with `signal` in `state`.
pub open spec fn ends<T>(state: State, signal: Signal) -> Outcome<T> {
    Outcome { result: Err(signal), state }
}

impl<T> Outcome<T> {
    /// The signal of an outcome that yielded no value, as an outcome of
    /// another type.
    pub open spec fn signal<U>(self) -> Outcome<U> {
        Outcome { result: Err(self.result->Err_0), state: self.state }
    }
}

/// Only nil and `false` are false; every other value is true.
pub open spec fn truthy(value: LiteralView) -> bool {
    !(value is Null) && value != LiteralView::Bool(false)
}

/// Equality as `==` computes it: nil equals nothing, not even nil; any other
/// value equals a value of its variant with equal contents.
pub open spec fn language_equal(left: LiteralView, right: LiteralView) -> bool {
    !(left is Null) && literal_equal(left, right)
}

/// A fault at `token`.
pub open spec fn fault(token: TokenView, message: Seq<char>) -> Signal {
    Signal::Error { token, message }
}

/// The value of a unary operator on a value. The operand is a number.
pub open spec fn unary_value(operator: TokenView, operand: LiteralView) -> Result<
    LiteralView,
    Signal,
> {
    match operand {
        LiteralView::Number(bits) => match operator.token_type {
            TokenType::Minus => Ok(LiteralView::Number(number_negated(bits) as u32)),
            TokenType::Plus => Ok(operand),
            TokenType::Bang => Ok(LiteralView::Bool(!truthy(operand))),
            _ => Ok(LiteralView::Null),
        },
        _ => Err(fault(operator, "Expected the operand to be a double."@)),
    }
}

/// The arithmetic operation that an operator token stands for.
pub open spec fn arithmetic_of(token_type: TokenType) -> Option<ArithOp> {
    match token_type {
        TokenType::Plus => Some(ArithOp::Add),
        TokenType::Minus => Some(ArithOp::Sub),
        TokenType::Star => Some(ArithOp::Mul),
        TokenType::Slash => Some(ArithOp::Div),
        _ => None,
    }
}

/// The outcome of a comparison of two numbers.
pub open spec fn comparison_of(token_type: TokenType, left: u32, right: u32) -> bool {
    match token_type {
        TokenType::Greater => number_less(right, left),
        TokenType::Less => number_less(left, right),
        TokenType::GreaterEqual => !number_less(left, right),
        _ => !number_less(right, left),
    }
}

/// The value of a binary operator on two values.
///
/// `-`, `*`, `/` and the four comparisons take two numbers. `+` takes two
/// numbers or two strings. `==` and `!=` take any two values.
pub open spec fn binary_value(
    f: spec_fn(ArithOp, u32, u32) -> u32,
    operator: TokenView,
    left: LiteralView,
    right: LiteralView,
) -> Result<LiteralView, Signal> {
    match operator.token_type {
        TokenType::Plus => match arithmetic_result(f, ArithOp::Add, left, right) {
            Ok(value) => Ok(value),
            Err(message) => Err(fault(operator, message)),
        },
        TokenType::Minus | TokenType::Star | TokenType::Slash => match (left, right) {
            (LiteralView::Number(a), LiteralView::Number(b)) => Ok(
                LiteralView::Number(f(arithmetic_of(operator.token_type)->Some_0, a, b)),
            ),
            _ => Err(fault(operator, "Expected both operands to be double."@)),
        },
        TokenType::Greater | TokenType::Less | TokenType::GreaterEqual | TokenType::LessEqual => match (
            left,
            right,
        ) {
            (LiteralView::Number(a), LiteralView::Number(b)) => Ok(
                LiteralView::Bool(comparison_of(operator.token_type, a, b)),
            ),
            _ => Err(fault(operator, "Expected both operands to be double."@)),
        },
        TokenType::EqualEqual => Ok(LiteralView::Bool(language_equal(left, right))),
        TokenType::BangEqual => Ok(LiteralView::Bool(!language_equal(left, right))),
        _ => Ok(LiteralView::Null),
    }
}

/// Whether the value of the operator on the two values is asked of the host:
/// the operator is an arithmetic one and both values are numbers.
pub open spec fn asks_host(operator: TokenView, left: LiteralView, right: LiteralView) -> bool {
    arithmetic_of(operator.token_type) is Some && left is Number && right is Number
}

/// The value of a binary operator on two values where the host, if it is
/// asked, answers `answer`.
pub open spec fn binary_value_given(
    operator: TokenView,
    left: LiteralView,
    right: LiteralView,
    answer: u32,
) -> Result<LiteralView, Signal> {
    binary_value(|op: ArithOp, a: u32, b: u32| answer, operator, left, right)
}

/// The message for a call with the wrong number of arguments.
pub open spec fn arity_message(expected: nat, got: nat) -> Seq<char> {
    "Expected "@ + decimal_digits(expected) + " arguments but got "@ + decimal_digits(got) + "."@
}

/// What stands in the way of calling `callee` with `count` arguments, if
/// anything: it is no function, or it takes another number of arguments.
pub open spec fn call_fault(
    state: State,
    callee: LiteralView,
    paren: TokenView,
    count: nat,
) -> Option<Signal> {
    match callee {
        LiteralView::Function(index) => if index >= state.functions.len() {
            Some(fault(paren, "Can only call functions and classes."@))
        } else if state.functions[index as int].parameters.len() != count {
            Some(
                fault(
                    paren,
                    arity_message(state.functions[index as int].parameters.len(), count),
                ),
            )
        } else {
            None
        },
        _ => Some(fault(paren, "Can only call functions and classes."@)),
    }
}

/// The scopes with each parameter from `from` on bound to its argument, in
/// the innermost scope.
pub open spec fn bound_parameters(
    scopes: Seq<ScopeView>,
    parameters: Seq<TokenView>,
    arguments: Seq<LiteralView>,
    from: nat,
) -> Seq<ScopeView>
    decreases parameters.len() - from,
{
    if from >= parameters.len() || from >= arguments.len() {
        scopes
    } else {
        bound_parameters(
            defined(scopes, parameters[from as int].lexeme, arguments[from as int]),
            parameters,
            arguments,
            from + 1,
        )
    }
}

/// The statements of the body of a function.
pub open spec fn body_statements(body: StmtView) -> Seq<StmtView> {
    match body {
        StmtView::Block(statements) => statements,
        _ => Seq::empty(),
    }
}

/// What a call returns for what its body did: the value that a `return`
/// carried, nil where the body ran to its end, and a fault as it is.
pub open spec fn call_result(run: Result<(), Signal>) -> Result<LiteralView, Signal> {
    match run {
        Ok(_) => Ok(LiteralView::Null),
        Err(Signal::Return { value }) => Ok(value),
        Err(signal) => Err(signal),
    }
}

/// The value of an expression.
pub open spec fn eval(
    f: spec_fn(ArithOp, u32, u32) -> u32,
    e: ExprView,
    st: State,
    depth: nat,
    limit: nat,
) -> Outcome<LiteralView>
    decreases depth, 0nat, e, 1nat,
{
    match e {
        ExprView::Literal(value) => yields(st, value),
        ExprView::Grouping(inner) => eval(f, *inner, st, depth, limit),
        ExprView::Unary(_, _) => eval_unary(f, e, st, depth, limit),
        ExprView::Logical(_, _, _) => eval_logical(f, e, st, depth, limit),
        ExprView::Binary(_, _, _) => eval_binary(f, e, st, depth, limit),
        ExprView::Variable(name) => eval_variable(name, st),
        ExprView::Assign(_, _) => eval_assign(f, e, st, depth, limit),
        ExprView::Call(_, _, _) => eval_call(f, e, st, depth, limit),
        ExprView::Absent => yields(st, LiteralView::Null),
    }
}

/// The value of a variable: what its name is bound to in the nearest scope
/// that binds it.
pub open spec fn eval_variable(name: TokenView, st: State) -> Outcome<LiteralView> {
    match lookup(st.scopes, name.lexeme) {
        Some(value) => yields(st, value),
        None => ends(st, fault(name, undefined_message(name.lexeme))),
    }
}

/// The value of a unary expression.
pub open spec fn eval_unary(
    f: spec_fn(ArithOp, u32, u32) -> u32,
    e: ExprView,
    st: State,
    depth: nat,
    limit: nat,
) -> Outcome<LiteralView>
    decreases depth, 0nat, e, 0nat,
{
    match e {
        ExprView::Unary(operator, operand) => {
            let right = eval(f, *operand, st, depth, limit);
            match right.result {
                Err(_) => right,
                Ok(value) => Outcome { result: unary_value(operator, value), state: right.state },
            }
        },
        _ => yields(st, LiteralView::Null),
    }
}

/// The value of `and` and `or`: the left operand decides whether the right
/// one is evaluated at all.
pub open spec fn eval_logical(
    f: spec_fn(ArithOp, u32, u32) -> u32,
    e: ExprView,
    st: State,
    depth: nat,
    limit: nat,
) -> Outcome<LiteralView>
    decreases depth, 0nat, e, 0nat,
{
    match e {
        ExprView::Logical(left, operator, right) => {
            let first = eval(f, *left, st, depth, limit);
            match first.result {
                Err(_) => first,
                Ok(value) => if (operator.token_type == TokenType::And) != truthy(value) {
                    first
                } else {
                    eval(f, *right, first.state, depth, limit)
                },
            }
        },
        _ => yields(st, LiteralView::Null),
    }
}

/// The value of a binary expression: both operands are evaluated, the left
/// one first, then the operator is applied.
pub open spec fn eval_binary(
    f: spec_fn(ArithOp, u32, u32) -> u32,
    e: ExprView,
    st: State,
    depth: nat,
    limit: nat,
) -> Outcome<LiteralView>
    decreases depth, 0nat, e, 0nat,
{
    match e {
        ExprView::Binary(left, operator, right) => {
            let first = eval(f, *left, st, depth, limit);
            match first.result {
                Err(_) => first,
                Ok(a) => {
                    let second = eval(f, *right, first.state, depth, limit);
                    match second.result {
                        Err(_) => second,
                        Ok(b) => Outcome {
                            result: binary_value(f, operator, a, b),
                            state: second.state,
                        },
                    }
                },
            }
        },
        _ => yields(st, LiteralView::Null),
    }
}

/// The value of an assignment: the value assigned. The name is bound
/// already, in the nearest scope that binds it.
pub open spec fn eval_assign(
    f: spec_fn(ArithOp, u32, u32) -> u32,
    e: ExprView,
    st: State,
    depth: nat,
    limit: nat,
) -> Outcome<LiteralView>
    decreases depth, 0nat, e, 0nat,
{
    match e {
        ExprView::Assign(name, value) => {
            let right = eval(f, *value, st, depth, limit);
            match right.result {
                Err(_) => right,
                Ok(v) => match assigned(right.state.scopes, name.lexeme, v) {
                    Some(scopes) => yields(right.state.with_scopes(scopes), v),
                    None => ends(right.state, fault(name, undefined_message(name.lexeme))),
                },
            }
        },
        _ => yields(st, LiteralView::Null),
    }
}

/// The values of the arguments from `from` on, after `before`, left to right.
pub open spec fn eval_arguments(
    f: spec_fn(ArithOp, u32, u32) -> u32,
    arguments: Seq<ExprView>,
    from: nat,
    before: Seq<LiteralView>,
    st: State,
    depth: nat,
    limit: nat,
) -> Outcome<Seq<LiteralView>>
    decreases depth, 0nat, arguments, arguments.len() - from,
{
    if from >= arguments.len() {
        yields(st, before)
    } else {
        let first = eval(f, arguments[from as int], st, depth, limit);
        match first.result {
            Err(_) => first.signal(),
            Ok(value) => eval_arguments(
                f,
                arguments,
                from + 1,
                before.push(value),
                first.state,
                depth,
                limit,
            ),
        }
    }
}

/// The value of a call: the callee and then the arguments are evaluated,
/// then the callee is checked, then its body runs.
pub open spec fn eval_call(
    f: spec_fn(ArithOp, u32, u32) -> u32,
    e: ExprView,
    st: State,
    depth: nat,
    limit: nat,
) -> Outcome<LiteralView>
    decreases depth, 0nat, e, 0nat,
{
    match e {
        ExprView::Call(callee, paren, arguments) => {
            let first = eval(f, *callee, st, depth, limit);
            match first.result {
                Err(_) => first,
                Ok(target) => {
                    let rest = eval_arguments(
                        f,
                        arguments,
                        0,
                        Seq::empty(),
                        first.state,
                        depth,
                        limit,
                    );
                    match rest.result {
                        Err(_) => rest.signal(),
                        Ok(values) => match call_fault(rest.state, target, paren, values.len()) {
                            Some(signal) => ends(rest.state, signal),
                            None => if depth == 0 {
                                ends(rest.state, Signal::Exhausted)
                            } else {
                                invoke(
                                    f,
                                    rest.state.functions[target->Function_0 as int],
                                    values,
                                    rest.state,
                                    (depth - 1) as nat,
                                    limit,
                                )
                            },
                        },
                    }
                },
            }
        },
        _ => yields(st, LiteralView::Null),
    }
}

/// What a function returns for the given arguments, as many as it has
/// parameters: its body runs in a fresh scope inside the global one, with the
/// parameters bound to the arguments.
pub open spec fn invoke(
    f: spec_fn(ArithOp, u32, u32) -> u32,
    function: FunctionView,
    arguments: Seq<LiteralView>,
    st: State,
    depth: nat,
    limit: nat,
) -> Outcome<LiteralView>
    decreases depth, 2nat, function.body, 0nat,
{
    let inside = st.with_scopes(
        bound_parameters(entered(st.scopes, 0), function.parameters, arguments, 0),
    );
    let run = exec_scope(f, body_statements(function.body), inside, depth, limit);
    Outcome { result: call_result(run.result), state: run.state }
}

/// The effect of the statements of a block or a body in the innermost scope,
/// which is left when they are done, however they end.
pub open spec fn exec_scope(
    f: spec_fn(ArithOp, u32, u32) -> u32,
    statements: Seq<StmtView>,
    st: State,
    depth: nat,
    limit: nat,
) -> Outcome<()>
    decreases depth, 1nat, statements, statements.len() + 1,
{
    let run = exec_block(f, statements, 0, st, depth, limit);
    Outcome { result: run.result, state: run.state.left() }
}

/// The effect of the statements from `from` on, in order, up to the first
/// that ends with a signal.
pub open spec fn exec_block(
    f: spec_fn(ArithOp, u32, u32) -> u32,
    statements: Seq<StmtView>,
    from: nat,
    st: State,
    depth: nat,
    limit: nat,
) -> Outcome<()>
    decreases depth, 1nat, statements, statements.len() - from,
{
    if from >= statements.len() {
        yields(st, ())
    } else {
        let first = exec(f, statements[from as int], st, depth, limit);
        match first.result {
            Err(_) => first,
            Ok(_) => exec_block(f, statements, from + 1, first.state, depth, limit),
        }
    }
}

/// The effect of a statement.
pub open spec fn exec(
    f: spec_fn(ArithOp, u32, u32) -> u32,
    s: StmtView,
    st: State,
    depth: nat,
    limit: nat,
) -> Outcome<()>
    decreases depth, 1nat, s, limit + 2,
{
    match s {
        StmtView::Expression(e) => {
            let value = eval(f, e, st, depth, limit);
            match value.result {
                Err(_) => value.signal(),
                Ok(_) => yields(value.state, ()),
            }
        },
        StmtView::Print(e) => {
            let value = eval(f, e, st, depth, limit);
            match value.result {
                Err(_) => value.signal(),
                Ok(v) => yields(value.state.printed(v), ()),
            }
        },
        StmtView::Var(name, initializer) => {
            let value = eval(f, initializer, st, depth, limit);
            match value.result {
                Err(_) => value.signal(),
                Ok(v) => yields(value.state.defined(name.lexeme, v), ()),
            }
        },
        StmtView::Block(statements) => exec_scope(f, statements, st.entered(), depth, limit),
        StmtView::If(_, _, _) => exec_if(f, s, st, depth, limit),
        StmtView::While(_, _) => exec_while(f, s, st, depth, limit, limit),
        StmtView::Function(name, parameters, body) => yields(
            st.declared(FunctionView { name, parameters, body: *body }).defined(
                name.lexeme,
                LiteralView::Function(st.functions.len()),
            ),
            (),
        ),
        StmtView::Return(_, value) => {
            let carried = eval(f, value, st, depth, limit);
            match carried.result {
                Err(_) => carried.signal(),
                Ok(v) => ends(carried.state, Signal::Return { value: v }),
            }
        },
        StmtView::Absent => yields(st, ()),
    }
}

/// The effect of an `if` statement: the branch that the condition chooses,
/// and nothing where it chooses a branch that is not there.
pub open spec fn exec_if(
    f: spec_fn(ArithOp, u32, u32) -> u32,
    s: StmtView,
    st: State,
    depth: nat,
    limit: nat,
) -> Outcome<()>
    decreases depth, 1nat, s, 0nat,
{
    match s {
        StmtView::If(condition, then_branch, else_branch) => {
            let test = eval(f, condition, st, depth, limit);
            match test.result {
                Err(_) => test.signal(),
                Ok(value) => if truthy(value) {
                    exec(f, *then_branch, test.state, depth, limit)
                } else {
                    exec(f, *else_branch, test.state, depth, limit)
                },
            }
        },
        _ => yields(st, ()),
    }
}

/// The effect of a `while` statement that may go round `remaining` times
/// more: the condition is evaluated before each round, the first too.
pub open spec fn exec_while(
    f: spec_fn(ArithOp, u32, u32) -> u32,
    s: StmtView,
    st: State,
    depth: nat,
    limit: nat,
    remaining: nat,
) -> Outcome<()>
    decreases depth, 1nat, s, remaining,
{
    match s {
        StmtView::While(condition, body) => {
            let test = eval(f, condition, st, depth, limit);
            match test.result {
                Err(_) => test.signal(),
                Ok(value) => if !truthy(value) {
                    yields(test.state, ())
                } else if remaining == 0 {
                    ends(test.state, Signal::Exhausted)
                } else {
                    let round = exec(f, *body, test.state, depth, limit);
                    match round.result {
                        Err(_) => round,
                        Ok(_) => exec_while(
                            f,
                            s,
                            round.state,
                            depth,
                            limit,
                            (remaining - 1) as nat,
                        ),
                    }
                },
            }
        },
        _ => yields(st, ()),
    }
}

/// The effect of a program: its statements in order, in the scopes as they
/// stand.
pub open spec fn run(
    f: spec_fn(ArithOp, u32, u32) -> u32,
    statements: Seq<StmtView>,
    st: State,
    depth: nat,
    limit: nat,
) -> Outcome<()> {
    exec_block(f, statements, 0, st, depth, limit)
}

} // verus!
