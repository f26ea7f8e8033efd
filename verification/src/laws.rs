//! Laws of the language, each proved from the definitions of its meaning.

use vstd::prelude::*;
use crate::environment::{
    ScopeView, assigned, bound, chained, defined, entered, holder, innermost, lookup,
};
use crate::grammar::{
    Cursor, Level, binary_tail, lemma_operand_moves_forward, level_node, level_operator, operand,
};
use crate::interpreter::Signal;
use crate::lexer::{TokenType, TokenView};
use crate::literal::{ArithOp, LiteralView, mismatch_message};
use crate::semantics::{
    State, arity_message, binary_value, eval, eval_call, eval_arguments,
    eval_logical, exec, exec_if, fault, language_equal, truthy,
};
use crate::stmt::{ExprView, StmtView};

verus! {

/// Nil equals nothing, not even nil: `==` with nil on its left is false and
/// `!=` is true, whatever stands on the right.
pub proof fn law_nil_equals_nothing(
    f: spec_fn(ArithOp, u32, u32) -> u32,
    operator: TokenView,
    right: LiteralView,
)
    ensures
        !language_equal(LiteralView::Null, right),
        operator.token_type == TokenType::EqualEqual ==> binary_value(
            f,
            operator,
            LiteralView::Null,
            right,
        ) == Ok::<LiteralView, Signal>(LiteralView::Bool(false)),
        operator.token_type == TokenType::BangEqual ==> binary_value(
            f,
            operator,
            LiteralView::Null,
            right,
        ) == Ok::<LiteralView, Signal>(LiteralView::Bool(true)),
{
}

/// Nothing equals nil either.
pub proof fn law_nothing_equals_nil(left: LiteralView)
    ensures
        !language_equal(left, LiteralView::Null),
{
}

/// The expression `nil == nil` is false in every state.
pub proof fn law_nil_is_not_nil(
    f: spec_fn(ArithOp, u32, u32) -> u32,
    operator: TokenView,
    st: State,
    depth: nat,
    limit: nat,
)
    requires
        operator.token_type == TokenType::EqualEqual,
    ensures
        eval(
            f,
            ExprView::Binary(
                Box::new(ExprView::Literal(LiteralView::Null)),
                operator,
                Box::new(ExprView::Literal(LiteralView::Null)),
            ),
            st,
            depth,
            limit,
        ) == crate::semantics::yields(st, LiteralView::Bool(false)),
{
    reveal_with_fuel(eval, 3);
    reveal_with_fuel(crate::semantics::eval_binary, 2);
}

/// Only nil and `false` are false: every number, zero too, every string, the
/// empty one too, `true` and every function are true.
pub proof fn law_truthiness(value: LiteralView)
    ensures
        truthy(value) <==> !(value is Null || value == LiteralView::Bool(false)),
        value is Number ==> truthy(value),
        value is String ==> truthy(value),
        value is Function ==> truthy(value),
        !truthy(LiteralView::Null),
        !truthy(LiteralView::Bool(false)),
        truthy(LiteralView::Bool(true)),
{
}

/// `if` runs its first branch on every true condition and the other branch
/// on nil and `false`.
pub proof fn law_if_follows_truthiness(
    f: spec_fn(ArithOp, u32, u32) -> u32,
    condition: ExprView,
    then_branch: StmtView,
    else_branch: StmtView,
    st: State,
    depth: nat,
    limit: nat,
)
    requires
        eval(f, condition, st, depth, limit).result is Ok,
    ensures
        ({
            let test = eval(f, condition, st, depth, limit);
            let whole = exec(
                f,
                StmtView::If(condition, Box::new(then_branch), Box::new(else_branch)),
                st,
                depth,
                limit,
            );
            &&& truthy(test.result->Ok_0) ==> whole == exec(
                f,
                then_branch,
                test.state,
                depth,
                limit,
            )
            &&& !truthy(test.result->Ok_0) ==> whole == exec(
                f,
                else_branch,
                test.state,
                depth,
                limit,
            )
        }),
{
    reveal_with_fuel(exec, 2);
    reveal_with_fuel(exec_if, 2);
}

/// `and` does not evaluate its right operand after a false left one, nor
/// `or` after a true one: the value and the state are those of the left
/// operand alone.
pub proof fn law_short_circuit(
    f: spec_fn(ArithOp, u32, u32) -> u32,
    left: ExprView,
    operator: TokenView,
    right: ExprView,
    st: State,
    depth: nat,
    limit: nat,
)
    requires
        eval(f, left, st, depth, limit).result is Ok,
        (operator.token_type == TokenType::And) != truthy(
            eval(f, left, st, depth, limit).result->Ok_0,
        ),
    ensures
        eval(f, ExprView::Logical(Box::new(left), operator, Box::new(right)), st, depth, limit)
            == eval(f, left, st, depth, limit),
{
    reveal_with_fuel(eval, 2);
    reveal_with_fuel(eval_logical, 2);
}

/// Where the left operand does not decide, `and` and `or` have the value of
/// the right one, evaluated after the left.
pub proof fn law_logical_goes_on(
    f: spec_fn(ArithOp, u32, u32) -> u32,
    left: ExprView,
    operator: TokenView,
    right: ExprView,
    st: State,
    depth: nat,
    limit: nat,
)
    requires
        eval(f, left, st, depth, limit).result is Ok,
        (operator.token_type == TokenType::And) == truthy(
            eval(f, left, st, depth, limit).result->Ok_0,
        ),
    ensures
        eval(f, ExprView::Logical(Box::new(left), operator, Box::new(right)), st, depth, limit)
            == eval(f, right, eval(f, left, st, depth, limit).state, depth, limit),
{
    reveal_with_fuel(eval, 2);
    reveal_with_fuel(eval_logical, 2);
}

/// `+` concatenates two strings, and a string and a number are an error, not
/// a string.
pub proof fn law_concatenation(
    f: spec_fn(ArithOp, u32, u32) -> u32,
    operator: TokenView,
    a: Seq<char>,
    b: Seq<char>,
    n: u32,
)
    requires
        operator.token_type == TokenType::Plus,
    ensures
        binary_value(f, operator, LiteralView::String(a), LiteralView::String(b)) == Ok::<
            LiteralView,
            Signal,
        >(LiteralView::String(a + b)),
        binary_value(f, operator, LiteralView::String(a), LiteralView::Number(n)) == Err::<
            LiteralView,
            Signal,
        >(
            fault(
                operator,
                mismatch_message(ArithOp::Add, LiteralView::String(a), LiteralView::Number(n)),
            ),
        ),
        binary_value(f, operator, LiteralView::Number(n), LiteralView::String(b)) is Err,
{
}

/// A name is found in the scope where the search starts, if it is bound there.
proof fn lemma_holder_here(scopes: Seq<ScopeView>, from: nat, name: Seq<char>)
    requires
        from < scopes.len(),
        scopes[from as int].values.contains_key(name),
    ensures
        holder(scopes, from, name) == Some(from),
{
}

/// After `let`, the name has the value it was given, whatever it was bound
/// to before and in whatever scope.
pub proof fn law_let_binds(scopes: Seq<ScopeView>, name: Seq<char>, value: LiteralView)
    requires
        chained(scopes),
    ensures
        lookup(defined(scopes, name, value), name) == Some(value),
{
    let after = defined(scopes, name, value);
    lemma_holder_here(after, innermost(after), name);
}

/// Shadowing: a `let` in a block changes no scope outside the block. When
/// the block is left, every scope is as it was when the block was entered.
pub proof fn law_let_in_block_leaves_outer_scopes(
    scopes: Seq<ScopeView>,
    name: Seq<char>,
    value: LiteralView,
)
    requires
        chained(scopes),
    ensures
        defined(entered(scopes, innermost(scopes)), name, value).drop_last() == scopes,
        lookup(defined(entered(scopes, innermost(scopes)), name, value), name) == Some(value),
{
    let inside = entered(scopes, innermost(scopes));
    let after = defined(inside, name, value);
    assert(after.drop_last() =~= scopes);
    lemma_holder_here(after, innermost(after), name);
}

/// The search for a name goes the same way after a binding of that name was
/// changed in the scope that holds it.
proof fn lemma_holder_after_bound(
    scopes: Seq<ScopeView>,
    from: nat,
    name: Seq<char>,
    index: nat,
    value: LiteralView,
)
    requires
        index < scopes.len(),
        holder(scopes, from, name) == Some(index),
    ensures
        holder(bound(scopes, index, name, value), from, name) == Some(index),
    decreases from,
{
    let after = bound(scopes, index, name, value);
    if from < scopes.len() && !scopes[from as int].values.contains_key(name) {
        match scopes[from as int].enclosing {
            Some(outer) => {
                if outer < from {
                    lemma_holder_after_bound(scopes, outer, name, index, value);
                    crate::environment::lemma_holder_bounds(scopes, outer, name);
                    assert(after[from as int].enclosing == Some(outer));
                    assert(!after[from as int].values.contains_key(name));
                }
            },
            None => {},
        }
    }
}

/// An assignment succeeds exactly on a name that a lookup finds, and then
/// the name has the new value.
pub proof fn law_assignment_changes_what_lookup_finds(
    scopes: Seq<ScopeView>,
    name: Seq<char>,
    value: LiteralView,
)
    requires
        chained(scopes),
    ensures
        assigned(scopes, name, value) is Some <==> lookup(scopes, name) is Some,
        assigned(scopes, name, value) is Some ==> lookup(
            assigned(scopes, name, value)->Some_0,
            name,
        ) == Some(value),
{
    match holder(scopes, innermost(scopes), name) {
        Some(index) => {
            crate::environment::lemma_holder_bounds(scopes, innermost(scopes), name);
            lemma_holder_after_bound(scopes, innermost(scopes), name, index, value);
        },
        None => {},
    }
}

/// The search from a fresh scope goes on in the scope that encloses it.
proof fn lemma_holder_from_fresh(scopes: Seq<ScopeView>, name: Seq<char>)
    requires
        chained(scopes),
    ensures
        holder(entered(scopes, innermost(scopes)), scopes.len(), name) == holder(
            entered(scopes, innermost(scopes)),
            innermost(scopes),
            name,
        ),
{
    let inside = entered(scopes, innermost(scopes));
    assert(!inside[scopes.len() as int].values.contains_key(name));
}

/// A scope on top does not change what the search finds below it.
proof fn lemma_holder_below(scopes: Seq<ScopeView>, top: ScopeView, from: nat, name: Seq<char>)
    requires
        from < scopes.len(),
    ensures
        holder(scopes.push(top), from, name) == holder(scopes, from, name),
    decreases from,
{
    if !scopes[from as int].values.contains_key(name) {
        match scopes[from as int].enclosing {
            Some(outer) => {
                if outer < from {
                    lemma_holder_below(scopes, top, outer, name);
                }
            },
            None => {},
        }
    }
}

/// Scoped assignment: an assignment in a block to a name that is bound
/// outside it changes that outer binding, and the change is there when the
/// block is left. Only `let` makes a new binding.
pub proof fn law_assignment_in_block_reaches_outer_binding(
    scopes: Seq<ScopeView>,
    name: Seq<char>,
    value: LiteralView,
)
    requires
        chained(scopes),
        lookup(scopes, name) is Some,
    ensures
        assigned(entered(scopes, innermost(scopes)), name, value) is Some,
        assigned(entered(scopes, innermost(scopes)), name, value)->Some_0.drop_last()
            == assigned(scopes, name, value)->Some_0,
        lookup(assigned(scopes, name, value)->Some_0, name) == Some(value),
{
    let top = ScopeView { values: Map::empty(), enclosing: Some(innermost(scopes)) };
    let inside = entered(scopes, innermost(scopes));
    lemma_holder_from_fresh(scopes, name);
    lemma_holder_below(scopes, top, innermost(scopes), name);
    crate::environment::lemma_holder_bounds(scopes, innermost(scopes), name);
    let index = holder(scopes, innermost(scopes), name)->Some_0;
    assert(innermost(inside) == scopes.len());
    assert(bound(inside, index, name, value).drop_last() =~= bound(scopes, index, name, value));
    law_assignment_changes_what_lookup_finds(scopes, name, value);
}

/// A call with another number of arguments than the function has parameters
/// is a fault that names both numbers, and the state is the one in which the
/// arguments were evaluated: the body has not run.
pub proof fn law_arity(
    f: spec_fn(ArithOp, u32, u32) -> u32,
    callee: ExprView,
    paren: TokenView,
    arguments: Seq<ExprView>,
    st: State,
    depth: nat,
    limit: nat,
)
    requires
        eval(f, callee, st, depth, limit).result is Ok,
        eval(f, callee, st, depth, limit).result->Ok_0 is Function,
        eval_arguments(
            f,
            arguments,
            0,
            Seq::empty(),
            eval(f, callee, st, depth, limit).state,
            depth,
            limit,
        ).result is Ok,
        ({
            let target = eval(f, callee, st, depth, limit);
            let rest = eval_arguments(f, arguments, 0, Seq::empty(), target.state, depth, limit);
            let index = target.result->Ok_0->Function_0;
            index < rest.state.functions.len() && rest.state.functions[index as int].parameters.len()
                != rest.result->Ok_0.len()
        }),
    ensures
        ({
            let target = eval(f, callee, st, depth, limit);
            let rest = eval_arguments(f, arguments, 0, Seq::empty(), target.state, depth, limit);
            let index = target.result->Ok_0->Function_0;
            eval(f, ExprView::Call(Box::new(callee), paren, arguments), st, depth, limit)
                == crate::semantics::ends::<LiteralView>(
                rest.state,
                fault(
                    paren,
                    arity_message(
                        rest.state.functions[index as int].parameters.len(),
                        rest.result->Ok_0.len(),
                    ),
                ),
            )
        }),
{
    reveal_with_fuel(eval, 2);
    reveal_with_fuel(eval_call, 2);
}

/// The operators of one level associate to the left: after `left`, two
/// operators with their operands make the node of the second operator, whose
/// left operand is the node of the first.
pub proof fn law_operators_associate_left(
    tokens: Seq<TokenView>,
    c: Cursor,
    level: Level,
    left: ExprView,
)
    requires
        level_operator(level, tokens, c.at),
        operand(tokens, c.next(), level).result is Ok,
        level_operator(level, tokens, operand(tokens, c.next(), level).to.at),
        operand(tokens, operand(tokens, c.next(), level).to.next(), level).result is Ok,
    ensures
        ({
            let first = operand(tokens, c.next(), level);
            let second = operand(tokens, first.to.next(), level);
            binary_tail(tokens, c, level, left) == binary_tail(
                tokens,
                second.to,
                level,
                level_node(
                    level,
                    level_node(level, left, tokens[c.at as int], first.value()),
                    tokens[first.to.at as int],
                    second.value(),
                ),
            )
        }),
{
    reveal_with_fuel(binary_tail, 3);
    let first = operand(tokens, c.next(), level);
    lemma_operand_moves_forward(tokens, c.next(), level);
    lemma_operand_moves_forward(tokens, first.to.next(), level);
}

} // verus!
