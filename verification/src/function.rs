//! Functions that a program declares.

use vstd::prelude::*;
use crate::lexer::{Token, TokenView, token_views};
use crate::stmt::{Stmt, StmtView, clone_tokens};

verus! {

/// A declared function: its name, the names of its parameters, and its
/// body, which is a block.
#[derive(Debug, PartialEq)]
pub struct Function {
    pub name: Token,
    pub parameters: Vec<Token>,
    pub body: Stmt,
}

/// The mathematical content of a [`Function`].
pub struct FunctionView {
    pub name: TokenView,
    pub parameters: Seq<TokenView>,
    pub body: StmtView,
}

impl View for Function {
    type V = FunctionView;

    open spec fn view(&self) -> FunctionView {
        FunctionView {
            name: self.name@,
            parameters: token_views(self.parameters@),
            body: self.body@,
        }
    }
}

/// The views of a table of functions.
pub open spec fn function_views(functions: Seq<Function>) -> Seq<FunctionView> {
    functions.map_values(|function: Function| function@)
}

/// The views of a table with one more function.
pub proof fn lemma_function_views_push(functions: Seq<Function>, last: Function)
    ensures
        function_views(functions.push(last)) == function_views(functions).push(last@),
{
    assert(function_views(functions.push(last)) =~= function_views(functions).push(last@));
}

impl Clone for Function {
    fn clone(&self) -> (r: Self)
        ensures
            r@ == self@,
    {
        Function {
            name: self.name.clone(),
            parameters: clone_tokens(&self.parameters),
            body: self.body.clone(),
        }
    }
}

impl Function {
    /// A function of the given name, parameters and body.
    pub fn new(name: Token, parameters: &[Token], body: Stmt) -> (r: Self)
        ensures
            r@ == (FunctionView { name: name@, parameters: token_views(parameters@), body: body@ }),
    {
        let mut copies: Vec<Token> = Vec::new();
        let mut i: usize = 0;
        while i < parameters.len()
            invariant
                i <= parameters@.len(),
                copies@.len() == i,
                forall|j: int| 0 <= j < i ==> copies@[j] == parameters@[j],
            decreases parameters.len() - i,
        {
            copies.push(parameters[i].clone());
            i += 1;
        }
        assert(copies@ =~= parameters@);
        Function { name, parameters: copies, body }
    }

    /// The name under which the function was declared.
    pub fn name(&self) -> (r: String)
        ensures
            r@ == self@.name.lexeme,
    {
        self.name.lexeme.clone()
    }

    /// The number of parameters.
    pub fn arity(&self) -> (r: usize)
        ensures
            r == self@.parameters.len(),
    {
        self.parameters.len()
    }
}

} // verus!
