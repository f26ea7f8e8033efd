//! The syntax tree: expressions and statements.

use vstd::prelude::*;
use crate::lexer::{Token, TokenView, token_views};
use crate::literal::{Literal, LiteralView};

verus! {

/// An expression.
#[derive(Debug, PartialEq)]
pub enum Expr {
    /// Left operand, `and` or `or`, right operand.
    Logical(Box<Expr>, Token, Box<Expr>),
    /// Left operand, operator, right operand.
    Binary(Box<Expr>, Token, Box<Expr>),
    /// Operator, operand.
    Unary(Token, Box<Expr>),
    /// An expression in parentheses.
    Grouping(Box<Expr>),
    Literal(Literal),
    /// The name of a variable.
    Variable(Token),
    /// Name, value.
    Assign(Token, Box<Expr>),
    /// Callee, closing parenthesis, arguments.
    Call(Box<Expr>, Token, Vec<Expr>),
    /// No expression, where one is optional.
    Absent,
}

/// The mathematical content of an [`Expr`].
pub enum ExprView {
    Logical(Box<ExprView>, TokenView, Box<ExprView>),
    Binary(Box<ExprView>, TokenView, Box<ExprView>),
    Unary(TokenView, Box<ExprView>),
    Grouping(Box<ExprView>),
    Literal(LiteralView),
    Variable(TokenView),
    Assign(TokenView, Box<ExprView>),
    Call(Box<ExprView>, TokenView, Seq<ExprView>),
    Absent,
}

/// A statement.
#[derive(Debug, PartialEq)]
pub enum Stmt {
    Expression(Expr),
    /// Condition, then branch, else branch.
    If(Expr, Box<Stmt>, Box<Stmt>),
    /// Condition, body.
    While(Expr, Box<Stmt>),
    /// Name, parameters, body; the body is a block.
    Function(Token, Vec<Token>, Box<Stmt>),
    /// The keyword, the value.
    Return(Token, Expr),
    Print(Expr),
    /// Name, initializer.
    Var(Token, Expr),
    Block(Vec<Stmt>),
    /// No statement, where one is optional.
    Absent,
}

/// The mathematical content of a [`Stmt`].
pub enum StmtView {
    Expression(ExprView),
    If(ExprView, Box<StmtView>, Box<StmtView>),
    While(ExprView, Box<StmtView>),
    Function(TokenView, Seq<TokenView>, Box<StmtView>),
    Return(TokenView, ExprView),
    Print(ExprView),
    Var(TokenView, ExprView),
    Block(Seq<StmtView>),
    Absent,
}

impl Expr {
    /// The mathematical content of the expression.
    pub open spec fn view(&self) -> ExprView
        decreases self,
    {
        match self {
            Expr::Logical(left, operator, right) => ExprView::Logical(
                Box::new(left.view()),
                operator@,
                Box::new(right.view()),
            ),
            Expr::Binary(left, operator, right) => ExprView::Binary(
                Box::new(left.view()),
                operator@,
                Box::new(right.view()),
            ),
            Expr::Unary(operator, operand) => ExprView::Unary(operator@, Box::new(operand.view())),
            Expr::Grouping(inner) => ExprView::Grouping(Box::new(inner.view())),
            Expr::Literal(literal) => ExprView::Literal(literal@),
            Expr::Variable(name) => ExprView::Variable(name@),
            Expr::Assign(name, value) => ExprView::Assign(name@, Box::new(value.view())),
            Expr::Call(callee, paren, arguments) => ExprView::Call(
                Box::new(callee.view()),
                paren@,
                Seq::new(
                    arguments@.len(),
                    |i: int|
                        if 0 <= i < arguments@.len() {
                            arguments@[i].view()
                        } else {
                            ExprView::Absent
                        },
                ),
            ),
            Expr::Absent => ExprView::Absent,
        }
    }
}

/// The views of a sequence of expressions.
pub open spec fn expr_views(exprs: Seq<Expr>) -> Seq<ExprView> {
    Seq::new(exprs.len(), |i: int| exprs[i]@)
}

impl Stmt {
    /// The mathematical content of the statement.
    pub open spec fn view(&self) -> StmtView
        decreases self,
    {
        match self {
            Stmt::Expression(expr) => StmtView::Expression(expr@),
            Stmt::If(condition, then_branch, else_branch) => StmtView::If(
                condition@,
                Box::new(then_branch.view()),
                Box::new(else_branch.view()),
            ),
            Stmt::While(condition, body) => StmtView::While(condition@, Box::new(body.view())),
            Stmt::Function(name, parameters, body) => StmtView::Function(
                name@,
                token_views(parameters@),
                Box::new(body.view()),
            ),
            Stmt::Return(keyword, value) => StmtView::Return(keyword@, value@),
            Stmt::Print(expr) => StmtView::Print(expr@),
            Stmt::Var(name, initializer) => StmtView::Var(name@, initializer@),
            Stmt::Block(statements) => StmtView::Block(
                Seq::new(
                    statements@.len(),
                    |i: int|
                        if 0 <= i < statements@.len() {
                            statements@[i].view()
                        } else {
                            StmtView::Absent
                        },
                ),
            ),
            Stmt::Absent => StmtView::Absent,
        }
    }

    /// The statements of a block; nothing for any other statement.
    pub fn get_block_body(&self) -> (r: Option<&Vec<Stmt>>)
        ensures
            match *self {
                Stmt::Block(statements) => r == Some(&statements),
                _ => r is None,
            },
    {
        match self {
            Stmt::Block(statements) => Some(statements),
            _ => None,
        }
    }
}

/// The views of a sequence of statements.
pub open spec fn stmt_views(stmts: Seq<Stmt>) -> Seq<StmtView> {
    Seq::new(stmts.len(), |i: int| stmts[i]@)
}

/// The views of a sequence with one more expression.
pub proof fn lemma_expr_views_push(exprs: Seq<Expr>, last: Expr)
    ensures
        expr_views(exprs.push(last)) == expr_views(exprs).push(last@),
{
    assert(expr_views(exprs.push(last)) =~= expr_views(exprs).push(last@));
}

/// The views of a sequence with one more statement.
pub proof fn lemma_stmt_views_push(stmts: Seq<Stmt>, last: Stmt)
    ensures
        stmt_views(stmts.push(last)) == stmt_views(stmts).push(last@),
{
    assert(stmt_views(stmts.push(last)) =~= stmt_views(stmts).push(last@));
}

/// The view of a call is made of the views of its parts.
pub proof fn lemma_call_view(callee: Expr, paren: Token, arguments: Vec<Expr>)
    ensures
        Expr::Call(Box::new(callee), paren, arguments)@ == ExprView::Call(
            Box::new(callee@),
            paren@,
            expr_views(arguments@),
        ),
{
    assert(Expr::Call(Box::new(callee), paren, arguments)@->Call_2 =~= expr_views(arguments@));
}

/// The view of a block is made of the views of its statements.
pub proof fn lemma_block_view(statements: Vec<Stmt>)
    ensures
        Stmt::Block(statements)@ == StmtView::Block(stmt_views(statements@)),
{
    assert(Stmt::Block(statements)@->Block_0 =~= stmt_views(statements@));
}

impl Clone for Expr {
    fn clone(&self) -> (r: Self)
        ensures
            r@ == self@,
        decreases self,
    {
        match self {
            Expr::Logical(left, operator, right) => Expr::Logical(
                Box::new((**left).clone()),
                operator.clone(),
                Box::new((**right).clone()),
            ),
            Expr::Binary(left, operator, right) => Expr::Binary(
                Box::new((**left).clone()),
                operator.clone(),
                Box::new((**right).clone()),
            ),
            Expr::Unary(operator, operand) => Expr::Unary(
                operator.clone(),
                Box::new((**operand).clone()),
            ),
            Expr::Grouping(inner) => Expr::Grouping(Box::new((**inner).clone())),
            Expr::Literal(literal) => Expr::Literal(literal.clone()),
            Expr::Variable(name) => Expr::Variable(name.clone()),
            Expr::Assign(name, value) => Expr::Assign(name.clone(), Box::new((**value).clone())),
            Expr::Call(callee, paren, arguments) => {
                let mut copies: Vec<Expr> = Vec::new();
                let mut i: usize = 0;
                while i < arguments.len()
                    invariant
                        i <= arguments.len(),
                        copies.len() == i,
                        self is Call,
                        self->Call_2 == *arguments,
                        forall|j: int| 0 <= j < i ==> copies@[j]@ == arguments@[j]@,
                    decreases arguments.len() - i,
                {
                    copies.push(arguments[i].clone());
                    i += 1;
                }
                let callee_copy = (**callee).clone();
                let paren_copy = paren.clone();
                proof {
                    lemma_call_view(callee_copy, paren_copy, copies);
                    lemma_call_view(**callee, *paren, *arguments);
                    assert(expr_views(copies@) =~= expr_views(arguments@));
                }
                Expr::Call(Box::new(callee_copy), paren_copy, copies)
            },
            Expr::Absent => Expr::Absent,
        }
    }
}

/// A copy of a sequence of tokens.
pub fn clone_tokens(tokens: &Vec<Token>) -> (r: Vec<Token>)
    ensures
        r@ == tokens@,
{
    let mut copies: Vec<Token> = Vec::new();
    let mut i: usize = 0;
    while i < tokens.len()
        invariant
            i <= tokens.len(),
            copies.len() == i,
            forall|j: int| 0 <= j < i ==> copies@[j] == tokens@[j],
        decreases tokens.len() - i,
    {
        copies.push(tokens[i].clone());
        i += 1;
    }
    assert(copies@ =~= tokens@);
    copies
}

impl Clone for Stmt {
    fn clone(&self) -> (r: Self)
        ensures
            r@ == self@,
        decreases self,
    {
        match self {
            Stmt::Expression(expr) => Stmt::Expression(expr.clone()),
            Stmt::If(condition, then_branch, else_branch) => Stmt::If(
                condition.clone(),
                Box::new((**then_branch).clone()),
                Box::new((**else_branch).clone()),
            ),
            Stmt::While(condition, body) => Stmt::While(
                condition.clone(),
                Box::new((**body).clone()),
            ),
            Stmt::Function(name, parameters, body) => Stmt::Function(
                name.clone(),
                clone_tokens(parameters),
                Box::new((**body).clone()),
            ),
            Stmt::Return(keyword, value) => Stmt::Return(keyword.clone(), value.clone()),
            Stmt::Print(expr) => Stmt::Print(expr.clone()),
            Stmt::Var(name, initializer) => Stmt::Var(name.clone(), initializer.clone()),
            Stmt::Block(statements) => {
                let mut copies: Vec<Stmt> = Vec::new();
                let mut i: usize = 0;
                while i < statements.len()
                    invariant
                        i <= statements.len(),
                        copies.len() == i,
                        self is Block,
                        self->Block_0 == *statements,
                        forall|j: int| 0 <= j < i ==> copies@[j]@ == statements@[j]@,
                    decreases statements.len() - i,
                {
                    copies.push(statements[i].clone());
                    i += 1;
                }
                proof {
                    lemma_block_view(copies);
                    lemma_block_view(*statements);
                    assert(stmt_views(copies@) =~= stmt_views(statements@));
                }
                Stmt::Block(copies)
            },
            Stmt::Absent => Stmt::Absent,
        }
    }
}

} // verus!
