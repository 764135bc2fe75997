//! The abstract syntax tree that the parser builds and the resolver renames.
use vstd::prelude::*;

verus! {

#[derive(Debug)]
pub struct Program {
    pub function: Function,
}

#[derive(Debug)]
pub struct Function {
    pub name: String,
    pub body: Vec<Block>,
}

#[derive(Debug)]
pub struct Declaration {
    pub name: String,
    pub init: Option<Expr>,
}

#[derive(Debug)]
pub enum Statement {
    Return(Expr),
    Expression(Expr),
    Null,
}

/// One item of a function body.
#[derive(Debug)]
pub enum Block {
    State(Statement),
    Declare(Declaration),
}

#[derive(Debug)]
pub enum Expr {
    Constant(i32),
    Variable(String),
    Unary(UnaryOperator, Box<Expr>),
    Binary(BinaryOperator, Box<Expr>, Box<Expr>),
    Assignment(Box<Expr>, Box<Expr>),
}

#[derive(Debug, Clone, Copy, PartialEq, Eq, Structural)]
pub enum UnaryOperator {
    Negate,
    LogicalNot,
    Complement,
}

#[derive(Debug, Clone, Copy, PartialEq, Eq, Structural)]
pub enum BinaryOperator {
    Add,
    Subtract,
    Multiply,
    Divide,
    Modulo,

    BitwiseAnd,
    BitwiseOr,
    BitwiseXor,

    LeftShift,
    RightShift,

    LogicalAnd,
    LogicalOr,

    Equal,
    NotEqual,

    LessThan,
    LessOrEqual,

    GreaterThan,
    GreaterOrEqual,
}

/// The number of nodes of an expression tree.
pub open spec fn expr_size(e: Expr) -> nat
    decreases e,
{
    match e {
        Expr::Constant(_) => 1,
        Expr::Variable(_) => 1,
        Expr::Unary(_, inner) => 1 + expr_size(*inner),
        Expr::Binary(_, l, r) => 1 + expr_size(*l) + expr_size(*r),
        Expr::Assignment(l, r) => 1 + expr_size(*l) + expr_size(*r),
    }
}

/// The number of expression nodes in a block item.
pub open spec fn block_size(b: Block) -> nat {
    match b {
        Block::State(Statement::Return(e)) => expr_size(e),
        Block::State(Statement::Expression(e)) => expr_size(e),
        Block::State(Statement::Null) => 0,
        Block::Declare(d) => match d.init {
            Some(e) => expr_size(e),
            None => 0,
        },
    }
}

/// The number of expression nodes in a sequence of block items.
pub open spec fn body_size(body: Seq<Block>) -> nat
    decreases body.len(),
{
    if body.len() == 0 {
        0
    } else {
        body_size(body.drop_last()) + block_size(body.last())
    }
}

} // verus!
