//! The assembly program: x86-64 instructions over immediates, registers,
//! stack slots and, before stack allocation, named pseudo operands.
use vstd::prelude::*;

verus! {

#[derive(Debug, Clone)]
pub struct Program {
    pub function: Function,
}

#[derive(Debug, Clone)]
pub struct Function {
    pub name: String,
    pub instructions: Vec<Instruction>,
}

#[derive(Debug, Clone)]
pub enum Instruction {
    Move { dst: Operand, src: Operand },
    Unary(UnaryOperator, Operand),
    Binary(BinaryOperator, Operand, Operand),
    Compare(Operand, Operand),
    Jump(String),
    JumpCondition(Condition, String),
    SetCondition(Condition, Operand),
    Label(String),
    Division(Operand),
    ConvertDQ,
    AllocateStack(i32),
    Return,
}

#[derive(Debug, Clone, Copy, PartialEq, Eq, Structural)]
pub enum UnaryOperator {
    Not,
    Neg,
}

#[derive(Debug, Clone, Copy, PartialEq, Eq, Structural)]
pub enum BinaryOperator {
    Add,
    Sub,
    Mul,
    And,
    Or,
    Xor,
    Sal,
    Sar,
}

#[derive(Debug, Clone, Copy, PartialEq, Eq, Structural)]
pub enum Condition {
    Equal,
    NotEqual,

    Greater,
    GreaterEqual,

    Less,
    LessEqual,
}

#[derive(Debug, Clone)]
pub enum Operand {
    Immediate(i32),
    Register(Reg),
    Pseudo(String),
    Stack(i32),
}

#[derive(Debug, Clone, Copy, PartialEq, Eq, Hash, Structural)]
pub enum Reg {
    AX,
    CX,
    DX,
    R10,
    R11,
}

} // verus!
