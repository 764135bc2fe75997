//! Three-address code: a flat list of instructions, each writing at most
//! one named destination from at most two values.
use vstd::prelude::*;

verus! {

#[derive(Debug, Clone)]
pub struct Program {
    pub function: Function,
}

#[derive(Debug, Clone)]
pub struct Function {
    pub name: String,
    pub body: Vec<Instruction>,
}

#[derive(Debug, Clone)]
pub enum Instruction {
    Return(Value),
    Unary { op: UnaryOperator, dst: String, src: Value },
    Binary { op: BinaryOperator, dst: String, src1: Value, src2: Value },
    Copy { src: Value, dst: String },
    Jump { target: String },
    JumpIfZero { condition: Value, target: String },
    JumpIfNotZero { condition: Value, target: String },
    Label(String),
}

#[derive(Debug, Clone)]
pub enum Value {
    Constant(i32),
    Variable(String),
}

#[derive(Debug, Clone, Copy, PartialEq, Eq, Structural)]
pub enum UnaryOperator {
    Complement,
    Negate,
    Not,
}

#[derive(Debug, Clone, Copy, PartialEq, Eq, Structural)]
pub enum BinaryOperator {
    Add,
    Subtract,
    Multiply,
    Divide,
    Modulo,

    BitwiseAnd,
    BitwiseOr,
    BitwiseXor,

    LeftShift,
    RightShift,

    Equal,
    NotEqual,

    LessThan,
    LessOrEqual,

    GreaterThan,
    GreaterOrEqual,
}

/// A value with its name as characters.
pub ghost enum ValueModel {
    Constant(i32),
    Variable(Seq<char>),
}

/// An instruction with its names as characters.
pub ghost enum InstructionModel {
    Return(ValueModel),
    Unary { op: UnaryOperator, dst: Seq<char>, src: ValueModel },
    Binary { op: BinaryOperator, dst: Seq<char>, src1: ValueModel, src2: ValueModel },
    Copy { src: ValueModel, dst: Seq<char> },
    Jump { target: Seq<char> },
    JumpIfZero { condition: ValueModel, target: Seq<char> },
    JumpIfNotZero { condition: ValueModel, target: Seq<char> },
    Label(Seq<char>),
}

impl View for Value {
    type V = ValueModel;

    open spec fn view(&self) -> ValueModel {
        match self {
            Value::Constant(k) => ValueModel::Constant(*k),
            Value::Variable(n) => ValueModel::Variable(n@),
        }
    }
}

impl View for Instruction {
    type V = InstructionModel;

    open spec fn view(&self) -> InstructionModel {
        match self {
            Instruction::Return(v) => InstructionModel::Return(v@),
            Instruction::Unary { op, dst, src } => InstructionModel::Unary {
                op: *op,
                dst: dst@,
                src: src@,
            },
            Instruction::Binary { op, dst, src1, src2 } => InstructionModel::Binary {
                op: *op,
                dst: dst@,
                src1: src1@,
                src2: src2@,
            },
            Instruction::Copy { src, dst } => InstructionModel::Copy { src: src@, dst: dst@ },
            Instruction::Jump { target } => InstructionModel::Jump { target: target@ },
            Instruction::JumpIfZero { condition, target } => InstructionModel::JumpIfZero {
                condition: condition@,
                target: target@,
            },
            Instruction::JumpIfNotZero { condition, target } => InstructionModel::JumpIfNotZero {
                condition: condition@,
                target: target@,
            },
            Instruction::Label(l) => InstructionModel::Label(l@),
        }
    }
}

/// The instructions of a list, each as its model.
pub open spec fn instructions_model(v: Seq<Instruction>) -> Seq<InstructionModel> {
    v.map_values(|i: Instruction| i@)
}

} // verus!
