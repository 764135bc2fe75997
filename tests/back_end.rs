use crucible::assembly::{self, BinaryOperator, Condition, Instruction, Operand, Reg};
use crucible::codegen::generate;
use crucible::emit::{can_emit, emit};
use crucible::ir;

fn tac_program(body: Vec<ir::Instruction>) -> ir::Program {
    ir::Program { function: ir::Function { name: "main".to_string(), body } }
}

fn var(name: &str) -> ir::Value {
    ir::Value::Variable(name.to_string())
}

#[test]
fn immediate_divisor_goes_through_r10() {
    let program = tac_program(vec![
        ir::Instruction::Binary {
            op: ir::BinaryOperator::Divide,
            dst: "q".to_string(),
            src1: ir::Value::Constant(10),
            src2: ir::Value::Constant(3),
        },
        ir::Instruction::Return(var("q")),
    ]);
    let code = generate(program).function.instructions;
    assert_eq!(
        format!("{:?}", code),
        "[AllocateStack(16), Move { dst: Register(AX), src: Immediate(10) }, ConvertDQ, \
         Move { dst: Register(R10), src: Immediate(3) }, Division(Register(R10)), \
         Move { dst: Stack(4), src: Register(AX) }, Move { dst: Register(AX), src: Stack(4) }, Return]"
    );
}

#[test]
fn relational_with_constant_left_uses_r11() {
    let program = tac_program(vec![
        ir::Instruction::Binary {
            op: ir::BinaryOperator::LessThan,
            dst: "t".to_string(),
            src1: ir::Value::Constant(1),
            src2: var("x"),
        },
        ir::Instruction::Return(var("t")),
    ]);
    let code = generate(program).function.instructions;
    assert!(matches!(code[1], Instruction::Move { dst: Operand::Register(Reg::R11), src: Operand::Immediate(1) }));
    assert!(matches!(code[2], Instruction::Compare(Operand::Register(Reg::R11), Operand::Stack(4))));
    assert!(matches!(code[4], Instruction::SetCondition(Condition::Less, Operand::Stack(8))));
}

#[test]
fn multiplication_into_memory_goes_through_r11() {
    let program = tac_program(vec![
        ir::Instruction::Binary {
            op: ir::BinaryOperator::Multiply,
            dst: "p".to_string(),
            src1: var("a"),
            src2: var("b"),
        },
        ir::Instruction::Return(var("p")),
    ]);
    let code = generate(program).function.instructions;
    assert_eq!(
        format!("{:?}", &code[1..]),
        "[Move { dst: Register(R10), src: Stack(8) }, Move { dst: Stack(4), src: Register(R10) }, \
         Move { dst: Register(R11), src: Stack(4) }, Binary(Mul, Register(R11), Stack(12)), \
         Move { dst: Stack(4), src: Register(R11) }, Move { dst: Register(AX), src: Stack(4) }, Return]"
    );
}

#[test]
fn stack_frame_rounds_up_to_sixteen() {
    let body: Vec<ir::Instruction> = (0..5)
        .map(|i| ir::Instruction::Copy { src: ir::Value::Constant(i), dst: format!("v{}", i) })
        .collect();
    let code = generate(tac_program(body)).function.instructions;
    assert!(matches!(code[0], Instruction::AllocateStack(32)));
    assert!(matches!(code[5], Instruction::Move { dst: Operand::Stack(20), src: Operand::Immediate(4) }));
}

#[test]
fn emits_negative_immediates_and_all_mnemonics() {
    let program = assembly::Program {
        function: assembly::Function {
            name: "f".to_string(),
            instructions: vec![
                Instruction::AllocateStack(32),
                Instruction::Move { dst: Operand::Register(Reg::AX), src: Operand::Immediate(-12) },
                Instruction::Binary(BinaryOperator::Sub, Operand::Stack(28), Operand::Register(Reg::DX)),
                Instruction::Binary(BinaryOperator::Sar, Operand::Register(Reg::R10), Operand::Immediate(3)),
                Instruction::Unary(assembly::UnaryOperator::Neg, Operand::Register(Reg::R11)),
                Instruction::SetCondition(Condition::GreaterEqual, Operand::Register(Reg::CX)),
                Instruction::JumpCondition(Condition::NotEqual, "x.1".to_string()),
                Instruction::Return,
            ],
        },
    };
    assert!(can_emit(&program));
    let text = emit(program);
    assert_eq!(
        text,
        "\t.intel_syntax noprefix\n\t.globl _f\n_f:\n\tpush rbp\n\tmov rbp, rsp\n\
         \tsub rsp, 32\n\n\tmov eax, -12\n\tsub dword ptr [rbp - 28], edx\n\tsar r10d, 3\n\
         \tneg r11d\n\tsetge cl\n\tjne Lx.1\n\t\n\tmov rsp, rbp\n\tpop rbp\n\tret\n"
    );
}

#[test]
fn pseudo_operands_cannot_be_emitted() {
    let program = assembly::Program {
        function: assembly::Function {
            name: "f".to_string(),
            instructions: vec![Instruction::Division(Operand::Pseudo("x".to_string()))],
        },
    };
    assert!(!can_emit(&program));
    let program = assembly::Program {
        function: assembly::Function {
            name: "f".to_string(),
            instructions: vec![Instruction::Binary(
                BinaryOperator::Sal,
                Operand::Register(Reg::AX),
                Operand::Register(Reg::DX),
            )],
        },
    };
    assert!(!can_emit(&program));
}
