use std::collections::HashMap;

use crucible::assembly::{BinaryOperator, Condition, Instruction, Operand, Reg, UnaryOperator};
use crucible::codegen::generate;
use crucible::emit::emit;
use crucible::error::CompileError;
use crucible::irgen::flatten;
use crucible::lexer::lex;
use crucible::parser::parse;
use crucible::resolve::resolve;

fn to_assembly(source: &str) -> Result<crucible::assembly::Program, CompileError> {
    let tokens = lex(source)?;
    let ast = parse(tokens)?;
    let ast = resolve(ast)?;
    let tac = flatten(ast);
    Ok(generate(tac))
}

fn read(op: &Operand, regs: &HashMap<Reg, i32>, stack: &HashMap<i32, i32>) -> i32 {
    match op {
        Operand::Immediate(v) => *v,
        Operand::Register(r) => *regs.get(r).unwrap_or(&0),
        Operand::Stack(off) => *stack.get(off).unwrap_or(&0),
        Operand::Pseudo(_) => panic!("pseudo operand left in generated code"),
    }
}

fn write(op: &Operand, value: i32, regs: &mut HashMap<Reg, i32>, stack: &mut HashMap<i32, i32>) {
    match op {
        Operand::Register(r) => {
            regs.insert(*r, value);
        }
        Operand::Stack(off) => {
            stack.insert(*off, value);
        }
        _ => panic!("bad destination"),
    }
}

fn holds(c: &Condition, a: i32, b: i32) -> bool {
    match c {
        Condition::Equal => a == b,
        Condition::NotEqual => a != b,
        Condition::Less => a < b,
        Condition::LessEqual => a <= b,
        Condition::Greater => a > b,
        Condition::GreaterEqual => a >= b,
    }
}

/// Runs generated code and gives the exit status the program would have.
fn run(program: &crucible::assembly::Program) -> i32 {
    let code = &program.function.instructions;
    let mut regs: HashMap<Reg, i32> = HashMap::new();
    let mut stack: HashMap<i32, i32> = HashMap::new();
    let mut flags = (0i32, 0i32);
    let mut pc = 0usize;
    let mut steps = 0;
    while pc < code.len() {
        steps += 1;
        assert!(steps < 100_000, "no return");
        match &code[pc] {
            Instruction::Move { dst, src } => {
                let v = read(src, &regs, &stack);
                write(dst, v, &mut regs, &mut stack);
            }
            Instruction::Unary(op, o) => {
                let v = read(o, &regs, &stack);
                let r = match op {
                    UnaryOperator::Not => !v,
                    UnaryOperator::Neg => v.wrapping_neg(),
                };
                write(o, r, &mut regs, &mut stack);
            }
            Instruction::Binary(op, dst, src) => {
                let a = read(dst, &regs, &stack);
                let b = read(src, &regs, &stack);
                let r = match op {
                    BinaryOperator::Add => a.wrapping_add(b),
                    BinaryOperator::Sub => a.wrapping_sub(b),
                    BinaryOperator::Mul => a.wrapping_mul(b),
                    BinaryOperator::And => a & b,
                    BinaryOperator::Or => a | b,
                    BinaryOperator::Xor => a ^ b,
                    BinaryOperator::Sal => a.wrapping_shl(b as u32),
                    BinaryOperator::Sar => a.wrapping_shr(b as u32),
                };
                write(dst, r, &mut regs, &mut stack);
            }
            Instruction::Compare(a, b) => {
                flags = (read(a, &regs, &stack), read(b, &regs, &stack));
            }
            Instruction::Jump(l) => {
                pc = label_index(program, l);
                continue;
            }
            Instruction::JumpCondition(c, l) => {
                if holds(c, flags.0, flags.1) {
                    pc = label_index(program, l);
                    continue;
                }
            }
            Instruction::SetCondition(c, o) => {
                let v = if holds(c, flags.0, flags.1) { 1 } else { 0 };
                write(o, v, &mut regs, &mut stack);
            }
            Instruction::Label(_) => {}
            Instruction::Division(o) => {
                let d = read(o, &regs, &stack);
                let n = *regs.get(&Reg::AX).unwrap_or(&0);
                regs.insert(Reg::AX, n / d);
                regs.insert(Reg::DX, n % d);
            }
            Instruction::ConvertDQ => {}
            Instruction::AllocateStack(_) => {}
            Instruction::Return => return *regs.get(&Reg::AX).unwrap_or(&0) & 0xff,
        }
        pc += 1;
    }
    panic!("fell off the end");
}

fn label_index(program: &crucible::assembly::Program, label: &str) -> usize {
    program
        .function
        .instructions
        .iter()
        .position(|i| matches!(i, Instruction::Label(l) if l == label))
        .expect("label exists")
}

fn exit_status(source: &str) -> i32 {
    run(&to_assembly(source).expect("compiles"))
}

#[test]
fn returns_constant() {
    assert_eq!(exit_status("int main(void){return 2;}"), 2);
}

#[test]
fn negates_complement() {
    assert_eq!(exit_status("int main(void){return -(~1);}"), 2);
}

#[test]
fn multiplication_binds_tighter() {
    assert_eq!(exit_status("int main(void){return 1+2*3;}"), 7);
}

#[test]
fn divides_and_takes_remainder() {
    assert_eq!(exit_status("int main(void){return 10/3;}"), 3);
    assert_eq!(exit_status("int main(void){return 10%3;}"), 1);
}

#[test]
fn logical_operators_short_circuit() {
    assert_eq!(exit_status("int main(void){return 1 && 0;}"), 0);
    assert_eq!(exit_status("int main(void){return 0 || 2;}"), 1);
    assert_eq!(exit_status("int main(void){return 5 && 7;}"), 1);
}

#[test]
fn declarations_with_initializers() {
    assert_eq!(exit_status("int main(void){int a = 2; int b = 3; return a*a + b*b;}"), 13);
}

#[test]
fn assignments_update_variables() {
    assert_eq!(exit_status("int main(void){int a; a = 5; a = a + 1; return a;}"), 6);
}

#[test]
fn duplicate_declaration_is_rejected() {
    let r = to_assembly("int main(void){int a = 1; int a = 2; return a;}");
    assert!(matches!(r, Err(CompileError::DuplicateDeclaration(n)) if n == "a"));
}

#[test]
fn undeclared_variable_is_rejected() {
    let r = to_assembly("int main(void){return x;}");
    assert!(matches!(r, Err(CompileError::UndeclaredVariable(n)) if n == "x"));
}

#[test]
fn assignment_to_constant_is_rejected() {
    let r = to_assembly("int main(void){2 = 3; return 0;}");
    assert!(matches!(r, Err(CompileError::InvalidLvalue)));
}

#[test]
fn shifts_relations_and_bitwise_operators() {
    assert_eq!(exit_status("int main(void){int a = 3; int b = 2; return a << b;}"), 12);
    assert_eq!(exit_status("int main(void){int a = 64; int b = 3; return a >> b;}"), 8);
    assert_eq!(exit_status("int main(void){return 1 << 2 + 3;}"), 32);
    assert_eq!(exit_status("int main(void){int a = 4; return (a < 5) + (a <= 4) + (a > 4) + (a >= 5) + (a == 4) + (a != 4);}"), 3);
    assert_eq!(exit_status("int main(void){return (6 & 3) | (8 ^ 1);}"), 11);
    assert_eq!(exit_status("int main(void){int a = 0; return !a + !5;}"), 1);
}

#[test]
fn memory_operands_are_legalized() {
    // Every operand here lives on the stack, so each fixup is exercised.
    let src = "int main(void){int a = 7; int b = 3; int c = a * b; int d = a / b; int e = a % b; \
               int f = a << b; int g = a - b; return c + d + e + f + g + (a < b);}";
    assert_eq!(exit_status(src), 21 + 2 + 1 + 56 + 4);
}

#[test]
fn chained_assignment_assigns_both() {
    assert_eq!(exit_status("int main(void){int a; int b; a = b = 4; return a + b;}"), 8);
}

#[test]
fn falls_through_to_return_zero() {
    assert_eq!(exit_status("int main(void){int a = 3;}"), 0);
}

#[test]
fn or_skips_right_operand() {
    // The right operand would assign 9 if it ran.
    assert_eq!(exit_status("int main(void){int a = 1; int b = 0; a || (b = 9); return b;}"), 0);
    assert_eq!(exit_status("int main(void){int a = 0; int b = 0; a && (b = 9); return b;}"), 0);
    assert_eq!(exit_status("int main(void){int a = 1; int b = 0; a && (b = 9); return b;}"), 9);
}

#[test]
fn emits_intel_syntax() {
    let text = emit(to_assembly("int main(void){return 2;}").unwrap());
    let expected = "\t.intel_syntax noprefix\n\t.globl _main\n_main:\n\tpush rbp\n\tmov rbp, rsp\n\
                    \tsub rsp, 0\n\n\tmov eax, 2\n\t\n\tmov rsp, rbp\n\tpop rbp\n\tret\n";
    assert_eq!(text, expected);
}

#[test]
fn emits_stack_operands_and_conditions() {
    let text = emit(to_assembly("int main(void){int a = 1; return !a;}").unwrap());
    assert!(text.contains("\tsub rsp, 16\n"));
    assert!(text.contains("\tmov dword ptr [rbp - 4], 1\n"));
    assert!(text.contains("\tcmp r11d, dword ptr [rbp - 4]\n"));
    assert!(text.contains("\tsete byte ptr [rbp - 8]\n"));
}

#[test]
fn emits_labels_and_jumps() {
    let text = emit(to_assembly("int main(void){return 1 && 2;}").unwrap());
    assert!(text.contains("\tje Land_false.0\n"));
    assert!(text.contains("\tjmp Land_end.1\n"));
    assert!(text.contains("\nLand_false.0:\n"));
}

#[test]
fn emits_shift_count_in_cl() {
    let text = emit(to_assembly("int main(void){int a = 1; int b = 2; return a << b;}").unwrap());
    assert!(text.contains("\tmov ecx, dword ptr [rbp - 8]\n"));
    assert!(text.contains(", cl\n"));
}

#[test]
fn generated_code_is_legal() {
    let code_out = to_assembly(
        "int main(void){int a = 7; int b = 3; int c = a * b / 2 % 5 << b >> 1; \
         return (c & a) | (b ^ a) || !c && a - b;}",
    )
    .unwrap();
    let code = &code_out.function.instructions;
    match code[0] {
        Instruction::AllocateStack(n) => assert!(n >= 0 && n % 16 == 0),
        _ => panic!("frame first"),
    }
    for inst in code {
        let ops: Vec<&Operand> = match inst {
            Instruction::Move { dst, src } => vec![dst, src],
            Instruction::Unary(_, o) | Instruction::Division(o) | Instruction::SetCondition(_, o) => {
                vec![o]
            }
            Instruction::Binary(_, a, b) | Instruction::Compare(a, b) => vec![a, b],
            _ => vec![],
        };
        assert!(ops.iter().all(|o| !matches!(o, Operand::Pseudo(_))));
        match inst {
            Instruction::Move { dst: Operand::Stack(_), src: Operand::Stack(_) } => panic!("mem-mem move"),
            Instruction::Compare(Operand::Stack(_), Operand::Stack(_)) => panic!("mem-mem cmp"),
            Instruction::Binary(BinaryOperator::Mul, Operand::Stack(_), _) => panic!("mul into memory"),
            Instruction::Binary(_, Operand::Stack(_), Operand::Stack(_)) => panic!("mem-mem binary"),
            Instruction::Binary(BinaryOperator::Sal | BinaryOperator::Sar, _, src) => {
                assert!(matches!(src, Operand::Immediate(_) | Operand::Register(Reg::CX)))
            }
            Instruction::Division(Operand::Immediate(_)) => panic!("immediate divisor"),
            _ => {}
        }
    }
    assert_eq!(run(&code_out), 1);
}
