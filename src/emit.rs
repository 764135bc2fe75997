//! Rendering of legal assembly as Intel-syntax text for macOS.
use crate::assembly::{
    BinaryOperator, Condition, Function, Instruction, Operand, Program, Reg, UnaryOperator,
};
use crate::codegen::{has_no_pseudo, shift_count_legal};
use crate::text::{push_signed_decimal, signed_decimal};
use vstd::prelude::*;

verus! {

/// An instruction the emitter can render: no pseudo operand is left, and a
/// shift count is an immediate or CX.
pub open spec fn emittable(i: Instruction) -> bool {
    has_no_pseudo(i) && shift_count_legal(i)
}

pub open spec fn register_text(r: Reg) -> Seq<char> {
    match r {
        Reg::AX => "eax"@,
        Reg::CX => "ecx"@,
        Reg::DX => "edx"@,
        Reg::R10 => "r10d"@,
        Reg::R11 => "r11d"@,
    }
}

pub open spec fn byte_register_text(r: Reg) -> Seq<char> {
    match r {
        Reg::AX => "al"@,
        Reg::CX => "cl"@,
        Reg::DX => "dl"@,
        Reg::R10 => "r10b"@,
        Reg::R11 => "r11b"@,
    }
}

/// A 32-bit operand.
pub open spec fn operand_text(o: Operand) -> Seq<char> {
    match o {
        Operand::Immediate(v) => signed_decimal(v as int),
        Operand::Register(r) => register_text(r),
        Operand::Stack(v) => "dword ptr [rbp - "@ + signed_decimal(v as int) + "]"@,
        Operand::Pseudo(_) => Seq::empty(),
    }
}

/// A one-byte operand, the destination of a `set` instruction.
pub open spec fn byte_operand_text(o: Operand) -> Seq<char> {
    match o {
        Operand::Immediate(v) => signed_decimal(v as int),
        Operand::Register(r) => byte_register_text(r),
        Operand::Stack(v) => "byte ptr [rbp - "@ + signed_decimal(v as int) + "]"@,
        Operand::Pseudo(_) => Seq::empty(),
    }
}

/// A shift count: an immediate, or CL.
pub open spec fn shift_count_text(o: Operand) -> Seq<char> {
    match o {
        Operand::Immediate(v) => signed_decimal(v as int),
        _ => "cl"@,
    }
}

pub open spec fn condition_text(c: Condition) -> Seq<char> {
    match c {
        Condition::Equal => "e"@,
        Condition::NotEqual => "ne"@,
        Condition::Less => "l"@,
        Condition::LessEqual => "le"@,
        Condition::Greater => "g"@,
        Condition::GreaterEqual => "ge"@,
    }
}

pub open spec fn binary_mnemonic(op: BinaryOperator) -> Seq<char> {
    match op {
        BinaryOperator::Add => "add"@,
        BinaryOperator::Sub => "sub"@,
        BinaryOperator::Mul => "imul"@,
        BinaryOperator::And => "and"@,
        BinaryOperator::Or => "or"@,
        BinaryOperator::Xor => "xor"@,
        BinaryOperator::Sal => "sal"@,
        BinaryOperator::Sar => "sar"@,
    }
}

/// `mnemonic a, b` on a line.
pub open spec fn two_operand_line(mnemonic: Seq<char>, a: Seq<char>, b: Seq<char>) -> Seq<char> {
    mnemonic + " "@ + a + ", "@ + b + "\n"@
}

/// The text of one instruction, after its leading tab.
pub open spec fn instruction_body(i: Instruction) -> Seq<char> {
    match i {
        Instruction::Move { dst, src } => two_operand_line(
            "mov"@,
            operand_text(dst),
            operand_text(src),
        ),
        Instruction::Return => "\n"@ + "\tmov rsp, rbp\n"@ + "\tpop rbp\n"@ + "\tret\n"@,
        Instruction::Unary(op, o) => (if op == UnaryOperator::Not {
            "not "@
        } else {
            "neg "@
        }) + operand_text(o) + "\n"@,
        Instruction::AllocateStack(n) => "sub rsp, "@ + signed_decimal(n as int) + "\n"@ + "\n"@,
        Instruction::Binary(op, dst, src) => two_operand_line(
            binary_mnemonic(op),
            operand_text(dst),
            if op == BinaryOperator::Sal || op == BinaryOperator::Sar {
                shift_count_text(src)
            } else {
                operand_text(src)
            },
        ),
        Instruction::Division(o) => "idiv "@ + operand_text(o) + "\n"@,
        Instruction::ConvertDQ => "cdq\n"@,
        Instruction::Compare(dst, src) => two_operand_line(
            "cmp"@,
            operand_text(dst),
            operand_text(src),
        ),
        Instruction::Jump(l) => "jmp L"@ + l@ + "\n"@,
        Instruction::JumpCondition(c, l) => "j"@ + condition_text(c) + " L"@ + l@ + "\n"@,
        Instruction::SetCondition(c, o) => "set"@ + condition_text(c) + " "@ + byte_operand_text(o)
            + "\n"@,
        Instruction::Label(l) => "\n"@ + "L"@ + l@ + ":\n"@,
    }
}

pub open spec fn instruction_text(i: Instruction) -> Seq<char> {
    "\t"@ + instruction_body(i)
}

/// The text of a list of instructions, one after another.
pub open spec fn instructions_text(s: Seq<Instruction>) -> Seq<char>
    decreases s.len(),
{
    if s.len() == 0 {
        Seq::empty()
    } else {
        instructions_text(s.drop_last()) + instruction_text(s.last())
    }
}

/// The text of a function: its global label, the frame setup, and its
/// instructions.
pub open spec fn function_text(f: Function) -> Seq<char> {
    "\t.globl _"@ + f.name@ + "\n"@ + "_"@ + f.name@ + ":\n"@ + "\tpush rbp\n"@
        + "\tmov rbp, rsp\n"@ + instructions_text(f.instructions@)
}

/// The text of a program.
pub open spec fn program_text(p: Program) -> Seq<char> {
    "\t.intel_syntax noprefix\n"@ + function_text(p.function)
}

pub open spec fn program_emittable(p: Program) -> bool {
    forall|k: int|
        0 <= k < p.function.instructions@.len() ==> emittable(
            #[trigger] p.function.instructions@[k],
        )
}

/// Whether `emit` accepts the program: no pseudo operand is left and
/// every shift count is an immediate or CX.
pub fn can_emit(program: &Program) -> (r: bool)
    ensures
        r == program_emittable(*program),
{
    let code = &program.function.instructions;
    let mut k: usize = 0;
    while k < code.len()
        invariant
            code@ == program.function.instructions@,
            0 <= k <= code@.len(),
            forall|j: int| 0 <= j < k ==> emittable(#[trigger] code@[j]),
        decreases code@.len() - k,
    {
        let ok = match &code[k] {
            Instruction::Move { dst, src } => !matches!(dst, Operand::Pseudo(_)) && !matches!(
                src,
                Operand::Pseudo(_)
            ),
            Instruction::Unary(_, o) | Instruction::Division(o) | Instruction::SetCondition(_, o) => {
                !matches!(o, Operand::Pseudo(_))
            },
            Instruction::Compare(a, b) => !matches!(a, Operand::Pseudo(_)) && !matches!(
                b,
                Operand::Pseudo(_)
            ),
            Instruction::Binary(op, a, b) => {
                let shift = matches!(op, BinaryOperator::Sal | BinaryOperator::Sar);
                let count_ok = matches!(b, Operand::Immediate(_)) || matches!(
                    b,
                    Operand::Register(Reg::CX)
                );
                !matches!(a, Operand::Pseudo(_)) && !matches!(b, Operand::Pseudo(_)) && (!shift
                    || count_ok)
            },
            _ => true,
        };
        if !ok {
            assert(!emittable(code@[k as int]));
            return false;
        }
        k += 1;
    }
    true
}

/// Renders a program as assembly text.
pub fn emit(program: Program) -> (r: String)
    requires
        program_emittable(program),
    ensures
        r@ == program_text(program),
{
    let mut output = String::new();
    emit_program(&program, &mut output);
    output
}

fn emit_program(program: &Program, output: &mut String)
    requires
        program_emittable(*program),
    ensures
        final(output)@ == old(output)@ + program_text(*program),
{
    output.append("\t.intel_syntax noprefix\n");
    emit_function(&program.function, output);
    assert(output@ =~= old(output)@ + program_text(*program));
}

fn emit_function(function: &Function, output: &mut String)
    requires
        forall|k: int|
            0 <= k < function.instructions@.len() ==> emittable(
                #[trigger] function.instructions@[k],
            ),
    ensures
        final(output)@ == old(output)@ + function_text(*function),
{
    output.append("\t.globl _");
    output.append(function.name.as_str());
    output.append("\n");
    output.append("_");
    output.append(function.name.as_str());
    output.append(":\n");
    output.append("\tpush rbp\n");
    output.append("\tmov rbp, rsp\n");
    let ghost header = output@;
    let mut k: usize = 0;
    let ghost s = function.instructions@;
    assert(s.take(0) =~= Seq::<Instruction>::empty());
    assert(header =~= header + instructions_text(s.take(0)));
    while k < function.instructions.len()
        invariant
            s == function.instructions@,
            0 <= k <= s.len(),
            forall|j: int| 0 <= j < s.len() ==> emittable(#[trigger] s[j]),
            output@ == header + instructions_text(s.take(k as int)),
        decreases s.len() - k,
    {
        emit_instruction(&function.instructions[k], output);
        proof {
            assert(s.take(k + 1).drop_last() =~= s.take(k as int));
            assert(output@ =~= header + instructions_text(s.take(k + 1)));
        }
        k += 1;
    }
    assert(s.take(s.len() as int) =~= s);
    assert(output@ =~= old(output)@ + function_text(*function));
}

fn emit_condition(condition: &Condition) -> (r: &'static str)
    ensures
        r@ == condition_text(*condition),
{
    match condition {
        Condition::Equal => "e",
        Condition::NotEqual => "ne",
        Condition::Less => "l",
        Condition::LessEqual => "le",
        Condition::Greater => "g",
        Condition::GreaterEqual => "ge",
    }
}

fn emit_operand(operand: &Operand) -> (r: String)
    requires
        !(*operand is Pseudo),
    ensures
        r@ == operand_text(*operand),
{
    let mut out = String::new();
    match operand {
        Operand::Immediate(value) => push_signed_decimal(&mut out, *value),
        Operand::Register(reg) => {
            let name = match reg {
                Reg::AX => "eax",
                Reg::CX => "ecx",
                Reg::DX => "edx",
                Reg::R10 => "r10d",
                Reg::R11 => "r11d",
            };
            out.append(name);
        },
        Operand::Stack(value) => {
            out.append("dword ptr [rbp - ");
            push_signed_decimal(&mut out, *value);
            out.append("]");
        },
        Operand::Pseudo(_) => {},
    }
    assert(out@ =~= operand_text(*operand));
    out
}

fn emit_one_byte_operand(operand: &Operand) -> (r: String)
    requires
        !(*operand is Pseudo),
    ensures
        r@ == byte_operand_text(*operand),
{
    let mut out = String::new();
    match operand {
        Operand::Immediate(value) => push_signed_decimal(&mut out, *value),
        Operand::Register(reg) => {
            let name = match reg {
                Reg::AX => "al",
                Reg::CX => "cl",
                Reg::DX => "dl",
                Reg::R10 => "r10b",
                Reg::R11 => "r11b",
            };
            out.append(name);
        },
        Operand::Stack(value) => {
            out.append("byte ptr [rbp - ");
            push_signed_decimal(&mut out, *value);
            out.append("]");
        },
        Operand::Pseudo(_) => {},
    }
    assert(out@ =~= byte_operand_text(*operand));
    out
}

fn emit_shift_count(operand: &Operand) -> (r: String)
    requires
        *operand is Immediate || *operand == Operand::Register(Reg::CX),
    ensures
        r@ == shift_count_text(*operand),
{
    let mut out = String::new();
    match operand {
        Operand::Immediate(value) => push_signed_decimal(&mut out, *value),
        _ => out.append("cl"),
    }
    assert(out@ =~= shift_count_text(*operand));
    out
}

/// Appends `mnemonic a, b` and a newline.
fn emit_two(output: &mut String, mnemonic: &str, a: &String, b: &String)
    ensures
        final(output)@ == old(output)@ + two_operand_line(mnemonic@, a@, b@),
{
    output.append(mnemonic);
    output.append(" ");
    output.append(a.as_str());
    output.append(", ");
    output.append(b.as_str());
    output.append("\n");
    assert(output@ =~= old(output)@ + two_operand_line(mnemonic@, a@, b@));
}

fn emit_instruction(instruction: &Instruction, output: &mut String)
    requires
        emittable(*instruction),
    ensures
        final(output)@ == old(output)@ + instruction_text(*instruction),
{
    output.append("\t");
    let ghost start = output@;
    match instruction {
        Instruction::Move { dst, src } => {
            emit_two(output, "mov", &emit_operand(dst), &emit_operand(src));
        },
        Instruction::Return => {
            output.append("\n");
            output.append("\tmov rsp, rbp\n");
            output.append("\tpop rbp\n");
            output.append("\tret\n");
        },
        Instruction::Unary(unop, oper) => {
            match unop {
                UnaryOperator::Not => output.append("not "),
                UnaryOperator::Neg => output.append("neg "),
            }
            output.append(emit_operand(oper).as_str());
            output.append("\n");
        },
        Instruction::AllocateStack(bytes) => {
            output.append("sub rsp, ");
            push_signed_decimal(output, *bytes);
            output.append("\n");
            output.append("\n");
        },
        Instruction::Binary(op, dst, src) => {
            let mnemonic = match op {
                BinaryOperator::Add => "add",
                BinaryOperator::Sub => "sub",
                BinaryOperator::Mul => "imul",
                BinaryOperator::And => "and",
                BinaryOperator::Or => "or",
                BinaryOperator::Xor => "xor",
                BinaryOperator::Sal => "sal",
                BinaryOperator::Sar => "sar",
            };
            let count = match op {
                BinaryOperator::Sal | BinaryOperator::Sar => emit_shift_count(src),
                _ => emit_operand(src),
            };
            emit_two(output, mnemonic, &emit_operand(dst), &count);
        },
        Instruction::Division(divisor) => {
            output.append("idiv ");
            output.append(emit_operand(divisor).as_str());
            output.append("\n");
        },
        Instruction::ConvertDQ => output.append("cdq\n"),
        Instruction::Compare(dst, src) => {
            emit_two(output, "cmp", &emit_operand(dst), &emit_operand(src));
        },
        Instruction::Jump(label) => {
            output.append("jmp L");
            output.append(label.as_str());
            output.append("\n");
        },
        Instruction::JumpCondition(condition, label) => {
            output.append("j");
            output.append(emit_condition(condition));
            output.append(" L");
            output.append(label.as_str());
            output.append("\n");
        },
        Instruction::SetCondition(condition, dst) => {
            output.append("set");
            output.append(emit_condition(condition));
            output.append(" ");
            output.append(emit_one_byte_operand(dst).as_str());
            output.append("\n");
        },
        Instruction::Label(label) => {
            output.append("\n");
            output.append("L");
            output.append(label.as_str());
            output.append(":\n");
        },
    }
    assert(output@ =~= old(output)@ + instruction_text(*instruction));
}

} // verus!
