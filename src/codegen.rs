//! Lowering of three-address code to assembly: a naive translation, the
//! assignment of a stack slot to every pseudo operand, and the fixups that
//! make each instruction's operands legal for x86-64.
use crate::assembly::{
    BinaryOperator, Condition, Function, Instruction, Operand, Program, Reg, UnaryOperator,
};
use crate::ir;
use vstd::prelude::*;

verus! {

/// The largest function body, in three-address instructions, whose stack
/// frame offsets fit in 32 bits.
pub const MAX_BODY: usize = 50_000_000;

// ---------------------------------------------------------------------------
// Sequences rewritten one element at a time

/// The concatenation of `f(x)` for every `x` of `s`, in order.
pub open spec fn expand<A, B>(s: Seq<A>, f: spec_fn(A) -> Seq<B>) -> Seq<B>
    decreases s.len(),
{
    if s.len() == 0 {
        Seq::empty()
    } else {
        expand(s.drop_last(), f) + f(s.last())
    }
}

/// Every element of `s` satisfies `p`.
pub open spec fn all_satisfy<A>(s: Seq<A>, p: spec_fn(A) -> bool) -> bool {
    forall|k: int| 0 <= k < s.len() ==> p(#[trigger] s[k])
}

proof fn lemma_expand_step<A, B>(s: Seq<A>, k: int, f: spec_fn(A) -> Seq<B>)
    requires
        0 <= k < s.len(),
    ensures
        expand(s.take(k + 1), f) == expand(s.take(k), f) + f(s[k]),
{
    assert(s.take(k + 1).drop_last() =~= s.take(k));
}

proof fn lemma_expand_whole<A, B>(s: Seq<A>, f: spec_fn(A) -> Seq<B>)
    ensures
        expand(s.take(s.len() as int), f) == expand(s, f),
{
    assert(s.take(s.len() as int) =~= s);
}

proof fn lemma_expand_keeps<A, B>(
    s: Seq<A>,
    f: spec_fn(A) -> Seq<B>,
    p: spec_fn(A) -> bool,
    q: spec_fn(B) -> bool,
)
    requires
        all_satisfy(s, p),
        forall|x: A| #[trigger] p(x) ==> all_satisfy(f(x), q),
    ensures
        all_satisfy(expand(s, f), q),
    decreases s.len(),
{
    if s.len() > 0 {
        let init = s.drop_last();
        assert(all_satisfy(init, p)) by {
            assert forall|k: int| 0 <= k < init.len() implies p(#[trigger] init[k]) by {
                assert(init[k] == s[k]);
            }
        }
        lemma_expand_keeps(init, f, p, q);
        assert(p(s[s.len() - 1]));
        let left = expand(init, f);
        let right = f(s.last());
        assert forall|k: int| 0 <= k < left.len() + right.len() implies q(
            #[trigger] (left + right)[k],
        ) by {
            if k < left.len() {
                assert((left + right)[k] == left[k]);
            } else {
                assert((left + right)[k] == right[k - left.len()]);
            }
        }
    }
}

proof fn lemma_expand_len<A, B>(s: Seq<A>, f: spec_fn(A) -> Seq<B>)
    requires
        forall|x: A| (#[trigger] f(x)).len() <= 4,
    ensures
        expand(s, f).len() <= 4 * s.len(),
    decreases s.len(),
{
    if s.len() > 0 {
        lemma_expand_len(s.drop_last(), f);
    }
}

// ---------------------------------------------------------------------------
// Phase A: naive lowering

/// The operand that stands for a three-address value.
pub open spec fn operand_of(v: ir::Value) -> Operand {
    match v {
        ir::Value::Constant(k) => Operand::Immediate(k),
        ir::Value::Variable(n) => Operand::Pseudo(n),
    }
}

pub open spec fn unary_of(op: ir::UnaryOperator) -> UnaryOperator {
    match op {
        ir::UnaryOperator::Complement => UnaryOperator::Not,
        _ => UnaryOperator::Neg,
    }
}

pub open spec fn is_division(op: ir::BinaryOperator) -> bool {
    op == ir::BinaryOperator::Divide || op == ir::BinaryOperator::Modulo
}

pub open spec fn is_relational(op: ir::BinaryOperator) -> bool {
    match op {
        ir::BinaryOperator::Equal | ir::BinaryOperator::NotEqual | ir::BinaryOperator::LessThan
        | ir::BinaryOperator::LessOrEqual | ir::BinaryOperator::GreaterThan
        | ir::BinaryOperator::GreaterOrEqual => true,
        _ => false,
    }
}

pub open spec fn binary_of(op: ir::BinaryOperator) -> BinaryOperator {
    match op {
        ir::BinaryOperator::Subtract => BinaryOperator::Sub,
        ir::BinaryOperator::Multiply => BinaryOperator::Mul,
        ir::BinaryOperator::BitwiseAnd => BinaryOperator::And,
        ir::BinaryOperator::BitwiseOr => BinaryOperator::Or,
        ir::BinaryOperator::BitwiseXor => BinaryOperator::Xor,
        ir::BinaryOperator::LeftShift => BinaryOperator::Sal,
        ir::BinaryOperator::RightShift => BinaryOperator::Sar,
        _ => BinaryOperator::Add,
    }
}

pub open spec fn condition_of(op: ir::BinaryOperator) -> Condition {
    match op {
        ir::BinaryOperator::NotEqual => Condition::NotEqual,
        ir::BinaryOperator::GreaterThan => Condition::Greater,
        ir::BinaryOperator::GreaterOrEqual => Condition::GreaterEqual,
        ir::BinaryOperator::LessThan => Condition::Less,
        ir::BinaryOperator::LessOrEqual => Condition::LessEqual,
        _ => Condition::Equal,
    }
}

pub open spec fn reg(r: Reg) -> Operand {
    Operand::Register(r)
}

/// `cmp a, b`, with an immediate `a` staged through R11 first.
pub open spec fn compare_values(a: ir::Value, b: ir::Value) -> Seq<Instruction> {
    match a {
        ir::Value::Constant(k) => seq![
            Instruction::Move { dst: reg(Reg::R11), src: Operand::Immediate(k) },
            Instruction::Compare(reg(Reg::R11), operand_of(b)),
        ],
        ir::Value::Variable(_) => seq![Instruction::Compare(operand_of(a), operand_of(b))],
    }
}

/// Tests a value against zero and jumps on `cc`.
pub open spec fn jump_on_zero_test(c: ir::Value, cc: Condition, target: String) -> Seq<
    Instruction,
> {
    seq![
        Instruction::Move { dst: reg(Reg::R11), src: Operand::Immediate(0) },
        Instruction::Compare(reg(Reg::R11), operand_of(c)),
        Instruction::JumpCondition(cc, target),
    ]
}

/// The assembly instructions that one three-address instruction becomes.
pub open spec fn lower_instruction(i: ir::Instruction) -> Seq<Instruction> {
    match i {
        ir::Instruction::Return(v) => seq![
            Instruction::Move { dst: reg(Reg::AX), src: operand_of(v) },
            Instruction::Return,
        ],
        ir::Instruction::Unary { op, dst, src } => {
            if op == ir::UnaryOperator::Not {
                seq![
                    Instruction::Move { dst: reg(Reg::R11), src: Operand::Immediate(0) },
                    Instruction::Compare(reg(Reg::R11), operand_of(src)),
                    Instruction::Move { dst: Operand::Pseudo(dst), src: Operand::Immediate(0) },
                    Instruction::SetCondition(Condition::Equal, Operand::Pseudo(dst)),
                ]
            } else {
                seq![
                    Instruction::Move { dst: Operand::Pseudo(dst), src: operand_of(src) },
                    Instruction::Unary(unary_of(op), Operand::Pseudo(dst)),
                ]
            }
        },
        ir::Instruction::Binary { op, dst, src1, src2 } => {
            if is_division(op) {
                seq![
                    Instruction::Move { dst: reg(Reg::AX), src: operand_of(src1) },
                    Instruction::ConvertDQ,
                    Instruction::Division(operand_of(src2)),
                    Instruction::Move {
                        dst: Operand::Pseudo(dst),
                        src: if op == ir::BinaryOperator::Divide {
                            reg(Reg::AX)
                        } else {
                            reg(Reg::DX)
                        },
                    },
                ]
            } else if is_relational(op) {
                compare_values(src1, src2) + seq![
                    Instruction::Move { dst: Operand::Pseudo(dst), src: Operand::Immediate(0) },
                    Instruction::SetCondition(condition_of(op), Operand::Pseudo(dst)),
                ]
            } else {
                seq![
                    Instruction::Move { dst: Operand::Pseudo(dst), src: operand_of(src1) },
                    Instruction::Binary(binary_of(op), Operand::Pseudo(dst), operand_of(src2)),
                ]
            }
        },
        ir::Instruction::Copy { src, dst } => seq![
            Instruction::Move { dst: Operand::Pseudo(dst), src: operand_of(src) },
        ],
        ir::Instruction::Jump { target } => seq![Instruction::Jump(target)],
        ir::Instruction::JumpIfZero { condition, target } => jump_on_zero_test(
            condition,
            Condition::Equal,
            target,
        ),
        ir::Instruction::JumpIfNotZero { condition, target } => jump_on_zero_test(
            condition,
            Condition::NotEqual,
            target,
        ),
        ir::Instruction::Label(l) => seq![Instruction::Label(l)],
    }
}

pub open spec fn lower_fn() -> spec_fn(ir::Instruction) -> Seq<Instruction> {
    |i: ir::Instruction| lower_instruction(i)
}

// ---------------------------------------------------------------------------
// Phase B: stack slots for pseudo operands

/// The names of a list of strings, as characters.
pub open spec fn names_model(v: Seq<String>) -> Seq<Seq<char>> {
    v.map_values(|s: String| s@)
}

/// The stack slot of the `k`-th distinct pseudo name (counting from 0).
pub open spec fn slot(k: int) -> int {
    4 * (k + 1)
}

/// Replaces a pseudo operand by its stack slot. `names` lists the pseudo
/// names met so far, in order of first appearance; a new name gets the
/// next slot.
pub open spec fn assign_operand(o: Operand, names: Seq<Seq<char>>) -> (Operand, Seq<Seq<char>>) {
    match o {
        Operand::Pseudo(n) => {
            if names.contains(n@) {
                (Operand::Stack(slot(names.index_of(n@)) as i32), names)
            } else {
                (Operand::Stack(slot(names.len() as int) as i32), names.push(n@))
            }
        },
        _ => (o, names),
    }
}

/// Replaces the pseudo operands of one instruction, left to right.
pub open spec fn assign_instruction(i: Instruction, names: Seq<Seq<char>>) -> (
    Instruction,
    Seq<Seq<char>>,
) {
    match i {
        Instruction::Move { dst, src } => {
            let (d, n1) = assign_operand(dst, names);
            let (s, n2) = assign_operand(src, n1);
            (Instruction::Move { dst: d, src: s }, n2)
        },
        Instruction::Unary(op, o) => {
            let (a, n1) = assign_operand(o, names);
            (Instruction::Unary(op, a), n1)
        },
        Instruction::Binary(op, x, y) => {
            let (a, n1) = assign_operand(x, names);
            let (b, n2) = assign_operand(y, n1);
            (Instruction::Binary(op, a, b), n2)
        },
        Instruction::Division(o) => {
            let (a, n1) = assign_operand(o, names);
            (Instruction::Division(a), n1)
        },
        Instruction::Compare(x, y) => {
            let (a, n1) = assign_operand(x, names);
            let (b, n2) = assign_operand(y, n1);
            (Instruction::Compare(a, b), n2)
        },
        Instruction::SetCondition(c, o) => {
            let (a, n1) = assign_operand(o, names);
            (Instruction::SetCondition(c, a), n1)
        },
        _ => (i, names),
    }
}

/// Replaces the pseudo operands of a list of instructions; also gives the
/// pseudo names in order of first appearance.
pub open spec fn assign_all(s: Seq<Instruction>) -> (Seq<Instruction>, Seq<Seq<char>>)
    decreases s.len(),
{
    if s.len() == 0 {
        (Seq::empty(), Seq::empty())
    } else {
        let (prefix, names) = assign_all(s.drop_last());
        let (i, names2) = assign_instruction(s.last(), names);
        (prefix.push(i), names2)
    }
}

// ---------------------------------------------------------------------------
// Phase C: fixups

pub open spec fn is_stack(o: Operand) -> bool {
    o is Stack
}

pub open spec fn both_stack(a: Operand, b: Operand) -> bool {
    is_stack(a) && is_stack(b)
}

pub open spec fn is_shift(op: BinaryOperator) -> bool {
    op == BinaryOperator::Sal || op == BinaryOperator::Sar
}

pub open spec fn fix_move_one(i: Instruction) -> Seq<Instruction> {
    match i {
        Instruction::Move { dst, src } if both_stack(dst, src) => seq![
            Instruction::Move { dst: reg(Reg::R10), src },
            Instruction::Move { dst, src: reg(Reg::R10) },
        ],
        _ => seq![i],
    }
}

pub open spec fn fix_compare_one(i: Instruction) -> Seq<Instruction> {
    match i {
        Instruction::Compare(dst, src) if both_stack(dst, src) => seq![
            Instruction::Move { dst: reg(Reg::R10), src },
            Instruction::Compare(dst, reg(Reg::R10)),
        ],
        _ => seq![i],
    }
}

pub open spec fn fix_binary_one(i: Instruction) -> Seq<Instruction> {
    match i {
        Instruction::Binary(op, dst, src) if op != BinaryOperator::Mul && !is_shift(op)
            && both_stack(dst, src) => seq![
            Instruction::Move { dst: reg(Reg::R10), src },
            Instruction::Binary(op, dst, reg(Reg::R10)),
        ],
        _ => seq![i],
    }
}

pub open spec fn fix_multiply_one(i: Instruction) -> Seq<Instruction> {
    match i {
        Instruction::Binary(BinaryOperator::Mul, dst, src) if is_stack(dst) => seq![
            Instruction::Move { dst: reg(Reg::R11), src: dst },
            Instruction::Binary(BinaryOperator::Mul, reg(Reg::R11), src),
            Instruction::Move { dst, src: reg(Reg::R11) },
        ],
        _ => seq![i],
    }
}

pub open spec fn fix_shift_one(i: Instruction) -> Seq<Instruction> {
    match i {
        Instruction::Binary(op, dst, src) if is_shift(op) && !(src is Immediate) => seq![
            Instruction::Move { dst: reg(Reg::CX), src },
            Instruction::Binary(op, dst, reg(Reg::CX)),
        ],
        _ => seq![i],
    }
}

pub open spec fn fix_division_one(i: Instruction) -> Seq<Instruction> {
    match i {
        Instruction::Division(Operand::Immediate(v)) => seq![
            Instruction::Move { dst: reg(Reg::R10), src: Operand::Immediate(v) },
            Instruction::Division(reg(Reg::R10)),
        ],
        _ => seq![i],
    }
}

pub open spec fn fix_move_fn() -> spec_fn(Instruction) -> Seq<Instruction> {
    |i: Instruction| fix_move_one(i)
}

pub open spec fn fix_compare_fn() -> spec_fn(Instruction) -> Seq<Instruction> {
    |i: Instruction| fix_compare_one(i)
}

pub open spec fn fix_binary_fn() -> spec_fn(Instruction) -> Seq<Instruction> {
    |i: Instruction| fix_binary_one(i)
}

pub open spec fn fix_multiply_fn() -> spec_fn(Instruction) -> Seq<Instruction> {
    |i: Instruction| fix_multiply_one(i)
}

pub open spec fn fix_shift_fn() -> spec_fn(Instruction) -> Seq<Instruction> {
    |i: Instruction| fix_shift_one(i)
}

pub open spec fn fix_division_fn() -> spec_fn(Instruction) -> Seq<Instruction> {
    |i: Instruction| fix_division_one(i)
}

/// All fixups, in order: memory-to-memory moves, compares and arithmetic,
/// multiplication into memory, shift counts, immediate divisors.
pub open spec fn legalize(s: Seq<Instruction>) -> Seq<Instruction> {
    let s1 = expand(s, fix_move_fn());
    let s2 = expand(s1, fix_compare_fn());
    let s3 = expand(s2, fix_binary_fn());
    let s4 = expand(s3, fix_multiply_fn());
    let s5 = expand(s4, fix_shift_fn());
    expand(s5, fix_division_fn())
}

/// `n` rounded up to a multiple of 16.
pub open spec fn align16(n: int) -> int {
    ((n + 15) / 16) * 16
}

/// The instructions of the generated function for a three-address body.
pub open spec fn function_instructions(body: Seq<ir::Instruction>) -> Seq<Instruction> {
    let (placed, names) = assign_all(expand(body, lower_fn()));
    seq![Instruction::AllocateStack(align16(4 * names.len() as int) as i32)] + legalize(placed)
}

// ---------------------------------------------------------------------------
// What holds of every generated instruction

pub open spec fn operand_placed(o: Operand) -> bool {
    !(o is Pseudo)
}

/// No operand of `i` is a pseudo.
pub open spec fn has_no_pseudo(i: Instruction) -> bool {
    match i {
        Instruction::Move { dst, src } => operand_placed(dst) && operand_placed(src),
        Instruction::Unary(_, o) => operand_placed(o),
        Instruction::Binary(_, a, b) => operand_placed(a) && operand_placed(b),
        Instruction::Compare(a, b) => operand_placed(a) && operand_placed(b),
        Instruction::SetCondition(_, o) => operand_placed(o),
        Instruction::Division(o) => operand_placed(o),
        _ => true,
    }
}

/// No `Move`, `Compare` or non-multiplying `Binary` with two memory operands.
pub open spec fn no_memory_pair(i: Instruction) -> bool {
    match i {
        Instruction::Move { dst, src } => !both_stack(dst, src),
        Instruction::Compare(a, b) => !both_stack(a, b),
        Instruction::Binary(op, a, b) => op != BinaryOperator::Mul ==> !both_stack(a, b),
        _ => true,
    }
}

/// A multiplication does not write memory.
pub open spec fn mul_into_register(i: Instruction) -> bool {
    match i {
        Instruction::Binary(BinaryOperator::Mul, dst, _) => !is_stack(dst),
        _ => true,
    }
}

/// A shift count is an immediate or CX.
pub open spec fn shift_count_legal(i: Instruction) -> bool {
    match i {
        Instruction::Binary(op, _, src) => is_shift(op) ==> (src is Immediate || src
            == reg(Reg::CX)),
        _ => true,
    }
}

/// A divisor is a register or a stack slot.
pub open spec fn divisor_legal(i: Instruction) -> bool {
    match i {
        Instruction::Division(o) => o is Register || o is Stack,
        _ => true,
    }
}

/// Every operand constraint that generated code meets.
pub open spec fn is_legal(i: Instruction) -> bool {
    &&& has_no_pseudo(i)
    &&& no_memory_pair(i)
    &&& mul_into_register(i)
    &&& shift_count_legal(i)
    &&& divisor_legal(i)
}

// ---------------------------------------------------------------------------
// Executable passes

fn copy_operand(o: &Operand) -> (r: Operand)
    ensures
        r == *o,
{
    match o {
        Operand::Immediate(v) => Operand::Immediate(*v),
        Operand::Register(r) => Operand::Register(*r),
        Operand::Pseudo(n) => Operand::Pseudo(n.clone()),
        Operand::Stack(s) => Operand::Stack(*s),
    }
}

fn copy_instruction(i: &Instruction) -> (r: Instruction)
    ensures
        r == *i,
{
    match i {
        Instruction::Move { dst, src } => Instruction::Move {
            dst: copy_operand(dst),
            src: copy_operand(src),
        },
        Instruction::Unary(op, o) => Instruction::Unary(*op, copy_operand(o)),
        Instruction::Binary(op, a, b) => Instruction::Binary(*op, copy_operand(a), copy_operand(b)),
        Instruction::Compare(a, b) => Instruction::Compare(copy_operand(a), copy_operand(b)),
        Instruction::Jump(l) => Instruction::Jump(l.clone()),
        Instruction::JumpCondition(c, l) => Instruction::JumpCondition(*c, l.clone()),
        Instruction::SetCondition(c, o) => Instruction::SetCondition(*c, copy_operand(o)),
        Instruction::Label(l) => Instruction::Label(l.clone()),
        Instruction::Division(o) => Instruction::Division(copy_operand(o)),
        Instruction::ConvertDQ => Instruction::ConvertDQ,
        Instruction::AllocateStack(n) => Instruction::AllocateStack(*n),
        Instruction::Return => Instruction::Return,
    }
}

/// Lowers a three-address program to legal assembly: every pseudo operand
/// gets a stack slot, the frame is allocated first, and every instruction
/// meets x86-64's operand constraints.
pub fn generate(ir_program: ir::Program) -> (r: Program)
    requires
        ir_program.function.body@.len() <= MAX_BODY,
    ensures
        r.function.name == ir_program.function.name,
        r.function.instructions@ == function_instructions(ir_program.function.body@),
        r.function.instructions@.len() > 0,
        r.function.instructions@[0] matches Instruction::AllocateStack(n) && n >= 0 && n % 16 == 0,
        forall|k: int|
            0 <= k < r.function.instructions@.len() ==> is_legal(
                #[trigger] r.function.instructions@[k],
            ),
{
    let function = generate_function(ir_program.function);
    Program { function }
}

fn generate_function(ir_func: ir::Function) -> (r: Function)
    requires
        ir_func.body@.len() <= MAX_BODY,
    ensures
        r.name == ir_func.name,
        r.instructions@ == function_instructions(ir_func.body@),
        r.instructions@.len() > 0,
        r.instructions@[0] matches Instruction::AllocateStack(n) && n >= 0 && n % 16 == 0,
        forall|k: int| 0 <= k < r.instructions@.len() ==> is_legal(#[trigger] r.instructions@[k]),
{
    let name = ir_func.name;
    let ghost body = ir_func.body@;
    let lowered = generate_instruction(ir_func.body);
    proof {
        lemma_lower_len(body);
    }

    // Phase B: a stack slot for every pseudo operand.
    let mut names: Vec<String> = Vec::new();
    let mut next_stack: i32 = 4;
    let mut placed: Vec<Instruction> = Vec::new();
    let mut k: usize = 0;
    while k < lowered.len()
        invariant
            0 <= k <= lowered@.len(),
            lowered@.len() <= 4 * MAX_BODY,
            (placed@, names_model(names@)) == assign_all(lowered@.take(k as int)),
            names_model(names@).no_duplicates(),
            next_stack == 4 * names@.len() + 4,
            names@.len() <= 2 * k,
        decreases lowered@.len() - k,
    {
        let ghost before = lowered@.take(k as int);
        let inst = fix_instruction(&lowered[k], &mut names, &mut next_stack);
        placed.push(inst);
        proof {
            assert(lowered@.take(k + 1).drop_last() =~= before);
        }
        k += 1;
    }
    assert(lowered@.take(lowered@.len() as int) =~= lowered@);
    proof {
        lemma_assign_all_placed(lowered@);
    }

    // Phase C: fixups.
    let ghost s0 = placed@;
    let fixed = fix_moves(placed);
    let fixed = fix_compares(fixed);
    let fixed = fix_binary(fixed);
    let fixed = fix_multiply(fixed);
    let fixed = fix_shifts(fixed);
    let fixed = fix_div_imm(fixed);
    proof {
        lemma_legalize_legal(s0);
    }

    let stack_size: i32 = next_stack - 4;
    let aligned: i32 = (stack_size + 15) / 16 * 16;
    let mut instructions: Vec<Instruction> = Vec::new();
    instructions.push(Instruction::AllocateStack(aligned));
    let mut rest = fixed;
    instructions.append(&mut rest);
    proof {
        let all = instructions@;
        assert(all =~= function_instructions(body));
        assert forall|k: int| 0 <= k < all.len() implies is_legal(#[trigger] all[k]) by {
            if k > 0 {
                assert(all[k] == legalize(s0)[k - 1]);
            }
        }
    }
    Function { name, instructions }
}

proof fn lemma_lower_len(body: Seq<ir::Instruction>)
    requires
        body.len() <= MAX_BODY,
    ensures
        expand(body, lower_fn()).len() <= 4 * MAX_BODY,
{
    assert forall|x: ir::Instruction| (#[trigger] lower_fn()(x)).len() <= 4 by {
        reveal_with_fuel(lower_instruction, 1);
    }
    lemma_expand_len(body, lower_fn());
}

proof fn lemma_assign_all_placed(s: Seq<Instruction>)
    ensures
        all_satisfy(assign_all(s).0, |i: Instruction| has_no_pseudo(i)),
    decreases s.len(),
{
    if s.len() > 0 {
        lemma_assign_all_placed(s.drop_last());
        let (prefix, names) = assign_all(s.drop_last());
        let (i, _) = assign_instruction(s.last(), names);
        assert(has_no_pseudo(i));
        let out = prefix.push(i);
        assert forall|k: int| 0 <= k < out.len() implies has_no_pseudo(#[trigger] out[k]) by {
            if k < prefix.len() {
                assert(out[k] == prefix[k]);
            }
        }
    }
}

pub open spec fn after_moves(i: Instruction) -> bool {
    has_no_pseudo(i) && (i is Move ==> no_memory_pair(i))
}

pub open spec fn after_compares(i: Instruction) -> bool {
    after_moves(i) && (i is Compare ==> no_memory_pair(i))
}

pub open spec fn after_binary(i: Instruction) -> bool {
    after_compares(i) && (i matches Instruction::Binary(op, _, _) && op != BinaryOperator::Mul
        && !is_shift(op) ==> no_memory_pair(i))
}

pub open spec fn after_multiply(i: Instruction) -> bool {
    after_binary(i) && mul_into_register(i)
}

pub open spec fn after_shifts(i: Instruction) -> bool {
    after_multiply(i) && shift_count_legal(i) && no_memory_pair(i)
}

proof fn lemma_legalize_legal(s: Seq<Instruction>)
    requires
        all_satisfy(s, |i: Instruction| has_no_pseudo(i)),
    ensures
        all_satisfy(legalize(s), |i: Instruction| is_legal(i)),
{
    let s1 = expand(s, fix_move_fn());
    let s2 = expand(s1, fix_compare_fn());
    let s3 = expand(s2, fix_binary_fn());
    let s4 = expand(s3, fix_multiply_fn());
    let s5 = expand(s4, fix_shift_fn());
    lemma_expand_keeps(
        s,
        fix_move_fn(),
        |i: Instruction| has_no_pseudo(i),
        |i: Instruction| after_moves(i),
    );
    lemma_expand_keeps(
        s1,
        fix_compare_fn(),
        |i: Instruction| after_moves(i),
        |i: Instruction| after_compares(i),
    );
    lemma_expand_keeps(
        s2,
        fix_binary_fn(),
        |i: Instruction| after_compares(i),
        |i: Instruction| after_binary(i),
    );
    lemma_expand_keeps(
        s3,
        fix_multiply_fn(),
        |i: Instruction| after_binary(i),
        |i: Instruction| after_multiply(i),
    );
    lemma_expand_keeps(
        s4,
        fix_shift_fn(),
        |i: Instruction| after_multiply(i),
        |i: Instruction| after_shifts(i),
    );
    lemma_expand_keeps(
        s5,
        fix_division_fn(),
        |i: Instruction| after_shifts(i),
        |i: Instruction| is_legal(i),
    );
}

/// The stack slot of a pseudo operand; other operands are kept.
fn fix_operand(op: &Operand, names: &mut Vec<String>, next_stack: &mut i32) -> (r: Operand)
    requires
        names_model(old(names)@).no_duplicates(),
        *old(next_stack) == 4 * old(names)@.len() + 4,
        old(names)@.len() < 500_000_000,
    ensures
        (r, names_model(final(names)@)) == assign_operand(*op, names_model(old(names)@)),
        names_model(final(names)@).no_duplicates(),
        *final(next_stack) == 4 * final(names)@.len() + 4,
        final(names)@.len() <= old(names)@.len() + 1,
{
    let ghost model = names_model(names@);
    match op {
        Operand::Pseudo(name) => match find_name(names, name) {
            Some(j) => Operand::Stack(4 * (j as i32 + 1)),
            None => {
                let offset = *next_stack;
                names.push(name.clone());
                *next_stack = *next_stack + 4;
                proof {
                    assert(names_model(names@) =~= model.push(name@));
                }
                Operand::Stack(offset)
            },
        },
        _ => copy_operand(op),
    }
}

/// The position of `name` in `names`, whose entries are distinct.
fn find_name(names: &Vec<String>, name: &String) -> (r: Option<usize>)
    requires
        names_model(names@).no_duplicates(),
    ensures
        r matches Some(j) ==> j < names@.len() && names_model(names@).contains(name@)
            && names_model(names@).index_of(name@) == j,
        r is None ==> !names_model(names@).contains(name@),
{
    let ghost model = names_model(names@);
    let mut j: usize = 0;
    while j < names.len()
        invariant
            0 <= j <= names@.len(),
            model == names_model(names@),
            model.no_duplicates(),
            forall|t: int| 0 <= t < j ==> model[t] != name@,
        decreases names@.len() - j,
    {
        if names[j] == *name {
            proof {
                assert(model[j as int] == name@);
                assert(model.contains(name@));
                let c = model.index_of(name@);
                assert(model[c] == name@);
                assert(c == j);
            }
            return Some(j);
        }
        j += 1;
    }
    None
}

/// Replaces the pseudo operands of one instruction by stack slots.
fn fix_instruction(inst: &Instruction, names: &mut Vec<String>, next_stack: &mut i32) -> (r:
    Instruction)
    requires
        names_model(old(names)@).no_duplicates(),
        *old(next_stack) == 4 * old(names)@.len() + 4,
        old(names)@.len() < 499_999_999,
    ensures
        (r, names_model(final(names)@)) == assign_instruction(*inst, names_model(old(names)@)),
        names_model(final(names)@).no_duplicates(),
        *final(next_stack) == 4 * final(names)@.len() + 4,
        final(names)@.len() <= old(names)@.len() + 2,
{
    match inst {
        Instruction::Move { dst, src } => {
            let d = fix_operand(dst, names, next_stack);
            let s = fix_operand(src, names, next_stack);
            Instruction::Move { dst: d, src: s }
        },
        Instruction::Unary(op, o) => {
            let a = fix_operand(o, names, next_stack);
            Instruction::Unary(*op, a)
        },
        Instruction::Binary(op, x, y) => {
            let a = fix_operand(x, names, next_stack);
            let b = fix_operand(y, names, next_stack);
            Instruction::Binary(*op, a, b)
        },
        Instruction::Division(o) => {
            let a = fix_operand(o, names, next_stack);
            Instruction::Division(a)
        },
        Instruction::Compare(x, y) => {
            let a = fix_operand(x, names, next_stack);
            let b = fix_operand(y, names, next_stack);
            Instruction::Compare(a, b)
        },
        Instruction::SetCondition(c, o) => {
            let a = fix_operand(o, names, next_stack);
            Instruction::SetCondition(*c, a)
        },
        _ => copy_instruction(inst),
    }
}

fn is_stack_to_stack(dst: &Operand, src: &Operand) -> (r: bool)
    ensures
        r == both_stack(*dst, *src),
{
    matches!(dst, Operand::Stack(_)) && matches!(src, Operand::Stack(_))
}

/// Splits a move between two stack slots into two moves through R10.
fn fix_moves(instructions: Vec<Instruction>) -> (r: Vec<Instruction>)
    ensures
        r@ == expand(instructions@, fix_move_fn()),
{
    let mut out: Vec<Instruction> = Vec::new();
    let mut k: usize = 0;
    while k < instructions.len()
        invariant
            0 <= k <= instructions@.len(),
            out@ == expand(instructions@.take(k as int), fix_move_fn()),
        decreases instructions@.len() - k,
    {
        let ghost before = out@;
        let inst = &instructions[k];
        match inst {
            Instruction::Move { dst, src } => {
                if is_stack_to_stack(dst, src) {
                    out.push(
                        Instruction::Move { dst: Operand::Register(Reg::R10), src: copy_operand(src) },
                    );
                    out.push(
                        Instruction::Move { dst: copy_operand(dst), src: Operand::Register(Reg::R10) },
                    );
                } else {
                    out.push(copy_instruction(inst));
                }
            },
            _ => out.push(copy_instruction(inst)),
        }
        proof {
            assert(out@ =~= before + fix_move_fn()(instructions@[k as int]));
            lemma_expand_step(instructions@, k as int, fix_move_fn());
        }
        k += 1;
    }
    proof {
        lemma_expand_whole(instructions@, fix_move_fn());
    }
    out
}

/// Stages the source of a compare between two stack slots through R10.
fn fix_compares(instructions: Vec<Instruction>) -> (r: Vec<Instruction>)
    ensures
        r@ == expand(instructions@, fix_compare_fn()),
{
    let mut out: Vec<Instruction> = Vec::new();
    let mut k: usize = 0;
    while k < instructions.len()
        invariant
            0 <= k <= instructions@.len(),
            out@ == expand(instructions@.take(k as int), fix_compare_fn()),
        decreases instructions@.len() - k,
    {
        let ghost before = out@;
        let inst = &instructions[k];
        match inst {
            Instruction::Compare(dst, src) => {
                if is_stack_to_stack(dst, src) {
                    out.push(
                        Instruction::Move { dst: Operand::Register(Reg::R10), src: copy_operand(src) },
                    );
                    out.push(Instruction::Compare(copy_operand(dst), Operand::Register(Reg::R10)));
                } else {
                    out.push(copy_instruction(inst));
                }
            },
            _ => out.push(copy_instruction(inst)),
        }
        proof {
            assert(out@ =~= before + fix_compare_fn()(instructions@[k as int]));
            lemma_expand_step(instructions@, k as int, fix_compare_fn());
        }
        k += 1;
    }
    proof {
        lemma_expand_whole(instructions@, fix_compare_fn());
    }
    out
}

/// Stages the source of arithmetic between two stack slots through R10;
/// multiplication and shifts have fixups of their own.
fn fix_binary(instructions: Vec<Instruction>) -> (r: Vec<Instruction>)
    ensures
        r@ == expand(instructions@, fix_binary_fn()),
{
    let mut out: Vec<Instruction> = Vec::new();
    let mut k: usize = 0;
    while k < instructions.len()
        invariant
            0 <= k <= instructions@.len(),
            out@ == expand(instructions@.take(k as int), fix_binary_fn()),
        decreases instructions@.len() - k,
    {
        let ghost before = out@;
        let inst = &instructions[k];
        match inst {
            Instruction::Binary(op, dst, src) => {
                let arithmetic = match op {
                    BinaryOperator::Mul | BinaryOperator::Sal | BinaryOperator::Sar => false,
                    _ => true,
                };
                if arithmetic && is_stack_to_stack(dst, src) {
                    out.push(
                        Instruction::Move { dst: Operand::Register(Reg::R10), src: copy_operand(src) },
                    );
                    out.push(
                        Instruction::Binary(*op, copy_operand(dst), Operand::Register(Reg::R10)),
                    );
                } else {
                    out.push(copy_instruction(inst));
                }
            },
            _ => out.push(copy_instruction(inst)),
        }
        proof {
            assert(out@ =~= before + fix_binary_fn()(instructions@[k as int]));
            lemma_expand_step(instructions@, k as int, fix_binary_fn());
        }
        k += 1;
    }
    proof {
        lemma_expand_whole(instructions@, fix_binary_fn());
    }
    out
}

/// Computes a multiplication into memory in R11 and stores it back.
fn fix_multiply(instructions: Vec<Instruction>) -> (r: Vec<Instruction>)
    ensures
        r@ == expand(instructions@, fix_multiply_fn()),
{
    let mut out: Vec<Instruction> = Vec::new();
    let mut k: usize = 0;
    while k < instructions.len()
        invariant
            0 <= k <= instructions@.len(),
            out@ == expand(instructions@.take(k as int), fix_multiply_fn()),
        decreases instructions@.len() - k,
    {
        let ghost before = out@;
        let inst = &instructions[k];
        match inst {
            Instruction::Binary(BinaryOperator::Mul, dst, src) => {
                if matches!(dst, Operand::Stack(_)) {
                    // mov r11, dst; imul r11, src; mov dst, r11
                    out.push(
                        Instruction::Move { dst: Operand::Register(Reg::R11), src: copy_operand(dst) },
                    );
                    out.push(
                        Instruction::Binary(
                            BinaryOperator::Mul,
                            Operand::Register(Reg::R11),
                            copy_operand(src),
                        ),
                    );
                    out.push(
                        Instruction::Move { dst: copy_operand(dst), src: Operand::Register(Reg::R11) },
                    );
                } else {
                    out.push(copy_instruction(inst));
                }
            },
            _ => out.push(copy_instruction(inst)),
        }
        proof {
            assert(out@ =~= before + fix_multiply_fn()(instructions@[k as int]));
            lemma_expand_step(instructions@, k as int, fix_multiply_fn());
        }
        k += 1;
    }
    proof {
        lemma_expand_whole(instructions@, fix_multiply_fn());
    }
    out
}

/// Moves a shift count that is not an immediate into CX.
fn fix_shifts(instructions: Vec<Instruction>) -> (r: Vec<Instruction>)
    ensures
        r@ == expand(instructions@, fix_shift_fn()),
{
    let mut out: Vec<Instruction> = Vec::new();
    let mut k: usize = 0;
    while k < instructions.len()
        invariant
            0 <= k <= instructions@.len(),
            out@ == expand(instructions@.take(k as int), fix_shift_fn()),
        decreases instructions@.len() - k,
    {
        let ghost before = out@;
        let inst = &instructions[k];
        match inst {
            Instruction::Binary(op, dst, src) => {
                let shift = matches!(op, BinaryOperator::Sal | BinaryOperator::Sar);
                if shift && !matches!(src, Operand::Immediate(_)) {
                    // mov ecx, count; sal/sar dst, cl
                    out.push(
                        Instruction::Move { dst: Operand::Register(Reg::CX), src: copy_operand(src) },
                    );
                    out.push(
                        Instruction::Binary(*op, copy_operand(dst), Operand::Register(Reg::CX)),
                    );
                } else {
                    out.push(copy_instruction(inst));
                }
            },
            _ => out.push(copy_instruction(inst)),
        }
        proof {
            assert(out@ =~= before + fix_shift_fn()(instructions@[k as int]));
            lemma_expand_step(instructions@, k as int, fix_shift_fn());
        }
        k += 1;
    }
    proof {
        lemma_expand_whole(instructions@, fix_shift_fn());
    }
    out
}

/// Loads an immediate divisor into R10.
fn fix_div_imm(instructions: Vec<Instruction>) -> (r: Vec<Instruction>)
    ensures
        r@ == expand(instructions@, fix_division_fn()),
{
    let mut out: Vec<Instruction> = Vec::new();
    let mut k: usize = 0;
    while k < instructions.len()
        invariant
            0 <= k <= instructions@.len(),
            out@ == expand(instructions@.take(k as int), fix_division_fn()),
        decreases instructions@.len() - k,
    {
        let ghost before = out@;
        let inst = &instructions[k];
        match inst {
            Instruction::Division(Operand::Immediate(v)) => {
                out.push(
                    Instruction::Move { dst: Operand::Register(Reg::R10), src: Operand::Immediate(*v) },
                );
                out.push(Instruction::Division(Operand::Register(Reg::R10)));
            },
            _ => out.push(copy_instruction(inst)),
        }
        proof {
            assert(out@ =~= before + fix_division_fn()(instructions@[k as int]));
            lemma_expand_step(instructions@, k as int, fix_division_fn());
        }
        k += 1;
    }
    proof {
        lemma_expand_whole(instructions@, fix_division_fn());
    }
    out
}

fn map_src_operand(src: &ir::Value) -> (r: Operand)
    ensures
        r == operand_of(*src),
{
    match src {
        ir::Value::Constant(val) => Operand::Immediate(*val),
        ir::Value::Variable(var) => Operand::Pseudo(var.clone()),
    }
}

fn map_unary(op: &ir::UnaryOperator) -> (r: UnaryOperator)
    requires
        *op != ir::UnaryOperator::Not,
    ensures
        r == unary_of(*op),
{
    match op {
        ir::UnaryOperator::Complement => UnaryOperator::Not,
        _ => UnaryOperator::Neg,
    }
}

fn map_binary(op: &ir::BinaryOperator) -> (r: BinaryOperator)
    requires
        !is_division(*op),
        !is_relational(*op),
    ensures
        r == binary_of(*op),
{
    match op {
        ir::BinaryOperator::Subtract => BinaryOperator::Sub,
        ir::BinaryOperator::Multiply => BinaryOperator::Mul,
        ir::BinaryOperator::BitwiseAnd => BinaryOperator::And,
        ir::BinaryOperator::BitwiseOr => BinaryOperator::Or,
        ir::BinaryOperator::BitwiseXor => BinaryOperator::Xor,
        ir::BinaryOperator::LeftShift => BinaryOperator::Sal,
        ir::BinaryOperator::RightShift => BinaryOperator::Sar,
        _ => BinaryOperator::Add,
    }
}

fn map_binary_relational(op: &ir::BinaryOperator) -> (r: Condition)
    requires
        is_relational(*op),
    ensures
        r == condition_of(*op),
{
    match op {
        ir::BinaryOperator::NotEqual => Condition::NotEqual,
        ir::BinaryOperator::GreaterThan => Condition::Greater,
        ir::BinaryOperator::GreaterOrEqual => Condition::GreaterEqual,
        ir::BinaryOperator::LessThan => Condition::Less,
        ir::BinaryOperator::LessOrEqual => Condition::LessEqual,
        _ => Condition::Equal,
    }
}

/// Phase A: translates each three-address instruction on its own, with
/// pseudo operands for named values.
fn generate_instruction(instructions: Vec<ir::Instruction>) -> (out: Vec<Instruction>)
    ensures
        out@ == expand(instructions@, lower_fn()),
{
    let mut out: Vec<Instruction> = Vec::new();
    let mut k: usize = 0;
    while k < instructions.len()
        invariant
            0 <= k <= instructions@.len(),
            out@ == expand(instructions@.take(k as int), lower_fn()),
        decreases instructions@.len() - k,
    {
        let ghost before = out@;
        let inst = &instructions[k];
        match inst {
            ir::Instruction::Return(value) => {
                out.push(
                    Instruction::Move { dst: Operand::Register(Reg::AX), src: map_src_operand(value) },
                );
                out.push(Instruction::Return);
            },
            ir::Instruction::Unary { op, src, dst } => match op {
                ir::UnaryOperator::Not => {
                    out.push(
                        Instruction::Move {
                            dst: Operand::Register(Reg::R11),
                            src: Operand::Immediate(0),
                        },
                    );
                    out.push(Instruction::Compare(Operand::Register(Reg::R11), map_src_operand(src)));
                    out.push(
                        Instruction::Move { dst: Operand::Pseudo(dst.clone()), src: Operand::Immediate(0) },
                    );
                    out.push(Instruction::SetCondition(Condition::Equal, Operand::Pseudo(dst.clone())));
                },
                _ => {
                    out.push(
                        Instruction::Move { dst: Operand::Pseudo(dst.clone()), src: map_src_operand(src) },
                    );
                    out.push(Instruction::Unary(map_unary(op), Operand::Pseudo(dst.clone())));
                },
            },
            ir::Instruction::Binary { op, src1, src2, dst } => match op {
                ir::BinaryOperator::Divide | ir::BinaryOperator::Modulo => {
                    out.push(
                        Instruction::Move { dst: Operand::Register(Reg::AX), src: map_src_operand(src1) },
                    );
                    out.push(Instruction::ConvertDQ);
                    out.push(Instruction::Division(map_src_operand(src2)));
                    let result_reg = if matches!(op, ir::BinaryOperator::Divide) {
                        Reg::AX
                    } else {
                        Reg::DX
                    };
                    out.push(
                        Instruction::Move {
                            dst: Operand::Pseudo(dst.clone()),
                            src: Operand::Register(result_reg),
                        },
                    );
                },
                ir::BinaryOperator::Equal
                | ir::BinaryOperator::NotEqual
                | ir::BinaryOperator::GreaterThan
                | ir::BinaryOperator::GreaterOrEqual
                | ir::BinaryOperator::LessThan
                | ir::BinaryOperator::LessOrEqual => {
                    match src1 {
                        ir::Value::Constant(val) => {
                            out.push(
                                Instruction::Move {
                                    dst: Operand::Register(Reg::R11),
                                    src: Operand::Immediate(*val),
                                },
                            );
                            out.push(
                                Instruction::Compare(
                                    Operand::Register(Reg::R11),
                                    map_src_operand(src2),
                                ),
                            );
                        },
                        ir::Value::Variable(_) => {
                            out.push(
                                Instruction::Compare(map_src_operand(src1), map_src_operand(src2)),
                            );
                        },
                    }
                    out.push(
                        Instruction::Move { dst: Operand::Pseudo(dst.clone()), src: Operand::Immediate(0) },
                    );
                    out.push(
                        Instruction::SetCondition(
                            map_binary_relational(op),
                            Operand::Pseudo(dst.clone()),
                        ),
                    );
                },
                _ => {
                    out.push(
                        Instruction::Move { dst: Operand::Pseudo(dst.clone()), src: map_src_operand(src1) },
                    );
                    out.push(
                        Instruction::Binary(
                            map_binary(op),
                            Operand::Pseudo(dst.clone()),
                            map_src_operand(src2),
                        ),
                    );
                },
            },
            ir::Instruction::JumpIfZero { condition, target } => {
                out.push(
                    Instruction::Move { dst: Operand::Register(Reg::R11), src: Operand::Immediate(0) },
                );
                out.push(Instruction::Compare(Operand::Register(Reg::R11), map_src_operand(condition)));
                out.push(Instruction::JumpCondition(Condition::Equal, target.clone()));
            },
            ir::Instruction::JumpIfNotZero { condition, target } => {
                out.push(
                    Instruction::Move { dst: Operand::Register(Reg::R11), src: Operand::Immediate(0) },
                );
                out.push(Instruction::Compare(Operand::Register(Reg::R11), map_src_operand(condition)));
                out.push(Instruction::JumpCondition(Condition::NotEqual, target.clone()));
            },
            ir::Instruction::Copy { src, dst } => {
                out.push(
                    Instruction::Move { dst: Operand::Pseudo(dst.clone()), src: map_src_operand(src) },
                );
            },
            ir::Instruction::Label(ident) => out.push(Instruction::Label(ident.clone())),
            ir::Instruction::Jump { target } => out.push(Instruction::Jump(target.clone())),
        }
        proof {
            assert(out@ =~= before + lower_fn()(instructions@[k as int]));
            lemma_expand_step(instructions@, k as int, lower_fn());
        }
        k += 1;
    }
    proof {
        lemma_expand_whole(instructions@, lower_fn());
    }
    out
}

} // verus!
