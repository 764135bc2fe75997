//! Lowering of the resolved syntax tree to three-address code, with
//! short-circuit `&&` and `||` turned into labelled jumps.
use crate::ast;
use crate::ast::{block_size, body_size, expr_size};
use crate::ir;
use crate::ir::{instructions_model, InstructionModel, ValueModel};
use crate::text::{numbered, numbered_name};
use vstd::prelude::*;

verus! {

/// The largest number of expression nodes a function may have, so that the
/// counters for temporaries and labels stay within 32 bits.
pub const MAX_NODES: u32 = 1_000_000_000;

/// The `k`-th temporary, `tmp.k`.
pub open spec fn temporary(k: nat) -> Seq<char> {
    numbered("tmp"@, k)
}

/// Every assignment of `e` assigns to a variable.
pub open spec fn assigns_variables(e: ast::Expr) -> bool
    decreases e,
{
    match e {
        ast::Expr::Constant(_) => true,
        ast::Expr::Variable(_) => true,
        ast::Expr::Unary(_, inner) => assigns_variables(*inner),
        ast::Expr::Binary(_, l, r) => assigns_variables(*l) && assigns_variables(*r),
        ast::Expr::Assignment(l, r) => (*l is Variable) && assigns_variables(*r),
    }
}

pub open spec fn block_assigns_variables(b: ast::Block) -> bool {
    match b {
        ast::Block::State(ast::Statement::Return(e)) => assigns_variables(e),
        ast::Block::State(ast::Statement::Expression(e)) => assigns_variables(e),
        ast::Block::State(ast::Statement::Null) => true,
        ast::Block::Declare(d) => match d.init {
            Some(e) => assigns_variables(e),
            None => true,
        },
    }
}

/// A function body that can be lowered: every assignment targets a
/// variable (as after resolution), and it is small enough for the counters.
pub open spec fn lowerable(body: Seq<ast::Block>) -> bool {
    &&& forall|k: int| 0 <= k < body.len() ==> block_assigns_variables(#[trigger] body[k])
    &&& body_size(body) <= MAX_NODES
}

pub open spec fn unary_op(op: ast::UnaryOperator) -> ir::UnaryOperator {
    match op {
        ast::UnaryOperator::Complement => ir::UnaryOperator::Complement,
        ast::UnaryOperator::Negate => ir::UnaryOperator::Negate,
        ast::UnaryOperator::LogicalNot => ir::UnaryOperator::Not,
    }
}

pub open spec fn binary_op(op: ast::BinaryOperator) -> ir::BinaryOperator {
    match op {
        ast::BinaryOperator::Add => ir::BinaryOperator::Add,
        ast::BinaryOperator::Subtract => ir::BinaryOperator::Subtract,
        ast::BinaryOperator::Multiply => ir::BinaryOperator::Multiply,
        ast::BinaryOperator::Divide => ir::BinaryOperator::Divide,
        ast::BinaryOperator::Modulo => ir::BinaryOperator::Modulo,
        ast::BinaryOperator::BitwiseAnd => ir::BinaryOperator::BitwiseAnd,
        ast::BinaryOperator::BitwiseOr => ir::BinaryOperator::BitwiseOr,
        ast::BinaryOperator::BitwiseXor => ir::BinaryOperator::BitwiseXor,
        ast::BinaryOperator::LeftShift => ir::BinaryOperator::LeftShift,
        ast::BinaryOperator::RightShift => ir::BinaryOperator::RightShift,
        ast::BinaryOperator::Equal => ir::BinaryOperator::Equal,
        ast::BinaryOperator::NotEqual => ir::BinaryOperator::NotEqual,
        ast::BinaryOperator::LessThan => ir::BinaryOperator::LessThan,
        ast::BinaryOperator::LessOrEqual => ir::BinaryOperator::LessOrEqual,
        ast::BinaryOperator::GreaterThan => ir::BinaryOperator::GreaterThan,
        ast::BinaryOperator::GreaterOrEqual => ir::BinaryOperator::GreaterOrEqual,
        _ => ir::BinaryOperator::Add,
    }
}

/// The code for an expression, the value that holds its result, and the
/// counters for temporaries and labels after it.
pub ghost struct Lowered {
    pub code: Seq<InstructionModel>,
    pub value: ValueModel,
    pub vars: nat,
    pub labels: nat,
}

/// The code for `l && r` (`is_and`) or `l || r`: `l`, a conditional jump
/// past `r` to `early`, `r` normalised to 0 or 1, and the early result
/// (0 for `&&`, 1 for `||`).
pub open spec fn short_circuit(
    is_and: bool,
    left: Lowered,
    right: Lowered,
    result: Seq<char>,
    early: Seq<char>,
    end: Seq<char>,
) -> Seq<InstructionModel> {
    let right_bool = temporary(right.vars);
    let jump = if is_and {
        InstructionModel::JumpIfZero { condition: left.value, target: early }
    } else {
        InstructionModel::JumpIfNotZero { condition: left.value, target: early }
    };
    left.code.push(jump) + right.code + seq![
        InstructionModel::Binary {
            op: ir::BinaryOperator::NotEqual,
            dst: right_bool,
            src1: right.value,
            src2: ValueModel::Constant(0),
        },
        InstructionModel::Copy { src: ValueModel::Variable(right_bool), dst: result },
        InstructionModel::Jump { target: end },
        InstructionModel::Label(early),
        InstructionModel::Copy { src: ValueModel::Constant(if is_and { 0 } else { 1 }), dst: result },
        InstructionModel::Label(end),
    ]
}

/// The lowering of `e`, with temporaries numbered from `vars` and labels
/// from `labels`. Operands are evaluated left before right.
pub open spec fn lower_expr(e: ast::Expr, vars: nat, labels: nat) -> Lowered
    decreases e,
{
    match e {
        ast::Expr::Constant(k) => Lowered {
            code: Seq::empty(),
            value: ValueModel::Constant(k),
            vars,
            labels,
        },
        ast::Expr::Variable(n) => Lowered {
            code: Seq::empty(),
            value: ValueModel::Variable(n@),
            vars,
            labels,
        },
        ast::Expr::Unary(op, inner) => {
            let x = lower_expr(*inner, vars, labels);
            let dst = temporary(x.vars);
            Lowered {
                code: x.code.push(InstructionModel::Unary { op: unary_op(op), dst, src: x.value }),
                value: ValueModel::Variable(dst),
                vars: x.vars + 1,
                labels: x.labels,
            }
        },
        ast::Expr::Binary(op, l, r) => {
            if op == ast::BinaryOperator::LogicalAnd || op == ast::BinaryOperator::LogicalOr {
                let is_and = op == ast::BinaryOperator::LogicalAnd;
                let result = temporary(vars);
                let early = numbered(if is_and { "and_false"@ } else { "or_true"@ }, labels);
                let end = numbered(if is_and { "and_end"@ } else { "or_end"@ }, labels + 1);
                let left = lower_expr(*l, vars + 1, labels + 2);
                let right = lower_expr(*r, left.vars, left.labels);
                Lowered {
                    code: short_circuit(is_and, left, right, result, early, end),
                    value: ValueModel::Variable(result),
                    vars: right.vars + 1,
                    labels: right.labels,
                }
            } else {
                let left = lower_expr(*l, vars, labels);
                let right = lower_expr(*r, left.vars, left.labels);
                let dst = temporary(right.vars);
                Lowered {
                    code: left.code + right.code.push(
                        InstructionModel::Binary {
                            op: binary_op(op),
                            dst,
                            src1: left.value,
                            src2: right.value,
                        },
                    ),
                    value: ValueModel::Variable(dst),
                    vars: right.vars + 1,
                    labels: right.labels,
                }
            }
        },
        ast::Expr::Assignment(target, value) => {
            let x = lower_expr(*value, vars, labels);
            let name = match *target {
                ast::Expr::Variable(n) => n@,
                _ => Seq::empty(),
            };
            Lowered {
                code: x.code.push(InstructionModel::Copy { src: x.value, dst: name }),
                value: ValueModel::Variable(name),
                vars: x.vars,
                labels: x.labels,
            }
        },
    }
}

/// Lowering never uses more than two temporaries and two labels per node.
pub proof fn lemma_lower_expr_counts(e: ast::Expr, vars: nat, labels: nat)
    ensures
        vars <= lower_expr(e, vars, labels).vars <= vars + 2 * expr_size(e),
        labels <= lower_expr(e, vars, labels).labels <= labels + 2 * expr_size(e),
    decreases e,
{
    match e {
        ast::Expr::Unary(_, inner) => lemma_lower_expr_counts(*inner, vars, labels),
        ast::Expr::Binary(op, l, r) => {
            if op == ast::BinaryOperator::LogicalAnd || op == ast::BinaryOperator::LogicalOr {
                lemma_lower_expr_counts(*l, vars + 1, labels + 2);
                let left = lower_expr(*l, vars + 1, labels + 2);
                lemma_lower_expr_counts(*r, left.vars, left.labels);
            } else {
                lemma_lower_expr_counts(*l, vars, labels);
                let left = lower_expr(*l, vars, labels);
                lemma_lower_expr_counts(*r, left.vars, left.labels);
            }
        },
        ast::Expr::Assignment(_, value) => lemma_lower_expr_counts(*value, vars, labels),
        _ => {},
    }
}

/// The code for one block item, and the counters after it.
pub open spec fn lower_block(b: ast::Block, vars: nat, labels: nat) -> (
    Seq<InstructionModel>,
    nat,
    nat,
) {
    match b {
        ast::Block::Declare(d) => match d.init {
            Some(e) => {
                let x = lower_expr(e, vars, labels);
                (x.code.push(InstructionModel::Copy { src: x.value, dst: d.name@ }), x.vars, x.labels)
            },
            None => (Seq::empty(), vars, labels),
        },
        ast::Block::State(ast::Statement::Return(e)) => {
            let x = lower_expr(e, vars, labels);
            (x.code.push(InstructionModel::Return(x.value)), x.vars, x.labels)
        },
        ast::Block::State(ast::Statement::Expression(e)) => {
            let x = lower_expr(e, vars, labels);
            (x.code, x.vars, x.labels)
        },
        ast::Block::State(ast::Statement::Null) => (Seq::empty(), vars, labels),
    }
}

/// The code for a sequence of block items, with counters from 0.
pub open spec fn lower_body(body: Seq<ast::Block>) -> (Seq<InstructionModel>, nat, nat)
    decreases body.len(),
{
    if body.len() == 0 {
        (Seq::empty(), 0, 0)
    } else {
        let (code, vars, labels) = lower_body(body.drop_last());
        let (more, vars2, labels2) = lower_block(body.last(), vars, labels);
        (code + more, vars2, labels2)
    }
}

/// The code of a function: its body, then `return 0` unless the body
/// already ends in a return.
pub open spec fn function_code(body: Seq<ast::Block>) -> Seq<InstructionModel> {
    let code = lower_body(body).0;
    if code.len() > 0 && code.last() is Return {
        code
    } else {
        code.push(InstructionModel::Return(ValueModel::Constant(0)))
    }
}

/// In the code for `l && r` (or `l || r`), the code of `l` comes first,
/// then a jump on zero (on nonzero for `||`), then the code of `r`; the
/// jump's target label follows all of `r`'s code, so `r` runs only when
/// `l` does not decide the result.
pub proof fn short_circuit_jumps_over_right(
    op: ast::BinaryOperator,
    l: ast::Expr,
    r: ast::Expr,
    vars: nat,
    labels: nat,
)
    requires
        op == ast::BinaryOperator::LogicalAnd || op == ast::BinaryOperator::LogicalOr,
    ensures
        ({
            let is_and = op == ast::BinaryOperator::LogicalAnd;
            let code = lower_expr(ast::Expr::Binary(op, Box::new(l), Box::new(r)), vars, labels).code;
            let left = lower_expr(l, vars + 1, labels + 2);
            let right = lower_expr(r, left.vars, left.labels);
            let n = left.code.len() as int;
            let m = right.code.len() as int;
            let target = numbered(if is_and { "and_false"@ } else { "or_true"@ }, labels);
            &&& code.subrange(0, n) == left.code
            &&& code[n] == if is_and {
                InstructionModel::JumpIfZero { condition: left.value, target }
            } else {
                InstructionModel::JumpIfNotZero { condition: left.value, target }
            }
            &&& code.subrange(n + 1, n + 1 + m) == right.code
            &&& code[n + 1 + m + 3] == InstructionModel::Label(target)
        }),
{
    let is_and = op == ast::BinaryOperator::LogicalAnd;
    let code = lower_expr(ast::Expr::Binary(op, Box::new(l), Box::new(r)), vars, labels).code;
    let left = lower_expr(l, vars + 1, labels + 2);
    let right = lower_expr(r, left.vars, left.labels);
    let n = left.code.len() as int;
    let m = right.code.len() as int;
    assert(code.subrange(0, n) =~= left.code);
    assert(code.subrange(n + 1, n + 1 + m) =~= right.code);
}

proof fn lemma_body_size_prefix(body: Seq<ast::Block>, k: int)
    requires
        0 <= k <= body.len(),
    ensures
        body_size(body.take(k)) <= body_size(body),
    decreases body.len(),
{
    if k < body.len() {
        lemma_body_size_prefix(body.drop_last(), k);
        assert(body.drop_last().take(k) =~= body.take(k));
    } else {
        assert(body.take(k) =~= body);
    }
}

proof fn lemma_lower_body_counts(body: Seq<ast::Block>)
    ensures
        lower_body(body).1 <= 2 * body_size(body),
        lower_body(body).2 <= 2 * body_size(body),
    decreases body.len(),
{
    if body.len() > 0 {
        lemma_lower_body_counts(body.drop_last());
        let (_, vars, labels) = lower_body(body.drop_last());
        match body.last() {
            ast::Block::Declare(d) => match d.init {
                Some(e) => lemma_lower_expr_counts(e, vars, labels),
                None => {},
            },
            ast::Block::State(ast::Statement::Return(e)) => lemma_lower_expr_counts(e, vars, labels),
            ast::Block::State(ast::Statement::Expression(e)) => lemma_lower_expr_counts(
                e,
                vars,
                labels,
            ),
            ast::Block::State(ast::Statement::Null) => {},
        }
    }
}

/// What is left of `budget` after the nodes of `e`, if every assignment of
/// `e` targets a variable and `e` has at most `budget` nodes.
fn expr_fits(e: &ast::Expr, budget: u32) -> (r: Option<u32>)
    ensures
        match r {
            Some(left) => assigns_variables(*e) && expr_size(*e) <= budget && left == budget
                - expr_size(*e),
            None => !(assigns_variables(*e) && expr_size(*e) <= budget),
        },
    decreases e,
{
    if budget == 0 {
        return None;
    }
    match e {
        ast::Expr::Constant(_) | ast::Expr::Variable(_) => Some(budget - 1),
        ast::Expr::Unary(_, inner) => expr_fits(inner, budget - 1),
        ast::Expr::Binary(_, l, r) => match expr_fits(l, budget - 1) {
            Some(rest) => expr_fits(r, rest),
            None => None,
        },
        ast::Expr::Assignment(l, r) => {
            if !matches!(**l, ast::Expr::Variable(_)) {
                return None;
            }
            match expr_fits(l, budget - 1) {
                Some(rest) => expr_fits(r, rest),
                None => None,
            }
        },
    }
}

fn block_fits(b: &ast::Block, budget: u32) -> (r: Option<u32>)
    ensures
        match r {
            Some(left) => block_assigns_variables(*b) && block_size(*b) <= budget && left == budget
                - block_size(*b),
            None => !(block_assigns_variables(*b) && block_size(*b) <= budget),
        },
{
    match b {
        ast::Block::State(ast::Statement::Return(e)) => expr_fits(e, budget),
        ast::Block::State(ast::Statement::Expression(e)) => expr_fits(e, budget),
        ast::Block::State(ast::Statement::Null) => Some(budget),
        ast::Block::Declare(d) => match &d.init {
            Some(e) => expr_fits(e, budget),
            None => Some(budget),
        },
    }
}

/// Whether `flatten` accepts the program: every assignment targets a
/// variable (as after resolution) and the function has at most
/// `MAX_NODES` expression nodes.
pub fn can_flatten(program: &ast::Program) -> (r: bool)
    ensures
        r == lowerable(program.function.body@),
{
    let body = &program.function.body;
    let mut budget: u32 = MAX_NODES;
    let mut k: usize = 0;
    assert(body@.take(0) =~= Seq::<ast::Block>::empty());
    while k < body.len()
        invariant
            body@ == program.function.body@,
            0 <= k <= body@.len(),
            forall|j: int| 0 <= j < k ==> block_assigns_variables(#[trigger] body@[j]),
            body_size(body@.take(k as int)) <= MAX_NODES,
            budget == MAX_NODES - body_size(body@.take(k as int)),
        decreases body@.len() - k,
    {
        assert(body@.take(k + 1).drop_last() =~= body@.take(k as int));
        match block_fits(&body[k], budget) {
            Some(left) => {
                budget = left;
            },
            None => {
                proof {
                    assert(body@.take(k + 1).last() == body@[k as int]);
                    if block_assigns_variables(body@[k as int]) {
                        lemma_body_size_prefix(body@, k + 1);
                    } else {
                        assert(!block_assigns_variables(body@[k as int]));
                    }
                }
                return false;
            },
        }
        k += 1;
    }
    assert(body@.take(body@.len() as int) =~= body@);
    true
}

/// The state of lowering one function: the code so far and the counters
/// for fresh temporaries and labels.
struct Context {
    instructions: Vec<ir::Instruction>,
    var_count: u32,
    label_count: u32,
}

impl Context {
    fn new() -> (r: Self)
        ensures
            r.instructions@.len() == 0,
            r.var_count == 0,
            r.label_count == 0,
    {
        Self { instructions: Vec::new(), var_count: 0, label_count: 0 }
    }

    /// A fresh temporary, `tmp.N`.
    fn alloc_var(&mut self) -> (r: String)
        requires
            old(self).var_count < u32::MAX,
        ensures
            r@ == temporary(old(self).var_count as nat),
            final(self).var_count == old(self).var_count + 1,
            final(self).label_count == old(self).label_count,
            final(self).instructions == old(self).instructions,
    {
        let name = numbered_name("tmp", self.var_count as u64);
        self.var_count = self.var_count + 1;
        name
    }

    /// A fresh label, `prefix.N`.
    fn alloc_label(&mut self, prefix: &str) -> (r: String)
        requires
            old(self).label_count < u32::MAX,
        ensures
            r@ == numbered(prefix@, old(self).label_count as nat),
            final(self).label_count == old(self).label_count + 1,
            final(self).var_count == old(self).var_count,
            final(self).instructions == old(self).instructions,
    {
        let name = numbered_name(prefix, self.label_count as u64);
        self.label_count = self.label_count + 1;
        name
    }

    fn append(&mut self, instr: ir::Instruction)
        ensures
            final(self).instructions@ == old(self).instructions@.push(instr),
            instructions_model(final(self).instructions@) == instructions_model(
                old(self).instructions@,
            ).push(instr@),
            final(self).var_count == old(self).var_count,
            final(self).label_count == old(self).label_count,
    {
        self.instructions.push(instr);
        assert(instructions_model(self.instructions@) =~= instructions_model(
            old(self).instructions@,
        ).push(instr@));
    }

    fn convert_unary_op(op: &ast::UnaryOperator) -> (r: ir::UnaryOperator)
        ensures
            r == unary_op(*op),
    {
        match op {
            ast::UnaryOperator::Complement => ir::UnaryOperator::Complement,
            ast::UnaryOperator::Negate => ir::UnaryOperator::Negate,
            ast::UnaryOperator::LogicalNot => ir::UnaryOperator::Not,
        }
    }

    fn convert_binary_op(op: &ast::BinaryOperator) -> (r: ir::BinaryOperator)
        ensures
            r == binary_op(*op),
    {
        match op {
            ast::BinaryOperator::Add => ir::BinaryOperator::Add,
            ast::BinaryOperator::Subtract => ir::BinaryOperator::Subtract,
            ast::BinaryOperator::Multiply => ir::BinaryOperator::Multiply,
            ast::BinaryOperator::Divide => ir::BinaryOperator::Divide,
            ast::BinaryOperator::Modulo => ir::BinaryOperator::Modulo,
            ast::BinaryOperator::BitwiseAnd => ir::BinaryOperator::BitwiseAnd,
            ast::BinaryOperator::BitwiseOr => ir::BinaryOperator::BitwiseOr,
            ast::BinaryOperator::BitwiseXor => ir::BinaryOperator::BitwiseXor,
            ast::BinaryOperator::LeftShift => ir::BinaryOperator::LeftShift,
            ast::BinaryOperator::RightShift => ir::BinaryOperator::RightShift,
            ast::BinaryOperator::Equal => ir::BinaryOperator::Equal,
            ast::BinaryOperator::NotEqual => ir::BinaryOperator::NotEqual,
            ast::BinaryOperator::LessThan => ir::BinaryOperator::LessThan,
            ast::BinaryOperator::LessOrEqual => ir::BinaryOperator::LessOrEqual,
            ast::BinaryOperator::GreaterThan => ir::BinaryOperator::GreaterThan,
            ast::BinaryOperator::GreaterOrEqual => ir::BinaryOperator::GreaterOrEqual,
            _ => ir::BinaryOperator::Add,
        }
    }
}

/// Lowers a resolved program to three-address code. The function's code
/// always ends in a `Return`.
pub fn flatten(ast_program: ast::Program) -> (r: ir::Program)
    requires
        lowerable(ast_program.function.body@),
    ensures
        r.function.name == ast_program.function.name,
        instructions_model(r.function.body@) == function_code(ast_program.function.body@),
        r.function.body@.len() > 0,
        r.function.body@.last() is Return,
{
    let function = flatten_function(ast_program.function);
    ir::Program { function }
}

fn flatten_function(ast_func: ast::Function) -> (r: ir::Function)
    requires
        lowerable(ast_func.body@),
    ensures
        r.name == ast_func.name,
        instructions_model(r.body@) == function_code(ast_func.body@),
        r.body@.len() > 0,
        r.body@.last() is Return,
{
    let mut ctx = Context::new();
    let ghost body = ast_func.body@;
    let mut k: usize = 0;
    proof {
        assert(body.take(0) =~= Seq::<ast::Block>::empty());
        assert(instructions_model(ctx.instructions@) =~= Seq::<InstructionModel>::empty());
    }
    while k < ast_func.body.len()
        invariant
            body == ast_func.body@,
            lowerable(body),
            0 <= k <= body.len(),
            (instructions_model(ctx.instructions@), ctx.var_count as nat, ctx.label_count as nat)
                == lower_body(body.take(k as int)),
            ctx.var_count <= 2 * body_size(body.take(k as int)),
            ctx.label_count <= 2 * body_size(body.take(k as int)),
        decreases body.len() - k,
    {
        proof {
            assert(body.take(k + 1).drop_last() =~= body.take(k as int));
            assert(body.take(k + 1).last() == body[k as int]);
            lemma_body_size_prefix(body, k + 1);
            lemma_lower_body_counts(body.take(k + 1));
            assert(block_assigns_variables(body[k as int]));
        }
        flatten_block_item(&ast_func.body[k], &mut ctx);
        k += 1;
    }
    proof {
        assert(body.take(body.len() as int) =~= body);
    }
    let n = ctx.instructions.len();
    let ghost pre = ctx.instructions@;
    let ends_in_return = n > 0 && matches!(ctx.instructions[n - 1], ir::Instruction::Return(_));
    proof {
        let code = lower_body(body).0;
        assert(code == instructions_model(pre));
        if n > 0 {
            assert(code[n - 1] == pre[n - 1]@);
        }
    }
    if !ends_in_return {
        ctx.append(ir::Instruction::Return(ir::Value::Constant(0)));
    }
    ir::Function { name: ast_func.name, body: ctx.instructions }
}

fn flatten_block_item(block: &ast::Block, ctx: &mut Context)
    requires
        block_assigns_variables(*block),
        old(ctx).var_count + 2 * block_size(*block) <= u32::MAX,
        old(ctx).label_count + 2 * block_size(*block) <= u32::MAX,
    ensures
        ({
            let (code, vars, labels) = lower_block(
                *block,
                old(ctx).var_count as nat,
                old(ctx).label_count as nat,
            );
            &&& instructions_model(final(ctx).instructions@) == instructions_model(
                old(ctx).instructions@,
            ) + code
            &&& final(ctx).var_count == vars
            &&& final(ctx).label_count == labels
        }),
{
    match block {
        ast::Block::Declare(decl) => flatten_declaration(decl, ctx),
        ast::Block::State(stmt) => flatten_statement(stmt, ctx),
    }
}

fn flatten_declaration(decl: &ast::Declaration, ctx: &mut Context)
    requires
        block_assigns_variables(ast::Block::Declare(*decl)),
        old(ctx).var_count + 2 * block_size(ast::Block::Declare(*decl)) <= u32::MAX,
        old(ctx).label_count + 2 * block_size(ast::Block::Declare(*decl)) <= u32::MAX,
    ensures
        ({
            let (code, vars, labels) = lower_block(
                ast::Block::Declare(*decl),
                old(ctx).var_count as nat,
                old(ctx).label_count as nat,
            );
            &&& instructions_model(final(ctx).instructions@) == instructions_model(
                old(ctx).instructions@,
            ) + code
            &&& final(ctx).var_count == vars
            &&& final(ctx).label_count == labels
        }),
{
    match &decl.init {
        Some(init) => {
            let ghost before = instructions_model(ctx.instructions@);
            let val = flatten_expr(init, ctx);
            ctx.append(ir::Instruction::Copy { src: val, dst: decl.name.clone() });
            proof {
                let x = lower_expr(*init, old(ctx).var_count as nat, old(ctx).label_count as nat);
                assert(instructions_model(ctx.instructions@) =~= before + x.code.push(
                    InstructionModel::Copy { src: x.value, dst: decl.name@ },
                ));
            }
        },
        None => {
            assert(instructions_model(ctx.instructions@) =~= instructions_model(
                old(ctx).instructions@,
            ) + Seq::empty());
        },
    }
}

fn flatten_statement(statement: &ast::Statement, ctx: &mut Context)
    requires
        block_assigns_variables(ast::Block::State(*statement)),
        old(ctx).var_count + 2 * block_size(ast::Block::State(*statement)) <= u32::MAX,
        old(ctx).label_count + 2 * block_size(ast::Block::State(*statement)) <= u32::MAX,
    ensures
        ({
            let (code, vars, labels) = lower_block(
                ast::Block::State(*statement),
                old(ctx).var_count as nat,
                old(ctx).label_count as nat,
            );
            &&& instructions_model(final(ctx).instructions@) == instructions_model(
                old(ctx).instructions@,
            ) + code
            &&& final(ctx).var_count == vars
            &&& final(ctx).label_count == labels
        }),
{
    let ghost before = instructions_model(ctx.instructions@);
    match statement {
        ast::Statement::Return(expr) => {
            let result_val = flatten_expr(expr, ctx);
            ctx.append(ir::Instruction::Return(result_val));
            proof {
                let x = lower_expr(*expr, old(ctx).var_count as nat, old(ctx).label_count as nat);
                assert(instructions_model(ctx.instructions@) =~= before + x.code.push(
                    InstructionModel::Return(x.value),
                ));
            }
        },
        ast::Statement::Expression(expr) => {
            flatten_expr(expr, ctx);
        },
        ast::Statement::Null => {
            assert(instructions_model(ctx.instructions@) =~= before + Seq::empty());
        },
    }
}

/// Appends the code for `expr` and gives the value that holds its result.
#[verifier::rlimit(40)]
fn flatten_expr(expr: &ast::Expr, ctx: &mut Context) -> (r: ir::Value)
    requires
        assigns_variables(*expr),
        old(ctx).var_count + 2 * expr_size(*expr) <= u32::MAX,
        old(ctx).label_count + 2 * expr_size(*expr) <= u32::MAX,
    ensures
        ({
            let x = lower_expr(*expr, old(ctx).var_count as nat, old(ctx).label_count as nat);
            &&& instructions_model(final(ctx).instructions@) == instructions_model(
                old(ctx).instructions@,
            ) + x.code
            &&& r@ == x.value
            &&& final(ctx).var_count == x.vars
            &&& final(ctx).label_count == x.labels
        }),
    decreases expr,
{
    let ghost before = instructions_model(ctx.instructions@);
    let ghost vars = ctx.var_count as nat;
    let ghost labels = ctx.label_count as nat;
    match expr {
        ast::Expr::Constant(val) => {
            assert(instructions_model(ctx.instructions@) =~= before + Seq::empty());
            ir::Value::Constant(*val)
        },
        ast::Expr::Variable(name) => {
            assert(instructions_model(ctx.instructions@) =~= before + Seq::empty());
            ir::Value::Variable(name.clone())
        },
        ast::Expr::Unary(op, inner) => {
            proof {
                lemma_lower_expr_counts(**inner, vars, labels);
            }
            let src = flatten_expr(inner, ctx);
            let dst = ctx.alloc_var();
            ctx.append(
                ir::Instruction::Unary { op: Context::convert_unary_op(op), dst: dst.clone(), src },
            );
            proof {
                let x = lower_expr(**inner, vars, labels);
                assert(instructions_model(ctx.instructions@) =~= before + x.code.push(
                    InstructionModel::Unary { op: unary_op(*op), dst: temporary(x.vars), src: x.value },
                ));
            }
            ir::Value::Variable(dst)
        },
        ast::Expr::Binary(op, left, right) => match op {
            ast::BinaryOperator::LogicalAnd | ast::BinaryOperator::LogicalOr => {
                let is_and = matches!(op, ast::BinaryOperator::LogicalAnd);
                proof {
                    lemma_lower_expr_counts(**left, vars + 1, labels + 2);
                    let l = lower_expr(**left, vars + 1, labels + 2);
                    lemma_lower_expr_counts(**right, l.vars, l.labels);
                }
                // If the left operand decides the result, jump past the right.
                let result = ctx.alloc_var();
                let early_label = if is_and {
                    ctx.alloc_label("and_false")
                } else {
                    ctx.alloc_label("or_true")
                };
                let end_label = if is_and {
                    ctx.alloc_label("and_end")
                } else {
                    ctx.alloc_label("or_end")
                };
                let v1 = flatten_expr(left, ctx);
                if is_and {
                    ctx.append(
                        ir::Instruction::JumpIfZero { condition: v1, target: early_label.clone() },
                    );
                } else {
                    ctx.append(
                        ir::Instruction::JumpIfNotZero { condition: v1, target: early_label.clone() },
                    );
                }
                let v2 = flatten_expr(right, ctx);
                // The right operand, as 0 or 1.
                let right_bool = ctx.alloc_var();
                ctx.append(
                    ir::Instruction::Binary {
                        op: ir::BinaryOperator::NotEqual,
                        src1: v2,
                        src2: ir::Value::Constant(0),
                        dst: right_bool.clone(),
                    },
                );
                ctx.append(
                    ir::Instruction::Copy {
                        src: ir::Value::Variable(right_bool),
                        dst: result.clone(),
                    },
                );
                ctx.append(ir::Instruction::Jump { target: end_label.clone() });
                ctx.append(ir::Instruction::Label(early_label));
                let early_value: i32 = if is_and {
                    0
                } else {
                    1
                };
                ctx.append(
                    ir::Instruction::Copy {
                        src: ir::Value::Constant(early_value),
                        dst: result.clone(),
                    },
                );
                ctx.append(ir::Instruction::Label(end_label));
                proof {
                    let l = lower_expr(**left, vars + 1, labels + 2);
                    let r = lower_expr(**right, l.vars, l.labels);
                    let early = numbered(
                        if is_and {
                            "and_false"@
                        } else {
                            "or_true"@
                        },
                        labels,
                    );
                    let end = numbered(
                        if is_and {
                            "and_end"@
                        } else {
                            "or_end"@
                        },
                        labels + 1,
                    );
                    assert(instructions_model(ctx.instructions@) =~= before + short_circuit(
                        is_and,
                        l,
                        r,
                        temporary(vars),
                        early,
                        end,
                    ));
                }
                ir::Value::Variable(result)
            },
            _ => {
                proof {
                    lemma_lower_expr_counts(**left, vars, labels);
                    let l = lower_expr(**left, vars, labels);
                    lemma_lower_expr_counts(**right, l.vars, l.labels);
                }
                let v1 = flatten_expr(left, ctx);
                let v2 = flatten_expr(right, ctx);
                let dst = ctx.alloc_var();
                ctx.append(
                    ir::Instruction::Binary {
                        op: Context::convert_binary_op(op),
                        src1: v1,
                        src2: v2,
                        dst: dst.clone(),
                    },
                );
                proof {
                    let l = lower_expr(**left, vars, labels);
                    let r = lower_expr(**right, l.vars, l.labels);
                    assert(instructions_model(ctx.instructions@) =~= before + (l.code + r.code.push(
                        InstructionModel::Binary {
                            op: binary_op(*op),
                            dst: temporary(r.vars),
                            src1: l.value,
                            src2: r.value,
                        },
                    )));
                }
                ir::Value::Variable(dst)
            },
        },
        ast::Expr::Assignment(target, value) => {
            let dst = match &**target {
                ast::Expr::Variable(name) => name.clone(),
                _ => String::new(),
            };
            let val = flatten_expr(value, ctx);
            ctx.append(ir::Instruction::Copy { src: val, dst: dst.clone() });
            proof {
                let x = lower_expr(**value, vars, labels);
                assert(instructions_model(ctx.instructions@) =~= before + x.code.push(
                    InstructionModel::Copy { src: x.value, dst: dst@ },
                ));
            }
            ir::Value::Variable(dst)
        },
    }
}

} // verus!
