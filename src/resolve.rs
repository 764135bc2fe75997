//! The resolver: renames every variable to a name unique in its function,
//! `name.k` for the `k`-th declaration, and reports duplicate declarations,
//! undeclared variables and assignments to non-variables.
use crate::ast::{Block, Declaration, Expr, Function, Program, Statement};
use crate::error::CompileError;
use crate::irgen::{assigns_variables, block_assigns_variables};
use crate::text::{lemma_numbered_injective, numbered, numbered_name};
use vstd::prelude::*;

verus! {

/// The unique name of `x` in `scope`, the declared source names in order:
/// `x.k` where `x` is the `k`-th declaration.
pub open spec fn unique_name(scope: Seq<Seq<char>>, x: Seq<char>) -> Seq<char> {
    numbered(x, scope.index_of(x) as nat)
}

/// The first error met while resolving `e` in `scope`, left to right.
pub open spec fn expr_error(e: Expr, scope: Seq<Seq<char>>) -> Option<CompileError>
    decreases e,
{
    match e {
        Expr::Constant(_) => None,
        Expr::Variable(n) => if scope.contains(n@) {
            None
        } else {
            Some(CompileError::UndeclaredVariable(n))
        },
        Expr::Unary(_, inner) => expr_error(*inner, scope),
        Expr::Binary(_, l, r) => match expr_error(*l, scope) {
            Some(err) => Some(err),
            None => expr_error(*r, scope),
        },
        Expr::Assignment(l, r) => if !(*l is Variable) {
            Some(CompileError::InvalidLvalue)
        } else {
            match expr_error(*l, scope) {
                Some(err) => Some(err),
                None => expr_error(*r, scope),
            }
        },
    }
}

/// `out` is `e` with every variable replaced by its unique name in `scope`.
pub open spec fn renamed(e: Expr, out: Expr, scope: Seq<Seq<char>>) -> bool
    decreases e,
{
    match (e, out) {
        (Expr::Constant(a), Expr::Constant(b)) => a == b,
        (Expr::Variable(n), Expr::Variable(m)) => m@ == unique_name(scope, n@),
        (Expr::Unary(o1, i1), Expr::Unary(o2, i2)) => o1 == o2 && renamed(*i1, *i2, scope),
        (Expr::Binary(o1, l1, r1), Expr::Binary(o2, l2, r2)) => o1 == o2 && renamed(
            *l1,
            *l2,
            scope,
        ) && renamed(*r1, *r2, scope),
        (Expr::Assignment(l1, r1), Expr::Assignment(l2, r2)) => renamed(*l1, *l2, scope)
            && renamed(*r1, *r2, scope),
        _ => false,
    }
}

/// The first error of one block item in `scope`. A declaration's
/// initializer is resolved with the declared name already in scope.
pub open spec fn block_error(b: Block, scope: Seq<Seq<char>>) -> Option<CompileError> {
    match b {
        Block::Declare(d) => if scope.contains(d.name@) {
            Some(CompileError::DuplicateDeclaration(d.name))
        } else {
            match d.init {
                Some(e) => expr_error(e, scope.push(d.name@)),
                None => None,
            }
        },
        Block::State(Statement::Return(e)) => expr_error(e, scope),
        Block::State(Statement::Expression(e)) => expr_error(e, scope),
        Block::State(Statement::Null) => None,
    }
}

/// The scope after a block item.
pub open spec fn block_scope(b: Block, scope: Seq<Seq<char>>) -> Seq<Seq<char>> {
    match b {
        Block::Declare(d) => scope.push(d.name@),
        _ => scope,
    }
}

/// `out` is the block item `b` resolved in `scope`: the `k`-th declaration
/// of `x` is named `x.k`.
pub open spec fn block_renamed(b: Block, out: Block, scope: Seq<Seq<char>>) -> bool {
    match (b, out) {
        (Block::Declare(d), Block::Declare(d2)) => d2.name@ == numbered(d.name@, scope.len())
            && match (d.init, d2.init) {
            (Some(e), Some(e2)) => renamed(e, e2, scope.push(d.name@)),
            (None, None) => true,
            _ => false,
        },
        (Block::State(Statement::Return(e)), Block::State(Statement::Return(e2))) => renamed(
            e,
            e2,
            scope,
        ),
        (Block::State(Statement::Expression(e)), Block::State(Statement::Expression(e2))) => renamed(
            e,
            e2,
            scope,
        ),
        (Block::State(Statement::Null), Block::State(Statement::Null)) => true,
        _ => false,
    }
}

/// The declared names after a sequence of block items, in order.
pub open spec fn scope_after(body: Seq<Block>) -> Seq<Seq<char>>
    decreases body.len(),
{
    if body.len() == 0 {
        Seq::empty()
    } else {
        block_scope(body.last(), scope_after(body.drop_last()))
    }
}

/// The first error of a function body, item by item.
pub open spec fn body_error(body: Seq<Block>) -> Option<CompileError>
    decreases body.len(),
{
    if body.len() == 0 {
        None
    } else {
        match body_error(body.drop_last()) {
            Some(e) => Some(e),
            None => block_error(body.last(), scope_after(body.drop_last())),
        }
    }
}

/// `out` is `body` with each item resolved in the scope of the items before it.
pub open spec fn body_renamed(body: Seq<Block>, out: Seq<Block>) -> bool {
    &&& out.len() == body.len()
    &&& forall|k: int|
        0 <= k < body.len() ==> block_renamed(
            #[trigger] body[k],
            out[k],
            scope_after(body.take(k)),
        )
}

proof fn lemma_error_persists(body: Seq<Block>, k: int)
    requires
        0 <= k <= body.len(),
        body_error(body.take(k)) is Some,
    ensures
        body_error(body) == body_error(body.take(k)),
    decreases body.len(),
{
    if k < body.len() {
        assert(body.drop_last().take(k) =~= body.take(k));
        lemma_error_persists(body.drop_last(), k);
    } else {
        assert(body.take(k) =~= body);
    }
}

// ---------------------------------------------------------------------------
// Laws of resolution

/// The names minted for the declarations of `scope`: `scope[k].k`.
pub open spec fn minted(scope: Seq<Seq<char>>) -> Seq<Seq<char>> {
    Seq::new(scope.len(), |k: int| numbered(scope[k], k as nat))
}

/// Every variable of `e` is one of `names`.
pub open spec fn uses_only(e: Expr, names: Seq<Seq<char>>) -> bool
    decreases e,
{
    match e {
        Expr::Constant(_) => true,
        Expr::Variable(n) => names.contains(n@),
        Expr::Unary(_, inner) => uses_only(*inner, names),
        Expr::Binary(_, l, r) => uses_only(*l, names) && uses_only(*r, names),
        Expr::Assignment(l, r) => uses_only(*l, names) && uses_only(*r, names),
    }
}

/// Every variable of the block item `b` is one of `names`.
pub open spec fn block_uses_only(b: Block, names: Seq<Seq<char>>) -> bool {
    match b {
        Block::Declare(d) => match d.init {
            Some(e) => uses_only(e, names),
            None => true,
        },
        Block::State(Statement::Return(e)) => uses_only(e, names),
        Block::State(Statement::Expression(e)) => uses_only(e, names),
        Block::State(Statement::Null) => true,
    }
}

/// The names of the declarations of `body`, in order.
pub open spec fn declared_names(body: Seq<Block>) -> Seq<Seq<char>>
    decreases body.len(),
{
    if body.len() == 0 {
        Seq::empty()
    } else {
        match body.last() {
            Block::Declare(d) => declared_names(body.drop_last()).push(d.name@),
            _ => declared_names(body.drop_last()),
        }
    }
}

proof fn lemma_minted_distinct(scope: Seq<Seq<char>>)
    ensures
        minted(scope).no_duplicates(),
{
    let m = minted(scope);
    assert forall|i: int, j: int| 0 <= i < m.len() && 0 <= j < m.len() && i != j implies m[i]
        != m[j] by {
        if m[i] == m[j] {
            lemma_numbered_injective(scope[i], i as nat, scope[j], j as nat);
        }
    }
}

proof fn lemma_renamed_uses_minted(e: Expr, out: Expr, scope: Seq<Seq<char>>)
    requires
        expr_error(e, scope) is None,
        renamed(e, out, scope),
    ensures
        uses_only(out, minted(scope)),
    decreases e,
{
    match (e, out) {
        (Expr::Variable(n), Expr::Variable(m)) => {
            let k = scope.index_of(n@);
            assert(scope[k] == n@);
            assert(minted(scope)[k] == m@);
        },
        (Expr::Unary(_, i1), Expr::Unary(_, i2)) => lemma_renamed_uses_minted(*i1, *i2, scope),
        (Expr::Binary(_, l1, r1), Expr::Binary(_, l2, r2)) => {
            lemma_renamed_uses_minted(*l1, *l2, scope);
            lemma_renamed_uses_minted(*r1, *r2, scope);
        },
        (Expr::Assignment(l1, r1), Expr::Assignment(l2, r2)) => {
            lemma_renamed_uses_minted(*l1, *l2, scope);
            lemma_renamed_uses_minted(*r1, *r2, scope);
        },
        _ => {},
    }
}

proof fn lemma_uses_only_grows(e: Expr, small: Seq<Seq<char>>, big: Seq<Seq<char>>)
    requires
        uses_only(e, small),
        forall|x: Seq<char>| small.contains(x) ==> big.contains(x),
    ensures
        uses_only(e, big),
    decreases e,
{
    match e {
        Expr::Unary(_, i) => lemma_uses_only_grows(*i, small, big),
        Expr::Binary(_, l, r) => {
            lemma_uses_only_grows(*l, small, big);
            lemma_uses_only_grows(*r, small, big);
        },
        Expr::Assignment(l, r) => {
            lemma_uses_only_grows(*l, small, big);
            lemma_uses_only_grows(*r, small, big);
        },
        _ => {},
    }
}

proof fn lemma_no_error_prefix(body: Seq<Block>, k: int)
    requires
        0 <= k <= body.len(),
        body_error(body) is None,
    ensures
        body_error(body.take(k)) is None,
{
    if body_error(body.take(k)) is Some {
        lemma_error_persists(body, k);
    }
}

proof fn lemma_renamed_prefix(body: Seq<Block>, out: Seq<Block>, k: int)
    requires
        0 <= k <= body.len(),
        body_renamed(body, out),
    ensures
        body_renamed(body.take(k), out.take(k)),
{
    let b = body.take(k);
    assert forall|j: int| 0 <= j < b.len() implies block_renamed(
        #[trigger] b[j],
        out.take(k)[j],
        scope_after(b.take(j)),
    ) by {
        assert(b.take(j) =~= body.take(j));
        assert(b[j] == body[j]);
    }
}

proof fn lemma_declared_are_minted(body: Seq<Block>, out: Seq<Block>)
    requires
        body_error(body) is None,
        body_renamed(body, out),
    ensures
        declared_names(out) == minted(scope_after(body)),
    decreases body.len(),
{
    if body.len() > 0 {
        let n = body.len() - 1;
        lemma_renamed_prefix(body, out, n);
        assert(body.take(n) =~= body.drop_last());
        assert(out.take(n) =~= out.drop_last());
        lemma_declared_are_minted(body.drop_last(), out.drop_last());
        let scope = scope_after(body.drop_last());
        assert(block_renamed(body[n], out[n], scope_after(body.take(n))));
        match body.last() {
            Block::Declare(d) => {
                assert(minted(scope.push(d.name@)) =~= minted(scope).push(
                    numbered(d.name@, scope.len()),
                ));
            },
            _ => {},
        }
    }
}

proof fn lemma_renamed_assigns_variables(e: Expr, out: Expr, scope: Seq<Seq<char>>)
    requires
        expr_error(e, scope) is None,
        renamed(e, out, scope),
    ensures
        assigns_variables(out),
    decreases e,
{
    match (e, out) {
        (Expr::Unary(_, i1), Expr::Unary(_, i2)) => lemma_renamed_assigns_variables(*i1, *i2, scope),
        (Expr::Binary(_, l1, r1), Expr::Binary(_, l2, r2)) => {
            lemma_renamed_assigns_variables(*l1, *l2, scope);
            lemma_renamed_assigns_variables(*r1, *r2, scope);
        },
        (Expr::Assignment(l1, r1), Expr::Assignment(l2, r2)) => {
            assert(*l1 is Variable);
            assert(renamed(*l1, *l2, scope));
            assert(*l2 is Variable);
            lemma_renamed_assigns_variables(*r1, *r2, scope);
        },
        _ => {},
    }
}

/// After resolution every assignment targets a variable, as lowering to
/// three-address code needs.
pub proof fn resolved_assignments_target_variables(body: Seq<Block>, out: Seq<Block>)
    requires
        body_error(body) is None,
        body_renamed(body, out),
    ensures
        forall|k: int| 0 <= k < out.len() ==> block_assigns_variables(#[trigger] out[k]),
{
    assert forall|k: int| 0 <= k < out.len() implies block_assigns_variables(#[trigger] out[k]) by {
        lemma_no_error_prefix(body, k + 1);
        let upto = body.take(k + 1);
        assert(upto.drop_last() =~= body.take(k));
        assert(upto.last() == body[k]);
        let scope = scope_after(body.take(k));
        assert(block_renamed(body[k], out[k], scope));
        match (body[k], out[k]) {
            (Block::Declare(d), Block::Declare(d2)) => {
                if d.init is Some {
                    lemma_renamed_assigns_variables(
                        d.init->Some_0,
                        d2.init->Some_0,
                        scope.push(d.name@),
                    );
                }
            },
            (Block::State(Statement::Return(e)), Block::State(Statement::Return(e2))) => {
                lemma_renamed_assigns_variables(e, e2, scope);
            },
            (Block::State(Statement::Expression(e)), Block::State(Statement::Expression(e2))) => {
                lemma_renamed_assigns_variables(e, e2, scope);
            },
            _ => {},
        }
    }
}

/// Resolution makes names unique: the declarations of the result carry
/// pairwise distinct names, each minted by the resolver (the `k`-th
/// declaration of `x` is `x.k`), and every variable of an item is the name
/// of a declaration at or before that item.
pub proof fn resolved_names_are_unique(body: Seq<Block>, out: Seq<Block>)
    requires
        body_error(body) is None,
        body_renamed(body, out),
    ensures
        declared_names(out) == minted(scope_after(body)),
        declared_names(out).no_duplicates(),
        forall|k: int|
            0 <= k < out.len() ==> block_uses_only(
                #[trigger] out[k],
                declared_names(out.take(k + 1)),
            ),
{
    lemma_declared_are_minted(body, out);
    lemma_minted_distinct(scope_after(body));
    assert forall|k: int| 0 <= k < out.len() implies block_uses_only(
        #[trigger] out[k],
        declared_names(out.take(k + 1)),
    ) by {
        lemma_no_error_prefix(body, k + 1);
        lemma_renamed_prefix(body, out, k + 1);
        lemma_declared_are_minted(body.take(k + 1), out.take(k + 1));
        let before = body.take(k);
        let upto = body.take(k + 1);
        assert(upto.drop_last() =~= before);
        assert(upto.last() == body[k]);
        let scope = scope_after(before);
        let names = minted(scope_after(upto));
        assert(block_error(body[k], scope) is None);
        assert(block_renamed(body[k], out[k], scope));
        match (body[k], out[k]) {
            (Block::Declare(d), Block::Declare(d2)) => {
                if d.init is Some {
                    lemma_renamed_uses_minted(
                        d.init->Some_0,
                        d2.init->Some_0,
                        scope.push(d.name@),
                    );
                }
            },
            (Block::State(Statement::Return(e)), Block::State(Statement::Return(e2))) => {
                lemma_renamed_uses_minted(e, e2, scope);
            },
            (Block::State(Statement::Expression(e)), Block::State(Statement::Expression(e2))) => {
                lemma_renamed_uses_minted(e, e2, scope);
            },
            _ => {},
        }
    }
}

/// Resolution keeps the declarations where they were, numbers them in
/// order, and resolves each initializer in a scope that already holds the
/// declared name.
pub proof fn declarations_keep_order(body: Seq<Block>, out: Seq<Block>)
    requires
        body_error(body) is None,
        body_renamed(body, out),
    ensures
        forall|k: int| 0 <= k < body.len() ==> ((#[trigger] body[k]) is Declare <==> out[k] is Declare),
        forall|k: int|
            0 <= k < body.len() && (#[trigger] body[k]) is Declare ==> out[k]->Declare_0.name@
                == numbered(body[k]->Declare_0.name@, scope_after(body.take(k)).len()),
        forall|k: int|
            0 <= k < body.len() && (#[trigger] body[k]) is Declare
                && body[k]->Declare_0.init is Some ==> ({
                let inner = scope_after(body.take(k + 1));
                &&& inner.contains(body[k]->Declare_0.name@)
                &&& renamed(
                    body[k]->Declare_0.init->Some_0,
                    out[k]->Declare_0.init->Some_0,
                    inner,
                )
            }),
{
    assert forall|k: int|
        0 <= k < body.len() && (#[trigger] body[k]) is Declare
            && body[k]->Declare_0.init is Some implies ({
        let inner = scope_after(body.take(k + 1));
        &&& inner.contains(body[k]->Declare_0.name@)
        &&& renamed(body[k]->Declare_0.init->Some_0, out[k]->Declare_0.init->Some_0, inner)
    }) by {
        let upto = body.take(k + 1);
        assert(upto.drop_last() =~= body.take(k));
        assert(upto.last() == body[k]);
        let inner = scope_after(upto);
        assert(inner[inner.len() - 1] == body[k]->Declare_0.name@);
    }
}

/// The source names declared so far, in order; the `k`-th was renamed `name.k`.
struct Context {
    names: Vec<String>,
}

pub open spec fn scope_of(names: Seq<String>) -> Seq<Seq<char>> {
    names.map_values(|s: String| s@)
}

impl Context {
    fn new() -> (r: Self)
        ensures
            r.names@.len() == 0,
    {
        Self { names: Vec::new() }
    }

    /// The unique name for the next declaration of `name`.
    fn make_temporary(&self, name: &str) -> (r: String)
        ensures
            r@ == numbered(name@, self.names@.len()),
    {
        numbered_name(name, self.names.len() as u64)
    }

    /// Where `name` was declared, if it was.
    fn lookup(&self, name: &String) -> (r: Option<usize>)
        requires
            scope_of(self.names@).no_duplicates(),
        ensures
            r matches Some(j) ==> scope_of(self.names@).contains(name@) && scope_of(
                self.names@,
            ).index_of(name@) == j,
            r is None ==> !scope_of(self.names@).contains(name@),
    {
        let ghost scope = scope_of(self.names@);
        let mut j: usize = 0;
        while j < self.names.len()
            invariant
                0 <= j <= self.names@.len(),
                scope == scope_of(self.names@),
                scope.no_duplicates(),
                forall|t: int| 0 <= t < j ==> scope[t] != name@,
            decreases self.names@.len() - j,
        {
            if self.names[j] == *name {
                proof {
                    assert(scope[j as int] == name@);
                    assert(scope.contains(name@));
                    let c = scope.index_of(name@);
                    assert(scope[c] == name@);
                }
                return Some(j);
            }
            j += 1;
        }
        None
    }
}

/// Renames every variable of a program to a name unique in its function,
/// or reports the first semantic error.
pub fn resolve(program: Program) -> (r: Result<Program, CompileError>)
    ensures
        match r {
            Ok(p) => body_error(program.function.body@) is None && p.function.name
                == program.function.name && body_renamed(program.function.body@, p.function.body@),
            Err(e) => body_error(program.function.body@) == Some(e),
        },
{
    match resolve_function(program.function) {
        Ok(function) => Ok(Program { function }),
        Err(e) => Err(e),
    }
}

#[verifier::rlimit(30)]
fn resolve_function(func: Function) -> (r: Result<Function, CompileError>)
    ensures
        match r {
            Ok(f) => body_error(func.body@) is None && f.name == func.name && body_renamed(
                func.body@,
                f.body@,
            ),
            Err(e) => body_error(func.body@) == Some(e),
        },
{
    let mut ctx = Context::new();
    let mut resolved_body: Vec<Block> = Vec::new();
    let ghost body = func.body@;
    let mut k: usize = 0;
    proof {
        assert(body.take(0) =~= Seq::<Block>::empty());
        assert(scope_of(ctx.names@) =~= Seq::<Seq<char>>::empty());
    }
    while k < func.body.len()
        invariant
            body == func.body@,
            0 <= k <= body.len(),
            body_error(body.take(k as int)) is None,
            scope_of(ctx.names@) == scope_after(body.take(k as int)),
            scope_of(ctx.names@).no_duplicates(),
            resolved_body@.len() == k,
            forall|j: int|
                0 <= j < k ==> block_renamed(
                    #[trigger] body[j],
                    resolved_body@[j],
                    scope_after(body.take(j)),
                ),
        decreases body.len() - k,
    {
        proof {
            assert(body.take(k + 1).drop_last() =~= body.take(k as int));
            assert(body.take(k + 1).last() == body[k as int]);
        }
        match resolve_block_item(&func.body[k], &mut ctx) {
            Ok(resolved) => {
                resolved_body.push(resolved);
            },
            Err(e) => {
                proof {
                    lemma_error_persists(body, k + 1);
                }
                return Err(e);
            },
        }
        k += 1;
    }
    proof {
        assert(body.take(body.len() as int) =~= body);
    }
    Ok(Function { name: func.name, body: resolved_body })
}

fn resolve_block_item(block: &Block, ctx: &mut Context) -> (r: Result<Block, CompileError>)
    requires
        scope_of(old(ctx).names@).no_duplicates(),
    ensures
        match r {
            Ok(b) => block_error(*block, scope_of(old(ctx).names@)) is None && block_renamed(
                *block,
                b,
                scope_of(old(ctx).names@),
            ) && scope_of(final(ctx).names@) == block_scope(*block, scope_of(old(ctx).names@))
                && scope_of(final(ctx).names@).no_duplicates(),
            Err(e) => block_error(*block, scope_of(old(ctx).names@)) == Some(e),
        },
{
    match block {
        Block::Declare(decl) => match resolve_declaration(decl, ctx) {
            Ok(resolved) => Ok(Block::Declare(resolved)),
            Err(e) => Err(e),
        },
        Block::State(stmt) => match resolve_statement(stmt, ctx) {
            Ok(resolved) => Ok(Block::State(resolved)),
            Err(e) => Err(e),
        },
    }
}

fn resolve_declaration(decl: &Declaration, ctx: &mut Context) -> (r: Result<
    Declaration,
    CompileError,
>)
    requires
        scope_of(old(ctx).names@).no_duplicates(),
    ensures
        ({
            let b = Block::Declare(*decl);
            match r {
                Ok(d) => block_error(b, scope_of(old(ctx).names@)) is None && block_renamed(
                    b,
                    Block::Declare(d),
                    scope_of(old(ctx).names@),
                ) && scope_of(final(ctx).names@) == block_scope(b, scope_of(old(ctx).names@))
                    && scope_of(final(ctx).names@).no_duplicates(),
                Err(e) => block_error(b, scope_of(old(ctx).names@)) == Some(e),
            }
        }),
{
    if ctx.lookup(&decl.name).is_some() {
        return Err(CompileError::DuplicateDeclaration(decl.name.clone()));
    }
    let unique_name = ctx.make_temporary(decl.name.as_str());
    ctx.names.push(decl.name.clone());
    proof {
        assert(scope_of(ctx.names@) =~= scope_of(old(ctx).names@).push(decl.name@));
    }
    let init = match &decl.init {
        Some(expr) => match resolve_exp(expr, ctx) {
            Ok(e) => Some(e),
            Err(e) => return Err(e),
        },
        None => None,
    };
    Ok(Declaration { name: unique_name, init })
}

fn resolve_statement(stmt: &Statement, ctx: &Context) -> (r: Result<Statement, CompileError>)
    requires
        scope_of(ctx.names@).no_duplicates(),
    ensures
        ({
            let b = Block::State(*stmt);
            match r {
                Ok(s) => block_error(b, scope_of(ctx.names@)) is None && block_renamed(
                    b,
                    Block::State(s),
                    scope_of(ctx.names@),
                ),
                Err(e) => block_error(b, scope_of(ctx.names@)) == Some(e),
            }
        }),
{
    match stmt {
        Statement::Return(expr) => match resolve_exp(expr, ctx) {
            Ok(e) => Ok(Statement::Return(e)),
            Err(e) => Err(e),
        },
        Statement::Expression(expr) => match resolve_exp(expr, ctx) {
            Ok(e) => Ok(Statement::Expression(e)),
            Err(e) => Err(e),
        },
        Statement::Null => Ok(Statement::Null),
    }
}

fn resolve_exp(expr: &Expr, ctx: &Context) -> (r: Result<Expr, CompileError>)
    requires
        scope_of(ctx.names@).no_duplicates(),
    ensures
        match r {
            Ok(e) => expr_error(*expr, scope_of(ctx.names@)) is None && renamed(
                *expr,
                e,
                scope_of(ctx.names@),
            ),
            Err(e) => expr_error(*expr, scope_of(ctx.names@)) == Some(e),
        },
    decreases expr,
{
    match expr {
        Expr::Constant(val) => Ok(Expr::Constant(*val)),
        Expr::Variable(name) => match ctx.lookup(name) {
            Some(j) => Ok(Expr::Variable(numbered_name(name.as_str(), j as u64))),
            None => Err(CompileError::UndeclaredVariable(name.clone())),
        },
        Expr::Assignment(left, right) => {
            if !matches!(**left, Expr::Variable(_)) {
                return Err(CompileError::InvalidLvalue);
            }
            let resolved_left = match resolve_exp(left, ctx) {
                Ok(e) => e,
                Err(e) => return Err(e),
            };
            let resolved_right = match resolve_exp(right, ctx) {
                Ok(e) => e,
                Err(e) => return Err(e),
            };
            Ok(Expr::Assignment(Box::new(resolved_left), Box::new(resolved_right)))
        },
        Expr::Unary(op, inner) => match resolve_exp(inner, ctx) {
            Ok(e) => Ok(Expr::Unary(*op, Box::new(e))),
            Err(e) => Err(e),
        },
        Expr::Binary(op, left, right) => {
            let resolved_left = match resolve_exp(left, ctx) {
                Ok(e) => e,
                Err(e) => return Err(e),
            };
            let resolved_right = match resolve_exp(right, ctx) {
                Ok(e) => e,
                Err(e) => return Err(e),
            };
            Ok(Expr::Binary(*op, Box::new(resolved_left), Box::new(resolved_right)))
        },
    }
}

} // verus!
