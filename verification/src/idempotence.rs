//! Inference on a block whose variables all have their types: it defers no
//! candidate and leaves the scope alone, and a second run changes nothing.

use crate::ast::{ExpressionView, StatementView};
use crate::datatype::DataTypeView;
use crate::laws::lemma_block_scan;
use crate::measure::{block_height, lemma_statement_height, statement_height};
use crate::model::{
    block_scan, call_arguments, call_candidates, inference, paired, pass, statement_scan,
    BlockScan,
};
use crate::scope::ScopeView;
use vstd::prelude::*;

verus! {

/// Whether no variable among the first `n` arguments of a call is recorded
/// with the wildcard.
pub open spec fn typed_arguments(arguments: Seq<ExpressionView>, scope: ScopeView, n: nat) -> bool {
    forall|i: int|
        0 <= i < n && i < arguments.len() ==> (#[trigger] arguments[i] matches ExpressionView::Identifier(
            name,
        ) ==> scope.lookup_name(name) != Some(DataTypeView::Any))
}

/// Whether `statement` holds no wildcard-typed variable: each variable that
/// it declares is recorded in the current layer, and no variable that it
/// assigns to, or passes to a callable at a position of its signature, is
/// recorded with the wildcard; the same in its nested blocks.
pub open spec fn typed_statement(statement: StatementView, scope: ScopeView) -> bool
    decreases statement,
{
    match statement {
        StatementView::VarDeclare { datatype, identifier, expression } => scope.lookup_name_depth(
            identifier,
            0,
        ) is Some,
        StatementView::VarAssign { identifier, expression } => scope.lookup_name(identifier)
            != Some(DataTypeView::Any),
        StatementView::MethodCall { method, arguments } => match method.signature(scope) {
            Some(params) => typed_arguments(arguments, scope, paired(params, arguments)),
            None => true,
        },
        StatementView::If { condition, block_true, block_false } => typed_block(block_true, scope)
            && typed_block(block_false, scope),
        StatementView::Loop { block } => typed_block(block, scope),
        StatementView::Return => true,
    }
}

/// Whether `block` holds no wildcard-typed variable.
pub open spec fn typed_block(block: Seq<StatementView>, scope: ScopeView) -> bool
    decreases block,
{
    forall|i: int| 0 <= i < block.len() ==> typed_statement(#[trigger] block[i], scope)
}

/// Arguments without a wildcard-typed variable give no candidate.
proof fn lemma_typed_candidates(
    params: Seq<DataTypeView>,
    arguments: Seq<ExpressionView>,
    scope: ScopeView,
    n: nat,
)
    requires
        n <= paired(params, arguments),
        typed_arguments(arguments, scope, n),
    ensures
        call_candidates(params, arguments, scope, n) == Seq::<(Seq<char>, DataTypeView)>::empty(),
    decreases n,
{
    if n > 0 {
        lemma_typed_candidates(params, arguments, scope, (n - 1) as nat);
        assert(arguments[n - 1] is Identifier ==> scope.lookup_name(
            arguments[n - 1]->Identifier_0,
        ) != Some(DataTypeView::Any));
    }
}

/// What a pass makes of the first `n` statements of a block does not
/// depend on a statement after them.
proof fn lemma_block_scan_later(
    block: Seq<StatementView>,
    n: nat,
    scope: ScopeView,
    candidates: Seq<(Seq<char>, DataTypeView)>,
    j: int,
    statement: StatementView,
)
    requires
        n <= j < block.len(),
        scope.depth() > 0,
    ensures
        block_scan(block.update(j, statement), n, scope, candidates) == (BlockScan {
            block: block_scan(block, n, scope, candidates).block.update(j, statement),
            scope: block_scan(block, n, scope, candidates).scope,
            candidates: block_scan(block, n, scope, candidates).candidates,
            error: block_scan(block, n, scope, candidates).error,
        }),
    decreases n,
{
    let changed = block.update(j, statement);
    if n > 0 {
        let last = statement_scan(block[n - 1], scope, candidates);
        assert(changed[n - 1] == block[n - 1]);
        lemma_statement_height(block, n - 1);
        crate::laws::lemma_statement_scan(block[n - 1], scope, candidates);
        if last.error is Some {
            assert(changed.update(n - 1, last.statement) =~= block.update(
                n - 1,
                last.statement,
            ).update(j, statement));
        } else {
            lemma_block_scan_later(block, (n - 1) as nat, last.scope, last.candidates, j, statement);
            lemma_block_scan(block, (n - 1) as nat, last.scope, last.candidates);
            let rest = block_scan(block, (n - 1) as nat, last.scope, last.candidates);
            assert(rest.block.update(j, statement).update(n - 1, last.statement)
                =~= rest.block.update(n - 1, last.statement).update(j, statement));
        }
    }
}

/// At a statement without a wildcard-typed variable a pass defers nothing
/// and leaves the scope alone; what it makes of the statement holds no
/// wildcard-typed variable either, and a second pass leaves it as it is.
proof fn lemma_typed_statement(
    statement: StatementView,
    scope: ScopeView,
    candidates: Seq<(Seq<char>, DataTypeView)>,
)
    requires
        scope.depth() > 0,
        typed_statement(statement, scope),
    ensures
        statement_scan(statement, scope, candidates).scope == scope,
        statement_scan(statement, scope, candidates).candidates == candidates,
        statement_scan(statement, scope, candidates).error is None ==> typed_statement(
            statement_scan(statement, scope, candidates).statement,
            scope,
        ) && statement_scan(
            statement_scan(statement, scope, candidates).statement,
            scope,
            candidates,
        ) == statement_scan(statement, scope, candidates),
    decreases statement_height(statement), 0nat, 0nat,
{
    match statement {
        StatementView::MethodCall { method, arguments } => {
            match method.signature(scope) {
                Some(params) => {
                    let n = paired(params, arguments);
                    let rewritten = call_arguments(params, arguments);
                    lemma_typed_candidates(params, arguments, scope, n);
                    assert(candidates + call_candidates(params, arguments, scope, n)
                        =~= candidates);
                    assert(typed_arguments(rewritten, scope, n));
                    lemma_typed_candidates(params, rewritten, scope, n);
                    assert(call_arguments(params, rewritten) =~= rewritten);
                },
                None => {},
            }
        },
        StatementView::If { condition, block_true, block_false } => {
            lemma_typed_inference(block_true, scope);
            let first = inference(block_true, scope);
            if first.error is None {
                lemma_typed_inference(block_false, scope);
            }
        },
        StatementView::Loop { block } => {
            lemma_typed_inference(block, scope);
        },
        _ => {},
    }
}

/// The same of the first `n` statements of a block.
proof fn lemma_typed_block_scan(
    block: Seq<StatementView>,
    n: nat,
    scope: ScopeView,
    candidates: Seq<(Seq<char>, DataTypeView)>,
)
    requires
        n <= block.len(),
        scope.depth() > 0,
        typed_block(block, scope),
    ensures
        block_scan(block, n, scope, candidates).scope == scope,
        block_scan(block, n, scope, candidates).candidates == candidates,
        block_scan(block, n, scope, candidates).block.len() == block.len(),
        block_scan(block, n, scope, candidates).error is None ==> typed_block(
            block_scan(block, n, scope, candidates).block,
            scope,
        ) && block_scan(block_scan(block, n, scope, candidates).block, n, scope, candidates)
            == block_scan(block, n, scope, candidates),
    decreases block_height(block), 1nat, n,
{
    lemma_block_scan(block, n, scope, candidates);
    if n > 0 {
        lemma_statement_height(block, n - 1);
        lemma_typed_statement(block[n - 1], scope, candidates);
        let last = statement_scan(block[n - 1], scope, candidates);
        if last.error is None {
            lemma_typed_block_scan(block, (n - 1) as nat, scope, candidates);
            let rest = block_scan(block, (n - 1) as nat, scope, candidates);
            let whole = block_scan(block, n, scope, candidates);
            if rest.error is None {
                assert(whole.block == rest.block.update(n - 1, last.statement));
                assert forall|i: int| 0 <= i < whole.block.len() implies typed_statement(
                    #[trigger] whole.block[i],
                    scope,
                ) by {
                    if i != n - 1 {
                        assert(whole.block[i] == rest.block[i]);
                    }
                }
                lemma_block_scan_later(
                    rest.block,
                    (n - 1) as nat,
                    scope,
                    candidates,
                    n - 1,
                    last.statement,
                );
                assert(rest.block.update(n - 1, last.statement).update(n - 1, last.statement)
                    =~= rest.block.update(n - 1, last.statement));
            }
        }
    }
}

/// On a block without a wildcard-typed variable inference is one pass that
/// writes nothing; what it makes of the block holds no wildcard-typed
/// variable either, and a second inference leaves it as it is.
proof fn lemma_typed_inference(block: Seq<StatementView>, scope: ScopeView)
    requires
        scope.depth() > 0,
        typed_block(block, scope),
    ensures
        inference(block, scope).scope == scope,
        inference(block, scope).error is None ==> typed_block(inference(block, scope).block, scope)
            && inference(inference(block, scope).block, scope) == inference(block, scope),
    decreases block_height(block), 2nat, 0nat,
{
    lemma_typed_block_scan(block, block.len(), scope, Seq::empty());
    let scan = block_scan(block, block.len(), scope, Seq::empty());
    assert(!pass(block, scope).committed);
    assert(pass(block, scope).scope == scope);
    if scan.error is None {
        assert(pass(scan.block, scope) == pass(block, scope));
    }
}

/// Idempotence: where a block holds no wildcard-typed variable, inference
/// leaves the scope as it is, and if it succeeds, a second inference, on
/// what the first has made of the block, gives the same block and the same
/// scope again, without a failure.
pub proof fn lemma_inference_idempotent(block: Seq<StatementView>, scope: ScopeView)
    requires
        scope.depth() > 0,
        typed_block(block, scope),
    ensures
        inference(block, scope).scope == scope,
        inference(block, scope).error is None ==> inference(
            inference(block, scope).block,
            inference(block, scope).scope,
        ) == inference(block, scope),
{
    lemma_typed_inference(block, scope);
}

} // verus!
