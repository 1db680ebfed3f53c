//! What holds of every inference: a pass leaves the shape of the block
//! alone, it only ever adds known types to the scope, and each pass that
//! writes a candidate leaves fewer variables unresolved, so that the passes
//! come to an end.

use crate::ast::{ExpressionView, StatementView};
use crate::datatype::DataTypeView;
use crate::measure::{
    block_height, block_names, expression_names, lemma_blocks_agree, lemma_expression_name,
    lemma_statement_height, lemma_statement_names, lemma_unresolved_shrinks, statement_height,
    statement_names, unresolved_count,
};
use crate::model::{
    block_scan, call_arguments, call_candidates, commit, inference, paired, pass, pass_count,
    progress, statement_scan,
};
use crate::scope::ScopeView;
use vstd::prelude::*;

verus! {

/// Whether `after` is `before` with types added in its current layer: the
/// layers below are the same, the current layer names the addresses as
/// before, and every variable that the current layer resolved has kept its
/// type.
pub open spec fn extends(before: ScopeView, after: ScopeView) -> bool {
    &&& after.depth() == before.depth()
    &&& forall|i: int| 1 <= i < before.depth() ==> after.layers[i] == before.layers[i]
    &&& before.depth() > 0 ==> after.current().ptrs == before.current().ptrs
    &&& forall|name: Seq<char>|
        before.resolves(name) ==> after.resolves(name) && after.current().names[name]
            == before.current().names[name]
}

/// Whether two statements are as high as each other and name the same
/// variables.
pub open spec fn same_shape(a: StatementView, b: StatementView) -> bool {
    &&& statement_height(a) == statement_height(b)
    &&& statement_names(a) == statement_names(b)
}

/// Whether `after` is `before` with candidates added at its end, each for
/// one of `names`.
pub open spec fn grows_within(
    before: Seq<(Seq<char>, DataTypeView)>,
    after: Seq<(Seq<char>, DataTypeView)>,
    names: Set<Seq<char>>,
) -> bool {
    &&& before.len() <= after.len()
    &&& forall|k: int| 0 <= k < before.len() ==> after[k] == before[k]
    &&& forall|k: int| before.len() <= k < after.len() ==> names.contains(after[k].0)
}

/// Rewriting the arguments of a call changes no name among them.
pub proof fn lemma_call_arguments_names(params: Seq<DataTypeView>, arguments: Seq<ExpressionView>)
    ensures
        expression_names(call_arguments(params, arguments)) == expression_names(arguments),
    decreases arguments.len(),
{
    if arguments.len() > 0 {
        lemma_call_arguments_names(params, arguments.drop_last());
        assert(call_arguments(params, arguments).drop_last() =~= call_arguments(
            params,
            arguments.drop_last(),
        ));
    }
}

/// The candidates of a call are for variables among its arguments.
pub proof fn lemma_call_candidates_names(
    params: Seq<DataTypeView>,
    arguments: Seq<ExpressionView>,
    scope: ScopeView,
    n: nat,
)
    requires
        n <= paired(params, arguments),
    ensures
        forall|k: int|
            0 <= k < call_candidates(params, arguments, scope, n).len() ==> expression_names(
                arguments,
            ).contains(#[trigger] call_candidates(params, arguments, scope, n)[k].0),
    decreases n,
{
    let all = call_candidates(params, arguments, scope, n);
    if n > 0 {
        let earlier = call_candidates(params, arguments, scope, (n - 1) as nat);
        lemma_call_candidates_names(params, arguments, scope, (n - 1) as nat);
        assert forall|k: int| 0 <= k < all.len() implies expression_names(arguments).contains(
            #[trigger] all[k].0,
        ) by {
            if k < earlier.len() {
                assert(all[k] == earlier[k]);
            } else {
                lemma_expression_name(arguments, n - 1);
            }
        }
    }
}

/// What a pass does at one statement leaves its shape alone, extends the
/// scope, and defers candidates for variables of the statement only.
pub proof fn lemma_statement_scan(
    statement: StatementView,
    scope: ScopeView,
    candidates: Seq<(Seq<char>, DataTypeView)>,
)
    requires
        scope.depth() > 0,
    ensures
        same_shape(statement_scan(statement, scope, candidates).statement, statement),
        extends(scope, statement_scan(statement, scope, candidates).scope),
        grows_within(
            candidates,
            statement_scan(statement, scope, candidates).candidates,
            statement_names(statement),
        ),
    decreases statement_height(statement), 0nat, 0nat,
{
    match statement {
        StatementView::MethodCall { method, arguments } => {
            match method.signature(scope) {
                Some(params) => {
                    lemma_call_arguments_names(params, arguments);
                    lemma_call_candidates_names(
                        params,
                        arguments,
                        scope,
                        paired(params, arguments),
                    );
                },
                None => {},
            }
        },
        StatementView::If { condition, block_true, block_false } => {
            lemma_inference(block_true, scope);
            let first = inference(block_true, scope);
            if first.error is None {
                lemma_inference(block_false, first.scope);
            }
        },
        StatementView::Loop { block } => {
            lemma_inference(block, scope);
        },
        _ => {},
    }
}

/// What a pass does to the statements of a block leaves the shape of each
/// alone, extends the scope, and defers candidates for variables of the
/// block only.
pub proof fn lemma_block_scan(
    block: Seq<StatementView>,
    n: nat,
    scope: ScopeView,
    candidates: Seq<(Seq<char>, DataTypeView)>,
)
    requires
        n <= block.len(),
        scope.depth() > 0,
    ensures
        block_scan(block, n, scope, candidates).block.len() == block.len(),
        forall|j: int|
            0 <= j < block.len() ==> same_shape(
                #[trigger] block_scan(block, n, scope, candidates).block[j],
                block[j],
            ),
        forall|j: int|
            n <= j < block.len() ==> #[trigger] block_scan(block, n, scope, candidates).block[j]
                == block[j],
        extends(scope, block_scan(block, n, scope, candidates).scope),
        grows_within(
            candidates,
            block_scan(block, n, scope, candidates).candidates,
            block_names(block),
        ),
    decreases block_height(block), 1nat, n,
{
    if n > 0 {
        lemma_statement_height(block, n - 1);
        lemma_statement_names(block, n - 1);
        lemma_statement_scan(block[n - 1], scope, candidates);
        let last = statement_scan(block[n - 1], scope, candidates);
        if last.error is None {
            lemma_block_scan(block, (n - 1) as nat, last.scope, last.candidates);
        }
    }
}

/// A commit extends the scope, and where it writes a candidate it resolves
/// a variable that was not resolved before.
pub proof fn lemma_commit(
    candidates: Seq<(Seq<char>, DataTypeView)>,
    scope: ScopeView,
    names: Set<Seq<char>>,
)
    requires
        scope.depth() > 0,
        forall|k: int| 0 <= k < candidates.len() ==> names.contains(candidates[k].0),
    ensures
        extends(scope, commit(candidates, scope).scope),
        commit(candidates, scope).committed ==> exists|name: Seq<char>|
            names.contains(name) && !scope.resolves(name) && commit(
                candidates,
                scope,
            ).scope.resolves(name),
    decreases candidates.len(),
{
    if candidates.len() > 0 {
        let (name, datatype) = candidates[0];
        if !(datatype is Any) && !scope.resolves(name) {
            let next = scope.insert_name(name, datatype);
            assert(next.resolves(name));
            assert(extends(scope, next));
            assert forall|k: int| 0 <= k < candidates.drop_first().len() implies names.contains(
                candidates.drop_first()[k].0,
            ) by {
                assert(candidates.drop_first()[k] == candidates[k + 1]);
            }
            lemma_commit(candidates.drop_first(), next, names);
            assert(commit(candidates, scope).scope.resolves(name));
        }
    }
}

/// A pass leaves the shape of the block alone and extends the scope, and a
/// pass that writes a candidate leaves fewer variables unresolved.
pub proof fn lemma_pass(block: Seq<StatementView>, scope: ScopeView)
    requires
        scope.depth() > 0,
    ensures
        pass(block, scope).block.len() == block.len(),
        block_height(pass(block, scope).block) == block_height(block),
        block_names(pass(block, scope).block) == block_names(block),
        extends(scope, pass(block, scope).scope),
        unresolved_count(pass(block, scope).block, pass(block, scope).scope) <= unresolved_count(
            block,
            scope,
        ),
        pass(block, scope).committed ==> unresolved_count(
            pass(block, scope).block,
            pass(block, scope).scope,
        ) < unresolved_count(block, scope),
    decreases block_height(block), 2nat, 0nat,
{
    let scan = block_scan(block, block.len(), scope, Seq::empty());
    lemma_block_scan(block, block.len(), scope, Seq::empty());
    lemma_blocks_agree(scan.block, block);
    lemma_unresolved_shrinks(block, scope, scan.scope);
    if scan.error is None {
        lemma_commit(scan.candidates, scan.scope, block_names(block));
        let written = commit(scan.candidates, scan.scope);
        lemma_unresolved_shrinks(block, scope, written.scope);
        if written.committed {
            let name = choose|name: Seq<char>|
                block_names(block).contains(name) && !scan.scope.resolves(name)
                    && written.scope.resolves(name);
            assert(!scope.resolves(name));
        }
    }
}

/// Inference leaves the shape of the block alone and extends the scope. So
/// a type that the current layer records for a variable, once it is known,
/// is never replaced, and nothing is written but types into the current
/// layer.
pub proof fn lemma_inference(block: Seq<StatementView>, scope: ScopeView)
    requires
        scope.depth() > 0,
    ensures
        inference(block, scope).block.len() == block.len(),
        block_height(inference(block, scope).block) == block_height(block),
        block_names(inference(block, scope).block) == block_names(block),
        extends(scope, inference(block, scope).scope),
    decreases block_height(block), 3nat, unresolved_count(block, scope),
{
    lemma_pass(block, scope);
    let after = pass(block, scope);
    if progress(block, scope, after) {
        lemma_inference(after.block, after.scope);
    }
}

/// Every pass that ends without a failure and has written a candidate has
/// made progress: the block is as high as it was, and fewer of its
/// variables are unresolved. So the passes are repeated exactly until one
/// writes nothing, and they come to an end because a block names finitely
/// many variables.
pub proof fn lemma_pass_descends(block: Seq<StatementView>, scope: ScopeView)
    requires
        scope.depth() > 0,
    ensures
        pass(block, scope).error is None && pass(block, scope).committed ==> progress(
            block,
            scope,
            pass(block, scope),
        ),
{
    lemma_pass(block, scope);
}

/// Inference makes at most one pass more than the block has unresolved
/// variables.
pub proof fn lemma_pass_count(block: Seq<StatementView>, scope: ScopeView)
    requires
        scope.depth() > 0,
    ensures
        1 <= pass_count(block, scope) <= unresolved_count(block, scope) + 1,
    decreases unresolved_count(block, scope),
{
    lemma_pass(block, scope);
    let after = pass(block, scope);
    if progress(block, scope, after) {
        lemma_pass_count(after.block, after.scope);
    }
}

} // verus!
