//! Type inference as a function on values: what a pass over a block does to
//! the block and to the scope, and what repeating the pass arrives at.

use crate::ast::{ExpressionView, IdentifierOrPointerView, StatementView};
use crate::datatype::DataTypeView;
use crate::error::ErrorView;
use crate::measure::{block_height, lemma_statement_height, statement_height, unresolved_count};
use crate::scope::ScopeView;
use vstd::prelude::*;

verus! {

/// Where the rules have brought one statement: the statement as rewritten,
/// the scope, the candidates deferred so far, and the failure that stopped
/// the work, if one did.
pub struct StatementScan {
    pub statement: StatementView,
    pub scope: ScopeView,
    pub candidates: Seq<(Seq<char>, DataTypeView)>,
    pub error: Option<ErrorView>,
}

/// Where the rules have brought a block.
pub struct BlockScan {
    pub block: Seq<StatementView>,
    pub scope: ScopeView,
    pub candidates: Seq<(Seq<char>, DataTypeView)>,
    pub error: Option<ErrorView>,
}

/// What committing a pass's candidates does: the scope afterwards, whether a
/// candidate was written, and the failure that stopped the work, if one did.
pub struct Commit {
    pub scope: ScopeView,
    pub committed: bool,
    pub error: Option<ErrorView>,
}

/// What one pass over a block does.
pub struct Pass {
    pub block: Seq<StatementView>,
    pub scope: ScopeView,
    pub committed: bool,
    pub error: Option<ErrorView>,
}

/// What inference arrives at for a block.
pub struct Inference {
    pub block: Seq<StatementView>,
    pub scope: ScopeView,
    pub error: Option<ErrorView>,
}

/// An initial value as it stands under a declared type: under the boolean
/// type an integer literal becomes a boolean literal.
pub open spec fn initial_value(
    datatype: DataTypeView,
    expression: Option<ExpressionView>,
) -> Option<ExpressionView> {
    match expression {
        Some(e) => if datatype is Bool {
            Some(e.as_bool())
        } else {
            Some(e)
        },
        None => None,
    }
}

/// The type that a declaration's initial value proposes for its variable:
/// the wildcard where there is none.
pub open spec fn initial_datatype(
    expression: Option<ExpressionView>,
    scope: ScopeView,
) -> DataTypeView {
    match expression {
        Some(e) => e.infer_datatype(scope),
        None => DataTypeView::Any,
    }
}

/// The rule for a declaration. Where the current layer records a type for
/// the variable: a wildcard annotation takes that type, and the initial
/// value is rewritten to fit it; another annotation is a mismatch if the
/// recorded type is known and differs from it, and stays otherwise. Where
/// the current layer records nothing for the variable, the type of the
/// initial value becomes a candidate.
pub open spec fn declare_scan(
    datatype: DataTypeView,
    identifier: Seq<char>,
    expression: Option<ExpressionView>,
    scope: ScopeView,
    candidates: Seq<(Seq<char>, DataTypeView)>,
) -> StatementScan {
    let unchanged = StatementView::VarDeclare { datatype, identifier, expression };
    match scope.lookup_name_depth(identifier, 0) {
        Some(resolved) => if datatype is Any {
            StatementScan {
                statement: StatementView::VarDeclare {
                    datatype: resolved,
                    identifier,
                    expression: initial_value(resolved, expression),
                },
                scope,
                candidates,
                error: None,
            }
        } else if resolved.is_concrete() && datatype != resolved {
            StatementScan {
                statement: unchanged,
                scope,
                candidates,
                error: Some(
                    ErrorView::VarDeclareTypeMismatch {
                        identifier,
                        declared_datatype: datatype,
                        inferred_datatype: resolved,
                    },
                ),
            }
        } else {
            StatementScan { statement: unchanged, scope, candidates, error: None }
        },
        None => StatementScan {
            statement: unchanged,
            scope,
            candidates: candidates.push((identifier, initial_datatype(expression, scope))),
            error: None,
        },
    }
}

/// The rule for an assignment. Where the scope records the wildcard for the
/// variable, the type of the assigned value becomes a candidate; where it
/// records the boolean type, an assigned integer literal becomes a boolean
/// literal.
pub open spec fn assign_scan(
    identifier: Seq<char>,
    expression: ExpressionView,
    scope: ScopeView,
    candidates: Seq<(Seq<char>, DataTypeView)>,
) -> StatementScan {
    let unchanged = StatementView::VarAssign { identifier, expression };
    match scope.lookup_name(identifier) {
        Some(DataTypeView::Any) => StatementScan {
            statement: unchanged,
            scope,
            candidates: candidates.push((identifier, expression.infer_datatype(scope))),
            error: None,
        },
        Some(DataTypeView::Bool) => StatementScan {
            statement: StatementView::VarAssign { identifier, expression: expression.as_bool() },
            scope,
            candidates,
            error: None,
        },
        _ => StatementScan { statement: unchanged, scope, candidates, error: None },
    }
}

/// The number of positions that a signature and a call's arguments share.
pub open spec fn paired(params: Seq<DataTypeView>, arguments: Seq<ExpressionView>) -> nat {
    if params.len() <= arguments.len() {
        params.len()
    } else {
        arguments.len()
    }
}

/// A call's arguments as rewritten under its callee's signature: an integer
/// literal at the position of a boolean parameter becomes a boolean literal.
pub open spec fn call_arguments(
    params: Seq<DataTypeView>,
    arguments: Seq<ExpressionView>,
) -> Seq<ExpressionView> {
    Seq::new(
        arguments.len(),
        |i: int|
            if i < params.len() && params[i] is Bool {
                arguments[i].as_bool()
            } else {
                arguments[i]
            },
    )
}

/// The candidates that the first `n` arguments of a call give, in order:
/// each variable that the scope records with the wildcard, with the type of
/// the parameter at its position.
pub open spec fn call_candidates(
    params: Seq<DataTypeView>,
    arguments: Seq<ExpressionView>,
    scope: ScopeView,
    n: nat,
) -> Seq<(Seq<char>, DataTypeView)>
    recommends
        n <= paired(params, arguments),
    decreases n,
{
    if n == 0 {
        Seq::empty()
    } else {
        let earlier = call_candidates(params, arguments, scope, (n - 1) as nat);
        match arguments[n - 1] {
            ExpressionView::Identifier(name) => if scope.lookup_name(name) == Some(
                DataTypeView::Any,
            ) {
                earlier.push((name, params[n - 1]))
            } else {
                earlier
            },
            _ => earlier,
        }
    }
}

/// The rule for a call: where the callee stands for a callable in the
/// scope, its arguments are read against the signature; else nothing
/// happens.
pub open spec fn call_scan(
    method: IdentifierOrPointerView,
    arguments: Seq<ExpressionView>,
    scope: ScopeView,
    candidates: Seq<(Seq<char>, DataTypeView)>,
) -> StatementScan {
    match method.signature(scope) {
        Some(params) => StatementScan {
            statement: StatementView::MethodCall {
                method,
                arguments: call_arguments(params, arguments),
            },
            scope,
            candidates: candidates + call_candidates(
                params,
                arguments,
                scope,
                paired(params, arguments),
            ),
            error: None,
        },
        None => StatementScan {
            statement: StatementView::MethodCall { method, arguments },
            scope,
            candidates,
            error: None,
        },
    }
}

/// What a pass does at one statement: the rule of its kind, and for each
/// block that it owns, in order, the whole inference of that block. A
/// failure in a block leaves the blocks after it untouched.
pub open spec fn statement_scan(
    statement: StatementView,
    scope: ScopeView,
    candidates: Seq<(Seq<char>, DataTypeView)>,
) -> StatementScan
    decreases statement_height(statement), 0nat, 0nat,
{
    match statement {
        StatementView::VarDeclare { datatype, identifier, expression } => declare_scan(
            datatype,
            identifier,
            expression,
            scope,
            candidates,
        ),
        StatementView::VarAssign { identifier, expression } => assign_scan(
            identifier,
            expression,
            scope,
            candidates,
        ),
        StatementView::MethodCall { method, arguments } => call_scan(
            method,
            arguments,
            scope,
            candidates,
        ),
        StatementView::If { condition, block_true, block_false } => {
            let first = inference(block_true, scope);
            if first.error is Some {
                StatementScan {
                    statement: StatementView::If { condition, block_true: first.block, block_false },
                    scope: first.scope,
                    candidates,
                    error: first.error,
                }
            } else {
                let second = inference(block_false, first.scope);
                StatementScan {
                    statement: StatementView::If {
                        condition,
                        block_true: first.block,
                        block_false: second.block,
                    },
                    scope: second.scope,
                    candidates,
                    error: second.error,
                }
            }
        },
        StatementView::Loop { block } => {
            let inner = inference(block, scope);
            StatementScan {
                statement: StatementView::Loop { block: inner.block },
                scope: inner.scope,
                candidates,
                error: inner.error,
            }
        },
        StatementView::Return => StatementScan { statement, scope, candidates, error: None },
    }
}

/// What a pass does to the first `n` statements of `block`, taken from the
/// last of them to the first. A failure leaves the statements before it
/// untouched.
pub open spec fn block_scan(
    block: Seq<StatementView>,
    n: nat,
    scope: ScopeView,
    candidates: Seq<(Seq<char>, DataTypeView)>,
) -> BlockScan
    recommends
        n <= block.len(),
    decreases block_height(block), 1nat, n,
{
    if n == 0 || n > block.len() {
        BlockScan { block, scope, candidates, error: None }
    } else {
        proof {
            lemma_statement_height(block, n - 1);
        }
        let last = statement_scan(block[n - 1], scope, candidates);
        if last.error is Some {
            BlockScan {
                block: block.update(n - 1, last.statement),
                scope: last.scope,
                candidates: last.candidates,
                error: last.error,
            }
        } else {
            let rest = block_scan(block, (n - 1) as nat, last.scope, last.candidates);
            BlockScan {
                block: rest.block.update(n - 1, last.statement),
                scope: rest.scope,
                candidates: rest.candidates,
                error: rest.error,
            }
        }
    }
}

/// What committing `candidates`, in order, does to `scope`. A candidate
/// with a known type is written into the current layer. The first
/// candidate that is still the wildcard ends the commit: neither it nor
/// any candidate after it is written. A candidate for a variable that the
/// current layer records with a known type is a failure, and nothing is
/// overwritten.
pub open spec fn commit(candidates: Seq<(Seq<char>, DataTypeView)>, scope: ScopeView) -> Commit
    decreases candidates.len(),
{
    if candidates.len() == 0 {
        Commit { scope, committed: false, error: None }
    } else {
        let (name, datatype) = candidates[0];
        if datatype is Any {
            Commit { scope, committed: false, error: None }
        } else if scope.resolves(name) {
            Commit {
                scope,
                committed: false,
                error: Some(
                    ErrorView::TypeAlreadyKnown {
                        identifier: name,
                        known_datatype: scope.current().names[name],
                        inferred_datatype: datatype,
                    },
                ),
            }
        } else {
            let rest = commit(candidates.drop_first(), scope.insert_name(name, datatype));
            Commit { scope: rest.scope, committed: true, error: rest.error }
        }
    }
}

/// One pass over `block`: the rules at each statement, from the last to the
/// first, and then the commit of the candidates that they deferred.
pub open spec fn pass(block: Seq<StatementView>, scope: ScopeView) -> Pass
    decreases block_height(block), 2nat, 0nat,
{
    let scan = block_scan(block, block.len(), scope, Seq::empty());
    if scan.error is Some {
        Pass { block: scan.block, scope: scan.scope, committed: false, error: scan.error }
    } else {
        let written = commit(scan.candidates, scan.scope);
        Pass {
            block: scan.block,
            scope: written.scope,
            committed: written.committed,
            error: written.error,
        }
    }
}

/// Whether a pass has made progress: it ended without a failure, it wrote
/// a candidate, and it has left the block as high as it was with fewer
/// unresolved variables. The last two are what makes repeating the pass
/// come to an end; they hold of every pass that wrote a candidate
/// ([`crate::laws::lemma_pass_descends`]).
pub open spec fn progress(block: Seq<StatementView>, scope: ScopeView, after: Pass) -> bool {
    &&& after.error is None
    &&& after.committed
    &&& block_height(after.block) == block_height(block)
    &&& unresolved_count(after.block, after.scope) < unresolved_count(block, scope)
}

/// What inference arrives at for `block`: the pass, repeated until one
/// fails or makes no progress.
pub open spec fn inference(block: Seq<StatementView>, scope: ScopeView) -> Inference
    decreases block_height(block), 3nat, unresolved_count(block, scope),
{
    let after = pass(block, scope);
    if progress(block, scope, after) {
        inference(after.block, after.scope)
    } else {
        Inference { block: after.block, scope: after.scope, error: after.error }
    }
}

/// The number of passes that inference makes over `block`.
pub open spec fn pass_count(block: Seq<StatementView>, scope: ScopeView) -> nat
    decreases unresolved_count(block, scope),
{
    let after = pass(block, scope);
    if progress(block, scope, after) {
        1 + pass_count(after.block, after.scope)
    } else {
        1
    }
}

} // verus!
