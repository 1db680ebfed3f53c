//! How a use of a variable reaches its declaration: the type that a call
//! demands of an unresolved variable is recorded by one pass and stamped
//! on the declaration, which stands before the call, by the next.

use crate::ast::{ExpressionView, IdentifierOrPointerView, StatementView};
use crate::capture::{capture_block, capture_ready};
use crate::datatype::DataTypeView;
use crate::decompile::decompiled;
use crate::error::ErrorView;
use crate::laws::lemma_pass;
use crate::model::{
    block_scan, call_arguments, call_candidates, commit, inference, pass, statement_scan,
    BlockScan, Inference, Pass,
};
use crate::scope::{lemma_lookup_current, ScopeView};
use vstd::prelude::*;

verus! {

/// Recording a type for one name leaves the lookups of the other names and
/// of the addresses as they were.
pub proof fn lemma_insert_name_elsewhere(
    scope: ScopeView,
    name: Seq<char>,
    datatype: DataTypeView,
)
    requires
        scope.depth() > 0,
    ensures
        scope.insert_name(name, datatype).lookup_name(name) == Some(datatype),
        forall|other: Seq<char>|
            other != name ==> scope.insert_name(name, datatype).lookup_name(other)
                == scope.lookup_name(other),
        forall|ptr: u32| scope.insert_name(name, datatype).lookup_ptr(ptr) == scope.lookup_ptr(ptr),
{
    let after = scope.insert_name(name, datatype);
    assert(after.layers.drop_first() =~= scope.layers.drop_first());
}

/// A callable keeps its signature when a type is recorded for a variable
/// that was recorded with the wildcard.
proof fn lemma_signature_stays(
    scope: ScopeView,
    method: IdentifierOrPointerView,
    name: Seq<char>,
    datatype: DataTypeView,
)
    requires
        scope.depth() > 0,
        scope.lookup_name(name) == Some(DataTypeView::Any),
        method.signature(scope) is Some,
    ensures
        method.signature(scope.insert_name(name, datatype)) == method.signature(scope),
{
    lemma_insert_name_elsewhere(scope, name, datatype);
}

/// The block of a declaration of `name` with an integer literal as its
/// initial value, followed by a call that passes `name` to `method`.
pub open spec fn declared_then_passed(
    datatype: DataTypeView,
    name: Seq<char>,
    value: ExpressionView,
    method: IdentifierOrPointerView,
) -> Seq<StatementView> {
    seq![
        StatementView::VarDeclare { datatype, identifier: name, expression: Some(value) },
        StatementView::MethodCall { method, arguments: seq![ExpressionView::Identifier(name)] },
    ]
}

/// The first pass over a declaration followed by a call that demands a
/// boolean of the declared variable, where the current layer records the
/// variable with the wildcard: the block stays, and the variable is
/// recorded as boolean.
proof fn lemma_first_pass(
    scope: ScopeView,
    datatype: DataTypeView,
    name: Seq<char>,
    value: ExpressionView,
    method: IdentifierOrPointerView,
)
    requires
        scope.depth() > 0,
        scope.current().datatype(name) == Some(DataTypeView::Any),
        method.signature(scope) matches Some(params) && params.len() > 0 && params[0] is Bool,
    ensures
        pass(declared_then_passed(datatype, name, value, method), scope) == (Pass {
            block: declared_then_passed(datatype, name, value, method),
            scope: scope.insert_name(name, DataTypeView::Bool),
            committed: true,
            error: None,
        }),
{
    let block = declared_then_passed(datatype, name, value, method);
    let params = method.signature(scope)->Some_0;
    let arguments = seq![ExpressionView::Identifier(name)];
    let none = Seq::<(Seq<char>, DataTypeView)>::empty();
    let found = seq![(name, DataTypeView::Bool)];
    lemma_lookup_current(scope, name);
    assert(scope.lookup_name(name) == Some(DataTypeView::Any));
    reveal_with_fuel(call_candidates, 2);
    assert(call_candidates(params, arguments, scope, 1) =~= found);
    assert(call_arguments(params, arguments) =~= arguments);
    assert(none + found =~= found);
    let called = statement_scan(block[1], scope, none);
    assert(called.statement == block[1]);
    assert(called.candidates == found);
    assert(called.scope == scope);
    let declared = statement_scan(block[0], scope, found);
    assert(declared.statement == block[0]);
    assert(declared.candidates == found);
    assert(declared.error is None);
    reveal_with_fuel(block_scan, 3);
    let scanned = block_scan(block, 2, scope, none);
    assert(block_scan(block, 0, scope, found) == (BlockScan {
        block,
        scope,
        candidates: found,
        error: None,
    }));
    assert(block.update(0, block[0]) =~= block);
    assert(block.update(1, block[1]) =~= block);
    assert(scanned.block == block);
    assert(scanned.candidates == found);
    reveal_with_fuel(commit, 3);
    assert(found.drop_first() =~= none);
    assert(!scope.resolves(name));
}

/// Backward propagation. A variable is declared without a type and with an
/// integer literal as its initial value, and is later passed to a callable
/// whose first parameter is boolean. If the current layer records the
/// variable with the wildcard, inference succeeds: it declares the variable
/// as boolean, rewrites the literal to the boolean that says whether it is
/// 1, leaves the call as it is, and records the variable as boolean.
pub proof fn lemma_backward_propagation(
    scope: ScopeView,
    name: Seq<char>,
    value: u32,
    method: IdentifierOrPointerView,
)
    requires
        scope.depth() > 0,
        scope.current().datatype(name) == Some(DataTypeView::Any),
        method.signature(scope) matches Some(params) && params.len() > 0 && params[0] is Bool,
    ensures
        inference(
            declared_then_passed(
                DataTypeView::Any,
                name,
                ExpressionView::LiteralInt(value),
                method,
            ),
            scope,
        ) == (Inference {
            block: declared_then_passed(
                DataTypeView::Bool,
                name,
                ExpressionView::LiteralBool(value == 1),
                method,
            ),
            scope: scope.insert_name(name, DataTypeView::Bool),
            error: None,
        }),
{
    let block = declared_then_passed(
        DataTypeView::Any,
        name,
        ExpressionView::LiteralInt(value),
        method,
    );
    let typed = declared_then_passed(
        DataTypeView::Bool,
        name,
        ExpressionView::LiteralBool(value == 1),
        method,
    );
    let params = method.signature(scope)->Some_0;
    let arguments = seq![ExpressionView::Identifier(name)];
    let none = Seq::<(Seq<char>, DataTypeView)>::empty();
    let next = scope.insert_name(name, DataTypeView::Bool);
    lemma_first_pass(scope, DataTypeView::Any, name, ExpressionView::LiteralInt(value), method);
    lemma_pass(block, scope);
    lemma_lookup_current(scope, name);
    lemma_signature_stays(scope, method, name, DataTypeView::Bool);
    lemma_insert_name_elsewhere(scope, name, DataTypeView::Bool);
    lemma_lookup_current(next, name);
    // The second pass.
    reveal_with_fuel(call_candidates, 2);
    assert(call_candidates(params, arguments, next, 1) =~= none);
    assert(call_arguments(params, arguments) =~= arguments);
    assert(none + none =~= none);
    let called = statement_scan(block[1], next, none);
    assert(called.statement == block[1]);
    assert(called.candidates == none);
    let declared = statement_scan(block[0], next, none);
    assert(declared.statement == typed[0]);
    assert(declared.candidates == none);
    reveal_with_fuel(block_scan, 3);
    assert(block.update(1, block[1]).update(0, typed[0]) =~= typed);
    assert(block.update(1, block[1]) =~= block);
    assert(block.update(0, typed[0]) =~= typed);
    let scanned = block_scan(block, 2, next, none);
    assert(scanned.block == typed);
    assert(scanned.candidates == none);
    assert(scanned.error is None);
    reveal_with_fuel(commit, 2);
    assert(pass(block, next) == (Pass { block: typed, scope: next, committed: false, error: None }));
    reveal_with_fuel(inference, 3);
}

/// From the decoder's statements to the typed declaration. A variable is
/// declared without a type and with an integer literal as its initial
/// value, and is later passed to an engine method whose first parameter is
/// boolean. If the current layer records the variable with the wildcard,
/// decompiling leaves the call as it is, declares the variable as boolean
/// with the boolean that says whether the literal is 1, and records the
/// variable as boolean.
pub proof fn lemma_decompiled_propagation(
    scope: ScopeView,
    name: Seq<char>,
    value: u32,
    method: IdentifierOrPointerView,
)
    requires
        scope.depth() > 0,
        scope.current().datatype(name) == Some(DataTypeView::Any),
        method.lookup(scope) matches Some((_, DataTypeView::Asm(params))) && params.len() > 0
            && params[0] is Bool,
    ensures
        capture_ready(
            declared_then_passed(
                DataTypeView::Any,
                name,
                ExpressionView::LiteralInt(value),
                method,
            ),
            scope,
        ),
        decompiled(
            declared_then_passed(
                DataTypeView::Any,
                name,
                ExpressionView::LiteralInt(value),
                method,
            ),
            scope,
        ) == (Inference {
            block: declared_then_passed(
                DataTypeView::Bool,
                name,
                ExpressionView::LiteralBool(value == 1),
                method,
            ),
            scope: scope.insert_name(name, DataTypeView::Bool),
            error: None,
        }),
{
    let block = declared_then_passed(
        DataTypeView::Any,
        name,
        ExpressionView::LiteralInt(value),
        method,
    );
    assert(capture_block(block, scope) =~= block);
    lemma_backward_propagation(scope, name, value, method);
}

/// Mismatch detection. A variable is declared with a known type other than
/// the boolean type, and is later passed to a callable whose first
/// parameter is boolean. If the current layer records the variable with the
/// wildcard, inference fails with a mismatch that names the variable, the
/// declared type and the boolean type.
pub proof fn lemma_mismatch_detection(
    scope: ScopeView,
    datatype: DataTypeView,
    name: Seq<char>,
    value: ExpressionView,
    method: IdentifierOrPointerView,
)
    requires
        scope.depth() > 0,
        scope.current().datatype(name) == Some(DataTypeView::Any),
        method.signature(scope) matches Some(params) && params.len() > 0 && params[0] is Bool,
        datatype.is_concrete(),
        datatype != DataTypeView::Bool,
    ensures
        inference(declared_then_passed(datatype, name, value, method), scope).error == Some(
            ErrorView::VarDeclareTypeMismatch {
                identifier: name,
                declared_datatype: datatype,
                inferred_datatype: DataTypeView::Bool,
            },
        ),
{
    let block = declared_then_passed(datatype, name, value, method);
    let params = method.signature(scope)->Some_0;
    let arguments = seq![ExpressionView::Identifier(name)];
    let none = Seq::<(Seq<char>, DataTypeView)>::empty();
    let next = scope.insert_name(name, DataTypeView::Bool);
    lemma_first_pass(scope, datatype, name, value, method);
    lemma_pass(block, scope);
    lemma_lookup_current(scope, name);
    lemma_signature_stays(scope, method, name, DataTypeView::Bool);
    lemma_insert_name_elsewhere(scope, name, DataTypeView::Bool);
    lemma_lookup_current(next, name);
    reveal_with_fuel(call_candidates, 2);
    assert(call_candidates(params, arguments, next, 1) =~= none);
    assert(call_arguments(params, arguments) =~= arguments);
    assert(none + none =~= none);
    let called = statement_scan(block[1], next, none);
    assert(called.statement == block[1]);
    assert(called.candidates == none);
    let declared = statement_scan(block[0], next, none);
    assert(declared.error == Some(
        ErrorView::VarDeclareTypeMismatch {
            identifier: name,
            declared_datatype: datatype,
            inferred_datatype: DataTypeView::Bool,
        },
    ));
    reveal_with_fuel(block_scan, 3);
    let scanned = block_scan(block, 2, next, none);
    assert(scanned.error == declared.error);
    assert(pass(block, next).error == declared.error);
    reveal_with_fuel(inference, 3);
}

} // verus!
