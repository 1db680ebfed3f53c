//! What inference leaves alone in a block: how deep its blocks nest and
//! which variables it names. The two bound the work of the inference.

use crate::ast::{ExpressionView, StatementView};
use crate::scope::ScopeView;
use vstd::prelude::*;

verus! {

/// The larger of two numbers.
pub open spec fn larger(a: nat, b: nat) -> nat {
    if a >= b {
        a
    } else {
        b
    }
}

/// How deep the blocks nest inside `statement`: 0 where it owns none.
pub open spec fn statement_height(statement: StatementView) -> nat
    decreases statement,
{
    match statement {
        StatementView::If { condition, block_true, block_false } => 1 + larger(
            block_height(block_true),
            block_height(block_false),
        ),
        StatementView::Loop { block } => 1 + block_height(block),
        _ => 0,
    }
}

/// The greatest height of a statement of `block`.
pub open spec fn block_height(block: Seq<StatementView>) -> nat
    decreases block,
{
    if block.len() == 0 {
        0
    } else {
        larger(block_height(block.drop_last()), statement_height(block.last()))
    }
}

/// The variables that the expressions name directly.
pub open spec fn expression_names(expressions: Seq<ExpressionView>) -> Set<Seq<char>>
    decreases expressions.len(),
{
    if expressions.len() == 0 {
        Set::empty()
    } else {
        match expressions.last() {
            ExpressionView::Identifier(name) => expression_names(expressions.drop_last()).insert(
                name,
            ),
            _ => expression_names(expressions.drop_last()),
        }
    }
}

/// The variables that inference may find a type for in `statement`: those
/// it declares, assigns or passes to a call, its nested blocks included.
pub open spec fn statement_names(statement: StatementView) -> Set<Seq<char>>
    decreases statement,
{
    match statement {
        StatementView::VarDeclare { datatype, identifier, expression } => set![identifier],
        StatementView::VarAssign { identifier, expression } => set![identifier],
        StatementView::MethodCall { method, arguments } => expression_names(arguments),
        StatementView::If { condition, block_true, block_false } => block_names(block_true).union(
            block_names(block_false),
        ),
        StatementView::Loop { block } => block_names(block),
        StatementView::Return => Set::empty(),
    }
}

/// The variables that inference may find a type for in `block`.
pub open spec fn block_names(block: Seq<StatementView>) -> Set<Seq<char>>
    decreases block,
{
    if block.len() == 0 {
        Set::empty()
    } else {
        block_names(block.drop_last()).union(statement_names(block.last()))
    }
}

/// The variables of `block` for which the current layer of `scope` records
/// no type, or the wildcard.
pub open spec fn unresolved_names(block: Seq<StatementView>, scope: ScopeView) -> Set<Seq<char>> {
    block_names(block).filter(|name: Seq<char>| !scope.resolves(name))
}

/// The number of distinct unresolved variables of `block`.
pub open spec fn unresolved_count(block: Seq<StatementView>, scope: ScopeView) -> nat {
    unresolved_names(block, scope).len()
}

/// No statement is higher than the block it stands in.
pub proof fn lemma_statement_height(block: Seq<StatementView>, i: int)
    requires
        0 <= i < block.len(),
    ensures
        statement_height(block[i]) <= block_height(block),
    decreases block.len(),
{
    if i < block.len() - 1 {
        lemma_statement_height(block.drop_last(), i);
    }
}

/// A block names what its statements name.
pub proof fn lemma_statement_names(block: Seq<StatementView>, i: int)
    requires
        0 <= i < block.len(),
    ensures
        statement_names(block[i]).subset_of(block_names(block)),
    decreases block.len(),
{
    if i < block.len() - 1 {
        lemma_statement_names(block.drop_last(), i);
    }
}

/// Expressions name finitely many variables.
pub proof fn lemma_expression_names_finite(expressions: Seq<ExpressionView>)
    ensures
        expression_names(expressions).finite(),
    decreases expressions.len(),
{
    if expressions.len() > 0 {
        lemma_expression_names_finite(expressions.drop_last());
    }
}

/// An identifier among the expressions is one of the names.
pub proof fn lemma_expression_name(expressions: Seq<ExpressionView>, i: int)
    requires
        0 <= i < expressions.len(),
        expressions[i] is Identifier,
    ensures
        expression_names(expressions).contains(expressions[i]->Identifier_0),
    decreases expressions.len(),
{
    if i < expressions.len() - 1 {
        lemma_expression_name(expressions.drop_last(), i);
    }
}

/// A statement names finitely many variables.
pub proof fn lemma_statement_names_finite(statement: StatementView)
    ensures
        statement_names(statement).finite(),
    decreases statement,
{
    match statement {
        StatementView::MethodCall { method, arguments } => {
            lemma_expression_names_finite(arguments);
        },
        StatementView::If { condition, block_true, block_false } => {
            lemma_block_names_finite(block_true);
            lemma_block_names_finite(block_false);
        },
        StatementView::Loop { block } => {
            lemma_block_names_finite(block);
        },
        _ => {},
    }
}

/// A block names finitely many variables.
pub proof fn lemma_block_names_finite(block: Seq<StatementView>)
    ensures
        block_names(block).finite(),
    decreases block,
{
    if block.len() > 0 {
        lemma_block_names_finite(block.drop_last());
        lemma_statement_names_finite(block.last());
    }
}

/// Two blocks whose statements agree, one by one, in height and in names
/// agree in height and in names.
pub proof fn lemma_blocks_agree(a: Seq<StatementView>, b: Seq<StatementView>)
    requires
        a.len() == b.len(),
        forall|i: int|
            0 <= i < a.len() ==> statement_height(a[i]) == statement_height(b[i])
                && statement_names(a[i]) == statement_names(b[i]),
    ensures
        block_height(a) == block_height(b),
        block_names(a) == block_names(b),
    decreases a.len(),
{
    if a.len() > 0 {
        lemma_blocks_agree(a.drop_last(), b.drop_last());
    }
}

/// The unresolved variables of a block are finitely many; a scope that
/// resolves all that another resolves leaves no more of them unresolved,
/// and fewer where it resolves one more of them.
pub proof fn lemma_unresolved_shrinks(
    block: Seq<StatementView>,
    before: ScopeView,
    after: ScopeView,
)
    requires
        forall|name: Seq<char>| before.resolves(name) ==> after.resolves(name),
    ensures
        unresolved_names(block, before).finite(),
        unresolved_count(block, after) <= unresolved_count(block, before),
        (exists|name: Seq<char>|
            block_names(block).contains(name) && !before.resolves(name) && after.resolves(name))
            ==> unresolved_count(block, after) < unresolved_count(block, before),
{
    lemma_block_names_finite(block);
    let names = block_names(block);
    let was = unresolved_names(block, before);
    let is = unresolved_names(block, after);
    names.lemma_len_filter(|name: Seq<char>| !before.resolves(name));
    assert(is.subset_of(was));
    vstd::set_lib::lemma_len_subset(is, was);
    if exists|name: Seq<char>|
        block_names(block).contains(name) && !before.resolves(name) && after.resolves(name) {
        let name = choose|name: Seq<char>|
            block_names(block).contains(name) && !before.resolves(name) && after.resolves(name);
        assert(was.contains(name));
        assert(is.subset_of(was.remove(name)));
        vstd::set_lib::lemma_len_subset(is, was.remove(name));
    }
}

} // verus!
