//! The calling convention of script functions. A call of a script function
//! passes the caller's whole register file, so the decoder emits it without
//! arguments; this pass writes the arguments out. Engine methods take their
//! arguments explicitly, and their calls stay as they are.

use crate::ast::{
    view_block, view_expressions, Expression, ExpressionView, Identifier, Statement,
    StatementView,
};
use crate::datatype::{DataType, DataTypeView};
use crate::error::Error;
use crate::scope::{Scope, ScopeView};
use vstd::prelude::*;
use vstd::string::StringExecFns;

verus! {

/// What the name of a captured register starts with.
pub const FUNWORD_STR: &'static str = "funword";

/// The hexadecimal digit for `digit`, in upper case.
pub open spec fn hex_digit(digit: nat) -> char
    recommends
        digit < 16,
{
    seq!['0', '1', '2', '3', '4', '5', '6', '7', '8', '9', 'A', 'B', 'C', 'D', 'E', 'F'][digit as int]
}

/// The hexadecimal digits of `n`, in upper case and without leading zeros.
pub open spec fn hex(n: nat) -> Seq<char>
    decreases n,
{
    if n < 16 {
        seq![hex_digit(n)]
    } else {
        hex(n / 16).push(hex_digit(n % 16))
    }
}

/// The name of the captured register that is passed for the parameter at
/// `index`: the prefix, an underscore, and the index in hexadecimal.
pub open spec fn funword_name(index: nat) -> Seq<char> {
    FUNWORD_STR@ + seq!['_'] + hex(index)
}

/// The arguments that a call of a script function of `count` parameters
/// captures, in the order of the parameters.
pub open spec fn captured_arguments(count: nat) -> Seq<ExpressionView> {
    Seq::new(count, |i: int| ExpressionView::Identifier(funword_name(i as nat)))
}

/// The number of parameters of the script function that `statement` calls,
/// if it calls one.
pub open spec fn captures(statement: StatementView, scope: ScopeView) -> Option<nat> {
    match statement {
        StatementView::MethodCall { method, arguments } => match method.lookup(scope) {
            Some((_, DataTypeView::Fun(params))) => Some(params.len()),
            _ => None,
        },
        _ => None,
    }
}

/// `statement` with the captured arguments written out, in its nested
/// blocks too.
pub open spec fn capture_statement(statement: StatementView, scope: ScopeView) -> StatementView
    decreases statement,
{
    match statement {
        StatementView::MethodCall { method, arguments } => match captures(statement, scope) {
            Some(count) => StatementView::MethodCall {
                method,
                arguments: arguments + captured_arguments(count),
            },
            None => statement,
        },
        StatementView::If { condition, block_true, block_false } => StatementView::If {
            condition,
            block_true: capture_block(block_true, scope),
            block_false: capture_block(block_false, scope),
        },
        StatementView::Loop { block } => StatementView::Loop { block: capture_block(block, scope) },
        _ => statement,
    }
}

/// `block` with the captured arguments written out in each statement.
pub open spec fn capture_block(block: Seq<StatementView>, scope: ScopeView) -> Seq<StatementView>
    decreases block,
{
    Seq::new(
        block.len(),
        |i: int|
            if 0 <= i < block.len() {
                capture_statement(block[i], scope)
            } else {
                StatementView::Return
            },
    )
}

/// Whether `statement` is as the decoder emits it: each call of a script
/// function in it, at any depth, has no arguments yet.
pub open spec fn capture_ready_statement(statement: StatementView, scope: ScopeView) -> bool
    decreases statement,
{
    match statement {
        StatementView::MethodCall { method, arguments } => captures(statement, scope) is Some
            ==> arguments.len() == 0,
        StatementView::If { condition, block_true, block_false } => capture_ready(
            block_true,
            scope,
        ) && capture_ready(block_false, scope),
        StatementView::Loop { block } => capture_ready(block, scope),
        _ => true,
    }
}

/// Whether `block` is as the decoder emits it: each call of a script
/// function in it, at any depth, has no arguments yet.
pub open spec fn capture_ready(block: Seq<StatementView>, scope: ScopeView) -> bool
    decreases block,
{
    forall|i: int| 0 <= i < block.len() ==> capture_ready_statement(#[trigger] block[i], scope)
}

/// Whether each call of a script function in `statement`, at any depth, has
/// as many arguments as the function has parameters.
pub open spec fn complete_statement(statement: StatementView, scope: ScopeView) -> bool
    decreases statement,
{
    match statement {
        StatementView::MethodCall { method, arguments } => match captures(statement, scope) {
            Some(count) => arguments.len() == count,
            None => true,
        },
        StatementView::If { condition, block_true, block_false } => complete_block(
            block_true,
            scope,
        ) && complete_block(block_false, scope),
        StatementView::Loop { block } => complete_block(block, scope),
        _ => true,
    }
}

/// Whether each call of a script function in `block`, at any depth, has as
/// many arguments as the function has parameters.
pub open spec fn complete_block(block: Seq<StatementView>, scope: ScopeView) -> bool
    decreases block,
{
    forall|i: int| 0 <= i < block.len() ==> complete_statement(#[trigger] block[i], scope)
}

/// After the pass each call of a script function in the statement has as
/// many arguments as the function has parameters.
pub proof fn lemma_capture_completes_statement(statement: StatementView, scope: ScopeView)
    requires
        capture_ready_statement(statement, scope),
    ensures
        complete_statement(capture_statement(statement, scope), scope),
    decreases statement,
{
    match statement {
        StatementView::If { condition, block_true, block_false } => {
            lemma_capture_completes(block_true, scope);
            lemma_capture_completes(block_false, scope);
        },
        StatementView::Loop { block } => {
            lemma_capture_completes(block, scope);
        },
        _ => {},
    }
}

/// After the pass each call of a script function in the block, at any
/// depth, has exactly as many arguments as the function has parameters.
pub proof fn lemma_capture_completes(block: Seq<StatementView>, scope: ScopeView)
    requires
        capture_ready(block, scope),
    ensures
        complete_block(capture_block(block, scope), scope),
    decreases block,
{
    assert forall|i: int| 0 <= i < block.len() implies complete_statement(
        #[trigger] capture_block(block, scope)[i],
        scope,
    ) by {
        lemma_capture_completes_statement(block[i], scope);
    }
}

/// The pass leaves every statement alone that is not a call of a script
/// function and owns no block: a call of an engine method, whatever the
/// number of its arguments, stays as it is.
pub proof fn lemma_capture_keeps_others(statement: StatementView, scope: ScopeView)
    requires
        captures(statement, scope) is None,
        !(statement is If),
        !(statement is Loop),
    ensures
        capture_statement(statement, scope) == statement,
{
}

/// The text of one hexadecimal digit.
fn hex_digit_text(digit: usize) -> (text: &'static str)
    requires
        digit < 16,
    ensures
        text@ == seq![hex_digit(digit as nat)],
{
    proof {
        reveal_strlit("0");
        reveal_strlit("1");
        reveal_strlit("2");
        reveal_strlit("3");
        reveal_strlit("4");
        reveal_strlit("5");
        reveal_strlit("6");
        reveal_strlit("7");
        reveal_strlit("8");
        reveal_strlit("9");
        reveal_strlit("A");
        reveal_strlit("B");
        reveal_strlit("C");
        reveal_strlit("D");
        reveal_strlit("E");
        reveal_strlit("F");
    }
    let text = if digit == 0 {
        "0"
    } else if digit == 1 {
        "1"
    } else if digit == 2 {
        "2"
    } else if digit == 3 {
        "3"
    } else if digit == 4 {
        "4"
    } else if digit == 5 {
        "5"
    } else if digit == 6 {
        "6"
    } else if digit == 7 {
        "7"
    } else if digit == 8 {
        "8"
    } else if digit == 9 {
        "9"
    } else if digit == 10 {
        "A"
    } else if digit == 11 {
        "B"
    } else if digit == 12 {
        "C"
    } else if digit == 13 {
        "D"
    } else if digit == 14 {
        "E"
    } else {
        "F"
    };
    assert(text@ =~= seq![hex_digit(digit as nat)]);
    text
}

/// Appends the hexadecimal digits of `n` to `text`.
fn push_hex(text: &mut String, n: usize)
    ensures
        final(text)@ == old(text)@ + hex(n as nat),
    decreases n,
{
    if n >= 16 {
        push_hex(text, n / 16);
    }
    text.append(hex_digit_text(n % 16));
    assert(text@ =~= old(text)@ + hex(n as nat));
}

/// The name of the captured register that is passed for the parameter at
/// `index`.
pub fn funword(index: usize) -> (name: String)
    ensures
        name@ == funword_name(index as nat),
{
    proof {
        reveal_strlit("_");
    }
    let mut name = String::from_str(FUNWORD_STR);
    name.append("_");
    push_hex(&mut name, index);
    assert(name@ =~= funword_name(index as nat));
    name
}

/// The number of parameters of the script function that `statement` calls,
/// if it calls one.
fn captured_count(statement: &Statement, scope: &Scope) -> (count: Option<usize>)
    ensures
        match count {
            Some(n) => captures(statement@, scope@) == Some(n as nat),
            None => captures(statement@, scope@) is None,
        },
{
    match statement {
        Statement::MethodCall { method, arguments } => match method.lookup(scope) {
            Some((_, datatype)) => match datatype {
                DataType::Fun(params) => Some(params.len()),
                _ => None,
            },
            None => None,
        },
        _ => None,
    }
}

/// Whether `block` is as the decoder emits it, so that
/// [`fix_call_arg_capture`] may be applied to it.
pub fn is_capture_ready(block: &Vec<Statement>, scope: &Scope) -> (ready: bool)
    ensures
        ready == capture_ready(view_block(block@), scope@),
    decreases block,
{
    let mut i: usize = 0;
    while i < block.len()
        invariant
            i <= block.len(),
            forall|j: int| 0 <= j < i ==> capture_ready_statement((#[trigger] block[j])@, scope@),
        decreases block.len() - i,
    {
        let ready = match &block[i] {
            Statement::MethodCall { method, arguments } => {
                match captured_count(&block[i], scope) {
                    Some(_) => arguments.len() == 0,
                    None => true,
                }
            },
            Statement::If { condition, block_true, block_false } => is_capture_ready(
                block_true,
                scope,
            ) && is_capture_ready(block_false, scope),
            Statement::Loop { block: inner } => is_capture_ready(inner, scope),
            _ => true,
        };
        if !ready {
            assert(!capture_ready_statement(view_block(block@)[i as int], scope@));
            return false;
        }
        i += 1;
    }
    assert forall|j: int| 0 <= j < view_block(block@).len() implies capture_ready_statement(
        #[trigger] view_block(block@)[j],
        scope@,
    ) by {
        assert(view_block(block@)[j] == block[j]@);
    }
    true
}

/// Writes the captured arguments out in `statement`, and in its nested
/// blocks.
fn fix_statement(statement: &mut Statement, scope: &Scope)
    requires
        capture_ready_statement(old(statement)@, scope@),
    ensures
        final(statement)@ == capture_statement(old(statement)@, scope@),
    decreases *old(statement),
{
    let count = captured_count(statement, scope);
    match statement {
        Statement::MethodCall { method, arguments } => {
            match count {
                Some(count) => {
                    let ghost given = view_expressions(arguments@);
                    let mut n: usize = 0;
                    assert(view_expressions(arguments@) =~= given + captured_arguments(0));
                    while n < count
                        invariant
                            n <= count,
                            view_expressions(arguments@) == given + captured_arguments(n as nat),
                        decreases count - n,
                    {
                        let ghost earlier = view_expressions(arguments@);
                        arguments.push(Expression::Identifier(Identifier(funword(n))));
                        assert(view_expressions(arguments@) =~= earlier.push(
                            ExpressionView::Identifier(funword_name(n as nat)),
                        ));
                        assert(captured_arguments((n + 1) as nat) =~= captured_arguments(
                            n as nat,
                        ).push(ExpressionView::Identifier(funword_name(n as nat))));
                        n += 1;
                    }
                },
                None => {},
            }
        },
        Statement::If { condition, block_true, block_false } => {
            fix_block(block_true, scope);
            fix_block(block_false, scope);
        },
        Statement::Loop { block } => {
            fix_block(block, scope);
        },
        _ => {},
    }
}

/// Writes the captured arguments out in each statement of `block`.
fn fix_block(block: &mut Vec<Statement>, scope: &Scope)
    requires
        capture_ready(view_block(old(block)@), scope@),
    ensures
        view_block(final(block)@) == capture_block(view_block(old(block)@), scope@),
    decreases *old(block),
{
    let mut i: usize = 0;
    while i < block.len()
        invariant
            i <= block.len(),
            block.len() == old(block).len(),
            capture_ready(view_block(old(block)@), scope@),
            forall|j: int|
                0 <= j < i ==> (#[trigger] block[j])@ == capture_statement(old(block)[j]@, scope@),
            forall|j: int| i <= j < block.len() ==> #[trigger] block[j] == old(block)[j],
        decreases block.len() - i,
    {
        assert(view_block(old(block)@)[i as int] == old(block)[i as int]@);
        fix_statement(&mut block[i], scope);
        i += 1;
    }
    assert(view_block(block@) =~= capture_block(view_block(old(block)@), scope@));
}

/// Writes out the arguments that the calls of script functions in `block`
/// capture. Each call of a callee that `scope` records as a script function
/// of some number of parameters gets that many arguments, the registers
/// named by [`funword`] in the order of the parameters; each other
/// statement stays as it is. Nested blocks are rewritten in the same way.
///
/// This is meant for blocks as the decoder emits them, in which such a call
/// has no arguments yet; [`is_capture_ready`] tells whether `block` is one.
pub fn fix_call_arg_capture(block: &mut Vec<Statement>, scope: &Scope) -> (result: Result<
    (),
    Error,
>)
    requires
        capture_ready(view_block(old(block)@), scope@),
    ensures
        result is Ok,
        view_block(final(block)@) == capture_block(view_block(old(block)@), scope@),
{
    fix_block(block, scope);
    Ok(())
}

} // verus!
