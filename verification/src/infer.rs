//! Type inference: finds the types of the variables of a block from the way
//! the block uses them, and rewrites the block to fit.

use crate::ast::{
    view_block, view_expressions, view_optional, Expression, Identifier, IdentifierOrPointer,
    Statement, StatementView,
};
use crate::datatype::{view_types, DataType, DataTypeView};
use crate::error::{Error, ErrorView};
use crate::laws::{lemma_block_scan, lemma_inference, lemma_pass};
use crate::measure::{block_height, lemma_statement_height, statement_height, unresolved_count};
use crate::model::{
    assign_scan, block_scan, call_arguments, call_candidates, call_scan, commit, declare_scan,
    inference, paired, pass, statement_scan,
};
use crate::scope::{lemma_lookup_current, Scope};
use vstd::prelude::*;

verus! {

/// The values of a list of candidates, one by one.
pub open spec fn view_candidates(candidates: Seq<(String, DataType)>) -> Seq<
    (Seq<char>, DataTypeView),
> {
    Seq::new(candidates.len(), |i: int| (candidates[i].0@, candidates[i].1@))
}

/// Whether `result` reports `error`, or success where there is none.
pub open spec fn reports(result: Result<(), Error>, error: Option<ErrorView>) -> bool {
    match result {
        Ok(_) => error is None,
        Err(e) => error == Some(e@),
    }
}

/// Applies the rule for a declaration to its parts.
fn infer_declaration(
    datatype: &mut DataType,
    identifier: &Identifier,
    expression: &mut Option<Expression>,
    scope: &Scope,
    inferred: &mut Vec<(String, DataType)>,
) -> (result: Result<(), Error>)
    ensures
        declare_scan(
            old(datatype)@,
            identifier@,
            view_optional(*old(expression)),
            scope@,
            view_candidates(old(inferred)@),
        ).statement == (StatementView::VarDeclare {
            datatype: final(datatype)@,
            identifier: identifier@,
            expression: view_optional(*final(expression)),
        }),
        declare_scan(
            old(datatype)@,
            identifier@,
            view_optional(*old(expression)),
            scope@,
            view_candidates(old(inferred)@),
        ).candidates == view_candidates(final(inferred)@),
        reports(
            result,
            declare_scan(
                old(datatype)@,
                identifier@,
                view_optional(*old(expression)),
                scope@,
                view_candidates(old(inferred)@),
            ).error,
        ),
{
    match scope.lookup_name_depth(identifier.0.as_str(), 0) {
        Some(resolved) => {
            if datatype.is_any() {
                *datatype = resolved.clone();
                match resolved {
                    DataType::Bool => match expression {
                        Some(e) => {
                            e.make_bool();
                        },
                        None => {},
                    },
                    _ => {},
                }
                Ok(())
            } else if !resolved.is_any() && !(*datatype == *resolved) {
                Err(
                    Error::VarDeclareTypeMismatch {
                        identifier: identifier.0.clone(),
                        declared_datatype: datatype.clone(),
                        inferred_datatype: resolved.clone(),
                    },
                )
            } else {
                Ok(())
            }
        },
        None => {
            let candidate = match expression {
                Some(e) => e.infer_datatype(scope),
                None => DataType::Any,
            };
            inferred.push((identifier.0.clone(), candidate));
            assert(view_candidates(inferred@) =~= view_candidates(old(inferred)@).push(
                (identifier@, candidate@),
            ));
            Ok(())
        },
    }
}

/// Applies the rule for an assignment to its parts.
fn infer_assignment(
    identifier: &Identifier,
    expression: &mut Expression,
    scope: &Scope,
    inferred: &mut Vec<(String, DataType)>,
)
    ensures
        assign_scan(
            identifier@,
            old(expression)@,
            scope@,
            view_candidates(old(inferred)@),
        ).statement == (StatementView::VarAssign {
            identifier: identifier@,
            expression: final(expression)@,
        }),
        assign_scan(
            identifier@,
            old(expression)@,
            scope@,
            view_candidates(old(inferred)@),
        ).candidates == view_candidates(final(inferred)@),
{
    match scope.lookup_name(identifier.0.as_str()) {
        Some(recorded) => match recorded {
            DataType::Any => {
                let candidate = expression.infer_datatype(scope);
                inferred.push((identifier.0.clone(), candidate));
                assert(view_candidates(inferred@) =~= view_candidates(old(inferred)@).push(
                    (identifier@, candidate@),
                ));
            },
            DataType::Bool => {
                expression.make_bool();
            },
            _ => {},
        },
        None => {},
    }
}

/// Applies the rule for a call to its parts.
fn infer_call(
    method: &IdentifierOrPointer,
    arguments: &mut Vec<Expression>,
    scope: &Scope,
    inferred: &mut Vec<(String, DataType)>,
)
    ensures
        call_scan(
            method@,
            view_expressions(old(arguments)@),
            scope@,
            view_candidates(old(inferred)@),
        ).statement == (StatementView::MethodCall {
            method: method@,
            arguments: view_expressions(final(arguments)@),
        }),
        call_scan(
            method@,
            view_expressions(old(arguments)@),
            scope@,
            view_candidates(old(inferred)@),
        ).candidates == view_candidates(final(inferred)@),
{
    match method.signature(scope) {
        Some(params) => {
            let ghost types = view_types(params@);
            let ghost given = view_expressions(old(arguments)@);
            let ghost before = view_candidates(old(inferred)@);
            let n = if params.len() <= arguments.len() {
                params.len()
            } else {
                arguments.len()
            };
            let mut i: usize = 0;
            assert(view_candidates(inferred@) =~= before + call_candidates(types, given, scope@, 0));
            while i < n
                invariant
                    i <= n,
                    n == paired(types, given),
                    types == view_types(params@),
                    types.len() == params.len(),
                    arguments.len() == given.len(),
                    forall|j: int|
                        0 <= j < i ==> (#[trigger] arguments[j])@ == call_arguments(types, given)[j],
                    forall|j: int| i <= j < arguments.len() ==> (#[trigger] arguments[j])@ == given[j],
                    view_candidates(inferred@) == before + call_candidates(
                        types,
                        given,
                        scope@,
                        i as nat,
                    ),
                decreases n - i,
            {
                let ghost earlier = view_candidates(inferred@);
                match &arguments[i] {
                    Expression::Identifier(identifier) => {
                        match scope.lookup_name(identifier.0.as_str()) {
                            Some(recorded) => match recorded {
                                DataType::Any => {
                                    let candidate = params[i].clone();
                                    inferred.push((identifier.0.clone(), candidate));
                                    assert(view_candidates(inferred@) =~= earlier.push(
                                        (identifier@, types[i as int]),
                                    ));
                                },
                                _ => {},
                            },
                            None => {},
                        }
                    },
                    _ => {},
                }
                assert(view_candidates(inferred@) =~= before + call_candidates(
                    types,
                    given,
                    scope@,
                    (i + 1) as nat,
                ));
                match &params[i] {
                    DataType::Bool => {
                        arguments[i].make_bool();
                    },
                    _ => {},
                }
                i += 1;
            }
            assert(view_expressions(arguments@) =~= call_arguments(types, given));
        },
        None => {
            assert(view_expressions(arguments@) =~= view_expressions(old(arguments)@));
        },
    }
}

/// Applies the rule of its kind to `statement`, and infers the types in
/// each block that it owns, in order.
fn infer_statement(
    statement: &mut Statement,
    scope: &mut Scope,
    inferred: &mut Vec<(String, DataType)>,
) -> (result: Result<(), Error>)
    requires
        old(scope)@.depth() > 0,
    ensures
        final(statement)@ == statement_scan(
            old(statement)@,
            old(scope)@,
            view_candidates(old(inferred)@),
        ).statement,
        final(scope)@ == statement_scan(
            old(statement)@,
            old(scope)@,
            view_candidates(old(inferred)@),
        ).scope,
        view_candidates(final(inferred)@) == statement_scan(
            old(statement)@,
            old(scope)@,
            view_candidates(old(inferred)@),
        ).candidates,
        reports(
            result,
            statement_scan(old(statement)@, old(scope)@, view_candidates(old(inferred)@)).error,
        ),
    decreases statement_height(old(statement)@), 0nat,
{
    match statement {
        Statement::VarDeclare { datatype, identifier, expression } => infer_declaration(
            datatype,
            identifier,
            expression,
            scope,
            inferred,
        ),
        Statement::VarAssign { identifier, expression } => {
            infer_assignment(identifier, expression, scope, inferred);
            Ok(())
        },
        Statement::MethodCall { method, arguments } => {
            infer_call(method, arguments, scope, inferred);
            Ok(())
        },
        Statement::If { condition, block_true, block_false } => {
            proof {
                lemma_inference(view_block(block_true@), scope@);
            }
            match infer_datatypes(block_true, scope) {
                Err(error) => Err(error),
                Ok(_) => infer_datatypes(block_false, scope),
            }
        },
        Statement::Loop { block } => infer_datatypes(block, scope),
        Statement::Return => Ok(()),
    }
}

/// Writes the candidates of a pass into the current layer of `scope`, in
/// order, and says whether it wrote one. The first candidate that is still
/// the wildcard ends the work: neither it nor any candidate after it is
/// written. A candidate for a variable that the current layer records with
/// a known type is a failure; the recorded type is not overwritten.
pub fn commit_inferred(inferred: &Vec<(String, DataType)>, scope: &mut Scope) -> (result: Result<
    bool,
    Error,
>)
    requires
        old(scope)@.depth() > 0,
    ensures
        final(scope)@ == commit(view_candidates(inferred@), old(scope)@).scope,
        match result {
            Ok(committed) => commit(view_candidates(inferred@), old(scope)@).error is None
                && committed == commit(view_candidates(inferred@), old(scope)@).committed,
            Err(e) => commit(view_candidates(inferred@), old(scope)@).error == Some(e@),
        },
{
    let ghost candidates = view_candidates(inferred@);
    let ghost whole = commit(candidates, old(scope)@);
    let mut committed = false;
    let mut ended: Option<Result<bool, Error>> = None;
    let mut k: usize = 0;
    assert(candidates.skip(0) =~= candidates);
    while k < inferred.len() && ended.is_none()
        invariant
            k <= inferred.len(),
            candidates == view_candidates(inferred@),
            scope@.depth() > 0,
            ended is None ==> whole.scope == commit(candidates.skip(k as int), scope@).scope,
            ended is None ==> whole.error == commit(candidates.skip(k as int), scope@).error,
            ended is None ==> whole.committed == (committed || commit(
                candidates.skip(k as int),
                scope@,
            ).committed),
            ended matches Some(result) ==> whole.scope == scope@ && match result {
                Ok(written) => whole.error is None && written == whole.committed,
                Err(e) => whole.error == Some(e@),
            },
        decreases inferred.len() - k + (if ended is None { 1nat } else { 0nat }),
    {
        let ghost rest = candidates.skip(k as int);
        assert(rest[0] == candidates[k as int]);
        assert(rest.drop_first() =~= candidates.skip(k + 1));
        let candidate = &inferred[k];
        if candidate.1.is_any() {
            ended = Some(Ok(committed));
        } else {
            proof {
                lemma_lookup_current(scope@, candidate.0@);
            }
            let known: Option<DataType> = match scope.lookup_name_depth(candidate.0.as_str(), 0) {
                Some(recorded) => if recorded.is_any() {
                    None
                } else {
                    Some(recorded.clone())
                },
                None => None,
            };
            match known {
                Some(known_datatype) => {
                    ended = Some(
                        Err(
                            Error::TypeAlreadyKnown {
                                identifier: candidate.0.clone(),
                                known_datatype,
                                inferred_datatype: candidate.1.clone(),
                            },
                        ),
                    );
                },
                None => {
                    scope.insert_name(candidate.0.clone(), candidate.1.clone());
                    committed = true;
                    k += 1;
                },
            }
        }
    }
    match ended {
        Some(result) => result,
        None => Ok(committed),
    }
}

/// Makes one pass over `block`: applies the rules to each statement, from
/// the last to the first, then commits the candidates that they deferred.
/// Says whether a candidate was written.
pub fn infer_pass(block: &mut Vec<Statement>, scope: &mut Scope) -> (result: Result<bool, Error>)
    requires
        old(scope)@.depth() > 0,
    ensures
        view_block(final(block)@) == pass(view_block(old(block)@), old(scope)@).block,
        final(scope)@ == pass(view_block(old(block)@), old(scope)@).scope,
        match result {
            Ok(committed) => pass(view_block(old(block)@), old(scope)@).error is None && committed
                == pass(view_block(old(block)@), old(scope)@).committed,
            Err(e) => pass(view_block(old(block)@), old(scope)@).error == Some(e@),
        },
    decreases block_height(view_block(old(block)@)), 2nat,
{
    let ghost given = view_block(old(block)@);
    let ghost whole = block_scan(given, given.len(), old(scope)@, Seq::empty());
    let mut inferred: Vec<(String, DataType)> = Vec::new();
    let mut failure: Option<Error> = None;
    let mut i: usize = block.len();
    proof {
        lemma_block_scan(given, given.len(), old(scope)@, Seq::empty());
        assert(view_candidates(inferred@) =~= Seq::empty());
    }
    while i > 0 && failure.is_none()
        invariant
            i <= block.len(),
            block.len() == given.len(),
            given == view_block(old(block)@),
            whole.block.len() == given.len(),
            scope@.depth() > 0,
            failure is None ==> whole.scope == block_scan(
                given,
                i as nat,
                scope@,
                view_candidates(inferred@),
            ).scope,
            failure is None ==> whole.candidates == block_scan(
                given,
                i as nat,
                scope@,
                view_candidates(inferred@),
            ).candidates,
            failure is None ==> whole.error == block_scan(
                given,
                i as nat,
                scope@,
                view_candidates(inferred@),
            ).error,
            failure is None ==> forall|j: int| 0 <= j < i ==> (#[trigger] block[j])@ == given[j],
            failure is None ==> forall|j: int|
                i <= j < block.len() ==> (#[trigger] block[j])@ == whole.block[j],
            failure is None ==> forall|j: int|
                0 <= j < i ==> #[trigger] whole.block[j] == block_scan(
                    given,
                    i as nat,
                    scope@,
                    view_candidates(inferred@),
                ).block[j],
            failure matches Some(e) ==> whole.error == Some(e@) && whole.scope == scope@
                && whole.block == view_block(block@),
        decreases i + (if failure is None { 1nat } else { 0nat }),
    {
        let ghost remaining = block_scan(given, i as nat, scope@, view_candidates(inferred@));
        let ghost last = statement_scan(given[i - 1], scope@, view_candidates(inferred@));
        proof {
            lemma_statement_height(given, i - 1);
            crate::laws::lemma_statement_scan(given[i - 1], scope@, view_candidates(inferred@));
            if last.error is None {
                lemma_block_scan(given, (i - 1) as nat, last.scope, last.candidates);
            }
        }
        match infer_statement(&mut block[i - 1], scope, &mut inferred) {
            Err(error) => {
                assert(view_block(block@) =~= whole.block);
                failure = Some(error);
            },
            Ok(_) => {
                i -= 1;
            },
        }
    }
    match failure {
        Some(error) => Err(error),
        None => {
            assert(view_block(block@) =~= whole.block);
            commit_inferred(&inferred, scope)
        },
    }
}

/// Infers the types of the variables of `block` and rewrites the block to
/// fit: makes passes over it until one writes no candidate.
///
/// A pass goes through the statements from the last to the first, so that a
/// use of a variable is seen before its declaration. It stamps a
/// declaration without a type with the type that the current layer records
/// for its variable, turns an integer literal into a boolean literal where
/// a boolean is expected, and defers a candidate type for each variable
/// that has none yet; the blocks that a statement owns are inferred, whole,
/// when the pass comes to the statement. At its end the pass commits the
/// candidates to the current layer, as [`commit_inferred`] says.
///
/// A variable takes part in the inference of its uses once the scope
/// records it, with the wildcard while its type is not known.
///
/// Fails where a declaration is annotated with a type other than the known
/// type recorded for its variable, and where a type is inferred for a
/// variable whose type is known already. On a failure the block and the
/// scope stay as they were when it was found.
pub fn infer_datatypes(block: &mut Vec<Statement>, scope: &mut Scope) -> (result: Result<
    (),
    Error,
>)
    requires
        old(scope)@.depth() > 0,
    ensures
        view_block(final(block)@) == inference(view_block(old(block)@), old(scope)@).block,
        final(scope)@ == inference(view_block(old(block)@), old(scope)@).scope,
        reports(result, inference(view_block(old(block)@), old(scope)@).error),
    decreases block_height(view_block(old(block)@)), 3nat,
{
    let ghost whole = inference(view_block(old(block)@), old(scope)@);
    let mut result: Result<(), Error> = Ok(());
    let mut made_inferences = true;
    while made_inferences
        invariant
            scope@.depth() > 0,
            block_height(view_block(block@)) == block_height(view_block(old(block)@)),
            made_inferences ==> result is Ok && whole == inference(view_block(block@), scope@),
            !made_inferences ==> whole.block == view_block(block@) && whole.scope == scope@
                && reports(result, whole.error),
        decreases
                unresolved_count(view_block(block@), scope@) + (if made_inferences {
                    1nat
                } else {
                    0nat
                }),
    {
        proof {
            lemma_pass(view_block(block@), scope@);
        }
        match infer_pass(block, scope) {
            Err(error) => {
                result = Err(error);
                made_inferences = false;
            },
            Ok(committed) => {
                made_inferences = committed;
            },
        }
    }
    result
}

} // verus!
