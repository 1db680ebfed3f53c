//! Decompiling the main function of a map: what is done to the scope before
//! the bytecode is decoded, and to the decoded statements before they are
//! rendered.

use crate::ast::{
    view_block, Declaration, DeclarationView, IdentifierOrPointer, IdentifierOrPointerView,
    Statement, StatementView,
};
use crate::capture::{capture_block, capture_ready, fix_call_arg_capture};
use crate::datatype::{DataType, DataTypeView};
use crate::error::{DecodeError, Error};
use crate::infer::infer_datatypes;
use crate::model::{inference, Inference};
use crate::scope::{Scope, ScopeView};
use vstd::prelude::*;
use vstd::string::StringExecFns;

verus! {

/// A method that the engine offers at a fixed address.
#[derive(Debug, Clone, PartialEq, Eq)]
pub struct EntryPoint {
    pub ptr: u32,
    pub name: String,
    /// The type of the method, with the types of its parameters.
    pub datatype: DataType,
}

/// `scope` with each of `methods` entered, in order.
pub open spec fn with_methods(scope: ScopeView, methods: Seq<EntryPoint>) -> ScopeView
    decreases methods.len(),
{
    if methods.len() == 0 {
        scope
    } else {
        with_methods(scope, methods.drop_last()).insert_ptr(
            methods.last().ptr,
            methods.last().name@,
            methods.last().datatype@,
        )
    }
}

/// The scope in which the main function at `main_ptr` is decoded: one
/// layer, with the engine's methods and then the main function itself,
/// under the name `main` and as a script function without parameters.
pub open spec fn seeded(methods: Seq<EntryPoint>, main_ptr: u32) -> ScopeView {
    with_methods(ScopeView::new(), methods).insert_ptr(
        main_ptr,
        "main"@,
        DataTypeView::Fun(Seq::empty()),
    )
}

/// Makes the scope in which the main function at `main_ptr` is decoded.
pub fn seed_scope(methods: &Vec<EntryPoint>, main_ptr: u32) -> (scope: Scope)
    ensures
        scope@ == seeded(methods@, main_ptr),
        scope@.depth() == 1,
{
    let mut scope = Scope::new();
    let mut i: usize = 0;
    while i < methods.len()
        invariant
            i <= methods.len(),
            scope@ == with_methods(ScopeView::new(), methods@.take(i as int)),
            scope@.depth() == 1,
        decreases methods.len() - i,
    {
        let method = &methods[i];
        scope.insert_ptr(method.ptr, method.name.clone(), method.datatype.clone());
        proof {
            assert(methods@.take(i + 1).drop_last() =~= methods@.take(i as int));
        }
        i += 1;
    }
    assert(methods@.take(i as int) =~= methods@);
    let empty: Vec<DataType> = Vec::new();
    scope.insert_ptr(main_ptr, String::from_str("main"), DataType::Fun(empty));
    assert(crate::datatype::view_types(empty@) =~= Seq::empty());
    scope
}

/// What decompiling arrives at for the statements that the decoder made of
/// the main function: the captured arguments are written out, then the
/// types are inferred.
pub open spec fn decompiled(block: Seq<StatementView>, scope: ScopeView) -> Inference {
    inference(capture_block(block, scope), scope)
}

/// The declaration of the main function at `main_ptr` with the body
/// `block`.
pub open spec fn main_declaration(main_ptr: u32, block: Seq<StatementView>) -> DeclarationView {
    DeclarationView::Fun {
        name: IdentifierOrPointerView::Pointer(main_ptr),
        arguments: Seq::empty(),
        block,
    }
}

/// Turns what the decoder made of the main function at `main_ptr` into its
/// declaration, ready to be rendered with `scope`.
///
/// `scope` is the one that [`seed_scope`] made and the decoder has added the
/// script's functions to. A failure of the decoder is handed on, wrapped,
/// and nothing else is done. Else the captured arguments are written out in
/// the body ([`fix_call_arg_capture`]) and its types are inferred
/// ([`infer_datatypes`]); a failure of the inference is handed on, and no
/// declaration is made.
pub fn decompile_map(
    main_ptr: u32,
    decoded: Result<Vec<Statement>, DecodeError>,
    scope: &mut Scope,
) -> (result: Result<Declaration, Error>)
    requires
        old(scope)@.depth() > 0,
        decoded matches Ok(block) ==> capture_ready(view_block(block@), old(scope)@),
    ensures
        match decoded {
            Err(failure) => final(scope)@ == old(scope)@ && result == Err::<Declaration, Error>(
                Error::BytecodeDecompile(failure),
            ),
            Ok(block) => final(scope)@ == decompiled(view_block(block@), old(scope)@).scope
                && match result {
                Ok(declaration) => decompiled(view_block(block@), old(scope)@).error is None
                    && declaration@ == main_declaration(
                    main_ptr,
                    decompiled(view_block(block@), old(scope)@).block,
                ),
                Err(e) => decompiled(view_block(block@), old(scope)@).error == Some(e@),
            },
        },
{
    match decoded {
        Err(failure) => Err(Error::from(failure)),
        Ok(block) => {
            let mut block = block;
            let _ = fix_call_arg_capture(&mut block, scope);
            match infer_datatypes(&mut block, scope) {
                Err(error) => Err(error),
                Ok(_) => {
                    let declaration = Declaration::Fun {
                        name: IdentifierOrPointer::Pointer(main_ptr),
                        arguments: Vec::new(),
                        block,
                    };
                    assert(declaration@.arrow_Fun_arguments() =~= Seq::empty());
                    Ok(declaration)
                },
            }
        },
    }
}

} // verus!
