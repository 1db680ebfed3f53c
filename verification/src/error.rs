//! The ways in which decompiling a script fails.

use crate::datatype::{DataType, DataTypeView};
use vstd::prelude::*;
use vstd::std_specs::convert::FromSpecImpl;

verus! {

/// The decoder's report that it could not turn bytecode into statements.
#[derive(Debug, PartialEq, Eq)]
pub struct DecodeError {
    /// What the decoder said.
    pub reason: String,
}

impl View for DecodeError {
    type V = Seq<char>;

    open spec fn view(&self) -> Seq<char> {
        self.reason@
    }
}

/// The mathematical value of an [`Error`].
pub enum ErrorView {
    BytecodeDecompile(Seq<char>),
    VarDeclareTypeMismatch {
        identifier: Seq<char>,
        declared_datatype: DataTypeView,
        inferred_datatype: DataTypeView,
    },
    TypeAlreadyKnown {
        identifier: Seq<char>,
        known_datatype: DataTypeView,
        inferred_datatype: DataTypeView,
    },
}

/// A failure that ends the decompilation of a script. Nothing is rendered
/// after one.
#[derive(Debug, PartialEq, Eq)]
pub enum Error {
    /// The decoder could not produce a statement tree.
    BytecodeDecompile(DecodeError),
    /// A variable is declared with one type and used as another.
    VarDeclareTypeMismatch {
        identifier: String,
        declared_datatype: DataType,
        inferred_datatype: DataType,
    },
    /// A type was inferred for a variable whose type is known already. This
    /// is a defect of the inference, not of the script: it is kept apart
    /// from the two failures above so that it is never blamed on the input.
    TypeAlreadyKnown { identifier: String, known_datatype: DataType, inferred_datatype: DataType },
}

impl View for Error {
    type V = ErrorView;

    open spec fn view(&self) -> ErrorView {
        match self {
            Error::BytecodeDecompile(error) => ErrorView::BytecodeDecompile(error@),
            Error::VarDeclareTypeMismatch {
                identifier,
                declared_datatype,
                inferred_datatype,
            } => ErrorView::VarDeclareTypeMismatch {
                identifier: identifier@,
                declared_datatype: declared_datatype@,
                inferred_datatype: inferred_datatype@,
            },
            Error::TypeAlreadyKnown {
                identifier,
                known_datatype,
                inferred_datatype,
            } => ErrorView::TypeAlreadyKnown {
                identifier: identifier@,
                known_datatype: known_datatype@,
                inferred_datatype: inferred_datatype@,
            },
        }
    }
}

impl Error {
    /// Whether the failure is a defect of the inference itself rather than
    /// of the script.
    pub fn is_internal(&self) -> (internal: bool)
        ensures
            internal == (self@ is TypeAlreadyKnown),
    {
        match self {
            Error::TypeAlreadyKnown { .. } => true,
            _ => false,
        }
    }
}

impl From<DecodeError> for Error {
    fn from(error: DecodeError) -> (wrapped: Error) {
        Error::BytecodeDecompile(error)
    }
}

impl FromSpecImpl<DecodeError> for Error {
    open spec fn obeys_from_spec() -> bool {
        true
    }

    open spec fn from_spec(error: DecodeError) -> Error {
        Error::BytecodeDecompile(error)
    }
}

} // verus!
