//! The types that script values, variables and callables can have.

use vstd::prelude::*;
use vstd::std_specs::cmp::PartialEqSpecImpl;

verus! {

/// The mathematical value of a [`DataType`].
pub enum DataTypeView {
    Any,
    Int,
    Float,
    Bool,
    Fun(Seq<DataTypeView>),
    Asm(Seq<DataTypeView>),
}

impl DataTypeView {
    /// Whether the type is known, that is, anything but the wildcard.
    pub open spec fn is_concrete(self) -> bool {
        !(self is Any)
    }
}

/// The type of a value, a variable or a callable.
#[derive(Debug, Eq)]
pub enum DataType {
    /// Not inferred yet.
    Any,
    Int,
    Float,
    Bool,
    /// A script function; its call captures the caller's registers.
    Fun(Vec<DataType>),
    /// An engine method; its call passes its arguments explicitly.
    Asm(Vec<DataType>),
}

/// The values of a list of types, one by one.
pub open spec fn view_types(types: Seq<DataType>) -> Seq<DataTypeView>
    decreases types,
{
    Seq::new(types.len(), |i: int| if 0 <= i < types.len() { types[i]@ } else { DataTypeView::Any })
}

impl View for DataType {
    type V = DataTypeView;

    open spec fn view(&self) -> DataTypeView
        decreases self,
    {
        match self {
            DataType::Any => DataTypeView::Any,
            DataType::Int => DataTypeView::Int,
            DataType::Float => DataTypeView::Float,
            DataType::Bool => DataTypeView::Bool,
            DataType::Fun(params) => DataTypeView::Fun(view_types(params@)),
            DataType::Asm(params) => DataTypeView::Asm(view_types(params@)),
        }
    }
}

/// A copy of `types`, type by type.
pub fn clone_types(types: &Vec<DataType>) -> (copy: Vec<DataType>)
    ensures
        view_types(copy@) == view_types(types@),
    decreases types,
{
    let mut copy: Vec<DataType> = Vec::new();
    let mut i: usize = 0;
    while i < types.len()
        invariant
            i <= types.len(),
            copy.len() == i,
            forall|j: int| 0 <= j < i ==> copy[j]@ == types[j]@,
        decreases types.len() - i,
    {
        copy.push(types[i].clone());
        i += 1;
    }
    assert(view_types(copy@) =~= view_types(types@));
    copy
}

impl Clone for DataType {
    fn clone(&self) -> (copy: DataType)
        ensures
            copy@ == self@,
        decreases self,
    {
        match self {
            DataType::Any => DataType::Any,
            DataType::Int => DataType::Int,
            DataType::Float => DataType::Float,
            DataType::Bool => DataType::Bool,
            DataType::Fun(params) => DataType::Fun(clone_types(params)),
            DataType::Asm(params) => DataType::Asm(clone_types(params)),
        }
    }
}

/// Whether two lists of types are equal, type by type.
pub fn same_types(left: &Vec<DataType>, right: &Vec<DataType>) -> (same: bool)
    ensures
        same == (view_types(left@) == view_types(right@)),
    decreases left,
{
    if left.len() != right.len() {
        assert(view_types(left@).len() != view_types(right@).len());
        return false;
    }
    let mut i: usize = 0;
    while i < left.len()
        invariant
            i <= left.len(),
            left.len() == right.len(),
            forall|j: int| 0 <= j < i ==> left[j]@ == right[j]@,
        decreases left.len() - i,
    {
        if !(left[i] == right[i]) {
            assert(view_types(left@)[i as int] != view_types(right@)[i as int]);
            return false;
        }
        i += 1;
    }
    assert(view_types(left@) =~= view_types(right@));
    true
}

impl PartialEq for DataType {
    fn eq(&self, other: &DataType) -> (same: bool)
        decreases self,
    {
        match (self, other) {
            (DataType::Any, DataType::Any) => true,
            (DataType::Int, DataType::Int) => true,
            (DataType::Float, DataType::Float) => true,
            (DataType::Bool, DataType::Bool) => true,
            (DataType::Fun(left), DataType::Fun(right)) => same_types(left, right),
            (DataType::Asm(left), DataType::Asm(right)) => same_types(left, right),
            _ => false,
        }
    }
}

impl PartialEqSpecImpl for DataType {
    open spec fn obeys_eq_spec() -> bool {
        true
    }

    open spec fn eq_spec(&self, other: &DataType) -> bool {
        self@ == other@
    }
}

impl DataType {
    /// Whether this is the wildcard.
    pub fn is_any(&self) -> (any: bool)
        ensures
            any == (self@ is Any),
    {
        match self {
            DataType::Any => true,
            _ => false,
        }
    }
}

} // verus!
