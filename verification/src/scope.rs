//! The symbol table: a stack of layers, each mapping addresses to names and
//! names to types. The layer pushed last is the current one; it shadows the
//! layers below it.

use crate::datatype::{DataType, DataTypeView};
use std::collections::HashMap;
use std::collections::VecDeque;
use vstd::hash_map::StringHashMap;
use vstd::prelude::*;

verus! {

broadcast use vstd::std_specs::hash::group_hash_axioms;

/// The mathematical value of a [`Layer`].
pub struct LayerView {
    /// The name registered for an address.
    pub ptrs: Map<u32, Seq<char>>,
    /// The type recorded for a name.
    pub names: Map<Seq<char>, DataTypeView>,
}

impl LayerView {
    /// The layer without any entry.
    pub open spec fn empty() -> LayerView {
        LayerView { ptrs: Map::empty(), names: Map::empty() }
    }

    /// The name that this layer registers for `ptr`.
    pub open spec fn name(self, ptr: u32) -> Option<Seq<char>> {
        if self.ptrs.contains_key(ptr) {
            Some(self.ptrs[ptr])
        } else {
            None
        }
    }

    /// The type that this layer records for `name`.
    pub open spec fn datatype(self, name: Seq<char>) -> Option<DataTypeView> {
        if self.names.contains_key(name) {
            Some(self.names[name])
        } else {
            None
        }
    }

    /// Whether this layer records a type other than the wildcard for `name`.
    pub open spec fn resolves(self, name: Seq<char>) -> bool {
        self.names.contains_key(name) && self.names[name].is_concrete()
    }

    /// This layer with `name` recorded as `datatype`.
    pub open spec fn insert_name(self, name: Seq<char>, datatype: DataTypeView) -> LayerView {
        LayerView { ptrs: self.ptrs, names: self.names.insert(name, datatype) }
    }

    /// This layer with `ptr` registered as `name`, and `name` recorded as
    /// `datatype`.
    pub open spec fn insert_ptr(
        self,
        ptr: u32,
        name: Seq<char>,
        datatype: DataTypeView,
    ) -> LayerView {
        LayerView { ptrs: self.ptrs.insert(ptr, name), names: self.names.insert(name, datatype) }
    }
}

/// The name that the first of `layers` to register `ptr` gives it.
pub open spec fn first_name(layers: Seq<LayerView>, ptr: u32) -> Option<Seq<char>>
    decreases layers.len(),
{
    if layers.len() == 0 {
        None
    } else if layers[0].ptrs.contains_key(ptr) {
        Some(layers[0].ptrs[ptr])
    } else {
        first_name(layers.drop_first(), ptr)
    }
}

/// The type that the first of `layers` to record `name` gives it.
pub open spec fn first_datatype(layers: Seq<LayerView>, name: Seq<char>) -> Option<DataTypeView>
    decreases layers.len(),
{
    if layers.len() == 0 {
        None
    } else if layers[0].names.contains_key(name) {
        Some(layers[0].names[name])
    } else {
        first_datatype(layers.drop_first(), name)
    }
}

/// The mathematical value of a [`Scope`]: its layers, the current one first.
pub struct ScopeView {
    pub layers: Seq<LayerView>,
}

impl ScopeView {
    /// The scope as [`Scope::new`] makes it: one empty layer.
    pub open spec fn new() -> ScopeView {
        ScopeView { layers: seq![LayerView::empty()] }
    }

    /// The number of layers.
    pub open spec fn depth(self) -> nat {
        self.layers.len()
    }

    /// The current layer.
    pub open spec fn current(self) -> LayerView
        recommends
            self.depth() > 0,
    {
        self.layers[0]
    }

    /// This scope under a new, empty current layer.
    pub open spec fn push(self) -> ScopeView {
        ScopeView { layers: seq![LayerView::empty()] + self.layers }
    }

    /// This scope without its current layer.
    pub open spec fn pop(self) -> ScopeView
        recommends
            self.depth() > 0,
    {
        ScopeView { layers: self.layers.drop_first() }
    }

    /// This scope with its current layer replaced.
    pub open spec fn with_current(self, layer: LayerView) -> ScopeView
        recommends
            self.depth() > 0,
    {
        ScopeView { layers: self.layers.update(0, layer) }
    }

    /// This scope with `name` recorded as `datatype` in the current layer.
    pub open spec fn insert_name(self, name: Seq<char>, datatype: DataTypeView) -> ScopeView
        recommends
            self.depth() > 0,
    {
        self.with_current(self.current().insert_name(name, datatype))
    }

    /// This scope with `ptr` registered as `name`, and `name` recorded as
    /// `datatype`, both in the current layer.
    pub open spec fn insert_ptr(
        self,
        ptr: u32,
        name: Seq<char>,
        datatype: DataTypeView,
    ) -> ScopeView
        recommends
            self.depth() > 0,
    {
        self.with_current(self.current().insert_ptr(ptr, name, datatype))
    }

    /// The name of `ptr` in the nearest layer that registers it.
    pub open spec fn lookup_ptr(self, ptr: u32) -> Option<Seq<char>> {
        first_name(self.layers, ptr)
    }

    /// The type of `name` in the nearest layer that records it.
    pub open spec fn lookup_name(self, name: Seq<char>) -> Option<DataTypeView> {
        first_datatype(self.layers, name)
    }

    /// The number of layers that a lookup to depth `max_depth` searches.
    pub open spec fn reach(self, max_depth: nat) -> nat {
        if max_depth < self.depth() {
            max_depth + 1
        } else {
            self.depth()
        }
    }

    /// The type of `name` in the nearest layer that records it, among the
    /// current layer and the `max_depth` layers below it.
    pub open spec fn lookup_name_depth(self, name: Seq<char>, max_depth: nat) -> Option<
        DataTypeView,
    > {
        first_datatype(self.layers.take(self.reach(max_depth) as int), name)
    }

    /// Whether the current layer records a type other than the wildcard for
    /// `name`.
    pub open spec fn resolves(self, name: Seq<char>) -> bool {
        self.depth() > 0 && self.current().resolves(name)
    }
}

/// One lexical scope: the names of the addresses and the types of the names
/// that were entered while it was the current one.
pub struct Layer {
    ptrs: HashMap<u32, String>,
    names: StringHashMap<DataType>,
}

impl View for Layer {
    type V = LayerView;

    closed spec fn view(&self) -> LayerView {
        LayerView {
            ptrs: Map::new(|ptr: u32| self.ptrs@.contains_key(ptr), |ptr: u32| self.ptrs@[ptr]@),
            names: Map::new(
                |name: Seq<char>| self.names@.contains_key(name),
                |name: Seq<char>| self.names@[name]@,
            ),
        }
    }
}

impl Layer {
    /// A layer without any entry.
    pub fn new() -> (layer: Layer)
        ensures
            layer@ == LayerView::empty(),
    {
        let layer = Layer { ptrs: HashMap::new(), names: StringHashMap::new() };
        assert(layer@.ptrs =~= Map::empty());
        assert(layer@.names =~= Map::empty());
        layer
    }

    /// The name that this layer registers for `ptr`.
    pub fn lookup_ptr(&self, ptr: u32) -> (name: Option<&str>)
        ensures
            match name {
                Some(n) => self@.name(ptr) == Some(n@),
                None => self@.name(ptr) is None,
            },
    {
        match self.ptrs.get(&ptr) {
            Some(name) => Some(name.as_str()),
            None => None,
        }
    }

    /// The type that this layer records for `name`.
    pub fn lookup_name(&self, name: &str) -> (datatype: Option<&DataType>)
        ensures
            match datatype {
                Some(t) => self@.datatype(name@) == Some(t@),
                None => self@.datatype(name@) is None,
            },
    {
        self.names.get(name)
    }

    /// Records `datatype` for `name` and returns the type that this layer
    /// recorded for it before.
    pub fn insert_name(&mut self, name: String, datatype: DataType) -> (previous: Option<DataType>)
        ensures
            final(self)@ == old(self)@.insert_name(name@, datatype@),
            match previous {
                Some(t) => old(self)@.datatype(name@) == Some(t@),
                None => old(self)@.datatype(name@) is None,
            },
    {
        let previous = match self.names.get(name.as_str()) {
            Some(t) => Some(t.clone()),
            None => None,
        };
        self.names.insert(name, datatype);
        assert(self@.names =~= old(self)@.names.insert(name@, datatype@));
        assert(self@.ptrs =~= old(self)@.ptrs);
        previous
    }

    /// Registers `name` for `ptr`, records `datatype` for `name`, and returns
    /// the type that this layer recorded for `name` before.
    pub fn insert_ptr(&mut self, ptr: u32, name: String, datatype: DataType) -> (previous: Option<
        DataType,
    >)
        ensures
            final(self)@ == old(self)@.insert_ptr(ptr, name@, datatype@),
            match previous {
                Some(t) => old(self)@.datatype(name@) == Some(t@),
                None => old(self)@.datatype(name@) is None,
            },
    {
        let previous = match self.names.get(name.as_str()) {
            Some(t) => Some(t.clone()),
            None => None,
        };
        self.ptrs.insert(ptr, name.clone());
        self.names.insert(name, datatype);
        assert(self@.names =~= old(self)@.names.insert(name@, datatype@));
        assert(self@.ptrs =~= old(self)@.ptrs.insert(ptr, name@));
        previous
    }
}

/// A stack of layers that maps addresses to names and names to types. A
/// lookup takes the nearest layer that has the key, starting at the current
/// one.
pub struct Scope {
    layers: VecDeque<Layer>,
}

impl View for Scope {
    type V = ScopeView;

    closed spec fn view(&self) -> ScopeView {
        ScopeView { layers: Seq::new(self.layers@.len(), |i: int| self.layers@[i]@) }
    }
}

impl Scope {
    /// A scope of one empty layer.
    pub fn new() -> (scope: Scope)
        ensures
            scope@ == ScopeView::new(),
    {
        let mut scope = Scope { layers: VecDeque::new() };
        scope.push();
        assert(scope@.layers =~= ScopeView::new().layers);
        scope
    }

    /// The number of layers.
    pub fn depth(&self) -> (depth: usize)
        ensures
            depth == self@.depth(),
    {
        self.layers.len()
    }

    /// Puts an empty layer on top of the current one. What is inserted from
    /// now on shadows the entries below with the same key until the layer is
    /// popped.
    pub fn push(&mut self)
        ensures
            final(self)@ == old(self)@.push(),
    {
        self.layers.push_front(Layer::new());
        assert(self@.layers =~= old(self)@.push().layers);
    }

    /// Removes the current layer and returns it, if there is one.
    pub fn pop(&mut self) -> (popped: Option<Layer>)
        ensures
            match popped {
                Some(layer) => old(self)@.depth() > 0 && layer@ == old(self)@.current()
                    && final(self)@ == old(self)@.pop(),
                None => old(self)@.depth() == 0 && final(self)@ == old(self)@,
            },
    {
        let popped = self.layers.pop_front();
        if popped.is_some() {
            assert(self@.layers =~= old(self)@.pop().layers);
        }
        popped
    }

    /// Registers `name` for `ptr` and records `datatype` for `name`, both in
    /// the current layer. Returns the type that the current layer recorded
    /// for `name` before; what a layer below records is not returned.
    pub fn insert_ptr(&mut self, ptr: u32, name: String, datatype: DataType) -> (previous: Option<
        DataType,
    >)
        requires
            old(self)@.depth() > 0,
        ensures
            final(self)@ == old(self)@.insert_ptr(ptr, name@, datatype@),
            match previous {
                Some(t) => old(self)@.current().datatype(name@) == Some(t@),
                None => old(self)@.current().datatype(name@) is None,
            },
    {
        match self.layers.pop_front() {
            Some(mut layer) => {
                let previous = layer.insert_ptr(ptr, name, datatype);
                self.layers.push_front(layer);
                assert(self@.layers =~= old(self)@.insert_ptr(ptr, name@, datatype@).layers);
                previous
            },
            None => None,
        }
    }

    /// Records `datatype` for `name` in the current layer. Returns the type
    /// that the current layer recorded for `name` before; what a layer below
    /// records is not returned.
    pub fn insert_name(&mut self, name: String, datatype: DataType) -> (previous: Option<DataType>)
        requires
            old(self)@.depth() > 0,
        ensures
            final(self)@ == old(self)@.insert_name(name@, datatype@),
            match previous {
                Some(t) => old(self)@.current().datatype(name@) == Some(t@),
                None => old(self)@.current().datatype(name@) is None,
            },
    {
        match self.layers.pop_front() {
            Some(mut layer) => {
                let previous = layer.insert_name(name, datatype);
                self.layers.push_front(layer);
                assert(self@.layers =~= old(self)@.insert_name(name@, datatype@).layers);
                previous
            },
            None => None,
        }
    }

    /// The name of `ptr` in the nearest layer that registers it.
    pub fn lookup_ptr(&self, ptr: u32) -> (name: Option<&str>)
        ensures
            match name {
                Some(n) => self@.lookup_ptr(ptr) == Some(n@),
                None => self@.lookup_ptr(ptr) is None,
            },
    {
        let mut i: usize = 0;
        assert(self@.layers.skip(0) =~= self@.layers);
        while i < self.layers.len()
            invariant
                i <= self.layers@.len(),
                self@.lookup_ptr(ptr) == first_name(self@.layers.skip(i as int), ptr),
            decreases self.layers@.len() - i,
        {
            let ghost rest = self@.layers.skip(i as int);
            assert(rest[0] == self.layers@[i as int]@);
            assert(rest.drop_first() =~= self@.layers.skip(i + 1));
            match self.layers[i].lookup_ptr(ptr) {
                Some(name) => {
                    return Some(name);
                },
                None => {},
            }
            i += 1;
        }
        None
    }

    /// The type of `name` in the nearest layer that records it.
    pub fn lookup_name(&self, name: &str) -> (datatype: Option<&DataType>)
        ensures
            match datatype {
                Some(t) => self@.lookup_name(name@) == Some(t@),
                None => self@.lookup_name(name@) is None,
            },
    {
        let limit = self.layers.len();
        assert(self@.layers.take(limit as int) =~= self@.layers);
        self.lookup_name_within(name, limit)
    }

    /// The type of `name` in the nearest layer that records it, searching
    /// the current layer and at most `max_depth` layers below it. With a
    /// `max_depth` of 0 only the current layer is searched.
    pub fn lookup_name_depth(&self, name: &str, max_depth: usize) -> (datatype: Option<&DataType>)
        ensures
            match datatype {
                Some(t) => self@.lookup_name_depth(name@, max_depth as nat) == Some(t@),
                None => self@.lookup_name_depth(name@, max_depth as nat) is None,
            },
    {
        let limit = if max_depth < self.layers.len() {
            max_depth + 1
        } else {
            self.layers.len()
        };
        self.lookup_name_within(name, limit)
    }

    /// The type of `name` in the nearest of the first `limit` layers that
    /// records it.
    fn lookup_name_within(&self, name: &str, limit: usize) -> (datatype: Option<&DataType>)
        requires
            limit <= self@.depth(),
        ensures
            match datatype {
                Some(t) => first_datatype(self@.layers.take(limit as int), name@) == Some(t@),
                None => first_datatype(self@.layers.take(limit as int), name@) is None,
            },
    {
        let ghost searched = self@.layers.take(limit as int);
        let mut i: usize = 0;
        assert(searched.skip(0) =~= searched);
        while i < limit
            invariant
                i <= limit <= self.layers@.len(),
                searched == self@.layers.take(limit as int),
                first_datatype(searched, name@) == first_datatype(searched.skip(i as int), name@),
            decreases limit - i,
        {
            let ghost rest = searched.skip(i as int);
            assert(rest[0] == self.layers@[i as int]@);
            assert(rest.drop_first() =~= searched.skip(i + 1));
            match self.layers[i].lookup_name(name) {
                Some(datatype) => {
                    return Some(datatype);
                },
                None => {},
            }
            i += 1;
        }
        None
    }
}

/// Shadowing of names: after a push, a name inserted into the new layer is
/// found with its new type, whatever the layers below record for it, every
/// other name is found as before, and the pop gives back the scope as it was
/// before the push, so that every lookup sees the outer value again.
pub proof fn lemma_shadow_name(scope: ScopeView, name: Seq<char>, datatype: DataTypeView)
    ensures
        scope.push().insert_name(name, datatype).lookup_name(name) == Some(datatype),
        scope.push().insert_name(name, datatype).current().datatype(name) == Some(datatype),
        forall|other: Seq<char>|
            other != name ==> scope.push().insert_name(name, datatype).lookup_name(other)
                == scope.lookup_name(other),
        scope.push().insert_name(name, datatype).pop() == scope,
{
    let inner = scope.push().insert_name(name, datatype);
    assert(inner.layers.drop_first() =~= scope.layers);
    assert(inner.pop().layers =~= scope.layers);
}

/// Shadowing of addresses: after a push, an address inserted into the new
/// layer is found with its new name and that name with its new type,
/// whatever the layers below hold, every other address is found as before,
/// and the pop gives back the scope as it was before the push.
pub proof fn lemma_shadow_ptr(
    scope: ScopeView,
    ptr: u32,
    name: Seq<char>,
    datatype: DataTypeView,
)
    ensures
        scope.push().insert_ptr(ptr, name, datatype).lookup_ptr(ptr) == Some(name),
        scope.push().insert_ptr(ptr, name, datatype).lookup_name(name) == Some(datatype),
        forall|other: u32|
            other != ptr ==> scope.push().insert_ptr(ptr, name, datatype).lookup_ptr(other)
                == scope.lookup_ptr(other),
        scope.push().insert_ptr(ptr, name, datatype).pop() == scope,
{
    let inner = scope.push().insert_ptr(ptr, name, datatype);
    assert(inner.layers.drop_first() =~= scope.layers);
    assert(inner.pop().layers =~= scope.layers);
}

/// A lookup to depth 0 asks the current layer alone.
pub proof fn lemma_lookup_current(scope: ScopeView, name: Seq<char>)
    requires
        scope.depth() > 0,
    ensures
        scope.lookup_name_depth(name, 0) == scope.current().datatype(name),
{
    let searched = scope.layers.take(1);
    assert(searched.drop_first().len() == 0);
    reveal_with_fuel(first_datatype, 2);
}

/// An insertion returns the type that the current layer recorded for the
/// name, never one that only a layer below records: right after a push
/// there is no previous type, whatever the outer layers hold.
pub proof fn lemma_previous_is_layer_local(scope: ScopeView, name: Seq<char>)
    ensures
        scope.push().current().datatype(name) is None,
{
}

} // verus!
