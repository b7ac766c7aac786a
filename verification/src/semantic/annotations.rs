//! Annotations that attach a position, and once a tree is resolved a scope,
//! to the nodes of a syntax tree.
//!
//! An annotation is in one of two states, told apart by a marker type: an
//! unscoped annotation has no scope, and offers no query on one; a scoped
//! annotation is made from an unscoped one by attaching a symbol table, and
//! there is no way back.
use vstd::prelude::*;
use vstd::std_specs::cmp::PartialEqSpec;
use std::marker::PhantomData;
use std::rc::Rc;
use crate::forktable::{lookup, lookup_local, Frame};
use crate::shared::share;
use crate::position::{Position, Positional};
use crate::semantic::{SymbolAnnotation, SymbolTable};

verus! {

/// The marker of the state that an annotation is in.
pub trait ScopednessTypestate {
    /// Whether annotations in this state carry a scope.
    spec fn scoped() -> bool;

    /// Whether annotations in this state carry a scope.
    fn is_scoped() -> (b: bool)
        ensures
            b == Self::scoped(),
    ;
}

/// The state of an annotation that carries a scope.
#[derive(Copy, Clone, Debug, PartialEq, Eq, Structural)]
pub struct ScopedState;

/// The state of an annotation that carries no scope yet.
#[derive(Copy, Clone, Debug, PartialEq, Eq, Structural)]
pub struct UnscopedState;

impl ScopednessTypestate for ScopedState {
    open spec fn scoped() -> bool {
        true
    }

    fn is_scoped() -> (b: bool) {
        true
    }
}

impl ScopednessTypestate for UnscopedState {
    open spec fn scoped() -> bool {
        false
    }

    fn is_scoped() -> (b: bool) {
        false
    }
}

/// The scope of an annotation: no table in the unscoped state, a symbol
/// table in the scoped state.
///
/// A scope in the scoped state can only be made from a table, so it always
/// holds one.
#[derive(Debug)]
pub struct Scope<'a, S: ScopednessTypestate> {
    table: Option<Rc<SymbolTable<'a>>>,
    my_typestate: PhantomData<S>,
}

impl<'a, S: ScopednessTypestate> Scope<'a, S> {
    #[verifier::type_invariant]
    spec fn inv(&self) -> bool {
        S::scoped() ==> self.table is Some
    }

    /// The symbol table of the scope, if there is one.
    pub closed spec fn table(&self) -> Option<SymbolTable<'a>> {
        match self.table {
            Some(table) => Some(*table),
            None => None,
        }
    }
}

impl<'a, S: ScopednessTypestate> Clone for Scope<'a, S> {
    /// A scope with another handle on the same table.
    fn clone(&self) -> (r: Self)
        ensures
            r.table() == self.table(),
    {
        proof {
            use_type_invariant(self);
        }
        let table = match &self.table {
            Some(table) => Some(share(table)),
            None => None,
        };
        Scope { table, my_typestate: PhantomData }
    }
}

impl<'a> Scope<'a, UnscopedState> {
    /// The scope of an unscoped annotation: none.
    fn none() -> (r: Self)
        ensures
            r.table() is None,
    {
        Scope { table: None, my_typestate: PhantomData }
    }
}

impl<'a> Scope<'a, ScopedState> {
    /// The scope that holds the shared table.
    fn of(table: Rc<SymbolTable<'a>>) -> (r: Self)
        ensures
            r.table() == Some(*table),
    {
        Scope { table: Some(table), my_typestate: PhantomData }
    }

    /// The symbol table of the scope.
    pub fn get(&self) -> (table: &Rc<SymbolTable<'a>>)
        ensures
            self.table() == Some(**table),
    {
        proof {
            use_type_invariant(self);
        }
        match &self.table {
            Some(table) => table,
            None => vstd::pervasive::unreached(),
        }
    }
}

/// An AST node which has been annotated with position and (possibly) scope
/// information.
#[derive(Debug)]
pub struct Annotated<'a, T, S: ScopednessTypestate> {
    pub node: T,
    pub position: Position,
    pub scope: Scope<'a, S>,
}

/// An annotation that carries a scope.
pub type Scoped<'a, T> = Annotated<'a, T, ScopedState>;

/// An annotation that carries no scope yet.
pub type Unscoped<'a, T> = Annotated<'a, T, UnscopedState>;

impl<'a, T, S: ScopednessTypestate> Annotated<'a, T, S> {
    /// Wraps a new value in the position of this annotation.
    #[inline]
    pub fn map_pos<B>(&self, val: B) -> (p: Positional<B>)
        ensures
            p.pos == self.position,
            p.value == val,
    {
        Positional::from(self.position, val)
    }
}

impl<'a, T: Clone, S: ScopednessTypestate> Clone for Annotated<'a, T, S> {
    /// An annotation of a clone of the node, at the same position and with
    /// the same scope.
    fn clone(&self) -> (r: Self)
        ensures
            cloned(self.node, r.node),
            r.position == self.position,
            r.scope.table() == self.scope.table(),
    {
        Annotated { node: self.node.clone(), position: self.position, scope: self.scope.clone() }
    }
}

impl<'a, T> Annotated<'a, T, ScopedState> {
    /// The chain of the symbol table of this annotation, innermost level
    /// first.
    pub open spec fn chain(&self) -> Seq<Frame<Seq<char>, SymbolAnnotation<'a>>> {
        self.scope.table()->0@
    }

    /// Extract the symbol table from this node's scope annotation.
    ///
    /// A scoped annotation is only ever made by attaching a table, so the
    /// table is there.
    pub fn symbol_table(&self) -> (table: &SymbolTable<'a>)
        ensures
            self.scope.table() == Some(*table),
    {
        let shared = self.scope.get();
        &**shared
    }

    /// Get the annotation associated with the given name in the scope of
    /// this node: what the chain of its symbol table provides for the name.
    pub fn get_type(&self, name: &str) -> (r: Option<&SymbolAnnotation<'a>>)
        ensures
            self.scope.table() is Some,
            match r {
                Some(v) => lookup(self.chain(), name@) == Some(*v),
                None => lookup(self.chain(), name@) is None,
            },
    {
        let key = name.to_owned();
        self.symbol_table().get(&key)
    }

    /// Check if the given name is defined at the very level of this node's
    /// scope, not in a level that encloses it.
    pub fn is_defined_here(&self, name: &str) -> (b: bool)
        ensures
            self.scope.table() is Some,
            b == lookup_local(self.chain(), name@).is_some(),
    {
        let key = name.to_owned();
        self.symbol_table().contains_key(&key)
    }
}

impl<'a, T> Annotated<'a, T, UnscopedState> {
    /// Consume this unscoped annotation to produce a new annotation in the
    /// scoped typestate with the given scope.
    pub fn with_scope(self, scope: SymbolTable<'a>) -> (r: Scoped<'a, T>)
        ensures
            r.node == self.node,
            r.position == self.position,
            r.scope.table() == Some(scope),
    {
        Annotated { node: self.node, position: self.position, scope: Scope::of(Rc::new(scope)) }
    }

    /// Consume this unscoped annotation to produce a new annotation in the
    /// scoped typestate, whose scope is the shared table.
    pub fn with_shared_scope(self, scope: &Rc<SymbolTable<'a>>) -> (r: Scoped<'a, T>)
        ensures
            r.node == self.node,
            r.position == self.position,
            r.scope.table() == Some(**scope),
    {
        Annotated { node: self.node, position: self.position, scope: Scope::of(share(scope)) }
    }

    /// Annotates a freshly parsed node with its position.
    pub fn new(node: T, position: Position) -> (r: Self)
        ensures
            r.node == node,
            r.position == position,
            r.scope.table() is None,
    {
        Annotated { node, position, scope: Scope::none() }
    }
}

impl<'a, T, S: ScopednessTypestate> core::ops::Deref for Annotated<'a, T, S> {
    type Target = T;

    fn deref(&self) -> (r: &T)
        ensures
            *r == self.node,
    {
        &self.node
    }
}

impl<'a, T> From<Positional<T>> for Annotated<'a, T, UnscopedState> {
    /// Annotates the value with the position it carries.
    fn from(p: Positional<T>) -> (r: Self)
        ensures
            r.node == p.value,
            r.position == p.pos,
            r.scope.table() is None,
    {
        Annotated::new(p.value, p.pos)
    }
}

impl<'a, T> vstd::std_specs::convert::FromSpecImpl<Positional<T>> for Annotated<'a, T, UnscopedState> {
    open spec fn obeys_from_spec() -> bool {
        true
    }

    closed spec fn from_spec(p: Positional<T>) -> Self {
        Annotated {
            node: p.value,
            position: p.pos,
            scope: Scope { table: None, my_typestate: PhantomData },
        }
    }
}

/// Annotations are equal whenever their nodes are equal: position and scope
/// take no part.
impl<'a, T: PartialEq, S: ScopednessTypestate> PartialEq for Annotated<'a, T, S> {
    fn eq(&self, other: &Annotated<'a, T, S>) -> (r: bool)
        ensures
            call_ensures(T::eq, (&self.node, &other.node), r),
    {
        self.node == other.node
    }
}

impl<'a, T: PartialEq, S: ScopednessTypestate> vstd::std_specs::cmp::PartialEqSpecImpl for Annotated<'a, T, S> {
    open spec fn obeys_eq_spec() -> bool {
        T::obeys_eq_spec()
    }

    open spec fn eq_spec(&self, other: &Annotated<'a, T, S>) -> bool {
        self.node.eq_spec(&other.node)
    }
}

/// Equality of annotations looks at the nodes alone: two annotations at
/// different positions, or with different scopes, compare as their nodes do.
pub proof fn law_equality_ignores_annotation<'a, T: PartialEq, S: ScopednessTypestate>(
    a: Annotated<'a, T, S>,
    b: Annotated<'a, T, S>,
)
    ensures
        a.eq_spec(&b) == a.node.eq_spec(&b.node),
        a.eq_spec(&b) == (Annotated { node: a.node, position: b.position, scope: b.scope }).eq_spec(
            &Annotated { node: b.node, position: a.position, scope: a.scope },
        ),
{
}

/// Where the nodes compare by what they are, annotations of identical nodes
/// compare equal wherever they stand, and annotations of different nodes
/// never do.
pub proof fn law_annotations_compare_as_nodes<'a, T: PartialEq, S: ScopednessTypestate>(
    a: Annotated<'a, T, S>,
    b: Annotated<'a, T, S>,
)
    requires
        vstd::laws_eq::obeys_concrete_eq::<T>(),
    ensures
        a.eq_spec(&b) <==> a.node == b.node,
{
    reveal(vstd::laws_eq::obeys_concrete_eq);
}

} // verus!
