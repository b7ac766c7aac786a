//! Mnemosyne semantic analysis.
use vstd::prelude::*;
use std::rc::Rc;
use crate::forktable::ForkTable;
use crate::shared::share;
use crate::semantic::annotations::{Annotated, ScopedState};
use crate::semantic::ast::Form;
use crate::semantic::equality::{exprs_equal, same_expr};
use crate::semantic::types::{Type, TypeModel};

pub mod annotations;
pub mod ast;
pub mod equality;
pub mod resolve;
pub mod sexpr;
pub mod types;

verus! {

/// A symbol table is a `ForkTable` mapping names to symbol annotations.
///
/// The table is forked upon entering a new scope.
pub type SymbolTable<'a> = ForkTable<'a, String, SymbolAnnotation<'a>>;

/// What a symbol table knows of a name: that it names a type, or the type of
/// the value that it names.
#[derive(Debug)]
pub enum SymbolAnnotation<'a> {
    TypeDef(Type),
    Value {
        /// The type of the symbol
        ty: Type,
        /// An optional proven value for the symbol: defined where the symbol
        /// is known to stay constant within its scope.
        proven_value: Option<Rc<Annotated<'a, Form<'a, ScopedState>, ScopedState>>>,
    },
}

/// What a `SymbolAnnotation` stands for in specifications.
pub enum AnnotationModel<'a> {
    TypeDef(TypeModel),
    Value { ty: TypeModel, proven_value: Option<Annotated<'a, Form<'a, ScopedState>, ScopedState>> },
}

impl<'a> View for SymbolAnnotation<'a> {
    type V = AnnotationModel<'a>;

    open spec fn view(&self) -> AnnotationModel<'a> {
        match self {
            SymbolAnnotation::TypeDef(ty) => AnnotationModel::TypeDef(ty@),
            SymbolAnnotation::Value { ty, proven_value } => AnnotationModel::Value {
                ty: ty@,
                proven_value: match proven_value {
                    Some(e) => Some(**e),
                    None => None,
                },
            },
        }
    }
}

impl<'a> SymbolAnnotation<'a> {
    /// The type that the annotation holds.
    pub open spec fn type_of(self) -> TypeModel {
        match self@ {
            AnnotationModel::TypeDef(ty) => ty,
            AnnotationModel::Value { ty, .. } => ty,
        }
    }

    /// Whether the annotation holds a function type.
    pub fn is_fn_type(&self) -> (b: bool)
        ensures
            b == (self.type_of() is Function),
    {
        match self {
            SymbolAnnotation::TypeDef(ty) => match ty {
                Type::Function(_) => true,
                _ => false,
            },
            SymbolAnnotation::Value { ty, .. } => match ty {
                Type::Function(_) => true,
                _ => false,
            },
        }
    }

    /// Whether the annotation defines a primitive type.
    pub fn is_prim_type(&self) -> (b: bool)
        ensures
            b == (self@ matches AnnotationModel::TypeDef(ty) && ty is Prim),
    {
        match self {
            SymbolAnnotation::TypeDef(ty) => match ty {
                Type::Prim(_) => true,
                _ => false,
            },
            _ => false,
        }
    }
}

impl<'a> Clone for SymbolAnnotation<'a> {
    /// An annotation with a clone of the type, and another handle on the
    /// proven value.
    fn clone(&self) -> (r: Self)
        ensures
            r@ == self@,
    {
        match self {
            SymbolAnnotation::TypeDef(ty) => SymbolAnnotation::TypeDef(ty.clone()),
            SymbolAnnotation::Value { ty, proven_value } => SymbolAnnotation::Value {
                ty: ty.clone(),
                proven_value: match proven_value {
                    Some(e) => Some(share(e)),
                    None => None,
                },
            },
        }
    }
}

/// Whether two annotations are of the same kind, hold the same type and,
/// where they hold a proven value, the same one.
pub open spec fn same_annotation<'a>(a: SymbolAnnotation<'a>, b: SymbolAnnotation<'a>) -> bool {
    match a {
        SymbolAnnotation::TypeDef(x) => b matches SymbolAnnotation::TypeDef(y) && x@ == y@,
        SymbolAnnotation::Value { ty, proven_value } => b matches SymbolAnnotation::Value {
            ty: t,
            proven_value: p,
        } && ty@ == t@ && match proven_value {
            Some(x) => p matches Some(y) && same_expr(*x, *y),
            None => p is None,
        },
    }
}

/// Annotations are equal iff they are of the same kind, hold the same type
/// and, where they hold a proven value, the same one.
impl<'a> PartialEq for SymbolAnnotation<'a> {
    fn eq(&self, other: &SymbolAnnotation<'a>) -> (r: bool) {
        match (self, other) {
            (SymbolAnnotation::TypeDef(x), SymbolAnnotation::TypeDef(y)) => *x == *y,
            (
                SymbolAnnotation::Value { ty: t1, proven_value: p1 },
                SymbolAnnotation::Value { ty: t2, proven_value: p2 },
            ) => *t1 == *t2 && match (p1, p2) {
                (Some(x), Some(y)) => exprs_equal(&**x, &**y),
                (None, None) => true,
                _ => false,
            },
            _ => false,
        }
    }
}

impl<'a> vstd::std_specs::cmp::PartialEqSpecImpl for SymbolAnnotation<'a> {
    open spec fn obeys_eq_spec() -> bool {
        true
    }

    open spec fn eq_spec(&self, other: &SymbolAnnotation<'a>) -> bool {
        same_annotation(*self, *other)
    }
}

} // verus!
