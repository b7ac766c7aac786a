//! The structural model of Mnemosyne types: primitives, references,
//! algebraic types, function signatures and named symbol types.
use vstd::prelude::*;
use vstd::string::StringExecFns;
use std::rc::Rc;
use crate::chars;
use crate::shared::share;
use crate::position::Positional;
use crate::text::joined;

verus! {

/// A type.
#[derive(Debug)]
pub enum Type {
    /// Reference types
    Ref(Reference),
    /// Primitive types
    Prim(Primitive),
    /// An algebraic data type, represented as a vector of variants.
    Algebraic(Vec<Type>),
    /// A function.
    Function(Signature),
    /// A unique symbol type (`'symbol` syntax)
    Symbol(String),
}

/// A function signature.
///
/// The type chain holds the parameter types in order, followed by the return
/// type.
#[derive(Debug)]
pub struct Signature {
    /// Any typeclass constraints on the function
    pub constraints: Option<Vec<Constraint>>,
    /// The parameter types, followed by the return type
    pub typechain: Vec<Type>,
}

/// A typeclass constraint on the generics of a signature.
#[derive(Debug)]
pub struct Constraint {
    pub typeclass: Positional<String>,
    pub generics: Vec<Positional<String>>,
}

/// Reference types (pointers).
///
/// The qualifier is a tag: nothing here tracks lifetimes.
#[derive(Debug)]
pub enum Reference {
    /// A reference borrowed from another scope.
    Borrowed(Rc<Type>),
    /// A moved reference from another scope.
    Moved(Rc<Type>),
    /// A unique (i.e. boxed) reference.
    Unique(Rc<Type>),
    /// A raw (unsafe) reference.
    Raw(Rc<Type>),
}

/// Language primitive types.
#[derive(Debug, Clone, Copy, Eq, PartialEq, Structural)]
pub enum Primitive {
    Int(Int),
    IntSize,
    Uint(Int),
    UintSize,
    Byte,
    Char,
    Str,
    Bool,
    Float,
    Double,
}

/// The widths of sized integers.
#[derive(Debug, Clone, Copy, Eq, PartialEq, Structural)]
pub enum Int {
    Int8,
    Int16,
    Int32,
    Int64,
}

/// What a `Type` stands for in specifications.
pub enum TypeModel {
    Ref(ReferenceModel),
    Prim(Primitive),
    Algebraic(Seq<TypeModel>),
    Function(SignatureModel),
    Symbol(Seq<char>),
}

/// What a `Reference` stands for in specifications.
pub enum ReferenceModel {
    Borrowed(Box<TypeModel>),
    Moved(Box<TypeModel>),
    Unique(Box<TypeModel>),
    Raw(Box<TypeModel>),
}

/// What a `Signature` stands for in specifications.
pub struct SignatureModel {
    pub constraints: Option<Seq<ConstraintModel>>,
    pub typechain: Seq<TypeModel>,
}

/// What a `Constraint` stands for in specifications: the names of the
/// typeclass and of the generics, wherever they were written.
pub struct ConstraintModel {
    pub typeclass: Seq<char>,
    pub generics: Seq<Seq<char>>,
}

/// The model of a type.
pub open spec fn type_model(t: Type) -> TypeModel
    decreases t,
{
    match t {
        Type::Ref(r) => TypeModel::Ref(
            match r {
                Reference::Borrowed(inner) => ReferenceModel::Borrowed(Box::new(type_model(*inner))),
                Reference::Moved(inner) => ReferenceModel::Moved(Box::new(type_model(*inner))),
                Reference::Unique(inner) => ReferenceModel::Unique(Box::new(type_model(*inner))),
                Reference::Raw(inner) => ReferenceModel::Raw(Box::new(type_model(*inner))),
            },
        ),
        Type::Prim(p) => TypeModel::Prim(p),
        Type::Algebraic(variants) => TypeModel::Algebraic(type_models(variants@)),
        Type::Function(sig) => TypeModel::Function(
            SignatureModel {
                constraints: match sig.constraints {
                    Some(cs) => Some(constraint_models(cs@)),
                    None => None,
                },
                typechain: type_models(sig.typechain@),
            },
        ),
        Type::Symbol(s) => TypeModel::Symbol(s@),
    }
}

/// The models of a list of types.
pub open spec fn type_models(ts: Seq<Type>) -> Seq<TypeModel>
    decreases ts,
{
    if ts.len() == 0 {
        Seq::empty()
    } else {
        type_models(ts.drop_last()).push(type_model(ts.last()))
    }
}

/// The model of a constraint.
pub open spec fn constraint_model(c: Constraint) -> ConstraintModel {
    ConstraintModel {
        typeclass: c.typeclass.value@,
        generics: ident_names(ident_models(c.generics@)),
    }
}

/// The models of a list of identifiers.
pub open spec fn ident_models(ids: Seq<Positional<String>>) -> Seq<Positional<Seq<char>>> {
    Seq::new(ids.len(), |i: int| ids[i]@)
}

/// The models of a list of constraints.
pub open spec fn constraint_models(cs: Seq<Constraint>) -> Seq<ConstraintModel> {
    Seq::new(cs.len(), |i: int| constraint_model(cs[i]))
}

/// The models of a list of types, element by element.
pub proof fn lemma_type_models(ts: Seq<Type>)
    ensures
        type_models(ts).len() == ts.len(),
        forall|i: int| 0 <= i < ts.len() ==> #[trigger] type_models(ts)[i] == type_model(ts[i]),
    decreases ts.len(),
{
    if ts.len() > 0 {
        lemma_type_models(ts.drop_last());
    }
}

impl View for Type {
    type V = TypeModel;

    open spec fn view(&self) -> TypeModel {
        type_model(*self)
    }
}

impl View for Reference {
    type V = ReferenceModel;

    open spec fn view(&self) -> ReferenceModel {
        type_model(Type::Ref(*self))->Ref_0
    }
}

impl View for Signature {
    type V = SignatureModel;

    open spec fn view(&self) -> SignatureModel {
        type_model(Type::Function(*self))->Function_0
    }
}

impl View for Constraint {
    type V = ConstraintModel;

    open spec fn view(&self) -> ConstraintModel {
        constraint_model(*self)
    }
}

/// The arity that a type chain declares: its length less the return type.
pub open spec fn arity_of(typechain: Seq<TypeModel>) -> int {
    typechain.len() - 1
}

impl Int {
    /// The width in bits.
    pub open spec fn width(self) -> nat {
        match self {
            Int::Int8 => 8,
            Int::Int16 => 16,
            Int::Int32 => 32,
            Int::Int64 => 64,
        }
    }

    /// The width in bits.
    pub fn bits(self) -> (n: usize)
        ensures
            n == self.width(),
    {
        match self {
            Int::Int8 => 8,
            Int::Int16 => 16,
            Int::Int32 => 32,
            Int::Int64 => 64,
        }
    }
}

impl Signature {
    /// The uncurried return type of the function: the last element of the
    /// type chain.
    pub fn return_type(&self) -> (t: &Type)
        requires
            self.typechain@.len() > 0,
        ensures
            *t == self.typechain@.last(),
            t@ == self@.typechain.last(),
    {
        proof {
            lemma_type_models(self.typechain@);
        }
        &self.typechain[self.typechain.len() - 1]
    }

    /// Returns the arity of the function: the number of parameter types.
    pub fn arity(&self) -> (n: usize)
        requires
            self.typechain@.len() > 0,
        ensures
            n == self.typechain@.len() - 1,
            n == arity_of(self@.typechain),
    {
        proof {
            lemma_type_models(self.typechain@);
        }
        self.typechain.len() - 1
    }
}

/// The name of a primitive type in the language's notation.
pub open spec fn primitive_text(p: Primitive) -> Seq<char> {
    match p {
        Primitive::Int(Int::Int8) => "i8"@,
        Primitive::Int(Int::Int16) => "i16"@,
        Primitive::Int(Int::Int32) => "i32"@,
        Primitive::Int(Int::Int64) => "i64"@,
        Primitive::Uint(Int::Int8) => "u8"@,
        Primitive::Uint(Int::Int16) => "u16"@,
        Primitive::Uint(Int::Int32) => "u32"@,
        Primitive::Uint(Int::Int64) => "u64"@,
        Primitive::IntSize => "int"@,
        Primitive::UintSize => "uint"@,
        Primitive::Byte => "byte"@,
        Primitive::Char => "char"@,
        Primitive::Str => "string"@,
        Primitive::Bool => "bool"@,
        Primitive::Float => "float"@,
        Primitive::Double => "double"@,
    }
}

/// The values of a list of identifiers.
pub open spec fn ident_names(ids: Seq<Positional<Seq<char>>>) -> Seq<Seq<char>> {
    Seq::new(ids.len(), |i: int| ids[i].value)
}

/// A constraint in the braces form: `{Class ⇒ a b}`.
pub open spec fn constraint_text(c: ConstraintModel) -> Seq<char> {
    "{"@ + c.typeclass + " \u{21D2} "@ + joined(c.generics, " "@) + "}"@
}

/// The constraints of a signature in order, each followed by one space.
pub open spec fn constraints_text(cs: Seq<ConstraintModel>) -> Seq<char>
    decreases cs.len(),
{
    if cs.len() == 0 {
        Seq::empty()
    } else {
        constraints_text(cs.drop_last()) + constraint_text(cs.last()) + " "@
    }
}

/// A type in the language's own notation.
///
/// A reference is its qualifier before the type referred to; an algebraic
/// type is its variants between bars; a signature without constraints is the
/// parenthesized arrow form `(→ a b c)`, one with constraints the braces
/// form `{{Class ⇒ a} a → b → c}`.
pub open spec fn type_text(t: TypeModel) -> Seq<char>
    decreases t,
{
    match t {
        TypeModel::Ref(r) => match r {
            ReferenceModel::Borrowed(inner) => "&"@ + type_text(*inner),
            ReferenceModel::Moved(inner) => "move "@ + type_text(*inner),
            ReferenceModel::Unique(inner) => "@"@ + type_text(*inner),
            ReferenceModel::Raw(inner) => "*"@ + type_text(*inner),
        },
        TypeModel::Prim(p) => primitive_text(p),
        TypeModel::Algebraic(variants) => joined(type_texts(variants), " | "@),
        TypeModel::Function(sig) => match sig.constraints {
            None => "(\u{2192} "@ + joined(type_texts(sig.typechain), " "@) + ")"@,
            Some(cs) => "{"@ + constraints_text(cs) + joined(
                type_texts(sig.typechain),
                " \u{2192} "@,
            ) + "}"@,
        },
        TypeModel::Symbol(s) => s,
    }
}

/// The texts of a list of types.
pub open spec fn type_texts(ts: Seq<TypeModel>) -> Seq<Seq<char>>
    decreases ts,
{
    if ts.len() == 0 {
        Seq::empty()
    } else {
        type_texts(ts.drop_last()).push(type_text(ts.last()))
    }
}

/// A signature in the language's own notation.
pub open spec fn signature_text(sig: SignatureModel) -> Seq<char> {
    type_text(TypeModel::Function(sig))
}

/// The texts of a list of types, element by element.
pub proof fn lemma_type_texts(ts: Seq<TypeModel>)
    ensures
        type_texts(ts).len() == ts.len(),
        forall|i: int| 0 <= i < ts.len() ==> #[trigger] type_texts(ts)[i] == type_text(ts[i]),
    decreases ts.len(),
{
    if ts.len() > 0 {
        lemma_type_texts(ts.drop_last());
    }
}

/// The clones of the types of a list.
fn clone_types(ts: &Vec<Type>) -> (out: Vec<Type>)
    ensures
        type_models(out@) == type_models(ts@),
        out@.len() == ts@.len(),
    decreases ts,
{
    let mut out: Vec<Type> = Vec::new();
    let mut i: usize = 0;
    while i < ts.len()
        invariant
            i <= ts@.len(),
            out@.len() == i,
            forall|j: int| 0 <= j < i ==> (#[trigger] out@[j])@ == ts@[j]@,
        decreases ts.len() - i,
    {
        let c = ts[i].clone();
        out.push(c);
        i += 1;
    }
    proof {
        lemma_type_models(out@);
        lemma_type_models(ts@);
        assert(type_models(out@) =~= type_models(ts@));
    }
    out
}

/// The clones of the identifiers of a list.
pub fn clone_idents(ids: &Vec<Positional<String>>) -> (out: Vec<Positional<String>>)
    ensures
        ident_models(out@) == ident_models(ids@),
{
    let mut out: Vec<Positional<String>> = Vec::new();
    let mut i: usize = 0;
    while i < ids.len()
        invariant
            i <= ids@.len(),
            out@.len() == i,
            forall|j: int| 0 <= j < i ==> (#[trigger] out@[j])@ == ids@[j]@,
        decreases ids.len() - i,
    {
        let c = ids[i].clone();
        out.push(c);
        i += 1;
    }
    assert(ident_models(out@) =~= ident_models(ids@));
    out
}

impl Clone for Constraint {
    fn clone(&self) -> (r: Self)
        ensures
            r@ == self@,
    {
        Constraint { typeclass: self.typeclass.clone(), generics: clone_idents(&self.generics) }
    }
}

/// The clones of the constraints of a list.
fn clone_constraints(cs: &Vec<Constraint>) -> (out: Vec<Constraint>)
    ensures
        constraint_models(out@) == constraint_models(cs@),
{
    let mut out: Vec<Constraint> = Vec::new();
    let mut i: usize = 0;
    while i < cs.len()
        invariant
            i <= cs@.len(),
            out@.len() == i,
            forall|j: int| 0 <= j < i ==> (#[trigger] out@[j])@ == cs@[j]@,
        decreases cs.len() - i,
    {
        let c = cs[i].clone();
        out.push(c);
        i += 1;
    }
    assert(constraint_models(out@) =~= constraint_models(cs@));
    out
}

impl Clone for Reference {
    /// Another handle on the same type, under the same qualifier.
    fn clone(&self) -> (r: Self)
        ensures
            r@ == self@,
    {
        match self {
            Reference::Borrowed(t) => Reference::Borrowed(share(t)),
            Reference::Moved(t) => Reference::Moved(share(t)),
            Reference::Unique(t) => Reference::Unique(share(t)),
            Reference::Raw(t) => Reference::Raw(share(t)),
        }
    }
}

impl Clone for Signature {
    fn clone(&self) -> (r: Self)
        ensures
            r@ == self@,
            r.typechain@.len() == self.typechain@.len(),
        decreases self,
    {
        let constraints = match &self.constraints {
            Some(cs) => Some(clone_constraints(cs)),
            None => None,
        };
        Signature { constraints, typechain: clone_types(&self.typechain) }
    }
}

impl Clone for Type {
    fn clone(&self) -> (r: Self)
        ensures
            r@ == self@,
        decreases self,
    {
        match self {
            Type::Ref(reference) => Type::Ref(reference.clone()),
            Type::Prim(p) => Type::Prim(*p),
            Type::Algebraic(variants) => Type::Algebraic(clone_types(variants)),
            Type::Function(sig) => Type::Function(sig.clone()),
            Type::Symbol(s) => Type::Symbol(s.clone()),
        }
    }
}

impl Primitive {
    /// The name of the primitive type in the language's notation.
    pub fn name(&self) -> (s: &'static str)
        ensures
            s@ == primitive_text(*self),
    {
        match self {
            Primitive::Int(Int::Int8) => "i8",
            Primitive::Int(Int::Int16) => "i16",
            Primitive::Int(Int::Int32) => "i32",
            Primitive::Int(Int::Int64) => "i64",
            Primitive::Uint(Int::Int8) => "u8",
            Primitive::Uint(Int::Int16) => "u16",
            Primitive::Uint(Int::Int32) => "u32",
            Primitive::Uint(Int::Int64) => "u64",
            Primitive::IntSize => "int",
            Primitive::UintSize => "uint",
            Primitive::Byte => "byte",
            Primitive::Char => "char",
            Primitive::Str => "string",
            Primitive::Bool => "bool",
            Primitive::Float => "float",
            Primitive::Double => "double",
        }
    }

    /// Renders the primitive type in the language's notation.
    pub fn to_string(&self) -> (s: String)
        ensures
            s@ == primitive_text(*self),
    {
        String::from_str(self.name())
    }
}

/// The texts of the identifiers of a list.
fn render_idents(ids: &Vec<Positional<String>>) -> (out: Vec<String>)
    ensures
        crate::text::views(out@) == ident_names(ident_models(ids@)),
{
    let mut out: Vec<String> = Vec::new();
    let mut i: usize = 0;
    while i < ids.len()
        invariant
            i <= ids@.len(),
            out@.len() == i,
            forall|j: int| 0 <= j < i ==> (#[trigger] out@[j])@ == ids@[j].value@,
        decreases ids.len() - i,
    {
        out.push(ids[i].value.clone());
        i += 1;
    }
    assert(crate::text::views(out@) =~= ident_names(ident_models(ids@)));
    out
}

impl Constraint {
    /// Renders the constraint in the braces form: `{Class ⇒ a b}`.
    pub fn to_string(&self) -> (s: String)
        ensures
            s@ == constraint_text(self@),
    {
        let mut s = String::from_str("{");
        s.append(self.typeclass.value.as_str());
        s.append(" ");
        s.append(chars::FAT_ARROW);
        s.append(" ");
        let names = render_idents(&self.generics);
        let generics = crate::text::join(&names, " ");
        s.append(generics.as_str());
        s.append("}");
        proof {
            reveal_strlit(" \u{21D2} ");
            reveal_strlit(" ");
            reveal_strlit("\u{21D2}");
            assert(" \u{21D2} "@ =~= " "@ + "\u{21D2}"@ + " "@);
            assert(s@ =~= constraint_text(self@));
        }
        s
    }
}

/// Renders the constraints of a list, each followed by one space.
fn render_constraints(cs: &Vec<Constraint>) -> (s: String)
    ensures
        s@ == constraints_text(constraint_models(cs@)),
{
    let mut s = String::new();
    let mut i: usize = 0;
    while i < cs.len()
        invariant
            i <= cs@.len(),
            s@ == constraints_text(constraint_models(cs@).take(i as int)),
        decreases cs.len() - i,
    {
        let ghost before = constraint_models(cs@).take(i as int);
        let ghost after = constraint_models(cs@).take(i + 1);
        proof {
            assert(after.drop_last() =~= before);
            assert(after.last() == cs@[i as int]@);
        }
        let c = cs[i].to_string();
        s.append(c.as_str());
        s.append(" ");
        assert(s@ =~= constraints_text(after));
        i += 1;
    }
    proof {
        assert(constraint_models(cs@).take(cs@.len() as int) =~= constraint_models(cs@));
    }
    s
}

/// Renders the types of a list.
fn render_types(ts: &Vec<Type>) -> (out: Vec<String>)
    ensures
        crate::text::views(out@) == type_texts(type_models(ts@)),
    decreases ts,
{
    let mut out: Vec<String> = Vec::new();
    let mut i: usize = 0;
    while i < ts.len()
        invariant
            i <= ts@.len(),
            out@.len() == i,
            forall|j: int| 0 <= j < i ==> (#[trigger] out@[j])@ == type_text(ts@[j]@),
        decreases ts.len() - i,
    {
        let t = ts[i].to_string();
        out.push(t);
        i += 1;
    }
    proof {
        lemma_type_models(ts@);
        lemma_type_texts(type_models(ts@));
        assert(crate::text::views(out@) =~= type_texts(type_models(ts@)));
    }
    out
}

impl Reference {
    /// Renders the reference type: its qualifier, then the type referred to.
    pub fn to_string(&self) -> (s: String)
        ensures
            s@ == type_text(TypeModel::Ref(self@)),
        decreases self,
    {
        let (mut s, inner) = match self {
            Reference::Borrowed(t) => (String::from_str("&"), t),
            Reference::Moved(t) => (String::from_str("move "), t),
            Reference::Unique(t) => (String::from_str("@"), t),
            Reference::Raw(t) => (String::from_str("*"), t),
        };
        let rest = inner.to_string();
        s.append(rest.as_str());
        s
    }
}

impl Signature {
    /// Renders the signature: without constraints in the parenthesized arrow
    /// form, with constraints in the braces form.
    pub fn to_string(&self) -> (s: String)
        ensures
            s@ == signature_text(self@),
        decreases self,
    {
        let types = render_types(&self.typechain);
        match &self.constraints {
            None => {
                let mut s = String::from_str("(");
                s.append(chars::ARROW);
                s.append(" ");
                let chain = crate::text::join(&types, " ");
                s.append(chain.as_str());
                s.append(")");
                proof {
                    reveal_strlit("(\u{2192} ");
                    reveal_strlit("(");
                    reveal_strlit("\u{2192}");
                    reveal_strlit(" ");
                    assert("(\u{2192} "@ =~= "("@ + "\u{2192}"@ + " "@);
                    assert(s@ =~= signature_text(self@));
                }
                s
            },
            Some(cs) => {
                let mut s = String::from_str("{");
                let constraints = render_constraints(cs);
                s.append(constraints.as_str());
                let mut sep = String::from_str(" ");
                sep.append(chars::ARROW);
                sep.append(" ");
                proof {
                    reveal_strlit(" \u{2192} ");
                    reveal_strlit("\u{2192}");
                    reveal_strlit(" ");
                    assert(sep@ =~= " \u{2192} "@);
                }
                let chain = crate::text::join(&types, sep.as_str());
                s.append(chain.as_str());
                s.append("}");
                proof {
                    assert(s@ =~= signature_text(self@));
                }
                s
            },
        }
    }
}

impl Type {
    /// Renders the type in the language's own notation.
    pub fn to_string(&self) -> (s: String)
        ensures
            s@ == type_text(self@),
        decreases self,
    {
        match self {
            Type::Ref(reference) => reference.to_string(),
            Type::Prim(p) => p.to_string(),
            Type::Algebraic(variants) => {
                let parts = render_types(variants);
                crate::text::join(&parts, " | ")
            },
            Type::Function(sig) => sig.to_string(),
            Type::Symbol(name) => name.clone(),
        }
    }
}

/// Whether two lists of identifiers hold the same names in the same order.
fn names_equal(a: &Vec<Positional<String>>, b: &Vec<Positional<String>>) -> (r: bool)
    ensures
        r == (ident_names(ident_models(a@)) == ident_names(ident_models(b@))),
{
    let ghost x = ident_names(ident_models(a@));
    let ghost y = ident_names(ident_models(b@));
    if a.len() != b.len() {
        assert(x.len() != y.len());
        return false;
    }
    let mut i: usize = 0;
    while i < a.len()
        invariant
            i <= a@.len(),
            a@.len() == b@.len(),
            x == ident_names(ident_models(a@)),
            y == ident_names(ident_models(b@)),
            forall|j: int| 0 <= j < i ==> #[trigger] x[j] == y[j],
        decreases a.len() - i,
    {
        if !(a[i].value == b[i].value) {
            assert(x[i as int] != y[i as int]);
            return false;
        }
        i += 1;
    }
    assert(x =~= y);
    true
}

/// Whether two constraints are the same: the same typeclass over the same
/// generics.
fn constraints_equal(a: &Constraint, b: &Constraint) -> (r: bool)
    ensures
        r == (a@ == b@),
{
    a.typeclass.value == b.typeclass.value && names_equal(&a.generics, &b.generics)
}

/// Whether two lists of constraints hold the same constraints in the same
/// order.
fn constraint_lists_equal(a: &Vec<Constraint>, b: &Vec<Constraint>) -> (r: bool)
    ensures
        r == (constraint_models(a@) == constraint_models(b@)),
{
    let ghost x = constraint_models(a@);
    let ghost y = constraint_models(b@);
    if a.len() != b.len() {
        assert(x.len() != y.len());
        return false;
    }
    let mut i: usize = 0;
    while i < a.len()
        invariant
            i <= a@.len(),
            a@.len() == b@.len(),
            x == constraint_models(a@),
            y == constraint_models(b@),
            forall|j: int| 0 <= j < i ==> #[trigger] x[j] == y[j],
        decreases a.len() - i,
    {
        if !constraints_equal(&a[i], &b[i]) {
            assert(x[i as int] != y[i as int]);
            return false;
        }
        i += 1;
    }
    assert(x =~= y);
    true
}

/// Whether two lists of types hold the same types in the same order.
fn type_lists_equal(a: &Vec<Type>, b: &Vec<Type>) -> (r: bool)
    ensures
        r == (type_models(a@) == type_models(b@)),
    decreases a,
{
    proof {
        lemma_type_models(a@);
        lemma_type_models(b@);
    }
    if a.len() != b.len() {
        return false;
    }
    let mut i: usize = 0;
    while i < a.len()
        invariant
            i <= a@.len(),
            a@.len() == b@.len(),
            type_models(a@).len() == a@.len(),
            type_models(b@).len() == b@.len(),
            forall|j: int| 0 <= j < a@.len() ==> #[trigger] type_models(a@)[j] == a@[j]@,
            forall|j: int| 0 <= j < b@.len() ==> #[trigger] type_models(b@)[j] == b@[j]@,
            forall|j: int| 0 <= j < i ==> (#[trigger] a@[j])@ == b@[j]@,
        decreases a.len() - i,
    {
        if !types_equal(&a[i], &b[i]) {
            assert(type_models(a@)[i as int] != type_models(b@)[i as int]);
            return false;
        }
        i += 1;
    }
    assert(type_models(a@) =~= type_models(b@));
    true
}

/// Whether two signatures are the same: the same constraints, if any, and
/// the same type chain.
fn signatures_equal(a: &Signature, b: &Signature) -> (r: bool)
    ensures
        r == (a@ == b@),
    decreases a,
{
    let constraints = match (&a.constraints, &b.constraints) {
        (Some(x), Some(y)) => constraint_lists_equal(x, y),
        (None, None) => true,
        _ => false,
    };
    constraints && type_lists_equal(&a.typechain, &b.typechain)
}

/// Whether two references are the same: the same qualifier on the same
/// type.
fn references_equal(a: &Reference, b: &Reference) -> (r: bool)
    ensures
        r == (a@ == b@),
    decreases a,
{
    match (a, b) {
        (Reference::Borrowed(x), Reference::Borrowed(y)) => types_equal(&**x, &**y),
        (Reference::Moved(x), Reference::Moved(y)) => types_equal(&**x, &**y),
        (Reference::Unique(x), Reference::Unique(y)) => types_equal(&**x, &**y),
        (Reference::Raw(x), Reference::Raw(y)) => types_equal(&**x, &**y),
        _ => false,
    }
}

/// Whether two types are the same: the same tag on the same substructure.
fn types_equal(a: &Type, b: &Type) -> (r: bool)
    ensures
        r == (a@ == b@),
    decreases a,
{
    match (a, b) {
        (Type::Ref(x), Type::Ref(y)) => references_equal(x, y),
        (Type::Prim(x), Type::Prim(y)) => *x == *y,
        (Type::Algebraic(x), Type::Algebraic(y)) => type_lists_equal(x, y),
        (Type::Function(x), Type::Function(y)) => signatures_equal(x, y),
        (Type::Symbol(x), Type::Symbol(y)) => *x == *y,
        _ => false,
    }
}

/// Types are equal iff their tags and all their substructure are equal.
impl PartialEq for Type {
    fn eq(&self, other: &Type) -> (r: bool) {
        types_equal(self, other)
    }
}

impl vstd::std_specs::cmp::PartialEqSpecImpl for Type {
    open spec fn obeys_eq_spec() -> bool {
        true
    }

    open spec fn eq_spec(&self, other: &Type) -> bool {
        self@ == other@
    }
}

/// References are equal iff their qualifiers and the types they refer to are
/// equal.
impl PartialEq for Reference {
    fn eq(&self, other: &Reference) -> (r: bool) {
        references_equal(self, other)
    }
}

impl vstd::std_specs::cmp::PartialEqSpecImpl for Reference {
    open spec fn obeys_eq_spec() -> bool {
        true
    }

    open spec fn eq_spec(&self, other: &Reference) -> bool {
        self@ == other@
    }
}

/// Signatures are equal iff their constraints and their type chains are
/// equal.
impl PartialEq for Signature {
    fn eq(&self, other: &Signature) -> (r: bool) {
        signatures_equal(self, other)
    }
}

impl vstd::std_specs::cmp::PartialEqSpecImpl for Signature {
    open spec fn obeys_eq_spec() -> bool {
        true
    }

    open spec fn eq_spec(&self, other: &Signature) -> bool {
        self@ == other@
    }
}

/// Constraints are equal iff they name the same typeclass and the same
/// generics, wherever the names were written.
impl PartialEq for Constraint {
    fn eq(&self, other: &Constraint) -> (r: bool) {
        constraints_equal(self, other)
    }
}

impl vstd::std_specs::cmp::PartialEqSpecImpl for Constraint {
    open spec fn obeys_eq_spec() -> bool {
        true
    }

    open spec fn eq_spec(&self, other: &Constraint) -> bool {
        self@ == other@
    }
}

} // verus!
