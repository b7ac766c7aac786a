//! Mnemosyne abstract syntax tree.
use vstd::prelude::*;
use std::rc::Rc;
use crate::errors::{error_models, CompileResult, Errors, Problem, ProblemModel};
use crate::forktable::{lookup, lookup_local};
use crate::position::Positional;
use crate::semantic::annotations::{Annotated, ScopedState, ScopednessTypestate};
use crate::semantic::sexpr::{equation_sexpr, render_equation};
use crate::semantic::types::{signature_text, Signature, Type};
use crate::semantic::SymbolAnnotation;

pub use crate::semantic::resolve::AnnotateTypes;
pub use crate::semantic::sexpr::Node;

verus! {

/// An identifier: a name with the position at which it stands.
pub type Ident = Positional<String>;

/// An expression: a form with its annotation.
pub type Expr<'a, S> = Annotated<'a, Form<'a, S>, S>;

/// A body: expressions in order.
pub type Body<'a, S> = Vec<Expr<'a, S>>;

/// The bindings of a `let` form.
pub type Bindings<'a, S> = Vec<Annotated<'a, Binding<'a, S>, S>>;

/// A pattern is a vector of pattern elements.
pub type Pattern = Vec<PatElement>;

/// A module: its name, the names it exports and its top-level forms.
#[derive(Debug)]
pub struct Module<'a, S: ScopednessTypestate> {
    pub name: Ident,
    pub exporting: Vec<Ident>,
    pub body: Body<'a, S>,
}

/// A form of the language.
#[derive(Debug)]
pub enum Form<'a, S: ScopednessTypestate> {
    Define(DefForm<'a, S>),
    If { condition: Rc<Expr<'a, S>>, if_clause: Rc<Expr<'a, S>>, else_clause: Option<Rc<Expr<'a, S>>> },
    Let(LetForm<'a, S>),
    App(AppForm<'a, S>),
    Lambda(Function<'a, S>),
    Logical(Logical<'a, S>),
    Num(NumExpr<'a, S>),
    Lit(Literal),
    NameRef(NameRef),
}

/// AST node for a function application.
#[derive(Debug)]
pub struct AppForm<'a, S: ScopednessTypestate> {
    /// The name of the function being applied.
    pub fun: Ident,
    /// The parameters to the function application.
    pub params: Body<'a, S>,
}

/// A reference to a name, with how the name is taken.
#[derive(Debug)]
pub enum NameRef {
    Owned(Ident),
    Borrowed(Ident),
    Deref(Ident),
    Unique(Ident),
}

/// A formal parameter: a name and the name of its type.
#[derive(Debug)]
pub struct Formal {
    pub name: Ident,
    pub annot: Ident,
}

/// A definition.
#[derive(Debug)]
pub enum DefForm<'a, S: ScopednessTypestate> {
    TopLevel { name: Ident, annot: Type, value: Rc<Expr<'a, S>> },
    Function { name: Ident, fun: Annotated<'a, Function<'a, S>, S> },
}

/// A typeclass definition.
#[derive(Debug)]
pub struct Class<'a, S: ScopednessTypestate> {
    pub name: Ident,
    pub ty_param: Ident,
    pub defs: Vec<Prototype<'a, S>>,
}

/// A typeclass instance.
#[derive(Debug)]
pub struct Instance<'a, S: ScopednessTypestate> {
    pub class: Ident,
    pub ty: Type,
    pub functions: Vec<Function<'a, S>>,
}

/// Logical `and` and `or` expressions.
#[derive(Debug)]
pub enum Logical<'a, S: ScopednessTypestate> {
    And { a: Rc<Expr<'a, S>>, b: Rc<Expr<'a, S>> },
    Or { a: Rc<Expr<'a, S>>, b: Rc<Expr<'a, S>> },
}

/// A literal.
#[derive(Debug)]
pub enum Literal {
    IntConst(i64),
    UintConst(u64),
    StringLit(String),
}

/// The `let` forms.
#[derive(Debug)]
pub enum LetForm<'a, S: ScopednessTypestate> {
    Let { bindings: Bindings<'a, S>, body: Body<'a, S> },
    Invocation { proc_id: Ident, init: Binding<'a, S>, body: Body<'a, S> },
    LetRec { bindings: Bindings<'a, S>, body: Body<'a, S> },
    LetSplat { bindings: Bindings<'a, S>, body: Body<'a, S> },
}

/// A binding of a `let` form: a name, its type and its initializer.
#[derive(Debug)]
pub struct Binding<'a, S: ScopednessTypestate> {
    pub name: Ident,
    pub typ: Type,
    pub value: Rc<Expr<'a, S>>,
}

/// A function: a signature and the equations that define it.
#[derive(Debug)]
pub struct Function<'a, S: ScopednessTypestate> {
    pub sig: Signature,
    pub equations: Vec<Annotated<'a, Equation<'a, S>, S>>,
}

/// An element in a pattern-matching expression: a name binding, a typed name
/// binding, a literal, or the underscore that matches anything.
#[derive(Debug)]
pub enum PatElement {
    Name(Ident),
    Typed { name: Ident, ty: Type },
    Lit(Literal),
    Anything,
}

/// A function equation definition.
#[derive(Debug)]
pub struct Equation<'a, S: ScopednessTypestate> {
    pub pattern: Pattern,
    pub body: Body<'a, S>,
}

/// The prototype of a typeclass function.
#[derive(Debug)]
pub struct Prototype<'a, S: ScopednessTypestate> {
    pub formals: Vec<Annotated<'a, Formal, S>>,
    pub annot: Ident,
}

/// A variant of an algebraic data type.
#[derive(Debug)]
pub enum Variant<'a, S: ScopednessTypestate> {
    /// A variant that is only a tagword
    Tagword(Ident),
    /// A variant with a constant value
    Constant(Literal),
    /// A variant that is a record type
    Record(Vec<Annotated<'a, Formal, S>>),
    /// A variant that is a single value
    Value(Type),
    /// A variant that is itself a sum type
    Sum(Vec<(Ident, Variant<'a, S>)>),
}

/// The definition of an algebraic data type: its name and its variants, each
/// under its own name.
#[derive(Debug)]
pub struct Data<'a, S: ScopednessTypestate> {
    pub name: Ident,
    pub variants: Vec<(Ident, Variant<'a, S>)>,
}

/// An expression that yields a number.
#[derive(Debug)]
pub enum NumExpr<'a, S: ScopednessTypestate> {
    BOp(NumBOp<'a, S>),
    Neg(Box<NumExpr<'a, S>>),
    Lit(Literal),
    Deref(NameRef),
    Call(AppForm<'a, S>),
}

/// Binary operators that yield a number.
#[derive(Debug)]
pub enum NumBOp<'a, S: ScopednessTypestate> {
    Add(Vec<NumExpr<'a, S>>),
    Sub(Vec<NumExpr<'a, S>>),
    Mul(Vec<NumExpr<'a, S>>),
    Div(Vec<NumExpr<'a, S>>),
    BitAnd(Vec<NumExpr<'a, S>>),
    BitOr(Vec<NumExpr<'a, S>>),
    BitXor(Vec<NumExpr<'a, S>>),
    ShiftL(Vec<NumExpr<'a, S>>),
    ShiftR(Vec<NumExpr<'a, S>>),
}

/// Binary operators that yield a truth value.
pub enum BoolBOp<'a, S: ScopednessTypestate> {
    Lt(Expr<'a, S>, Expr<'a, S>),
    LtE(Expr<'a, S>, Expr<'a, S>),
    Gt(Expr<'a, S>, Expr<'a, S>),
    GtE(Expr<'a, S>, Expr<'a, S>),
    Equal(Expr<'a, S>, Expr<'a, S>),
    NEqual(Expr<'a, S>, Expr<'a, S>),
    And(Expr<'a, S>, Expr<'a, S>),
    Or(Expr<'a, S>, Expr<'a, S>),
}

/// Whether one of the identifiers has the given name.
pub open spec fn names_contain(ids: Seq<Ident>, name: Seq<char>) -> bool {
    exists|i: int| 0 <= i < ids.len() && (#[trigger] ids[i]).value@ == name
}

/// Whether one of the identifiers has the given name.
pub fn has_name(ids: &Vec<Ident>, name: &str) -> (b: bool)
    ensures
        b == names_contain(ids@, name@),
{
    let wanted = name.to_owned();
    let mut i: usize = 0;
    while i < ids.len()
        invariant
            i <= ids@.len(),
            wanted@ == name@,
            forall|j: int| 0 <= j < i ==> (#[trigger] ids@[j]).value@ != name@,
        decreases ids.len() - i,
    {
        if ids[i].value == wanted {
            return true;
        }
        i += 1;
    }
    false
}

impl<'a, S: ScopednessTypestate> Module<'a, S> {
    /// Returns true if the namespace is exporting any names.
    #[inline]
    pub fn is_lib(&self) -> (b: bool)
        ensures
            b == (self.exporting@.len() > 0),
    {
        !self.exporting.is_empty()
    }
}

impl<'a> Annotated<'a, Module<'a, ScopedState>, ScopedState> {
    /// Returns true if the namespace contains a given name: the name is
    /// defined at the level of the module's own scope, and the module exports
    /// it.
    pub fn contains_name(&self, name: &str) -> (b: bool)
        ensures
            b == (lookup_local(self.chain(), name@).is_some() && names_contain(
                self.node.exporting@,
                name@,
            )),
    {
        self.is_defined_here(name) && has_name(&self.node.exporting, name)
    }
}

impl<'a> Annotated<'a, AppForm<'a, ScopedState>, ScopedState> {
    /// Get the function definition for the function that is being applied:
    /// what the scope of the application provides for the function's name.
    /// Where it provides nothing, the one problem reported is the undefined
    /// function, at the position of the application.
    pub fn get_fn_def(&self) -> (r: CompileResult<&SymbolAnnotation<'a>>)
        ensures
            match r {
                Ok(def) => lookup(self.chain(), self.node.fun.value@) == Some(*def),
                Err(errs) => lookup(self.chain(), self.node.fun.value@) is None && error_models(
                    errs@,
                ) == seq![
                    Positional {
                        pos: self.position,
                        value: ProblemModel::UndefinedFunction(self.node.fun.value@),
                    },
                ],
            },
    {
        match self.symbol_table().get(&self.node.fun.value) {
            Some(def) => Ok(def),
            None => {
                let mut errs: Errors = Vec::new();
                errs.push(self.map_pos(Problem::UndefinedFunction(self.node.fun.value.clone())));
                assert(error_models(errs@) =~= seq![
                    Positional {
                        pos: self.position,
                        value: ProblemModel::UndefinedFunction(self.node.fun.value@),
                    },
                ]);
                Err(errs)
            },
        }
    }
}

/// The number of parameters that a type chain of the given length declares:
/// its length less the return type. A chain without any type declares none.
pub open spec fn declared_arity(chain_len: nat) -> nat {
    if chain_len == 0 {
        0
    } else {
        (chain_len - 1) as nat
    }
}

/// The problem, if any, with an equation that binds `bound` arguments where
/// the signature declares `arity` parameters. The problem holds the
/// signature and the equation as they are rendered.
pub open spec fn arity_problem(
    arity: nat,
    bound: nat,
    signature: Seq<char>,
    function: Seq<char>,
) -> Option<ProblemModel> {
    if bound < arity {
        Some(
            ProblemModel::TooFewBindings {
                arity: arity as int,
                bound: bound as int,
                signature,
                function,
            },
        )
    } else if bound > arity {
        Some(
            ProblemModel::TooManyBindings {
                arity: arity as int,
                bound: bound as int,
                signature,
                function,
            },
        )
    } else {
        None
    }
}

/// The problem, if any, with an equation of a function of the given
/// signature: the pattern binds fewer or more arguments than the signature
/// declares.
pub open spec fn equation_arity_problem<'a, S: ScopednessTypestate>(
    equation: Annotated<'a, Equation<'a, S>, S>,
    sig: Signature,
) -> Option<ProblemModel> {
    arity_problem(
        declared_arity(sig.typechain@.len()),
        equation.node.pattern@.len(),
        signature_text(sig@),
        equation_sexpr(equation.node, 0),
    )
}

/// The problems of the equations whose patterns do not bind as many
/// arguments as the signature declares: one for each such equation, at the
/// equation's position, in the order of the equations.
pub open spec fn arity_problems<'a, S: ScopednessTypestate>(
    equations: Seq<Annotated<'a, Equation<'a, S>, S>>,
    sig: Signature,
) -> Seq<Positional<ProblemModel>>
    decreases equations.len(),
{
    if equations.len() == 0 {
        Seq::empty()
    } else {
        let last = equations.last();
        let before = arity_problems(equations.drop_last(), sig);
        match equation_arity_problem(last, sig) {
            Some(problem) => before.push(Positional { pos: last.position, value: problem }),
            None => before,
        }
    }
}

/// The number of equations whose patterns do not bind `arity` arguments.
pub open spec fn mismatches<'a, S: ScopednessTypestate>(
    equations: Seq<Annotated<'a, Equation<'a, S>, S>>,
    arity: nat,
) -> nat
    decreases equations.len(),
{
    if equations.len() == 0 {
        0
    } else {
        mismatches(equations.drop_last(), arity) + if equations.last().node.pattern@.len()
            != arity {
            1nat
        } else {
            0nat
        }
    }
}

/// The arity check reports exactly one problem for each equation whose
/// pattern length differs from the arity, and so none at all exactly when
/// every pattern has the length of the arity.
pub proof fn law_arity_check_complete<'a, S: ScopednessTypestate>(
    equations: Seq<Annotated<'a, Equation<'a, S>, S>>,
    sig: Signature,
)
    ensures
        arity_problems(equations, sig).len() == mismatches(
            equations,
            declared_arity(sig.typechain@.len()),
        ),
        arity_problems(equations, sig).len() == 0 <==> forall|i: int|
            0 <= i < equations.len() ==> (#[trigger] equations[i]).node.pattern@.len()
                == declared_arity(sig.typechain@.len()),
    decreases equations.len(),
{
    let arity = declared_arity(sig.typechain@.len());
    if equations.len() > 0 {
        let before = equations.drop_last();
        law_arity_check_complete(before, sig);
        if arity_problems(equations, sig).len() == 0 {
            assert forall|i: int| 0 <= i < equations.len() implies (
            #[trigger] equations[i]).node.pattern@.len() == arity by {
                if i < before.len() {
                    assert(before[i] == equations[i]);
                }
            }
        }
        if forall|i: int|
            0 <= i < equations.len() ==> (#[trigger] equations[i]).node.pattern@.len() == arity {
            assert forall|i: int| 0 <= i < before.len() implies (
            #[trigger] before[i]).node.pattern@.len() == arity by {
                assert(before[i] == equations[i]);
            }
        }
    }
}

/// Each problem of the arity check stands at the position of an equation
/// whose pattern differs in length from the arity, and is the problem of
/// that equation.
pub proof fn law_arity_problems_point_at_equations<'a, S: ScopednessTypestate>(
    equations: Seq<Annotated<'a, Equation<'a, S>, S>>,
    sig: Signature,
    n: int,
)
    requires
        0 <= n < arity_problems(equations, sig).len(),
    ensures
        exists|i: int|
            0 <= i < equations.len() && arity_problems(equations, sig)[n].pos == (
            #[trigger] equations[i]).position && Some(arity_problems(equations, sig)[n].value)
                == equation_arity_problem(equations[i], sig),
    decreases equations.len(),
{
    let before = equations.drop_last();
    if n < arity_problems(before, sig).len() {
        law_arity_problems_point_at_equations(before, sig, n);
        let i = choose|i: int|
            0 <= i < before.len() && arity_problems(before, sig)[n].pos == (
            #[trigger] before[i]).position && Some(arity_problems(before, sig)[n].value)
                == equation_arity_problem(before[i], sig);
        assert(equations[i] == before[i]);
    } else {
        assert(equations[equations.len() - 1] == equations.last());
    }
}

/// The problem, if any, with the arity of an equation of a function of the
/// given signature, at the position of the equation.
pub fn arity_error<'a, S: ScopednessTypestate>(
    equation: &Annotated<'a, Equation<'a, S>, S>,
    sig: &Signature,
) -> (r: Option<Positional<Problem>>)
    ensures
        match r {
            Some(problem) => problem.pos == equation.position && equation_arity_problem(
                *equation,
                *sig,
            ) == Some(problem.value@),
            None => equation_arity_problem(*equation, *sig) is None,
        },
{
    let arity = if sig.typechain.len() == 0 {
        0
    } else {
        sig.typechain.len() - 1
    };
    let bound = equation.node.pattern.len();
    if bound < arity {
        let signature = sig.to_string();
        let function = render_equation(&equation.node, 0);
        Some(equation.map_pos(Problem::TooFewBindings { arity, bound, signature, function }))
    } else if bound > arity {
        let signature = sig.to_string();
        let function = render_equation(&equation.node, 0);
        Some(equation.map_pos(Problem::TooManyBindings { arity, bound, signature, function }))
    } else {
        None
    }
}

impl<'a, S: ScopednessTypestate> Annotated<'a, Function<'a, S>, S> {
    /// Returns the arity of this function's signature.
    pub fn arity(&self) -> (n: usize)
        requires
            self.node.sig.typechain@.len() > 0,
        ensures
            n == self.node.sig.typechain@.len() - 1,
    {
        self.node.sig.arity()
    }

    /// The number of parameters that the signature declares, where a chain
    /// without any type declares none.
    pub fn declared_arity(&self) -> (n: usize)
        ensures
            n == declared_arity(self.node.sig.typechain@.len()),
    {
        if self.node.sig.typechain.len() == 0 {
            0
        } else {
            self.node.sig.typechain.len() - 1
        }
    }

    /// Checks that every equation's pattern binds as many arguments as the
    /// signature declares.
    ///
    /// All equations are checked, and the problems of all of them are
    /// returned together, in the order of the equations: an equation that
    /// binds too few arguments would be a curried definition, which is always
    /// reported; one that binds too many is always wrong.
    pub fn arity_errors(&self) -> (errs: Errors)
        ensures
            error_models(errs@) == arity_problems(self.node.equations@, self.node.sig),
    {
        let mut errs: Errors = Vec::new();
        let mut i: usize = 0;
        assert(self.node.equations@.take(0) =~= Seq::empty());
        assert(error_models(errs@) =~= Seq::empty());
        while i < self.node.equations.len()
            invariant
                i <= self.node.equations@.len(),
                error_models(errs@) == arity_problems(
                    self.node.equations@.take(i as int),
                    self.node.sig,
                ),
            decreases self.node.equations.len() - i,
        {
            let ghost before = self.node.equations@.take(i as int);
            let ghost upto = self.node.equations@.take(i + 1);
            let ghost old_errs = errs@;
            proof {
                assert(upto.drop_last() =~= before);
                assert(upto.last() == self.node.equations@[i as int]);
            }
            match arity_error(&self.node.equations[i], &self.node.sig) {
                Some(problem) => {
                    errs.push(problem);
                    assert(error_models(errs@) =~= error_models(old_errs).push(problem@));
                },
                None => {},
            }
            i += 1;
        }
        proof {
            assert(self.node.equations@.take(self.node.equations@.len() as int)
                =~= self.node.equations@);
        }
        errs
    }
}

impl<'a, S: ScopednessTypestate> Annotated<'a, Equation<'a, S>, S> {
    /// Returns the number of bindings in this equation's pattern.
    pub fn pattern_length(&self) -> (n: usize)
        ensures
            n == self.node.pattern@.len(),
    {
        self.node.pattern.len()
    }
}

/// The place of the first variant under the given name, if there is one.
pub open spec fn variant_index<'a, S: ScopednessTypestate>(
    variants: Seq<(Ident, Variant<'a, S>)>,
    name: Seq<char>,
) -> Option<int> {
    if exists|i: int| 0 <= i < variants.len() && (#[trigger] variants[i]).0.value@ == name {
        Some(
            choose|i: int|
                0 <= i < variants.len() && (#[trigger] variants[i]).0.value@ == name && forall|j: int|
                    0 <= j < i ==> (#[trigger] variants[j]).0.value@ != name,
        )
    } else {
        None
    }
}

impl<'a, S: ScopednessTypestate> Data<'a, S> {
    /// The fields of the record that stands under the type's own name, as
    /// specifications see them.
    pub open spec fn struct_fields(&self) -> Option<Vec<Annotated<'a, Formal, S>>> {
        match variant_index(self.variants@, self.name.value@) {
            Some(i) => match self.variants@[i].1 {
                Variant::Record(fields) => Some(fields),
                _ => None,
            },
            None => None,
        }
    }

    /// Returns true if this ADT is a sum type: it has more than one variant.
    #[inline]
    pub fn is_sum_type(&self) -> (b: bool)
        ensures
            b == (self.variants@.len() > 1),
    {
        self.variants.len() > 1
    }

    /// Returns true if this ADT is a product type: it is no sum type, and a
    /// record stands under its own name.
    #[inline]
    pub fn is_struct(&self) -> (b: bool)
        ensures
            b == (self.variants@.len() <= 1 && self.struct_fields() is Some),
    {
        !self.is_sum_type() && self.get_struct_fields().is_some()
    }

    /// Returns the fields of a product type: those of the record that is the
    /// first variant under the type's own name, where there is one.
    #[inline]
    pub fn get_struct_fields(&self) -> (r: Option<&Vec<Annotated<'a, Formal, S>>>)
        ensures
            match r {
                Some(fields) => self.struct_fields() == Some(*fields),
                None => self.struct_fields() is None,
            },
    {
        let mut i: usize = 0;
        while i < self.variants.len()
            invariant
                i <= self.variants@.len(),
                forall|j: int| 0 <= j < i ==> (#[trigger] self.variants@[j]).0.value@
                    != self.name.value@,
            decreases self.variants.len() - i,
        {
            if self.variants[i].0.value == self.name.value {
                proof {
                    let found = variant_index(self.variants@, self.name.value@);
                    assert(found is Some);
                    let k = found->0;
                    assert(k == i) by {
                        if k < i {
                            assert(self.variants@[k].0.value@ != self.name.value@);
                        }
                    }
                }
                return match &self.variants[i].1 {
                    Variant::Record(fields) => Some(fields),
                    _ => None,
                };
            }
            i += 1;
        }
        None
    }
}

/// What a `Literal` stands for in specifications.
pub enum LiteralModel {
    IntConst(i64),
    UintConst(u64),
    StringLit(Seq<char>),
}

impl View for Literal {
    type V = LiteralModel;

    open spec fn view(&self) -> LiteralModel {
        match self {
            Literal::IntConst(n) => LiteralModel::IntConst(*n),
            Literal::UintConst(n) => LiteralModel::UintConst(*n),
            Literal::StringLit(s) => LiteralModel::StringLit(s@),
        }
    }
}

impl Clone for Literal {
    fn clone(&self) -> (r: Self)
        ensures
            r@ == self@,
    {
        match self {
            Literal::IntConst(n) => Literal::IntConst(*n),
            Literal::UintConst(n) => Literal::UintConst(*n),
            Literal::StringLit(s) => Literal::StringLit(s.clone()),
        }
    }
}

/// What a `NameRef` stands for in specifications.
pub enum NameRefModel {
    Owned(Positional<Seq<char>>),
    Borrowed(Positional<Seq<char>>),
    Deref(Positional<Seq<char>>),
    Unique(Positional<Seq<char>>),
}

impl View for NameRef {
    type V = NameRefModel;

    open spec fn view(&self) -> NameRefModel {
        match self {
            NameRef::Owned(id) => NameRefModel::Owned(id@),
            NameRef::Borrowed(id) => NameRefModel::Borrowed(id@),
            NameRef::Deref(id) => NameRefModel::Deref(id@),
            NameRef::Unique(id) => NameRefModel::Unique(id@),
        }
    }
}

impl NameRef {
    /// The identifier referred to, as specifications see it.
    pub open spec fn ident(self) -> Ident {
        match self {
            NameRef::Owned(id) => id,
            NameRef::Borrowed(id) => id,
            NameRef::Deref(id) => id,
            NameRef::Unique(id) => id,
        }
    }

    /// The identifier referred to.
    pub fn name(&self) -> (id: &Ident)
        ensures
            *id == self.ident(),
    {
        match self {
            NameRef::Owned(id) => id,
            NameRef::Borrowed(id) => id,
            NameRef::Deref(id) => id,
            NameRef::Unique(id) => id,
        }
    }
}

impl Clone for NameRef {
    fn clone(&self) -> (r: Self)
        ensures
            r@ == self@,
    {
        match self {
            NameRef::Owned(id) => NameRef::Owned(id.clone()),
            NameRef::Borrowed(id) => NameRef::Borrowed(id.clone()),
            NameRef::Deref(id) => NameRef::Deref(id.clone()),
            NameRef::Unique(id) => NameRef::Unique(id.clone()),
        }
    }
}

/// What a `PatElement` stands for in specifications.
pub enum PatElementModel {
    Name(Positional<Seq<char>>),
    Typed { name: Positional<Seq<char>>, ty: crate::semantic::types::TypeModel },
    Lit(LiteralModel),
    Anything,
}

impl View for PatElement {
    type V = PatElementModel;

    open spec fn view(&self) -> PatElementModel {
        match self {
            PatElement::Name(id) => PatElementModel::Name(id@),
            PatElement::Typed { name, ty } => PatElementModel::Typed { name: name@, ty: ty@ },
            PatElement::Lit(l) => PatElementModel::Lit(l@),
            PatElement::Anything => PatElementModel::Anything,
        }
    }
}

impl Clone for PatElement {
    fn clone(&self) -> (r: Self)
        ensures
            r@ == self@,
    {
        match self {
            PatElement::Name(id) => PatElement::Name(id.clone()),
            PatElement::Typed { name, ty } => PatElement::Typed {
                name: name.clone(),
                ty: ty.clone(),
            },
            PatElement::Lit(l) => PatElement::Lit(l.clone()),
            PatElement::Anything => PatElement::Anything,
        }
    }
}

/// The models of the elements of a pattern.
pub open spec fn pattern_model(pattern: Seq<PatElement>) -> Seq<PatElementModel> {
    Seq::new(pattern.len(), |i: int| pattern[i]@)
}

/// A clone of a pattern.
pub fn clone_pattern(pattern: &Vec<PatElement>) -> (out: Vec<PatElement>)
    ensures
        pattern_model(out@) == pattern_model(pattern@),
{
    let mut out: Vec<PatElement> = Vec::new();
    let mut i: usize = 0;
    while i < pattern.len()
        invariant
            i <= pattern@.len(),
            out@.len() == i,
            forall|j: int| 0 <= j < i ==> (#[trigger] out@[j])@ == pattern@[j]@,
        decreases pattern.len() - i,
    {
        out.push(pattern[i].clone());
        i += 1;
    }
    assert(pattern_model(out@) =~= pattern_model(pattern@));
    out
}

impl Clone for Formal {
    fn clone(&self) -> (r: Self)
        ensures
            r.name@ == self.name@,
            r.annot@ == self.annot@,
    {
        Formal { name: self.name.clone(), annot: self.annot.clone() }
    }
}

/// The place of a numeric operator among the operators.
pub open spec fn operator<'b, S: ScopednessTypestate>(op: NumBOp<'b, S>) -> nat {
    match op {
        NumBOp::Add(_) => 0,
        NumBOp::Sub(_) => 1,
        NumBOp::Mul(_) => 2,
        NumBOp::Div(_) => 3,
        NumBOp::BitAnd(_) => 4,
        NumBOp::BitOr(_) => 5,
        NumBOp::BitXor(_) => 6,
        NumBOp::ShiftL(_) => 7,
        NumBOp::ShiftR(_) => 8,
    }
}

/// The operands of a numeric operator.
pub open spec fn operands<'b, S: ScopednessTypestate>(op: NumBOp<'b, S>) -> Vec<NumExpr<'b, S>> {
    match op {
        NumBOp::Add(v) => v,
        NumBOp::Sub(v) => v,
        NumBOp::Mul(v) => v,
        NumBOp::Div(v) => v,
        NumBOp::BitAnd(v) => v,
        NumBOp::BitOr(v) => v,
        NumBOp::BitXor(v) => v,
        NumBOp::ShiftL(v) => v,
        NumBOp::ShiftR(v) => v,
    }
}

/// Whether a numeric expression is made of literals alone.
pub open spec fn constant_num<'a, S: ScopednessTypestate>(n: NumExpr<'a, S>) -> bool
    decreases n,
{
    match n {
        NumExpr::Lit(_) => true,
        NumExpr::Neg(inner) => constant_num(*inner),
        NumExpr::BOp(op) => constant_nums(operands(op)@),
        _ => false,
    }
}

/// Whether every numeric expression of a list is made of literals alone.
pub open spec fn constant_nums<'a, S: ScopednessTypestate>(nums: Seq<NumExpr<'a, S>>) -> bool
    decreases nums,
{
    forall|i: int| 0 <= i < nums.len() ==> constant_num(#[trigger] nums[i])
}

/// Whether every numeric expression of a list is made of literals alone.
pub fn all_const<'a, S: ScopednessTypestate>(nums: &Vec<NumExpr<'a, S>>) -> (b: bool)
    ensures
        b == constant_nums(nums@),
    decreases nums,
{
    let mut i: usize = 0;
    while i < nums.len()
        invariant
            i <= nums@.len(),
            forall|j: int| 0 <= j < i ==> constant_num(#[trigger] nums@[j]),
        decreases nums.len() - i,
    {
        if !nums[i].is_const() {
            return false;
        }
        i += 1;
    }
    true
}

impl<'a, S: ScopednessTypestate> NumExpr<'a, S> {
    /// Whether the expression is made of literals alone, so that its value
    /// is known before the program runs.
    pub fn is_const(&self) -> (b: bool)
        ensures
            b == constant_num(*self),
        decreases self,
    {
        match self {
            NumExpr::Lit(_) => true,
            NumExpr::Neg(inner) => inner.is_const(),
            NumExpr::BOp(op) => op.is_const(),
            _ => false,
        }
    }
}

impl<'a, S: ScopednessTypestate> NumBOp<'a, S> {
    /// Whether every operand is made of literals alone.
    pub fn is_const(&self) -> (b: bool)
        ensures
            b == constant_nums(operands(*self)@),
        decreases self,
    {
        match self {
            NumBOp::Add(operands) => all_const(operands),
            NumBOp::Sub(operands) => all_const(operands),
            NumBOp::Mul(operands) => all_const(operands),
            NumBOp::Div(operands) => all_const(operands),
            NumBOp::BitAnd(operands) => all_const(operands),
            NumBOp::BitOr(operands) => all_const(operands),
            NumBOp::BitXor(operands) => all_const(operands),
            NumBOp::ShiftL(operands) => all_const(operands),
            NumBOp::ShiftR(operands) => all_const(operands),
        }
    }
}

/// Literals are equal iff they are of the same kind and hold the same
/// value.
impl PartialEq for Literal {
    fn eq(&self, other: &Literal) -> (r: bool) {
        match (self, other) {
            (Literal::IntConst(a), Literal::IntConst(b)) => *a == *b,
            (Literal::UintConst(a), Literal::UintConst(b)) => *a == *b,
            (Literal::StringLit(a), Literal::StringLit(b)) => *a == *b,
            _ => false,
        }
    }
}

impl vstd::std_specs::cmp::PartialEqSpecImpl for Literal {
    open spec fn obeys_eq_spec() -> bool {
        true
    }

    open spec fn eq_spec(&self, other: &Literal) -> bool {
        self@ == other@
    }
}

/// Whether two references to names take the same name in the same way,
/// wherever they stand.
pub open spec fn same_name_ref(a: NameRefModel, b: NameRefModel) -> bool {
    match (a, b) {
        (NameRefModel::Owned(x), NameRefModel::Owned(y)) => x.value == y.value,
        (NameRefModel::Borrowed(x), NameRefModel::Borrowed(y)) => x.value == y.value,
        (NameRefModel::Deref(x), NameRefModel::Deref(y)) => x.value == y.value,
        (NameRefModel::Unique(x), NameRefModel::Unique(y)) => x.value == y.value,
        _ => false,
    }
}

/// References to names are equal iff they take the same name in the same
/// way, wherever they stand.
impl PartialEq for NameRef {
    fn eq(&self, other: &NameRef) -> (r: bool) {
        match (self, other) {
            (NameRef::Owned(a), NameRef::Owned(b)) => a.value == b.value,
            (NameRef::Borrowed(a), NameRef::Borrowed(b)) => a.value == b.value,
            (NameRef::Deref(a), NameRef::Deref(b)) => a.value == b.value,
            (NameRef::Unique(a), NameRef::Unique(b)) => a.value == b.value,
            _ => false,
        }
    }
}

impl vstd::std_specs::cmp::PartialEqSpecImpl for NameRef {
    open spec fn obeys_eq_spec() -> bool {
        true
    }

    open spec fn eq_spec(&self, other: &NameRef) -> bool {
        same_name_ref(self@, other@)
    }
}

/// Whether two elements of patterns are of the same kind and bind the same
/// name, hold the same type or match the same literal, wherever they stand.
pub open spec fn same_pat_element(a: PatElementModel, b: PatElementModel) -> bool {
    match (a, b) {
        (PatElementModel::Name(x), PatElementModel::Name(y)) => x.value == y.value,
        (
            PatElementModel::Typed { name: x, ty: s },
            PatElementModel::Typed { name: y, ty: t },
        ) => x.value == y.value && s == t,
        (PatElementModel::Lit(x), PatElementModel::Lit(y)) => x == y,
        (PatElementModel::Anything, PatElementModel::Anything) => true,
        _ => false,
    }
}

/// Elements of patterns are equal iff they are of the same kind and bind the
/// same name, hold the same type or match the same literal, wherever they
/// stand.
impl PartialEq for PatElement {
    fn eq(&self, other: &PatElement) -> (r: bool) {
        match (self, other) {
            (PatElement::Name(a), PatElement::Name(b)) => a.value == b.value,
            (PatElement::Typed { name: a, ty: s }, PatElement::Typed { name: b, ty: t }) => {
                a.value == b.value && *s == *t
            },
            (PatElement::Lit(a), PatElement::Lit(b)) => *a == *b,
            (PatElement::Anything, PatElement::Anything) => true,
            _ => false,
        }
    }
}

impl vstd::std_specs::cmp::PartialEqSpecImpl for PatElement {
    open spec fn obeys_eq_spec() -> bool {
        true
    }

    open spec fn eq_spec(&self, other: &PatElement) -> bool {
        same_pat_element(self@, other@)
    }
}

/// Whether two patterns hold equal elements in the same order.
pub open spec fn same_pattern(a: Seq<PatElementModel>, b: Seq<PatElementModel>) -> bool {
    a.len() == b.len() && forall|i: int| 0 <= i < a.len() ==> same_pat_element(#[trigger] a[i], b[i])
}

/// Whether two patterns hold equal elements in the same order.
pub fn patterns_equal(a: &Vec<PatElement>, b: &Vec<PatElement>) -> (r: bool)
    ensures
        r == same_pattern(pattern_model(a@), pattern_model(b@)),
{
    if a.len() != b.len() {
        return false;
    }
    let mut i: usize = 0;
    while i < a.len()
        invariant
            i <= a@.len(),
            a@.len() == b@.len(),
            forall|j: int|
                0 <= j < i ==> same_pat_element(#[trigger] pattern_model(a@)[j], pattern_model(b@)[j]),
        decreases a.len() - i,
    {
        if !(a[i] == b[i]) {
            assert(!same_pat_element(pattern_model(a@)[i as int], pattern_model(b@)[i as int]));
            return false;
        }
        i += 1;
    }
    true
}

/// Formal parameters are equal iff they have the same name and the same
/// type name, wherever they stand.
impl PartialEq for Formal {
    fn eq(&self, other: &Formal) -> (r: bool) {
        self.name.value == other.name.value && self.annot.value == other.annot.value
    }
}

impl vstd::std_specs::cmp::PartialEqSpecImpl for Formal {
    open spec fn obeys_eq_spec() -> bool {
        true
    }

    open spec fn eq_spec(&self, other: &Formal) -> bool {
        self.name.value@ == other.name.value@ && self.annot.value@ == other.annot.value@
    }
}

} // verus!
