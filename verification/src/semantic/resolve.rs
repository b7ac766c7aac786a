//! Name resolution: the pass that walks an unresolved tree, forks a scope
//! table at each construct that introduces names, checks every reference
//! against the scope it stands in and every equation against the arity of
//! its function, and annotates each node with its scope.
use vstd::prelude::*;
use std::rc::Rc;
use crate::errors::{error_models, CompileResult, Errors, Problem, ProblemModel};
use crate::position::Position;
use crate::forktable::{forked, lookup, lookup_local, with_binding, ForkTable, Frame};
use crate::position::Positional;
use crate::semantic::annotations::{Annotated, ScopedState, UnscopedState};
use crate::semantic::ast::{
    arity_error, clone_pattern, declared_arity, equation_arity_problem, pattern_model, AppForm,
    Binding, DefForm,
    operands, operator, Equation, Form, Function, Ident, LetForm, Logical, Module, NameRef,
    NumBOp, NumExpr, PatElement,
};
use crate::semantic::types::{clone_idents, ident_models, Signature, Type, TypeModel};
use crate::semantic::{AnnotationModel, SymbolAnnotation, SymbolTable};

verus! {

/// What is visible at a place of a program: each visible name, with what is
/// known of it.
pub type Env<'a> = Map<Seq<char>, AnnotationModel<'a>>;

/// What a chain of levels makes visible: each name that it provides a value
/// for, with the model of that value.
pub open spec fn env_of<'a>(chain: Seq<Frame<Seq<char>, SymbolAnnotation<'a>>>) -> Env<'a> {
    Map::new(|n: Seq<char>| lookup(chain, n) is Some, |n: Seq<char>| lookup(chain, n)->0@)
}

/// What a symbol table makes visible.
pub open spec fn visible_in<'a>(table: SymbolTable<'a>) -> Env<'a> {
    env_of(table@)
}

/// What is known of a name that stands for a value of the given type, and
/// nothing more.
pub open spec fn value_model<'a>(ty: TypeModel) -> AnnotationModel<'a> {
    AnnotationModel::Value { ty, proven_value: None }
}

/// A fork makes visible what its parent does.
pub proof fn lemma_env_forked<'a>(chain: Seq<Frame<Seq<char>, SymbolAnnotation<'a>>>)
    ensures
        env_of(forked(chain)) == env_of(chain),
{
    assert forall|k: Seq<char>| lookup(forked(chain), k) == lookup(chain, k) by {
        crate::forktable::law_fork_passes_through(chain, k);
    }
    assert(env_of(forked(chain)) =~= env_of(chain));
}

/// Binding a name makes it visible with the new annotation, and changes
/// nothing else.
pub proof fn lemma_env_bound<'a>(
    chain: Seq<Frame<Seq<char>, SymbolAnnotation<'a>>>,
    k: Seq<char>,
    v: SymbolAnnotation<'a>,
)
    requires
        chain.len() > 0,
    ensures
        env_of(with_binding(chain, k, v)) == env_of(chain).insert(k, v@),
{
    assert forall|x: Seq<char>| x != k implies lookup(with_binding(chain, k, v), x) == lookup(
        chain,
        x,
    ) by {
        crate::forktable::law_other_keys_keep(chain, k, v, x);
    }
    assert(env_of(with_binding(chain, k, v)) =~= env_of(chain).insert(k, v@));
}

/// The problem with a reference to a name that stands in the node at
/// position `at`: none where the name is visible, else the undefined name,
/// at the position of the node.
pub open spec fn name_problems<'a>(id: Ident, at: Position, env: Env<'a>) -> Seq<
    Positional<ProblemModel>,
> {
    if env.contains_key(id.value@) {
        Seq::empty()
    } else {
        seq![Positional { pos: at, value: ProblemModel::UndefinedName(id.value@) }]
    }
}

/// The problem with the name of the function of an application that stands
/// in the node at position `at`: none where the name is visible, else the
/// undefined function, at the position of the node.
pub open spec fn applied_problems<'a>(fun: Ident, at: Position, env: Env<'a>) -> Seq<
    Positional<ProblemModel>,
> {
    if env.contains_key(fun.value@) {
        Seq::empty()
    } else {
        seq![Positional { pos: at, value: ProblemModel::UndefinedFunction(fun.value@) }]
    }
}

/// The name that a definition introduces.
pub open spec fn def_name<'b>(d: DefForm<'b, UnscopedState>) -> Ident {
    match d {
        DefForm::TopLevel { name, .. } => name,
        DefForm::Function { name, .. } => name,
    }
}

/// The type of the value that a definition introduces: the declared type
/// of a value, the signature of a function.
pub open spec fn def_type<'b>(d: DefForm<'b, UnscopedState>) -> TypeModel {
    match d {
        DefForm::TopLevel { annot, .. } => annot@,
        DefForm::Function { fun, .. } => TypeModel::Function(fun.node.sig@),
    }
}

/// What is visible, and the names that the definitions standing directly in
/// a body introduce.
pub open spec fn defined_env<'a, 'b>(
    body: Seq<Annotated<'b, Form<'b, UnscopedState>, UnscopedState>>,
    env: Env<'a>,
) -> Env<'a>
    decreases body.len(),
{
    if body.len() == 0 {
        env
    } else {
        let before = defined_env(body.drop_last(), env);
        match body.last().node {
            Form::Define(d) => before.insert(def_name(d).value@, value_model(def_type(d))),
            _ => before,
        }
    }
}

/// The names that the definitions standing directly in a body introduce.
pub open spec fn defined_names<'b>(
    body: Seq<Annotated<'b, Form<'b, UnscopedState>, UnscopedState>>,
) -> Set<Seq<char>>
    decreases body.len(),
{
    if body.len() == 0 {
        Set::empty()
    } else {
        let before = defined_names(body.drop_last());
        match body.last().node {
            Form::Define(d) => before.insert(def_name(d).value@),
            _ => before,
        }
    }
}

/// What is visible, and the names that the elements of a pattern bind: a
/// plain name as a value of the type at its place in the type chain, a typed
/// name as a value of its own type.
pub open spec fn pattern_env<'a>(
    pattern: Seq<PatElement>,
    typechain: Seq<Type>,
    env: Env<'a>,
) -> Env<'a>
    decreases pattern.len(),
{
    if pattern.len() == 0 {
        env
    } else {
        let before = pattern_env(pattern.drop_last(), typechain, env);
        match pattern.last() {
            PatElement::Name(id) => before.insert(
                id.value@,
                value_model(typechain[pattern.len() - 1]@),
            ),
            PatElement::Typed { name, ty } => before.insert(name.value@, value_model(ty@)),
            _ => before,
        }
    }
}

/// What is visible, and the names that the bindings of a `let` form bind,
/// each as a value of its declared type.
pub open spec fn binding_env<'a, 'b>(
    bindings: Seq<Annotated<'b, Binding<'b, UnscopedState>, UnscopedState>>,
    env: Env<'a>,
) -> Env<'a>
    decreases bindings.len(),
{
    if bindings.len() == 0 {
        env
    } else {
        binding_env(bindings.drop_last(), env).insert(
            bindings.last().node.name.value@,
            value_model(bindings.last().node.typ@),
        )
    }
}

/// The names that the elements of a pattern bind.
pub open spec fn pattern_name_set(pattern: Seq<PatElement>) -> Set<Seq<char>>
    decreases pattern.len(),
{
    if pattern.len() == 0 {
        Set::empty()
    } else {
        let before = pattern_name_set(pattern.drop_last());
        match pattern.last() {
            PatElement::Name(id) => before.insert(id.value@),
            PatElement::Typed { name, .. } => before.insert(name.value@),
            _ => before,
        }
    }
}

/// The names that the bindings of a `let` form bind.
pub open spec fn binding_name_set<'b>(
    bindings: Seq<Annotated<'b, Binding<'b, UnscopedState>, UnscopedState>>,
) -> Set<Seq<char>>
    decreases bindings.len(),
{
    if bindings.len() == 0 {
        Set::empty()
    } else {
        binding_name_set(bindings.drop_last()).insert(bindings.last().node.name.value@)
    }
}

/// The problems of an expression that stands where `env` is visible, in the
/// order of a walk from left to right, depth first.
pub open spec fn expr_problems<'a, 'b>(
    e: Annotated<'b, Form<'b, UnscopedState>, UnscopedState>,
    env: Env<'a>,
) -> Seq<Positional<ProblemModel>>
    decreases e,
{
    form_problems(e.node, e.position, env)
}

/// The problems of a form.
///
/// A reference to a name that is not visible is a problem, and so is the
/// application of a function whose name is not visible: both are reported at
/// `at`, the position of the expression that the form stands in. A
/// definition's value sees the defined name. A function's equations are
/// checked against its signature. The forms that hold expressions have the
/// problems of those, in order.
pub open spec fn form_problems<'a, 'b>(
    f: Form<'b, UnscopedState>,
    at: Position,
    env: Env<'a>,
) -> Seq<Positional<ProblemModel>>
    decreases f,
{
    match f {
        Form::Define(d) => def_problems(d, env),
        Form::If { condition, if_clause, else_clause } => expr_problems(*condition, env)
            + expr_problems(*if_clause, env) + match else_clause {
            Some(e) => expr_problems(*e, env),
            None => Seq::empty(),
        },
        Form::Let(l) => let_problems(l, env),
        Form::App(a) => app_problems(a, at, env),
        Form::Lambda(fun) => function_problems(fun, env),
        Form::Logical(l) => match l {
            Logical::And { a, b } => expr_problems(*a, env) + expr_problems(*b, env),
            Logical::Or { a, b } => expr_problems(*a, env) + expr_problems(*b, env),
        },
        Form::Num(n) => num_problems(n, at, env),
        Form::Lit(_) => Seq::empty(),
        Form::NameRef(r) => name_problems(r.ident(), at, env),
    }
}

/// The problems of the expressions of a body, in order.
pub open spec fn body_problems<'a, 'b>(
    body: Seq<Annotated<'b, Form<'b, UnscopedState>, UnscopedState>>,
    env: Env<'a>,
) -> Seq<Positional<ProblemModel>>
    decreases body,
{
    if body.len() == 0 {
        Seq::empty()
    } else {
        body_problems(body.drop_last(), env) + expr_problems(body.last(), env)
    }
}

/// The problems of a definition: those of its value, which sees the defined
/// name.
pub open spec fn def_problems<'a, 'b>(d: DefForm<'b, UnscopedState>, env: Env<'a>) -> Seq<
    Positional<ProblemModel>,
>
    decreases d,
{
    match d {
        DefForm::TopLevel { name, annot, value } => expr_problems(
            *value,
            env.insert(name.value@, value_model(annot@)),
        ),
        DefForm::Function { name, fun } => function_problems(
            fun.node,
            env.insert(name.value@, value_model(TypeModel::Function(fun.node.sig@))),
        ),
    }
}

/// The problems of a function: those of its equations, in order.
pub open spec fn function_problems<'a, 'b>(
    fun: Function<'b, UnscopedState>,
    env: Env<'a>,
) -> Seq<Positional<ProblemModel>>
    decreases fun,
{
    equations_problems(fun.equations@, fun.sig, env)
}

/// The problems of the equations of a function, in order.
pub open spec fn equations_problems<'a, 'b>(
    equations: Seq<Annotated<'b, Equation<'b, UnscopedState>, UnscopedState>>,
    sig: Signature,
    env: Env<'a>,
) -> Seq<Positional<ProblemModel>>
    decreases equations,
{
    if equations.len() == 0 {
        Seq::empty()
    } else {
        equations_problems(equations.drop_last(), sig, env) + equation_problems(
            equations.last(),
            sig,
            env,
        )
    }
}

/// The problems of one equation.
///
/// An equation whose pattern does not bind as many arguments as the
/// signature declares has that one problem, at the equation's position, and
/// its body is not looked at. Otherwise the equation has the problems of its
/// body, which sees the names that the pattern binds.
pub open spec fn equation_problems<'a, 'b>(
    equation: Annotated<'b, Equation<'b, UnscopedState>, UnscopedState>,
    sig: Signature,
    env: Env<'a>,
) -> Seq<Positional<ProblemModel>>
    decreases equation,
{
    match equation_arity_problem(equation, sig) {
        Some(problem) => seq![Positional { pos: equation.position, value: problem }],
        None => body_problems(
            equation.node.body@,
            pattern_env(equation.node.pattern@, sig.typechain@, env),
        ),
    }
}

/// The problems of the initializers of the bindings, all of which see the
/// same names.
pub open spec fn inits_problems<'a, 'b>(
    bindings: Seq<Annotated<'b, Binding<'b, UnscopedState>, UnscopedState>>,
    env: Env<'a>,
) -> Seq<Positional<ProblemModel>>
    decreases bindings,
{
    if bindings.len() == 0 {
        Seq::empty()
    } else {
        inits_problems(bindings.drop_last(), env) + expr_problems(
            *bindings.last().node.value,
            env,
        )
    }
}

/// The problems of the initializers of the bindings, each of which sees the
/// names bound before it.
pub open spec fn splat_problems<'a, 'b>(
    bindings: Seq<Annotated<'b, Binding<'b, UnscopedState>, UnscopedState>>,
    env: Env<'a>,
) -> Seq<Positional<ProblemModel>>
    decreases bindings,
{
    if bindings.len() == 0 {
        Seq::empty()
    } else {
        splat_problems(bindings.drop_last(), env) + expr_problems(
            *bindings.last().node.value,
            binding_env(bindings.drop_last(), env),
        )
    }
}

/// What the body of a named `let` sees: what is visible, the bound name as
/// a value of its declared type, and the name of the procedure as a value
/// of the symbol type of that name.
pub open spec fn invocation_env<'a, 'b>(
    proc_id: Ident,
    init: Binding<'b, UnscopedState>,
    env: Env<'a>,
) -> Env<'a> {
    env.insert(init.name.value@, value_model(init.typ@)).insert(
        proc_id.value@,
        value_model(TypeModel::Symbol(proc_id.value@)),
    )
}

/// The problems of a `let` form.
///
/// The initializers of a plain `let` see the enclosing names alone; those of
/// a `letrec` see all the names that the form binds; those of a `let*` see
/// the names bound before them. The initializer of a named `let` sees the
/// enclosing names alone. The body sees every name that the form binds.
pub open spec fn let_problems<'a, 'b>(l: LetForm<'b, UnscopedState>, env: Env<'a>) -> Seq<
    Positional<ProblemModel>,
>
    decreases l,
{
    match l {
        LetForm::Let { bindings, body } => inits_problems(bindings@, env) + body_problems(
            body@,
            binding_env(bindings@, env),
        ),
        LetForm::LetRec { bindings, body } => inits_problems(
            bindings@,
            binding_env(bindings@, env),
        ) + body_problems(body@, binding_env(bindings@, env)),
        LetForm::LetSplat { bindings, body } => splat_problems(bindings@, env)
            + body_problems(body@, binding_env(bindings@, env)),
        LetForm::Invocation { proc_id, init, body } => expr_problems(*init.value, env)
            + body_problems(body@, invocation_env(proc_id, init, env)),
    }
}

/// The problems of a function application that stands in the node at
/// position `at`: the function's name, then the parameters in order.
pub open spec fn app_problems<'a, 'b>(
    a: AppForm<'b, UnscopedState>,
    at: Position,
    env: Env<'a>,
) -> Seq<Positional<ProblemModel>>
    decreases a,
{
    applied_problems(a.fun, at, env) + body_problems(a.params@, env)
}

/// The problems of a numeric expression that stands in the node at position
/// `at`.
pub open spec fn num_problems<'a, 'b>(
    n: NumExpr<'b, UnscopedState>,
    at: Position,
    env: Env<'a>,
) -> Seq<Positional<ProblemModel>>
    decreases n,
{
    match n {
        NumExpr::BOp(op) => nums_problems(operands(op)@, at, env),
        NumExpr::Neg(inner) => num_problems(*inner, at, env),
        NumExpr::Lit(_) => Seq::empty(),
        NumExpr::Deref(r) => name_problems(r.ident(), at, env),
        NumExpr::Call(a) => app_problems(a, at, env),
    }
}

/// The problems of the numeric expressions of a list, in order.
pub open spec fn nums_problems<'a, 'b>(
    nums: Seq<NumExpr<'b, UnscopedState>>,
    at: Position,
    env: Env<'a>,
) -> Seq<Positional<ProblemModel>>
    decreases nums,
{
    if nums.len() == 0 {
        Seq::empty()
    } else {
        nums_problems(nums.drop_last(), at, env) + num_problems(nums.last(), at, env)
    }
}

/// The problems of a module: those of its top-level forms, each of which
/// sees the names visible outside the module and every name that a
/// top-level definition of the module introduces, wherever it stands.
pub open spec fn module_problems<'a, 'b>(
    module: Module<'b, UnscopedState>,
    env: Env<'a>,
) -> Seq<Positional<ProblemModel>> {
    body_problems(module.body@, defined_env(module.body@, env))
}

/// A chain of levels of a symbol table, innermost first.
pub type Chain<'a> = Seq<Frame<Seq<char>, SymbolAnnotation<'a>>>;

/// Whether a scoped annotation stands in the scope of the given chain: it
/// carries a table, and the chain of that table is this chain.
pub open spec fn scoped_in<'a, T>(s: Annotated<'a, T, ScopedState>, chain: Chain<'a>) -> bool {
    s.scope.table() is Some && s.chain() == chain
}

/// Whether `child` is the chain of a level forked off `parent` that binds
/// exactly the given names at its own level, and makes visible `env`.
pub open spec fn child_of<'a>(
    child: Chain<'a>,
    parent: Chain<'a>,
    names: Set<Seq<char>>,
    env: Env<'a>,
) -> bool {
    &&& child.len() > 0
    &&& child.drop_first() == parent
    &&& env_of(child) == env
    &&& forall|n: Seq<char>|
        #![trigger lookup_local(child, n)]
        lookup_local(child, n) is Some <==> names.contains(n)
}

/// Whether `s` is the expression `u`, resolved in the scope of `chain`: the
/// same form at the same position, annotated with that scope, and so for
/// every node below it, each in the scope of its own place. A construct that
/// introduces names puts what stands in it into a level of its own, forked
/// off the scope that the construct stands in, which binds those names.
pub open spec fn resolved_expr<'a, 'b>(
    u: Annotated<'b, Form<'b, UnscopedState>, UnscopedState>,
    s: Annotated<'a, Form<'a, ScopedState>, ScopedState>,
    chain: Chain<'a>,
) -> bool
    decreases u,
{
    s.position == u.position && scoped_in(s, chain) && resolved_form(u.node, s.node, chain)
}

/// Whether `s` is the form `u`, resolved in the scope of `chain`.
pub open spec fn resolved_form<'a, 'b>(
    u: Form<'b, UnscopedState>,
    s: Form<'a, ScopedState>,
    chain: Chain<'a>,
) -> bool
    decreases u,
{
    match u {
        Form::Define(d) => s matches Form::Define(sd) && resolved_def(d, sd, chain),
        Form::If { condition, if_clause, else_clause } => s matches Form::If {
            condition: sc,
            if_clause: st,
            else_clause: se,
        } && resolved_expr(*condition, *sc, chain) && resolved_expr(*if_clause, *st, chain)
            && match else_clause {
            Some(e) => se matches Some(x) && resolved_expr(*e, *x, chain),
            None => se is None,
        },
        Form::Let(l) => s matches Form::Let(sl) && resolved_let(l, sl, chain),
        Form::App(a) => s matches Form::App(sa) && resolved_app(a, sa, chain),
        Form::Lambda(fun) => s matches Form::Lambda(sf) && resolved_function(fun, sf, chain),
        Form::Logical(l) => s matches Form::Logical(sl) && match l {
            Logical::And { a, b } => sl matches Logical::And { a: sa, b: sb } && resolved_expr(
                *a,
                *sa,
                chain,
            ) && resolved_expr(*b, *sb, chain),
            Logical::Or { a, b } => sl matches Logical::Or { a: sa, b: sb } && resolved_expr(
                *a,
                *sa,
                chain,
            ) && resolved_expr(*b, *sb, chain),
        },
        Form::Num(n) => s matches Form::Num(sn) && resolved_num(n, sn, chain),
        Form::Lit(l) => s matches Form::Lit(sl) && sl@ == l@,
        Form::NameRef(r) => s matches Form::NameRef(sr) && sr@ == r@,
    }
}

/// Whether `s` holds the expressions of `u`, each resolved in the scope of
/// `chain`.
pub open spec fn resolved_body<'a, 'b>(
    u: Seq<Annotated<'b, Form<'b, UnscopedState>, UnscopedState>>,
    s: Seq<Annotated<'a, Form<'a, ScopedState>, ScopedState>>,
    chain: Chain<'a>,
) -> bool
    decreases u,
{
    u.len() == s.len() && forall|i: int|
        #![trigger s[i]]
        0 <= i < u.len() ==> resolved_expr(u[i], s[i], chain)
}

/// Whether `s` holds the expressions of `u`, each resolved in the scope of
/// a level forked off `parent` that binds exactly `names` and makes visible
/// `env`.
pub open spec fn resolved_body_below<'a, 'b>(
    u: Seq<Annotated<'b, Form<'b, UnscopedState>, UnscopedState>>,
    s: Seq<Annotated<'a, Form<'a, ScopedState>, ScopedState>>,
    parent: Chain<'a>,
    names: Set<Seq<char>>,
    env: Env<'a>,
) -> bool
    decreases u,
{
    u.len() == s.len() && forall|i: int|
        #![trigger s[i]]
        0 <= i < u.len() ==> child_of(s[i].chain(), parent, names, env) && resolved_expr(
            u[i],
            s[i],
            s[i].chain(),
        )
}

/// Whether `s` is the definition `u`, resolved in the scope of `chain`: what
/// is defined stands in a level of its own, forked off that scope, which
/// binds the defined name.
pub open spec fn resolved_def<'a, 'b>(
    u: DefForm<'b, UnscopedState>,
    s: DefForm<'a, ScopedState>,
    chain: Chain<'a>,
) -> bool
    decreases u,
{
    match u {
        DefForm::TopLevel { name, annot, value } => s matches DefForm::TopLevel {
            name: sn,
            annot: sa,
            value: sv,
        } && sn@ == name@ && sa@ == annot@ && child_of(
            sv.chain(),
            chain,
            Set::empty().insert(name.value@),
            env_of(chain).insert(name.value@, value_model(annot@)),
        ) && resolved_expr(*value, *sv, sv.chain()),
        DefForm::Function { name, fun } => s matches DefForm::Function { name: sn, fun: sf }
            && sn@ == name@ && sf.position == fun.position && sf.scope.table() is Some
            && child_of(
            sf.chain(),
            chain,
            Set::empty().insert(name.value@),
            env_of(chain).insert(name.value@, value_model(TypeModel::Function(fun.node.sig@))),
        ) && resolved_function(fun.node, sf.node, sf.chain()),
    }
}

/// Whether `s` is the function `u`, resolved in the scope of `chain`.
pub open spec fn resolved_function<'a, 'b>(
    u: Function<'b, UnscopedState>,
    s: Function<'a, ScopedState>,
    chain: Chain<'a>,
) -> bool
    decreases u,
{
    s.sig@ == u.sig@ && resolved_equations(u.equations@, s.equations@, u.sig.typechain@, chain)
}

/// Whether `s` holds the equations of `u`, each resolved in the scope of
/// `chain`.
pub open spec fn resolved_equations<'a, 'b>(
    u: Seq<Annotated<'b, Equation<'b, UnscopedState>, UnscopedState>>,
    s: Seq<Annotated<'a, Equation<'a, ScopedState>, ScopedState>>,
    typechain: Seq<Type>,
    chain: Chain<'a>,
) -> bool
    decreases u,
{
    u.len() == s.len() && forall|i: int|
        #![trigger s[i]]
        0 <= i < u.len() ==> resolved_equation(u[i], s[i], typechain, chain)
}

/// Whether `s` is the equation `u`, resolved in the scope of `chain`: the
/// equation and its body stand in a level of their own, forked off that
/// scope, which binds the names of the pattern.
pub open spec fn resolved_equation<'a, 'b>(
    u: Annotated<'b, Equation<'b, UnscopedState>, UnscopedState>,
    s: Annotated<'a, Equation<'a, ScopedState>, ScopedState>,
    typechain: Seq<Type>,
    chain: Chain<'a>,
) -> bool
    decreases u,
{
    s.position == u.position && pattern_model(s.node.pattern@) == pattern_model(u.node.pattern@)
        && s.scope.table() is Some && child_of(
        s.chain(),
        chain,
        pattern_name_set(u.node.pattern@),
        pattern_env(u.node.pattern@, typechain, env_of(chain)),
    ) && resolved_body(u.node.body@, s.node.body@, s.chain())
}

/// Whether `s` is the binding `u`, resolved in the scope of `chain`.
pub open spec fn resolved_binding<'a, 'b>(
    u: Annotated<'b, Binding<'b, UnscopedState>, UnscopedState>,
    s: Annotated<'a, Binding<'a, ScopedState>, ScopedState>,
    chain: Chain<'a>,
) -> bool
    decreases u,
{
    s.position == u.position && scoped_in(s, chain) && s.node.name@ == u.node.name@
        && s.node.typ@ == u.node.typ@ && resolved_expr(*u.node.value, *s.node.value, chain)
}

/// Whether `s` holds the bindings of `u`, each resolved in the scope of
/// `chain`.
pub open spec fn resolved_inits<'a, 'b>(
    u: Seq<Annotated<'b, Binding<'b, UnscopedState>, UnscopedState>>,
    s: Seq<Annotated<'a, Binding<'a, ScopedState>, ScopedState>>,
    chain: Chain<'a>,
) -> bool
    decreases u,
{
    u.len() == s.len() && forall|i: int|
        #![trigger s[i]]
        0 <= i < u.len() ==> resolved_binding(u[i], s[i], chain)
}

/// Whether `s` holds the bindings of `u`, each resolved in the scope of a
/// level forked off `parent` that binds exactly `names` and makes visible
/// `env`.
pub open spec fn resolved_inits_below<'a, 'b>(
    u: Seq<Annotated<'b, Binding<'b, UnscopedState>, UnscopedState>>,
    s: Seq<Annotated<'a, Binding<'a, ScopedState>, ScopedState>>,
    parent: Chain<'a>,
    names: Set<Seq<char>>,
    env: Env<'a>,
) -> bool
    decreases u,
{
    u.len() == s.len() && forall|i: int|
        #![trigger s[i]]
        0 <= i < u.len() ==> child_of(s[i].chain(), parent, names, env) && resolved_binding(
            u[i],
            s[i],
            s[i].chain(),
        )
}

/// How the scope of the `i`-th of sequential bindings hangs on what is
/// before it: the first stands in the scope of `chain`; each other stands in
/// a level forked off the scope of the binding before it, which binds the
/// name of that binding.
pub open spec fn splat_link<'a, 'b>(
    u: Seq<Annotated<'b, Binding<'b, UnscopedState>, UnscopedState>>,
    s: Seq<Annotated<'a, Binding<'a, ScopedState>, ScopedState>>,
    chain: Chain<'a>,
    i: int,
) -> bool {
    if i == 0 {
        s[0].chain() == chain
    } else {
        s[i - 1].scope.table() is Some && child_of(
            s[i].chain(),
            s[i - 1].chain(),
            Set::empty().insert(u[i - 1].node.name.value@),
            binding_env(u.take(i), env_of(chain)),
        )
    }
}

/// Whether `s` holds the sequential bindings of `u`, resolved from the scope
/// of `chain` on: each in a scope where the names of the bindings before it
/// are bound, level upon level.
pub open spec fn resolved_splat<'a, 'b>(
    u: Seq<Annotated<'b, Binding<'b, UnscopedState>, UnscopedState>>,
    s: Seq<Annotated<'a, Binding<'a, ScopedState>, ScopedState>>,
    chain: Chain<'a>,
) -> bool
    decreases u,
{
    u.len() == s.len() && forall|i: int|
        #![trigger s[i]]
        0 <= i < u.len() ==> splat_link(u, s, chain, i) && resolved_binding(
            u[i],
            s[i],
            s[i].chain(),
        )
}

/// The names that a named `let` binds for its body.
pub open spec fn invocation_names<'b>(
    proc_id: Ident,
    init: Binding<'b, UnscopedState>,
) -> Set<Seq<char>> {
    Set::empty().insert(init.name.value@).insert(proc_id.value@)
}

/// Whether `s` is the `let` form `u`, resolved in the scope of `chain`: the
/// body stands in a level of its own, forked off that scope, which binds the
/// names of the form. For a `let*` there is one level for each binding: the
/// body stands in a level forked off the scope of the last binding, which
/// binds the name of that binding, or, without bindings, in the scope of
/// `chain` itself.
pub open spec fn resolved_let<'a, 'b>(
    u: LetForm<'b, UnscopedState>,
    s: LetForm<'a, ScopedState>,
    chain: Chain<'a>,
) -> bool
    decreases u,
{
    match u {
        LetForm::Let { bindings, body } => s matches LetForm::Let { bindings: sb, body: sbody }
            && resolved_inits(bindings@, sb@, chain) && resolved_body_below(
            body@,
            sbody@,
            chain,
            binding_name_set(bindings@),
            binding_env(bindings@, env_of(chain)),
        ),
        LetForm::LetRec { bindings, body } => s matches LetForm::LetRec {
            bindings: sb,
            body: sbody,
        } && resolved_inits_below(
            bindings@,
            sb@,
            chain,
            binding_name_set(bindings@),
            binding_env(bindings@, env_of(chain)),
        ) && resolved_body_below(
            body@,
            sbody@,
            chain,
            binding_name_set(bindings@),
            binding_env(bindings@, env_of(chain)),
        ),
        LetForm::LetSplat { bindings, body } => s matches LetForm::LetSplat {
            bindings: sb,
            body: sbody,
        } && resolved_splat(bindings@, sb@, chain) && if bindings@.len() == 0 {
            resolved_body(body@, sbody@, chain)
        } else {
            sb@.last().scope.table() is Some && resolved_body_below(
                body@,
                sbody@,
                sb@.last().chain(),
                Set::empty().insert(bindings@.last().node.name.value@),
                binding_env(bindings@, env_of(chain)),
            )
        },
        LetForm::Invocation { proc_id, init, body } => s matches LetForm::Invocation {
            proc_id: sp,
            init: si,
            body: sbody,
        } && sp@ == proc_id@ && si.name@ == init.name@ && si.typ@ == init.typ@ && resolved_expr(
            *init.value,
            *si.value,
            chain,
        ) && resolved_body_below(
            body@,
            sbody@,
            chain,
            invocation_names(proc_id, init),
            invocation_env(proc_id, init, env_of(chain)),
        ),
    }
}

/// Whether `s` is the application `u`, resolved in the scope of `chain`.
pub open spec fn resolved_app<'a, 'b>(
    u: AppForm<'b, UnscopedState>,
    s: AppForm<'a, ScopedState>,
    chain: Chain<'a>,
) -> bool
    decreases u,
{
    s.fun@ == u.fun@ && resolved_body(u.params@, s.params@, chain)
}

/// Whether `s` is the numeric expression `u`, resolved in the scope of
/// `chain`.
pub open spec fn resolved_num<'a, 'b>(
    u: NumExpr<'b, UnscopedState>,
    s: NumExpr<'a, ScopedState>,
    chain: Chain<'a>,
) -> bool
    decreases u,
{
    match u {
        NumExpr::BOp(op) => s matches NumExpr::BOp(sop) && operator(sop) == operator(op)
            && resolved_nums(operands(op)@, operands(sop)@, chain),
        NumExpr::Neg(inner) => s matches NumExpr::Neg(sinner) && resolved_num(
            *inner,
            *sinner,
            chain,
        ),
        NumExpr::Lit(l) => s matches NumExpr::Lit(sl) && sl@ == l@,
        NumExpr::Deref(r) => s matches NumExpr::Deref(sr) && sr@ == r@,
        NumExpr::Call(a) => s matches NumExpr::Call(sa) && resolved_app(a, sa, chain),
    }
}

/// Whether `s` holds the numeric expressions of `u`, each resolved in the
/// scope of `chain`.
pub open spec fn resolved_nums<'a, 'b>(
    u: Seq<NumExpr<'b, UnscopedState>>,
    s: Seq<NumExpr<'a, ScopedState>>,
    chain: Chain<'a>,
) -> bool
    decreases u,
{
    u.len() == s.len() && forall|i: int|
        #![trigger s[i]]
        0 <= i < u.len() ==> resolved_num(u[i], s[i], chain)
}

/// Whether `s` is the module `u`, resolved against the chain `root` of what
/// is visible outside it: the module and its top-level forms stand in a
/// level of their own, forked off `root`, which binds exactly the names
/// that the top-level definitions of the module introduce.
pub open spec fn resolved_module<'a, 'b>(
    u: Annotated<'b, Module<'b, UnscopedState>, UnscopedState>,
    s: Annotated<'a, Module<'a, ScopedState>, ScopedState>,
    root: Chain<'a>,
) -> bool {
    s.position == u.position && s.node.name@ == u.node.name@ && ident_models(s.node.exporting@)
        == ident_models(u.node.exporting@) && s.scope.table() is Some && child_of(
        s.chain(),
        root,
        defined_names(u.node.body@),
        defined_env(u.node.body@, env_of(root)),
    ) && resolved_body(u.node.body@, s.node.body@, s.chain())
}

proof fn lemma_error_pushed(errs: Seq<Positional<Problem>>, e: Positional<Problem>)
    ensures
        error_models(errs.push(e)) == error_models(errs).push(e@),
        error_models(errs.push(e)) == error_models(errs) + seq![e@],
{
    assert(error_models(errs.push(e)) =~= error_models(errs).push(e@));
    assert(error_models(errs).push(e@) =~= error_models(errs) + seq![e@]);
}

/// Whether the new list of problems is the old one with `extra` at its end.
pub open spec fn grown_by(
    old_errs: Seq<Positional<Problem>>,
    new_errs: Seq<Positional<Problem>>,
    extra: Seq<Positional<ProblemModel>>,
) -> bool {
    error_models(new_errs) == error_models(old_errs) + extra
}

proof fn lemma_grown_twice(
    a: Seq<Positional<Problem>>,
    b: Seq<Positional<Problem>>,
    c: Seq<Positional<Problem>>,
)
    ensures
        forall|first: Seq<Positional<ProblemModel>>, second: Seq<Positional<ProblemModel>>|
            #[trigger] grown_by(a, b, first) && #[trigger] grown_by(b, c, second) ==> grown_by(
                a,
                c,
                first + second,
            ),
{
    assert forall|first: Seq<Positional<ProblemModel>>, second: Seq<Positional<ProblemModel>>|
        #[trigger] grown_by(a, b, first) && #[trigger] grown_by(b, c, second) implies grown_by(
        a,
        c,
        first + second,
    ) by {
        assert(error_models(a) + (first + second) =~= (error_models(a) + first) + second);
    }
}

proof fn lemma_grown_none(a: Seq<Positional<Problem>>)
    ensures
        grown_by(a, a, Seq::empty()),
{
    assert(error_models(a) + Seq::<Positional<ProblemModel>>::empty() =~= error_models(a));
}

/// A body without problems has no expression with a problem.
pub proof fn lemma_body_clean<'a, 'b>(
    body: Seq<Annotated<'b, Form<'b, UnscopedState>, UnscopedState>>,
    env: Env<'a>,
)
    requires
        body_problems(body, env).len() == 0,
    ensures
        forall|i: int| 0 <= i < body.len() ==> (#[trigger] expr_problems(body[i], env)).len() == 0,
    decreases body.len(),
{
    if body.len() > 0 {
        lemma_body_clean(body.drop_last(), env);
        assert forall|i: int| 0 <= i < body.len() implies (#[trigger] expr_problems(
            body[i],
            env,
        )).len() == 0 by {
            if i < body.len() - 1 {
                assert(body.drop_last()[i] == body[i]);
            }
        }
    }
}

/// A list of equations without problems has no equation with a problem.
pub proof fn lemma_equations_clean<'a, 'b>(
    equations: Seq<Annotated<'b, Equation<'b, UnscopedState>, UnscopedState>>,
    sig: Signature,
    env: Env<'a>,
)
    requires
        equations_problems(equations, sig, env).len() == 0,
    ensures
        forall|i: int|
            0 <= i < equations.len() ==> (#[trigger] equation_problems(
                equations[i],
                sig,
                env,
            )).len() == 0,
    decreases equations.len(),
{
    if equations.len() > 0 {
        lemma_equations_clean(equations.drop_last(), sig, env);
        assert forall|i: int| 0 <= i < equations.len() implies (#[trigger] equation_problems(
            equations[i],
            sig,
            env,
        )).len() == 0 by {
            if i < equations.len() - 1 {
                assert(equations.drop_last()[i] == equations[i]);
            }
        }
    }
}

/// Bindings whose initializers have no problems have no initializer with a
/// problem.
pub proof fn lemma_inits_clean<'a, 'b>(
    bindings: Seq<Annotated<'b, Binding<'b, UnscopedState>, UnscopedState>>,
    env: Env<'a>,
)
    requires
        inits_problems(bindings, env).len() == 0,
    ensures
        forall|i: int|
            0 <= i < bindings.len() ==> (#[trigger] expr_problems(
                *bindings[i].node.value,
                env,
            )).len() == 0,
    decreases bindings.len(),
{
    if bindings.len() > 0 {
        lemma_inits_clean(bindings.drop_last(), env);
        assert forall|i: int| 0 <= i < bindings.len() implies (#[trigger] expr_problems(
            *bindings[i].node.value,
            env,
        )).len() == 0 by {
            if i < bindings.len() - 1 {
                assert(bindings.drop_last()[i] == bindings[i]);
            }
        }
    }
}

/// Sequential bindings whose initializers have no problems have no
/// initializer with a problem, each where the names before it are visible.
pub proof fn lemma_splat_clean<'a, 'b>(
    bindings: Seq<Annotated<'b, Binding<'b, UnscopedState>, UnscopedState>>,
    env: Env<'a>,
)
    requires
        splat_problems(bindings, env).len() == 0,
    ensures
        forall|i: int|
            0 <= i < bindings.len() ==> (#[trigger] expr_problems(
                *bindings[i].node.value,
                binding_env(bindings.take(i), env),
            )).len() == 0,
    decreases bindings.len(),
{
    if bindings.len() > 0 {
        let before = bindings.drop_last();
        lemma_splat_clean(before, env);
        assert forall|i: int| 0 <= i < bindings.len() implies (#[trigger] expr_problems(
            *bindings[i].node.value,
            binding_env(bindings.take(i), env),
        )).len() == 0 by {
            if i < bindings.len() - 1 {
                assert(before[i] == bindings[i]);
                assert(before.take(i) =~= bindings.take(i));
            } else {
                assert(bindings.take(i) =~= before);
            }
        }
    }
}

/// A list of numeric expressions without problems has no expression with a
/// problem.
pub proof fn lemma_nums_clean<'a, 'b>(
    nums: Seq<NumExpr<'b, UnscopedState>>,
    at: Position,
    env: Env<'a>,
)
    requires
        nums_problems(nums, at, env).len() == 0,
    ensures
        forall|i: int|
            0 <= i < nums.len() ==> (#[trigger] num_problems(nums[i], at, env)).len() == 0,
    decreases nums.len(),
{
    if nums.len() > 0 {
        lemma_nums_clean(nums.drop_last(), at, env);
        assert forall|i: int| 0 <= i < nums.len() implies (#[trigger] num_problems(
            nums[i],
            at,
            env,
        )).len() == 0 by {
            if i < nums.len() - 1 {
                assert(nums.drop_last()[i] == nums[i]);
            }
        }
    }
}

/// The annotation of a name that stands for a value of the given type, of
/// which nothing more is known.
fn value_of_type<'a>(ty: Type) -> (r: SymbolAnnotation<'a>)
    ensures
        r == (SymbolAnnotation::Value { ty, proven_value: None }),
        r@ == value_model::<'a>(ty@),
{
    SymbolAnnotation::Value { ty, proven_value: None }
}

/// A level freshly forked off a chain hangs on that chain and binds nothing
/// of its own.
proof fn lemma_fresh_fork<'a>(parent: Chain<'a>)
    ensures
        forked(parent).len() > 0,
        forked(parent).drop_first() == parent,
        env_of(forked(parent)) == env_of(parent),
        forall|n: Seq<char>| lookup_local(forked(parent), n) is None,
{
    lemma_env_forked(parent);
    assert(forked(parent).drop_first() =~= parent);
}

/// Binding a name at a level adds it to the names bound there, and leaves
/// the enclosing levels as they were.
proof fn lemma_bound_locally<'a>(chain: Chain<'a>, k: Seq<char>, v: SymbolAnnotation<'a>)
    requires
        chain.len() > 0,
    ensures
        with_binding(chain, k, v).len() == chain.len(),
        with_binding(chain, k, v).drop_first() == chain.drop_first(),
        env_of(with_binding(chain, k, v)) == env_of(chain).insert(k, v@),
        forall|n: Seq<char>|
            #![trigger lookup_local(with_binding(chain, k, v), n)]
            lookup_local(with_binding(chain, k, v), n) is Some <==> lookup_local(chain, n)
                is Some || n == k,
{
    lemma_env_bound(chain, k, v);
    crate::forktable::law_ancestors_keep(chain, k, v);
}

/// Reports the name if the scope provides nothing for it.
fn check_name<'a>(id: &Ident, at: Position, scope: &Rc<SymbolTable<'a>>, errs: &mut Errors)
    ensures
        grown_by(old(errs)@, final(errs)@, name_problems(*id, at, visible_in(**scope))),
{
    if !scope.chain_contains_key(&id.value) {
        let problem = Positional::from(at, Problem::UndefinedName(id.value.clone()));
        proof {
            lemma_error_pushed(errs@, problem);
        }
        errs.push(problem);
    } else {
        proof {
            lemma_grown_none(errs@);
        }
    }
}

/// Reports the name of an applied function if the scope provides nothing
/// for it.
fn check_function<'a>(fun: &Ident, at: Position, scope: &Rc<SymbolTable<'a>>, errs: &mut Errors)
    ensures
        grown_by(old(errs)@, final(errs)@, applied_problems(*fun, at, visible_in(**scope))),
{
    if !scope.chain_contains_key(&fun.value) {
        let problem = Positional::from(at, Problem::UndefinedFunction(fun.value.clone()));
        proof {
            lemma_error_pushed(errs@, problem);
        }
        errs.push(problem);
    } else {
        proof {
            lemma_grown_none(errs@);
        }
    }
}

/// Forks the scope and binds the name in the child, as a value of the given
/// type.
fn scope_with<'a>(scope: &Rc<SymbolTable<'a>>, name: &Ident, ty: Type) -> (child: Rc<
    SymbolTable<'a>,
>)
    ensures
        child_of(
            child@,
            scope@,
            Set::empty().insert(name.value@),
            visible_in(**scope).insert(name.value@, value_model(ty@)),
        ),
        visible_in(*child) == visible_in(**scope).insert(name.value@, value_model(ty@)),
{
    let mut table = ForkTable::fork_shared(scope);
    let annotation = value_of_type(ty);
    table.insert(name.value.clone(), annotation);
    proof {
        lemma_fresh_fork(scope@);
        lemma_bound_locally(forked(scope@), name.value@, annotation);
        assert forall|n: Seq<char>| #![trigger lookup_local(table@, n)]
            lookup_local(table@, n) is Some <==> Set::<Seq<char>>::empty().insert(
                name.value@,
            ).contains(n) by {
            assert(lookup_local(forked(scope@), n) is None);
        }
    }
    Rc::new(table)
}

/// Resolves an expression against the scope it stands in: checks it, and
/// annotates it and every node below it with its scope.
fn resolve_expr<'a, 'b>(
    e: &Annotated<'b, Form<'b, UnscopedState>, UnscopedState>,
    scope: &Rc<SymbolTable<'a>>,
    errs: &mut Errors,
) -> (r: Annotated<'a, Form<'a, ScopedState>, ScopedState>)
    ensures
        grown_by(old(errs)@, final(errs)@, expr_problems(*e, visible_in(**scope))),
        expr_problems(*e, visible_in(**scope)).len() == 0 ==> resolved_expr(*e, r, scope@),
        r.scope.table() == Some(**scope),
    decreases e,
{
    let form = resolve_form(&e.node, e.position, scope, errs);
    Annotated::new(form, e.position).with_shared_scope(scope)
}

fn resolve_form<'a, 'b>(
    f: &Form<'b, UnscopedState>,
    at: Position,
    scope: &Rc<SymbolTable<'a>>,
    errs: &mut Errors,
) -> (r: Form<'a, ScopedState>)
    ensures
        grown_by(old(errs)@, final(errs)@, form_problems(*f, at, visible_in(**scope))),
        form_problems(*f, at, visible_in(**scope)).len() == 0 ==> resolved_form(*f, r, scope@),
    decreases f,
{
    let ghost e0 = errs@;
    match f {
        Form::Define(d) => Form::Define(resolve_def(d, scope, errs)),
        Form::If { condition, if_clause, else_clause } => {
            let c = resolve_expr(&**condition, scope, errs);
            let ghost e1 = errs@;
            let t = resolve_expr(&**if_clause, scope, errs);
            let ghost e2 = errs@;
            let e = match else_clause {
                Some(x) => Some(Rc::new(resolve_expr(&**x, scope, errs))),
                None => {
                    proof {
                        lemma_grown_none(errs@);
                    }
                    None
                },
            };
            proof {
                lemma_grown_twice(e0, e1, e2);
                lemma_grown_twice(e0, e2, errs@);
            }
            Form::If { condition: Rc::new(c), if_clause: Rc::new(t), else_clause: e }
        },
        Form::Let(l) => Form::Let(resolve_let(l, scope, errs)),
        Form::App(a) => Form::App(resolve_app(a, at, scope, errs)),
        Form::Lambda(fun) => Form::Lambda(resolve_function(fun, scope, errs)),
        Form::Logical(l) => match l {
            Logical::And { a, b } => {
                let x = resolve_expr(&**a, scope, errs);
                let ghost e1 = errs@;
                let y = resolve_expr(&**b, scope, errs);
                proof {
                    lemma_grown_twice(e0, e1, errs@);
                }
                Form::Logical(Logical::And { a: Rc::new(x), b: Rc::new(y) })
            },
            Logical::Or { a, b } => {
                let x = resolve_expr(&**a, scope, errs);
                let ghost e1 = errs@;
                let y = resolve_expr(&**b, scope, errs);
                proof {
                    lemma_grown_twice(e0, e1, errs@);
                }
                Form::Logical(Logical::Or { a: Rc::new(x), b: Rc::new(y) })
            },
        },
        Form::Num(n) => Form::Num(resolve_num(n, at, scope, errs)),
        Form::Lit(l) => {
            proof {
                lemma_grown_none(errs@);
            }
            Form::Lit(l.clone())
        },
        Form::NameRef(r) => {
            check_name(r.name(), at, scope, errs);
            Form::NameRef(r.clone())
        },
    }
}

fn resolve_body<'a, 'b>(
    body: &Vec<Annotated<'b, Form<'b, UnscopedState>, UnscopedState>>,
    scope: &Rc<SymbolTable<'a>>,
    errs: &mut Errors,
) -> (r: Vec<Annotated<'a, Form<'a, ScopedState>, ScopedState>>)
    ensures
        grown_by(old(errs)@, final(errs)@, body_problems(body@, visible_in(**scope))),
        body_problems(body@, visible_in(**scope)).len() == 0 ==> resolved_body(
            body@,
            r@,
            scope@,
        ),
        r@.len() == body@.len(),
        forall|i: int| 0 <= i < r@.len() ==> (#[trigger] r@[i]).scope.table() == Some(**scope),
    decreases body,
{
    let ghost e0 = errs@;
    let mut out: Vec<Annotated<'a, Form<'a, ScopedState>, ScopedState>> = Vec::new();
    let mut i: usize = 0;
    proof {
        assert(body@.take(0) =~= Seq::empty());
        lemma_grown_none(errs@);
    }
    while i < body.len()
        invariant
            i <= body@.len(),
            out@.len() == i,
            grown_by(e0, errs@, body_problems(body@.take(i as int), visible_in(**scope))),
            forall|j: int| 0 <= j < i ==> (#[trigger] out@[j]).scope.table() == Some(**scope),
            forall|j: int|
                #![trigger out@[j]]
                0 <= j < i && expr_problems(body@[j], visible_in(**scope)).len() == 0
                    ==> resolved_expr(body@[j], out@[j], scope@),
        decreases body.len() - i,
    {
        let ghost e1 = errs@;
        let r = resolve_expr(&body[i], scope, errs);
        out.push(r);
        proof {
            let upto = body@.take(i + 1);
            assert(upto.drop_last() =~= body@.take(i as int));
            assert(upto.last() == body@[i as int]);
            lemma_grown_twice(e0, e1, errs@);
        }
        i += 1;
    }
    proof {
        assert(body@.take(body@.len() as int) =~= body@);
        if body_problems(body@, env_of(scope@)).len() == 0 {
            lemma_body_clean(body@, env_of(scope@));
        }
    }
    out
}

/// What is resolved in the scope of a child level is resolved below the
/// parent of that level.
proof fn lemma_body_below<'a, 'b>(
    u: Seq<Annotated<'b, Form<'b, UnscopedState>, UnscopedState>>,
    s: Seq<Annotated<'a, Form<'a, ScopedState>, ScopedState>>,
    child: Chain<'a>,
    parent: Chain<'a>,
    names: Set<Seq<char>>,
    env: Env<'a>,
)
    requires
        resolved_body(u, s, child),
        child_of(child, parent, names, env),
    ensures
        resolved_body_below(u, s, parent, names, env),
{
    assert forall|i: int| #![trigger s[i]] 0 <= i < u.len() implies child_of(
        s[i].chain(),
        parent,
        names,
        env,
    ) && resolved_expr(u[i], s[i], s[i].chain()) by {
        assert(resolved_expr(u[i], s[i], child));
    }
}

fn resolve_def<'a, 'b>(
    d: &DefForm<'b, UnscopedState>,
    scope: &Rc<SymbolTable<'a>>,
    errs: &mut Errors,
) -> (r: DefForm<'a, ScopedState>)
    ensures
        grown_by(old(errs)@, final(errs)@, def_problems(*d, visible_in(**scope))),
        def_problems(*d, visible_in(**scope)).len() == 0 ==> resolved_def(*d, r, scope@),
    decreases d,
{
    match d {
        DefForm::TopLevel { name, annot, value } => {
            let child = scope_with(scope, name, annot.clone());
            let v = resolve_expr(&**value, &child, errs);
            DefForm::TopLevel { name: name.clone(), annot: annot.clone(), value: Rc::new(v) }
        },
        DefForm::Function { name, fun } => {
            let child = scope_with(scope, name, Type::Function(fun.node.sig.clone()));
            let f = resolve_function(&fun.node, &child, errs);
            DefForm::Function {
                name: name.clone(),
                fun: Annotated::new(f, fun.position).with_shared_scope(&child),
            }
        },
    }
}

fn resolve_function<'a, 'b>(
    fun: &Function<'b, UnscopedState>,
    scope: &Rc<SymbolTable<'a>>,
    errs: &mut Errors,
) -> (r: Function<'a, ScopedState>)
    ensures
        grown_by(old(errs)@, final(errs)@, function_problems(*fun, visible_in(**scope))),
        function_problems(*fun, visible_in(**scope)).len() == 0 ==> resolved_function(
            *fun,
            r,
            scope@,
        ),
    decreases fun,
{
    let equations = resolve_equations(&fun.equations, &fun.sig, scope, errs);
    Function { sig: fun.sig.clone(), equations }
}

fn resolve_equations<'a, 'b>(
    equations: &Vec<Annotated<'b, Equation<'b, UnscopedState>, UnscopedState>>,
    sig: &Signature,
    scope: &Rc<SymbolTable<'a>>,
    errs: &mut Errors,
) -> (r: Vec<Annotated<'a, Equation<'a, ScopedState>, ScopedState>>)
    ensures
        grown_by(
            old(errs)@,
            final(errs)@,
            equations_problems(equations@, *sig, visible_in(**scope)),
        ),
        equations_problems(equations@, *sig, visible_in(**scope)).len() == 0
            ==> resolved_equations(equations@, r@, sig.typechain@, scope@),
    decreases equations,
{
    let ghost e0 = errs@;
    let mut out: Vec<Annotated<'a, Equation<'a, ScopedState>, ScopedState>> = Vec::new();
    let mut i: usize = 0;
    proof {
        assert(equations@.take(0) =~= Seq::empty());
        lemma_grown_none(errs@);
    }
    while i < equations.len()
        invariant
            i <= equations@.len(),
            out@.len() == i,
            grown_by(
                e0,
                errs@,
                equations_problems(equations@.take(i as int), *sig, visible_in(**scope)),
            ),
            forall|j: int|
                #![trigger out@[j]]
                0 <= j < i && equation_problems(equations@[j], *sig, visible_in(**scope)).len()
                    == 0 ==> resolved_equation(equations@[j], out@[j], sig.typechain@, scope@),
        decreases equations.len() - i,
    {
        let ghost e1 = errs@;
        let r = resolve_equation(&equations[i], sig, scope, errs);
        out.push(r);
        proof {
            let upto = equations@.take(i + 1);
            assert(upto.drop_last() =~= equations@.take(i as int));
            assert(upto.last() == equations@[i as int]);
            lemma_grown_twice(e0, e1, errs@);
        }
        i += 1;
    }
    proof {
        assert(equations@.take(equations@.len() as int) =~= equations@);
        if equations_problems(equations@, *sig, env_of(scope@)).len() == 0 {
            lemma_equations_clean(equations@, *sig, env_of(scope@));
        }
    }
    out
}

/// Binds the names of a pattern in the table: a plain name as a value of
/// the parameter type at its place in the signature, a typed name as a value
/// of its own type.
fn bind_pattern<'a>(table: &mut SymbolTable<'a>, pattern: &Vec<PatElement>, sig: &Signature)
    requires
        pattern@.len() == declared_arity(sig.typechain@.len()),
    ensures
        visible_in(*final(table)) == pattern_env(
            pattern@,
            sig.typechain@,
            visible_in(*old(table)),
        ),
        final(table)@.len() == old(table)@.len(),
        final(table)@.drop_first() == old(table)@.drop_first(),
        forall|n: Seq<char>|
            #![trigger lookup_local(final(table)@, n)]
            lookup_local(final(table)@, n) is Some <==> lookup_local(old(table)@, n) is Some
                || pattern_name_set(pattern@).contains(n),
{
    let mut i: usize = 0;
    proof {
        assert(pattern@.take(0) =~= Seq::empty());
    }
    while i < pattern.len()
        invariant
            i <= pattern@.len(),
            pattern@.len() == declared_arity(sig.typechain@.len()),
            visible_in(*table) == pattern_env(
                pattern@.take(i as int),
                sig.typechain@,
                visible_in(*old(table)),
            ),
            table@.len() == old(table)@.len(),
            table@.drop_first() == old(table)@.drop_first(),
            forall|n: Seq<char>|
                #![trigger lookup_local(table@, n)]
                lookup_local(table@, n) is Some <==> lookup_local(old(table)@, n) is Some
                    || pattern_name_set(pattern@.take(i as int)).contains(n),
        decreases pattern.len() - i,
    {
        proof {
            let upto = pattern@.take(i + 1);
            assert(upto.drop_last() =~= pattern@.take(i as int));
            assert(upto.last() == pattern@[i as int]);
        }
        let ghost before = table@;
        let ghost names = pattern_name_set(pattern@.take(i as int));
        match &pattern[i] {
            PatElement::Name(id) => {
                let annotation = value_of_type(sig.typechain[i].clone());
                table.insert(id.value.clone(), annotation);
                proof {
                    lemma_bound_locally(before, id.value@, annotation);
                }
            },
            PatElement::Typed { name, ty } => {
                let annotation = value_of_type(ty.clone());
                table.insert(name.value.clone(), annotation);
                proof {
                    lemma_bound_locally(before, name.value@, annotation);
                }
            },
            _ => {},
        }
        proof {
            assert forall|n: Seq<char>| #![trigger lookup_local(table@, n)]
                lookup_local(table@, n) is Some <==> lookup_local(old(table)@, n) is Some
                    || pattern_name_set(pattern@.take(i + 1)).contains(n) by {
                assert(lookup_local(before, n) is Some <==> lookup_local(old(table)@, n) is Some
                    || names.contains(n));
            }
        }
        i += 1;
    }
    proof {
        assert(pattern@.take(pattern@.len() as int) =~= pattern@);
    }
}

fn resolve_equation<'a, 'b>(
    equation: &Annotated<'b, Equation<'b, UnscopedState>, UnscopedState>,
    sig: &Signature,
    scope: &Rc<SymbolTable<'a>>,
    errs: &mut Errors,
) -> (r: Annotated<'a, Equation<'a, ScopedState>, ScopedState>)
    ensures
        grown_by(
            old(errs)@,
            final(errs)@,
            equation_problems(*equation, *sig, visible_in(**scope)),
        ),
        equation_problems(*equation, *sig, visible_in(**scope)).len() == 0 ==> resolved_equation(
            *equation,
            r,
            sig.typechain@,
            scope@,
        ),
    decreases equation,
{
    match arity_error(equation, sig) {
        Some(problem) => {
            proof {
                lemma_error_pushed(errs@, problem);
            }
            errs.push(problem);
            let unresolved = Equation {
                pattern: clone_pattern(&equation.node.pattern),
                body: Vec::new(),
            };
            Annotated::new(unresolved, equation.position).with_shared_scope(scope)
        },
        None => {
            let mut table = ForkTable::fork_shared(scope);
            proof {
                lemma_fresh_fork(scope@);
            }
            bind_pattern(&mut table, &equation.node.pattern, sig);
            proof {
                assert forall|n: Seq<char>| #![trigger lookup_local(table@, n)]
                    lookup_local(table@, n) is Some <==> pattern_name_set(
                        equation.node.pattern@,
                    ).contains(n) by {
                    assert(lookup_local(forked(scope@), n) is None);
                }
            }
            let child = Rc::new(table);
            let body = resolve_body(&equation.node.body, &child, errs);
            let resolved = Equation { pattern: clone_pattern(&equation.node.pattern), body };
            Annotated::new(resolved, equation.position).with_shared_scope(&child)
        },
    }
}

fn resolve_app<'a, 'b>(
    a: &AppForm<'b, UnscopedState>,
    at: Position,
    scope: &Rc<SymbolTable<'a>>,
    errs: &mut Errors,
) -> (r: AppForm<'a, ScopedState>)
    ensures
        grown_by(old(errs)@, final(errs)@, app_problems(*a, at, visible_in(**scope))),
        app_problems(*a, at, visible_in(**scope)).len() == 0 ==> resolved_app(*a, r, scope@),
    decreases a,
{
    let ghost e0 = errs@;
    check_function(&a.fun, at, scope, errs);
    let ghost e1 = errs@;
    let params = resolve_body(&a.params, scope, errs);
    proof {
        lemma_grown_twice(e0, e1, errs@);
    }
    AppForm { fun: a.fun.clone(), params }
}

fn resolve_num<'a, 'b>(
    n: &NumExpr<'b, UnscopedState>,
    at: Position,
    scope: &Rc<SymbolTable<'a>>,
    errs: &mut Errors,
) -> (r: NumExpr<'a, ScopedState>)
    ensures
        grown_by(old(errs)@, final(errs)@, num_problems(*n, at, visible_in(**scope))),
        num_problems(*n, at, visible_in(**scope)).len() == 0 ==> resolved_num(*n, r, scope@),
    decreases n,
{
    match n {
        NumExpr::BOp(op) => NumExpr::BOp(
            match op {
                NumBOp::Add(v) => NumBOp::Add(resolve_nums(v, at, scope, errs)),
                NumBOp::Sub(v) => NumBOp::Sub(resolve_nums(v, at, scope, errs)),
                NumBOp::Mul(v) => NumBOp::Mul(resolve_nums(v, at, scope, errs)),
                NumBOp::Div(v) => NumBOp::Div(resolve_nums(v, at, scope, errs)),
                NumBOp::BitAnd(v) => NumBOp::BitAnd(resolve_nums(v, at, scope, errs)),
                NumBOp::BitOr(v) => NumBOp::BitOr(resolve_nums(v, at, scope, errs)),
                NumBOp::BitXor(v) => NumBOp::BitXor(resolve_nums(v, at, scope, errs)),
                NumBOp::ShiftL(v) => NumBOp::ShiftL(resolve_nums(v, at, scope, errs)),
                NumBOp::ShiftR(v) => NumBOp::ShiftR(resolve_nums(v, at, scope, errs)),
            },
        ),
        NumExpr::Neg(inner) => NumExpr::Neg(Box::new(resolve_num(&**inner, at, scope, errs))),
        NumExpr::Lit(l) => {
            proof {
                lemma_grown_none(errs@);
            }
            NumExpr::Lit(l.clone())
        },
        NumExpr::Deref(r) => {
            check_name(r.name(), at, scope, errs);
            NumExpr::Deref(r.clone())
        },
        NumExpr::Call(a) => NumExpr::Call(resolve_app(a, at, scope, errs)),
    }
}

fn resolve_nums<'a, 'b>(
    nums: &Vec<NumExpr<'b, UnscopedState>>,
    at: Position,
    scope: &Rc<SymbolTable<'a>>,
    errs: &mut Errors,
) -> (r: Vec<NumExpr<'a, ScopedState>>)
    ensures
        grown_by(old(errs)@, final(errs)@, nums_problems(nums@, at, visible_in(**scope))),
        nums_problems(nums@, at, visible_in(**scope)).len() == 0 ==> resolved_nums(
            nums@,
            r@,
            scope@,
        ),
    decreases nums,
{
    let ghost e0 = errs@;
    let mut out: Vec<NumExpr<'a, ScopedState>> = Vec::new();
    let mut i: usize = 0;
    proof {
        assert(nums@.take(0) =~= Seq::empty());
        lemma_grown_none(errs@);
    }
    while i < nums.len()
        invariant
            i <= nums@.len(),
            out@.len() == i,
            grown_by(e0, errs@, nums_problems(nums@.take(i as int), at, visible_in(**scope))),
            forall|j: int|
                #![trigger out@[j]]
                0 <= j < i && num_problems(nums@[j], at, visible_in(**scope)).len() == 0
                    ==> resolved_num(nums@[j], out@[j], scope@),
        decreases nums.len() - i,
    {
        let ghost e1 = errs@;
        let r = resolve_num(&nums[i], at, scope, errs);
        out.push(r);
        proof {
            let upto = nums@.take(i + 1);
            assert(upto.drop_last() =~= nums@.take(i as int));
            assert(upto.last() == nums@[i as int]);
            lemma_grown_twice(e0, e1, errs@);
        }
        i += 1;
    }
    proof {
        assert(nums@.take(nums@.len() as int) =~= nums@);
        if nums_problems(nums@, at, env_of(scope@)).len() == 0 {
            lemma_nums_clean(nums@, at, env_of(scope@));
        }
    }
    out
}

/// Resolves the bindings of a `let` form whose initializers all stand in the
/// same scope.
fn resolve_inits<'a, 'b>(
    bindings: &Vec<Annotated<'b, Binding<'b, UnscopedState>, UnscopedState>>,
    scope: &Rc<SymbolTable<'a>>,
    errs: &mut Errors,
) -> (r: Vec<Annotated<'a, Binding<'a, ScopedState>, ScopedState>>)
    ensures
        grown_by(old(errs)@, final(errs)@, inits_problems(bindings@, visible_in(**scope))),
        inits_problems(bindings@, visible_in(**scope)).len() == 0 ==> resolved_inits(
            bindings@,
            r@,
            scope@,
        ),
    decreases bindings,
{
    let ghost e0 = errs@;
    let mut out: Vec<Annotated<'a, Binding<'a, ScopedState>, ScopedState>> = Vec::new();
    let mut i: usize = 0;
    proof {
        assert(bindings@.take(0) =~= Seq::empty());
        lemma_grown_none(errs@);
    }
    while i < bindings.len()
        invariant
            i <= bindings@.len(),
            out@.len() == i,
            grown_by(e0, errs@, inits_problems(bindings@.take(i as int), visible_in(**scope))),
            forall|j: int|
                #![trigger out@[j]]
                0 <= j < i && expr_problems(*bindings@[j].node.value, visible_in(**scope)).len()
                    == 0 ==> resolved_binding(bindings@[j], out@[j], scope@),
        decreases bindings.len() - i,
    {
        let ghost e1 = errs@;
        let b = &bindings[i];
        let value = resolve_expr(&*b.node.value, scope, errs);
        let resolved = Binding {
            name: b.node.name.clone(),
            typ: b.node.typ.clone(),
            value: Rc::new(value),
        };
        out.push(Annotated::new(resolved, b.position).with_shared_scope(scope));
        proof {
            let upto = bindings@.take(i + 1);
            assert(upto.drop_last() =~= bindings@.take(i as int));
            assert(upto.last() == bindings@[i as int]);
            lemma_grown_twice(e0, e1, errs@);
        }
        i += 1;
    }
    proof {
        assert(bindings@.take(bindings@.len() as int) =~= bindings@);
        if inits_problems(bindings@, env_of(scope@)).len() == 0 {
            lemma_inits_clean(bindings@, env_of(scope@));
        }
    }
    out
}

/// Bindings that are resolved in the scope of a child level are resolved
/// below the parent of that level.
proof fn lemma_inits_below<'a, 'b>(
    u: Seq<Annotated<'b, Binding<'b, UnscopedState>, UnscopedState>>,
    s: Seq<Annotated<'a, Binding<'a, ScopedState>, ScopedState>>,
    child: Chain<'a>,
    parent: Chain<'a>,
    names: Set<Seq<char>>,
    env: Env<'a>,
)
    requires
        resolved_inits(u, s, child),
        child_of(child, parent, names, env),
    ensures
        resolved_inits_below(u, s, parent, names, env),
{
    assert forall|i: int| #![trigger s[i]] 0 <= i < u.len() implies child_of(
        s[i].chain(),
        parent,
        names,
        env,
    ) && resolved_binding(u[i], s[i], s[i].chain()) by {
        assert(resolved_binding(u[i], s[i], child));
    }
}

/// Binds the names of all the bindings in the table, each as a value of its
/// declared type.
fn bind_all<'a, 'b>(
    table: &mut SymbolTable<'a>,
    bindings: &Vec<Annotated<'b, Binding<'b, UnscopedState>, UnscopedState>>,
)
    ensures
        visible_in(*final(table)) == binding_env(bindings@, visible_in(*old(table))),
        final(table)@.len() == old(table)@.len(),
        final(table)@.drop_first() == old(table)@.drop_first(),
        forall|n: Seq<char>|
            #![trigger lookup_local(final(table)@, n)]
            lookup_local(final(table)@, n) is Some <==> lookup_local(old(table)@, n) is Some
                || binding_name_set(bindings@).contains(n),
{
    let mut i: usize = 0;
    proof {
        assert(bindings@.take(0) =~= Seq::empty());
    }
    while i < bindings.len()
        invariant
            i <= bindings@.len(),
            visible_in(*table) == binding_env(bindings@.take(i as int), visible_in(*old(table))),
            table@.len() == old(table)@.len(),
            table@.drop_first() == old(table)@.drop_first(),
            forall|n: Seq<char>|
                #![trigger lookup_local(table@, n)]
                lookup_local(table@, n) is Some <==> lookup_local(old(table)@, n) is Some
                    || binding_name_set(bindings@.take(i as int)).contains(n),
        decreases bindings.len() - i,
    {
        proof {
            let upto = bindings@.take(i + 1);
            assert(upto.drop_last() =~= bindings@.take(i as int));
            assert(upto.last() == bindings@[i as int]);
        }
        let ghost before = table@;
        let ghost names = binding_name_set(bindings@.take(i as int));
        let b = &bindings[i];
        let annotation = value_of_type(b.node.typ.clone());
        table.insert(b.node.name.value.clone(), annotation);
        proof {
            lemma_bound_locally(before, b.node.name.value@, annotation);
            assert forall|n: Seq<char>| #![trigger lookup_local(table@, n)]
                lookup_local(table@, n) is Some <==> lookup_local(old(table)@, n) is Some
                    || binding_name_set(bindings@.take(i + 1)).contains(n) by {
                assert(lookup_local(before, n) is Some <==> lookup_local(old(table)@, n) is Some
                    || names.contains(n));
            }
        }
        i += 1;
    }
    proof {
        assert(bindings@.take(bindings@.len() as int) =~= bindings@);
    }
}

/// Forks the scope and binds the names of all the bindings in the child.
fn scope_with_all<'a, 'b>(
    scope: &Rc<SymbolTable<'a>>,
    bindings: &Vec<Annotated<'b, Binding<'b, UnscopedState>, UnscopedState>>,
) -> (child: Rc<SymbolTable<'a>>)
    ensures
        child_of(
            child@,
            scope@,
            binding_name_set(bindings@),
            binding_env(bindings@, visible_in(**scope)),
        ),
        visible_in(*child) == binding_env(bindings@, visible_in(**scope)),
{
    let mut table = ForkTable::fork_shared(scope);
    proof {
        lemma_fresh_fork(scope@);
    }
    bind_all(&mut table, bindings);
    proof {
        assert forall|n: Seq<char>| #![trigger lookup_local(table@, n)]
            lookup_local(table@, n) is Some <==> binding_name_set(bindings@).contains(n) by {
            assert(lookup_local(forked(scope@), n) is None);
        }
    }
    Rc::new(table)
}

/// Resolves the bindings of a `let*` form: each initializer stands in the
/// scope of the bindings before it, and each binding gets a level of its
/// own, forked off that scope. Returns the resolved bindings and the scope
/// that holds them all.
fn resolve_splat<'a, 'b>(
    bindings: &Vec<Annotated<'b, Binding<'b, UnscopedState>, UnscopedState>>,
    scope: &Rc<SymbolTable<'a>>,
    errs: &mut Errors,
) -> (r: (Vec<Annotated<'a, Binding<'a, ScopedState>, ScopedState>>, Rc<SymbolTable<'a>>))
    ensures
        grown_by(old(errs)@, final(errs)@, splat_problems(bindings@, visible_in(**scope))),
        visible_in(*r.1) == binding_env(bindings@, visible_in(**scope)),
        splat_problems(bindings@, visible_in(**scope)).len() == 0 ==> resolved_splat(
            bindings@,
            r.0@,
            scope@,
        ),
        r.0@.len() == bindings@.len(),
        bindings@.len() == 0 ==> r.1@ == scope@,
        bindings@.len() > 0 ==> r.0@.last().scope.table() is Some && child_of(
            r.1@,
            r.0@.last().chain(),
            Set::empty().insert(bindings@.last().node.name.value@),
            binding_env(bindings@, visible_in(**scope)),
        ),
    decreases bindings,
{
    let ghost e0 = errs@;
    let mut out: Vec<Annotated<'a, Binding<'a, ScopedState>, ScopedState>> = Vec::new();
    let mut current = crate::shared::share(scope);
    let mut i: usize = 0;
    proof {
        assert(bindings@.take(0) =~= Seq::empty());
        lemma_grown_none(errs@);
    }
    while i < bindings.len()
        invariant
            i <= bindings@.len(),
            out@.len() == i,
            visible_in(*current) == binding_env(bindings@.take(i as int), visible_in(**scope)),
            grown_by(e0, errs@, splat_problems(bindings@.take(i as int), visible_in(**scope))),
            i == 0 ==> current@ == scope@,
            i > 0 ==> out@[i - 1].scope.table() is Some && child_of(
                current@,
                out@[i - 1].chain(),
                Set::empty().insert(bindings@[i - 1].node.name.value@),
                binding_env(bindings@.take(i as int), visible_in(**scope)),
            ),
            forall|j: int|
                #![trigger out@[j]]
                0 <= j < i ==> out@[j].scope.table() is Some && splat_link(
                    bindings@,
                    out@,
                    scope@,
                    j,
                ),
            forall|j: int|
                #![trigger out@[j]]
                0 <= j < i && expr_problems(
                    *bindings@[j].node.value,
                    binding_env(bindings@.take(j), visible_in(**scope)),
                ).len() == 0 ==> resolved_binding(bindings@[j], out@[j], out@[j].chain()),
        decreases bindings.len() - i,
    {
        let ghost e1 = errs@;
        let ghost before = out@;
        let b = &bindings[i];
        let value = resolve_expr(&*b.node.value, &current, errs);
        let resolved = Binding {
            name: b.node.name.clone(),
            typ: b.node.typ.clone(),
            value: Rc::new(value),
        };
        out.push(Annotated::new(resolved, b.position).with_shared_scope(&current));
        let next = scope_with(&current, &b.node.name, b.node.typ.clone());
        proof {
            let upto = bindings@.take(i + 1);
            assert(upto.drop_last() =~= bindings@.take(i as int));
            assert(upto.last() == bindings@[i as int]);
            lemma_grown_twice(e0, e1, errs@);
            assert(out@[i as int].chain() == current@);
            assert forall|j: int| #![trigger out@[j]] 0 <= j < i + 1 implies out@[j].scope.table()
                is Some && splat_link(bindings@, out@, scope@, j) by {
                if j < i {
                    assert(out@[j] == before[j]);
                    assert(splat_link(bindings@, before, scope@, j));
                    if j > 0 {
                        assert(out@[j - 1] == before[j - 1]);
                    }
                } else if i > 0 {
                    assert(out@[i - 1] == before[i - 1]);
                }
            }
        }
        current = next;
        i += 1;
    }
    proof {
        assert(bindings@.take(bindings@.len() as int) =~= bindings@);
        if splat_problems(bindings@, env_of(scope@)).len() == 0 {
            lemma_splat_clean(bindings@, env_of(scope@));
        }
    }
    (out, current)
}

fn resolve_let<'a, 'b>(
    l: &LetForm<'b, UnscopedState>,
    scope: &Rc<SymbolTable<'a>>,
    errs: &mut Errors,
) -> (r: LetForm<'a, ScopedState>)
    ensures
        grown_by(old(errs)@, final(errs)@, let_problems(*l, visible_in(**scope))),
        let_problems(*l, visible_in(**scope)).len() == 0 ==> resolved_let(*l, r, scope@),
    decreases l,
{
    let ghost e0 = errs@;
    match l {
        LetForm::Let { bindings, body } => {
            let inits = resolve_inits(bindings, scope, errs);
            let ghost e1 = errs@;
            let child = scope_with_all(scope, bindings);
            let resolved = resolve_body(body, &child, errs);
            proof {
                lemma_grown_twice(e0, e1, errs@);
                if body_problems(body@, env_of(child@)).len() == 0 {
                    lemma_body_below(
                        body@,
                        resolved@,
                        child@,
                        scope@,
                        binding_name_set(bindings@),
                        binding_env(bindings@, env_of(scope@)),
                    );
                }
            }
            LetForm::Let { bindings: inits, body: resolved }
        },
        LetForm::LetRec { bindings, body } => {
            let child = scope_with_all(scope, bindings);
            let inits = resolve_inits(bindings, &child, errs);
            let ghost e1 = errs@;
            let resolved = resolve_body(body, &child, errs);
            proof {
                lemma_grown_twice(e0, e1, errs@);
                if inits_problems(bindings@, env_of(child@)).len() == 0 {
                    lemma_inits_below(
                        bindings@,
                        inits@,
                        child@,
                        scope@,
                        binding_name_set(bindings@),
                        binding_env(bindings@, env_of(scope@)),
                    );
                }
                if body_problems(body@, env_of(child@)).len() == 0 {
                    lemma_body_below(
                        body@,
                        resolved@,
                        child@,
                        scope@,
                        binding_name_set(bindings@),
                        binding_env(bindings@, env_of(scope@)),
                    );
                }
            }
            LetForm::LetRec { bindings: inits, body: resolved }
        },
        LetForm::LetSplat { bindings, body } => {
            let (inits, child) = resolve_splat(bindings, scope, errs);
            let ghost e1 = errs@;
            let resolved = resolve_body(body, &child, errs);
            proof {
                lemma_grown_twice(e0, e1, errs@);
                if bindings@.len() > 0 && body_problems(body@, env_of(child@)).len() == 0 {
                    lemma_body_below(
                        body@,
                        resolved@,
                        child@,
                        inits@.last().chain(),
                        Set::empty().insert(bindings@.last().node.name.value@),
                        binding_env(bindings@, env_of(scope@)),
                    );
                }
            }
            LetForm::LetSplat { bindings: inits, body: resolved }
        },
        LetForm::Invocation { proc_id, init, body } => {
            let value = resolve_expr(&*init.value, scope, errs);
            let ghost e1 = errs@;
            let mut table = ForkTable::fork_shared(scope);
            let bound = value_of_type(init.typ.clone());
            table.insert(init.name.value.clone(), bound);
            let ghost half = table@;
            let procedure = value_of_type(Type::Symbol(proc_id.value.clone()));
            table.insert(proc_id.value.clone(), procedure);
            proof {
                lemma_fresh_fork(scope@);
                lemma_bound_locally(forked(scope@), init.name.value@, bound);
                lemma_bound_locally(half, proc_id.value@, procedure);
                assert forall|n: Seq<char>| #![trigger lookup_local(table@, n)]
                    lookup_local(table@, n) is Some <==> invocation_names(
                        *proc_id,
                        *init,
                    ).contains(n) by {
                    assert(lookup_local(forked(scope@), n) is None);
                    assert(lookup_local(half, n) is Some <==> n == init.name.value@);
                }
            }
            let child = Rc::new(table);
            let resolved = resolve_body(body, &child, errs);
            proof {
                lemma_grown_twice(e0, e1, errs@);
                if body_problems(body@, env_of(child@)).len() == 0 {
                    lemma_body_below(
                        body@,
                        resolved@,
                        child@,
                        scope@,
                        invocation_names(*proc_id, *init),
                        invocation_env(*proc_id, *init, env_of(scope@)),
                    );
                }
            }
            LetForm::Invocation {
                proc_id: proc_id.clone(),
                init: Binding {
                    name: init.name.clone(),
                    typ: init.typ.clone(),
                    value: Rc::new(value),
                },
                body: resolved,
            }
        },
    }
}

/// Binds in the table the name of every definition that stands directly in
/// the body: a value definition as a value of its declared type, a function
/// definition as a value of its signature's type.
fn declare_all<'a, 'b>(
    table: &mut SymbolTable<'a>,
    body: &Vec<Annotated<'b, Form<'b, UnscopedState>, UnscopedState>>,
)
    ensures
        visible_in(*final(table)) == defined_env(body@, visible_in(*old(table))),
        final(table)@.len() == old(table)@.len(),
        final(table)@.drop_first() == old(table)@.drop_first(),
        forall|n: Seq<char>|
            #![trigger lookup_local(final(table)@, n)]
            lookup_local(final(table)@, n) is Some <==> lookup_local(old(table)@, n) is Some
                || defined_names(body@).contains(n),
{
    let mut i: usize = 0;
    proof {
        assert(body@.take(0) =~= Seq::empty());
    }
    while i < body.len()
        invariant
            i <= body@.len(),
            visible_in(*table) == defined_env(body@.take(i as int), visible_in(*old(table))),
            table@.len() == old(table)@.len(),
            table@.drop_first() == old(table)@.drop_first(),
            forall|n: Seq<char>|
                #![trigger lookup_local(table@, n)]
                lookup_local(table@, n) is Some <==> lookup_local(old(table)@, n) is Some
                    || defined_names(body@.take(i as int)).contains(n),
        decreases body.len() - i,
    {
        proof {
            let upto = body@.take(i + 1);
            assert(upto.drop_last() =~= body@.take(i as int));
            assert(upto.last() == body@[i as int]);
        }
        let ghost before = table@;
        let ghost names = defined_names(body@.take(i as int));
        match &body[i].node {
            Form::Define(DefForm::TopLevel { name, annot, .. }) => {
                let annotation = value_of_type(annot.clone());
                table.insert(name.value.clone(), annotation);
                proof {
                    lemma_bound_locally(before, name.value@, annotation);
                }
            },
            Form::Define(DefForm::Function { name, fun }) => {
                let annotation = value_of_type(Type::Function(fun.node.sig.clone()));
                table.insert(name.value.clone(), annotation);
                proof {
                    lemma_bound_locally(before, name.value@, annotation);
                }
            },
            _ => {},
        }
        proof {
            assert forall|n: Seq<char>| #![trigger lookup_local(table@, n)]
                lookup_local(table@, n) is Some <==> lookup_local(old(table)@, n) is Some
                    || defined_names(body@.take(i + 1)).contains(n) by {
                assert(lookup_local(before, n) is Some <==> lookup_local(old(table)@, n) is Some
                    || names.contains(n));
            }
        }
        i += 1;
    }
    proof {
        assert(body@.take(body@.len() as int) =~= body@);
    }
}

/// Resolves a module against the table of what is visible outside it.
///
/// The module gets a scope of its own, forked off the root table. The name
/// of every top-level definition is bound there before any top-level form is
/// resolved, so that a definition may refer to a later one. Every form is
/// then resolved in a walk from left to right, depth first: each construct
/// that introduces names forks the scope it stands in and binds the names in
/// the child, and every reference is checked against the scope it stands in.
///
/// Where the walk finds no problem, the result is the resolved module: the
/// same tree, each node annotated with the scope of its place. Where it
/// finds any, the result is the list of all of them, in the order of the
/// walk, and no tree.
pub fn resolve_module<'a, 'b>(
    module: &Annotated<'b, Module<'b, UnscopedState>, UnscopedState>,
    root: SymbolTable<'a>,
) -> (r: CompileResult<Annotated<'a, Module<'a, ScopedState>, ScopedState>>)
    ensures
        match r {
            Ok(resolved) => module_problems(module.node, visible_in(root)).len() == 0
                && resolved_module(*module, resolved, root@),
            Err(errs) => errs@.len() > 0 && error_models(errs@) == module_problems(
                module.node,
                visible_in(root),
            ),
        },
{
    let outside = Rc::new(root);
    let mut table = ForkTable::fork_shared(&outside);
    proof {
        lemma_fresh_fork(outside@);
    }
    declare_all(&mut table, &module.node.body);
    proof {
        assert forall|n: Seq<char>| #![trigger lookup_local(table@, n)]
            lookup_local(table@, n) is Some <==> defined_names(module.node.body@).contains(n) by {
            assert(lookup_local(forked(outside@), n) is None);
        }
    }
    let scope = Rc::new(table);
    let mut errs: Errors = Vec::new();
    let body = resolve_body(&module.node.body, &scope, &mut errs);
    proof {
        assert(error_models(Seq::<Positional<Problem>>::empty()) + module_problems(
            module.node,
            visible_in(root),
        ) =~= module_problems(module.node, visible_in(root)));
        assert(error_models(errs@).len() == errs@.len());
    }
    if errs.len() == 0 {
        let resolved = Module {
            name: module.node.name.clone(),
            exporting: clone_idents(&module.node.exporting),
            body,
        };
        Ok(Annotated::new(resolved, module.position).with_shared_scope(&scope))
    } else {
        Err(errs)
    }
}

/// Resolves an expression against the table of what is visible at its
/// place.
///
/// Where the walk finds no problem, the result is the resolved expression,
/// whose own scope is the given table. Where it finds any, the result is
/// the list of all of them, in the order of the walk, and no tree.
pub fn resolve_expression<'a, 'b>(
    e: &Annotated<'b, Form<'b, UnscopedState>, UnscopedState>,
    scope: SymbolTable<'a>,
) -> (r: CompileResult<Annotated<'a, Form<'a, ScopedState>, ScopedState>>)
    ensures
        match r {
            Ok(resolved) => expr_problems(*e, visible_in(scope)).len() == 0 && resolved_expr(
                *e,
                resolved,
                scope@,
            ) && resolved.scope.table() == Some(scope),
            Err(errs) => errs@.len() > 0 && error_models(errs@) == expr_problems(
                *e,
                visible_in(scope),
            ),
        },
{
    let shared = Rc::new(scope);
    let mut errs: Errors = Vec::new();
    let resolved = resolve_expr(e, &shared, &mut errs);
    proof {
        assert(error_models(Seq::<Positional<Problem>>::empty()) + expr_problems(
            *e,
            visible_in(scope),
        ) =~= expr_problems(*e, visible_in(scope)));
        assert(error_models(errs@).len() == errs@.len());
    }
    if errs.len() == 0 {
        Ok(resolved)
    } else {
        Err(errs)
    }
}

/// Whether `s` is the annotated definition `u`, resolved in the scope of
/// `chain`.
pub open spec fn resolved_definition<'a, 'b>(
    u: Annotated<'b, DefForm<'b, UnscopedState>, UnscopedState>,
    s: Annotated<'a, DefForm<'a, ScopedState>, ScopedState>,
    chain: Chain<'a>,
) -> bool {
    s.position == u.position && scoped_in(s, chain) && resolved_def(u.node, s.node, chain)
}

/// Resolves a definition against the table of what is visible at its place.
///
/// Where the walk finds no problem, the result is the resolved definition,
/// whose own scope is the given table. Where it finds any, the result is
/// the list of all of them, in the order of the walk, and no tree.
pub fn resolve_definition<'a, 'b>(
    d: &Annotated<'b, DefForm<'b, UnscopedState>, UnscopedState>,
    scope: SymbolTable<'a>,
) -> (r: CompileResult<Annotated<'a, DefForm<'a, ScopedState>, ScopedState>>)
    ensures
        match r {
            Ok(resolved) => def_problems(d.node, visible_in(scope)).len() == 0
                && resolved_definition(*d, resolved, scope@) && resolved.scope.table() == Some(
                scope,
            ),
            Err(errs) => errs@.len() > 0 && error_models(errs@) == def_problems(
                d.node,
                visible_in(scope),
            ),
        },
{
    let shared = Rc::new(scope);
    let mut errs: Errors = Vec::new();
    let resolved = resolve_def(&d.node, &shared, &mut errs);
    proof {
        assert(error_models(Seq::<Positional<Problem>>::empty()) + def_problems(
            d.node,
            visible_in(scope),
        ) =~= def_problems(d.node, visible_in(scope)));
        assert(error_models(errs@).len() == errs@.len());
    }
    if errs.len() == 0 {
        Ok(Annotated::new(resolved, d.position).with_shared_scope(&shared))
    } else {
        Err(errs)
    }
}

/// The nodes that can be resolved against a symbol table on their own.
///
/// Resolution checks the node and everything below it, and annotates each
/// node with its scope. It yields the annotated node, or all the problems
/// found, in the order of a walk from left to right, depth first.
pub trait AnnotateTypes<'a>: Sized {
    /// What the node is once it is resolved.
    type Annotation;

    /// The problems of the node where `env` is visible.
    spec fn problems_in(&self, env: Env<'a>) -> Seq<Positional<ProblemModel>>;

    /// Whether `r` is the node, resolved against `scope`.
    spec fn annotated_as(&self, r: Self::Annotation, scope: SymbolTable<'a>) -> bool;

    fn annotate_types(&self, scope: SymbolTable<'a>) -> (r: CompileResult<Self::Annotation>)
        ensures
            match r {
                Ok(resolved) => self.problems_in(visible_in(scope)).len() == 0
                    && self.annotated_as(resolved, scope),
                Err(errs) => errs@.len() > 0 && error_models(errs@) == self.problems_in(
                    visible_in(scope),
                ),
            },
    ;
}

impl<'a, 'b> AnnotateTypes<'a> for Annotated<'b, Form<'b, UnscopedState>, UnscopedState> {
    type Annotation = Annotated<'a, Form<'a, ScopedState>, ScopedState>;

    open spec fn problems_in(&self, env: Env<'a>) -> Seq<Positional<ProblemModel>> {
        expr_problems(*self, env)
    }

    open spec fn annotated_as(&self, r: Self::Annotation, scope: SymbolTable<'a>) -> bool {
        resolved_expr(*self, r, scope@) && r.scope.table() == Some(scope)
    }

    fn annotate_types(&self, scope: SymbolTable<'a>) -> (r: CompileResult<Self::Annotation>) {
        resolve_expression(self, scope)
    }
}

impl<'a, 'b> AnnotateTypes<'a> for Annotated<'b, DefForm<'b, UnscopedState>, UnscopedState> {
    type Annotation = Annotated<'a, DefForm<'a, ScopedState>, ScopedState>;

    open spec fn problems_in(&self, env: Env<'a>) -> Seq<Positional<ProblemModel>> {
        def_problems(self.node, env)
    }

    open spec fn annotated_as(&self, r: Self::Annotation, scope: SymbolTable<'a>) -> bool {
        resolved_definition(*self, r, scope@) && r.scope.table() == Some(scope)
    }

    fn annotate_types(&self, scope: SymbolTable<'a>) -> (r: CompileResult<Self::Annotation>) {
        resolve_definition(self, scope)
    }
}

impl<'a, 'b> AnnotateTypes<'a> for Annotated<'b, Module<'b, UnscopedState>, UnscopedState> {
    type Annotation = Annotated<'a, Module<'a, ScopedState>, ScopedState>;

    open spec fn problems_in(&self, env: Env<'a>) -> Seq<Positional<ProblemModel>> {
        module_problems(self.node, env)
    }

    open spec fn annotated_as(&self, r: Self::Annotation, scope: SymbolTable<'a>) -> bool {
        resolved_module(*self, r, scope@)
    }

    fn annotate_types(&self, scope: SymbolTable<'a>) -> (r: CompileResult<Self::Annotation>) {
        resolve_module(self, scope)
    }
}

} // verus!
