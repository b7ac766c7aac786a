//! Equality of syntax trees: two trees are equal iff they have the same
//! shape and hold the same names, types and literals. The positions of the
//! nodes and of the names, and the scopes of the nodes, take no part.
use vstd::prelude::*;
use crate::semantic::annotations::{Annotated, ScopednessTypestate};
use crate::semantic::ast::{
    operands, operator, pattern_model, patterns_equal, same_name_ref, same_pattern, AppForm,
    Binding, Class, Data, DefForm, Equation, Form, Formal, Function, Ident, Instance, LetForm,
    Logical, Module, NumBOp, NumExpr, Prototype, Variant,
};
use crate::semantic::types::{ident_models, ident_names};

verus! {

/// Whether two expressions hold the same form.
pub open spec fn same_expr<'a, S: ScopednessTypestate>(
    a: Annotated<'a, Form<'a, S>, S>,
    b: Annotated<'a, Form<'a, S>, S>,
) -> bool
    decreases a,
{
    same_form(a.node, b.node)
}

/// Whether two forms are of the same kind and hold the same parts.
pub open spec fn same_form<'a, S: ScopednessTypestate>(a: Form<'a, S>, b: Form<'a, S>) -> bool
    decreases a,
{
    match a {
        Form::Define(x) => b matches Form::Define(y) && same_def(x, y),
        Form::If { condition, if_clause, else_clause } => b matches Form::If {
            condition: c,
            if_clause: t,
            else_clause: e,
        } && same_expr(*condition, *c) && same_expr(*if_clause, *t) && match else_clause {
            Some(x) => e matches Some(y) && same_expr(*x, *y),
            None => e is None,
        },
        Form::Let(x) => b matches Form::Let(y) && same_let(x, y),
        Form::App(x) => b matches Form::App(y) && same_app(x, y),
        Form::Lambda(x) => b matches Form::Lambda(y) && same_function(x, y),
        Form::Logical(x) => b matches Form::Logical(y) && same_logical(x, y),
        Form::Num(x) => b matches Form::Num(y) && same_num(x, y),
        Form::Lit(x) => b matches Form::Lit(y) && x@ == y@,
        Form::NameRef(x) => b matches Form::NameRef(y) && same_name_ref(x@, y@),
    }
}

/// Whether two bodies hold the same expressions in the same order.
pub open spec fn same_body<'a, S: ScopednessTypestate>(
    a: Seq<Annotated<'a, Form<'a, S>, S>>,
    b: Seq<Annotated<'a, Form<'a, S>, S>>,
) -> bool
    decreases a,
{
    a.len() == b.len() && forall|i: int|
        #![trigger b[i]]
        0 <= i < a.len() ==> same_expr(a[i], b[i])
}

/// Whether two logical expressions are of the same kind over the same
/// operands.
pub open spec fn same_logical<'a, S: ScopednessTypestate>(
    a: Logical<'a, S>,
    b: Logical<'a, S>,
) -> bool
    decreases a,
{
    match a {
        Logical::And { a: x1, b: x2 } => b matches Logical::And { a: y1, b: y2 } && same_expr(
            *x1,
            *y1,
        ) && same_expr(*x2, *y2),
        Logical::Or { a: x1, b: x2 } => b matches Logical::Or { a: y1, b: y2 } && same_expr(
            *x1,
            *y1,
        ) && same_expr(*x2, *y2),
    }
}

/// Whether two definitions define the same name as the same thing.
pub open spec fn same_def<'a, S: ScopednessTypestate>(a: DefForm<'a, S>, b: DefForm<'a, S>) -> bool
    decreases a,
{
    match a {
        DefForm::TopLevel { name, annot, value } => b matches DefForm::TopLevel {
            name: n,
            annot: t,
            value: v,
        } && name.value@ == n.value@ && annot@ == t@ && same_expr(*value, *v),
        DefForm::Function { name, fun } => b matches DefForm::Function { name: n, fun: f }
            && name.value@ == n.value@ && same_function(fun.node, f.node),
    }
}

/// Whether two functions have the same signature and the same equations.
pub open spec fn same_function<'a, S: ScopednessTypestate>(
    a: Function<'a, S>,
    b: Function<'a, S>,
) -> bool
    decreases a,
{
    a.sig@ == b.sig@ && same_equations(a.equations@, b.equations@)
}

/// Whether two lists hold the same equations in the same order.
pub open spec fn same_equations<'a, S: ScopednessTypestate>(
    a: Seq<Annotated<'a, Equation<'a, S>, S>>,
    b: Seq<Annotated<'a, Equation<'a, S>, S>>,
) -> bool
    decreases a,
{
    a.len() == b.len() && forall|i: int|
        #![trigger b[i]]
        0 <= i < a.len() ==> same_equation(a[i].node, b[i].node)
}

/// Whether two equations have the same pattern and the same body.
pub open spec fn same_equation<'a, S: ScopednessTypestate>(
    a: Equation<'a, S>,
    b: Equation<'a, S>,
) -> bool
    decreases a,
{
    same_pattern(pattern_model(a.pattern@), pattern_model(b.pattern@)) && same_body(
        a.body@,
        b.body@,
    )
}

/// Whether two bindings bind the same name, of the same type, to the same
/// initializer.
pub open spec fn same_binding<'a, S: ScopednessTypestate>(
    a: Binding<'a, S>,
    b: Binding<'a, S>,
) -> bool
    decreases a,
{
    a.name.value@ == b.name.value@ && a.typ@ == b.typ@ && same_expr(*a.value, *b.value)
}

/// Whether two lists hold the same bindings in the same order.
pub open spec fn same_bindings<'a, S: ScopednessTypestate>(
    a: Seq<Annotated<'a, Binding<'a, S>, S>>,
    b: Seq<Annotated<'a, Binding<'a, S>, S>>,
) -> bool
    decreases a,
{
    a.len() == b.len() && forall|i: int|
        #![trigger b[i]]
        0 <= i < a.len() ==> same_binding(a[i].node, b[i].node)
}

/// Whether two `let` forms are of the same kind, with the same bindings and
/// the same body.
pub open spec fn same_let<'a, S: ScopednessTypestate>(a: LetForm<'a, S>, b: LetForm<'a, S>) -> bool
    decreases a,
{
    match a {
        LetForm::Let { bindings, body } => b matches LetForm::Let { bindings: bs, body: es }
            && same_bindings(bindings@, bs@) && same_body(body@, es@),
        LetForm::Invocation { proc_id, init, body } => b matches LetForm::Invocation {
            proc_id: p,
            init: i,
            body: es,
        } && proc_id.value@ == p.value@ && same_binding(init, i) && same_body(body@, es@),
        LetForm::LetRec { bindings, body } => b matches LetForm::LetRec { bindings: bs, body: es }
            && same_bindings(bindings@, bs@) && same_body(body@, es@),
        LetForm::LetSplat { bindings, body } => b matches LetForm::LetSplat {
            bindings: bs,
            body: es,
        } && same_bindings(bindings@, bs@) && same_body(body@, es@),
    }
}

/// Whether two applications apply the same function to the same parameters.
pub open spec fn same_app<'a, S: ScopednessTypestate>(a: AppForm<'a, S>, b: AppForm<'a, S>) -> bool
    decreases a,
{
    a.fun.value@ == b.fun.value@ && same_body(a.params@, b.params@)
}

/// Whether two numeric expressions are of the same kind and hold the same
/// parts.
pub open spec fn same_num<'a, S: ScopednessTypestate>(a: NumExpr<'a, S>, b: NumExpr<'a, S>) -> bool
    decreases a,
{
    match a {
        NumExpr::BOp(x) => b matches NumExpr::BOp(y) && operator(x) == operator(y) && same_nums(
            operands(x)@,
            operands(y)@,
        ),
        NumExpr::Neg(x) => b matches NumExpr::Neg(y) && same_num(*x, *y),
        NumExpr::Lit(x) => b matches NumExpr::Lit(y) && x@ == y@,
        NumExpr::Deref(x) => b matches NumExpr::Deref(y) && same_name_ref(x@, y@),
        NumExpr::Call(x) => b matches NumExpr::Call(y) && same_app(x, y),
    }
}

/// Whether two lists hold the same numeric expressions in the same order.
pub open spec fn same_nums<'a, S: ScopednessTypestate>(
    a: Seq<NumExpr<'a, S>>,
    b: Seq<NumExpr<'a, S>>,
) -> bool
    decreases a,
{
    a.len() == b.len() && forall|i: int| #![trigger b[i]] 0 <= i < a.len() ==> same_num(a[i], b[i])
}

/// Whether two operators are the same operator on the same operands.
pub open spec fn same_operation<'a, S: ScopednessTypestate>(
    a: NumBOp<'a, S>,
    b: NumBOp<'a, S>,
) -> bool {
    operator(a) == operator(b) && same_nums(operands(a)@, operands(b)@)
}

/// Whether two modules have the same name, export the same names and hold
/// the same forms.
pub open spec fn same_module<'a, S: ScopednessTypestate>(a: Module<'a, S>, b: Module<'a, S>) -> bool {
    a.name.value@ == b.name.value@ && ident_names(ident_models(a.exporting@)) == ident_names(
        ident_models(b.exporting@),
    ) && same_body(a.body@, b.body@)
}

/// Whether two expressions are equal.
pub fn exprs_equal<'a, S: ScopednessTypestate>(
    a: &Annotated<'a, Form<'a, S>, S>,
    b: &Annotated<'a, Form<'a, S>, S>,
) -> (r: bool)
    ensures
        r == same_expr(*a, *b),
    decreases a,
{
    forms_equal(&a.node, &b.node)
}

/// Whether two forms are equal.
pub fn forms_equal<'a, S: ScopednessTypestate>(a: &Form<'a, S>, b: &Form<'a, S>) -> (r: bool)
    ensures
        r == same_form(*a, *b),
    decreases a,
{
    match (a, b) {
        (Form::Define(x), Form::Define(y)) => defs_equal(x, y),
        (
            Form::If { condition: c1, if_clause: t1, else_clause: e1 },
            Form::If { condition: c2, if_clause: t2, else_clause: e2 },
        ) => {
            exprs_equal(&**c1, &**c2) && exprs_equal(&**t1, &**t2) && match (e1, e2) {
                (Some(x), Some(y)) => exprs_equal(&**x, &**y),
                (None, None) => true,
                _ => false,
            }
        },
        (Form::Let(x), Form::Let(y)) => lets_equal(x, y),
        (Form::App(x), Form::App(y)) => apps_equal(x, y),
        (Form::Lambda(x), Form::Lambda(y)) => functions_equal(x, y),
        (Form::Logical(x), Form::Logical(y)) => logicals_equal(x, y),
        (Form::Num(x), Form::Num(y)) => nums_equal(x, y),
        (Form::Lit(x), Form::Lit(y)) => *x == *y,
        (Form::NameRef(x), Form::NameRef(y)) => *x == *y,
        _ => false,
    }
}

/// Whether two bodies are equal.
pub fn bodies_equal<'a, S: ScopednessTypestate>(
    a: &Vec<Annotated<'a, Form<'a, S>, S>>,
    b: &Vec<Annotated<'a, Form<'a, S>, S>>,
) -> (r: bool)
    ensures
        r == same_body(a@, b@),
    decreases a,
{
    if a.len() != b.len() {
        return false;
    }
    let mut i: usize = 0;
    while i < a.len()
        invariant
            i <= a@.len(),
            a@.len() == b@.len(),
            forall|j: int| #![trigger b@[j]] 0 <= j < i ==> same_expr(a@[j], b@[j]),
        decreases a.len() - i,
    {
        if !exprs_equal(&a[i], &b[i]) {
            assert(!same_expr(a@[i as int], b@[i as int]));
            return false;
        }
        i += 1;
    }
    true
}

/// Whether two logical expressions are equal.
pub fn logicals_equal<'a, S: ScopednessTypestate>(a: &Logical<'a, S>, b: &Logical<'a, S>) -> (r:
    bool)
    ensures
        r == same_logical(*a, *b),
    decreases a,
{
    match (a, b) {
        (Logical::And { a: x1, b: x2 }, Logical::And { a: y1, b: y2 }) => {
            exprs_equal(&**x1, &**y1) && exprs_equal(&**x2, &**y2)
        },
        (Logical::Or { a: x1, b: x2 }, Logical::Or { a: y1, b: y2 }) => {
            exprs_equal(&**x1, &**y1) && exprs_equal(&**x2, &**y2)
        },
        _ => false,
    }
}

/// Whether two definitions are equal.
pub fn defs_equal<'a, S: ScopednessTypestate>(a: &DefForm<'a, S>, b: &DefForm<'a, S>) -> (r: bool)
    ensures
        r == same_def(*a, *b),
    decreases a,
{
    match (a, b) {
        (
            DefForm::TopLevel { name: n1, annot: t1, value: v1 },
            DefForm::TopLevel { name: n2, annot: t2, value: v2 },
        ) => n1.value == n2.value && *t1 == *t2 && exprs_equal(&**v1, &**v2),
        (DefForm::Function { name: n1, fun: f1 }, DefForm::Function { name: n2, fun: f2 }) => {
            n1.value == n2.value && functions_equal(&f1.node, &f2.node)
        },
        _ => false,
    }
}

/// Whether two functions are equal.
pub fn functions_equal<'a, S: ScopednessTypestate>(a: &Function<'a, S>, b: &Function<'a, S>) -> (r:
    bool)
    ensures
        r == same_function(*a, *b),
    decreases a,
{
    if !(a.sig == b.sig) {
        return false;
    }
    if a.equations.len() != b.equations.len() {
        return false;
    }
    let mut i: usize = 0;
    while i < a.equations.len()
        invariant
            i <= a.equations@.len(),
            a.equations@.len() == b.equations@.len(),
            forall|j: int|
                #![trigger b.equations@[j]]
                0 <= j < i ==> same_equation(a.equations@[j].node, b.equations@[j].node),
        decreases a.equations.len() - i,
    {
        if !equations_equal(&a.equations[i].node, &b.equations[i].node) {
            assert(!same_equation(a.equations@[i as int].node, b.equations@[i as int].node));
            return false;
        }
        i += 1;
    }
    true
}

/// Whether two equations are equal.
pub fn equations_equal<'a, S: ScopednessTypestate>(a: &Equation<'a, S>, b: &Equation<'a, S>) -> (r:
    bool)
    ensures
        r == same_equation(*a, *b),
    decreases a,
{
    patterns_equal(&a.pattern, &b.pattern) && bodies_equal(&a.body, &b.body)
}

/// Whether two bindings are equal.
pub fn bindings_equal<'a, S: ScopednessTypestate>(a: &Binding<'a, S>, b: &Binding<'a, S>) -> (r:
    bool)
    ensures
        r == same_binding(*a, *b),
    decreases a,
{
    a.name.value == b.name.value && a.typ == b.typ && exprs_equal(&*a.value, &*b.value)
}

/// Whether two lists of bindings are equal.
pub fn binding_lists_equal<'a, S: ScopednessTypestate>(
    a: &Vec<Annotated<'a, Binding<'a, S>, S>>,
    b: &Vec<Annotated<'a, Binding<'a, S>, S>>,
) -> (r: bool)
    ensures
        r == same_bindings(a@, b@),
    decreases a,
{
    if a.len() != b.len() {
        return false;
    }
    let mut i: usize = 0;
    while i < a.len()
        invariant
            i <= a@.len(),
            a@.len() == b@.len(),
            forall|j: int| #![trigger b@[j]] 0 <= j < i ==> same_binding(a@[j].node, b@[j].node),
        decreases a.len() - i,
    {
        if !bindings_equal(&a[i].node, &b[i].node) {
            assert(!same_binding(a@[i as int].node, b@[i as int].node));
            return false;
        }
        i += 1;
    }
    true
}

/// Whether two `let` forms are equal.
pub fn lets_equal<'a, S: ScopednessTypestate>(a: &LetForm<'a, S>, b: &LetForm<'a, S>) -> (r: bool)
    ensures
        r == same_let(*a, *b),
    decreases a,
{
    match (a, b) {
        (LetForm::Let { bindings: b1, body: e1 }, LetForm::Let { bindings: b2, body: e2 }) => {
            binding_lists_equal(b1, b2) && bodies_equal(e1, e2)
        },
        (
            LetForm::Invocation { proc_id: p1, init: i1, body: e1 },
            LetForm::Invocation { proc_id: p2, init: i2, body: e2 },
        ) => p1.value == p2.value && bindings_equal(i1, i2) && bodies_equal(e1, e2),
        (
            LetForm::LetRec { bindings: b1, body: e1 },
            LetForm::LetRec { bindings: b2, body: e2 },
        ) => binding_lists_equal(b1, b2) && bodies_equal(e1, e2),
        (
            LetForm::LetSplat { bindings: b1, body: e1 },
            LetForm::LetSplat { bindings: b2, body: e2 },
        ) => binding_lists_equal(b1, b2) && bodies_equal(e1, e2),
        _ => false,
    }
}

/// Whether two applications are equal.
pub fn apps_equal<'a, S: ScopednessTypestate>(a: &AppForm<'a, S>, b: &AppForm<'a, S>) -> (r: bool)
    ensures
        r == same_app(*a, *b),
    decreases a,
{
    a.fun.value == b.fun.value && bodies_equal(&a.params, &b.params)
}

/// The operands of a numeric operator.
fn operands_of<'b, 'a, S: ScopednessTypestate>(op: &'b NumBOp<'a, S>) -> (v: &'b Vec<NumExpr<'a, S>>)
    ensures
        *v == operands(*op),
{
    match op {
        NumBOp::Add(v) => v,
        NumBOp::Sub(v) => v,
        NumBOp::Mul(v) => v,
        NumBOp::Div(v) => v,
        NumBOp::BitAnd(v) => v,
        NumBOp::BitOr(v) => v,
        NumBOp::BitXor(v) => v,
        NumBOp::ShiftL(v) => v,
        NumBOp::ShiftR(v) => v,
    }
}

/// The place of a numeric operator among the operators.
fn operator_of<'a, S: ScopednessTypestate>(op: &NumBOp<'a, S>) -> (n: u8)
    ensures
        n == operator(*op),
{
    match op {
        NumBOp::Add(_) => 0,
        NumBOp::Sub(_) => 1,
        NumBOp::Mul(_) => 2,
        NumBOp::Div(_) => 3,
        NumBOp::BitAnd(_) => 4,
        NumBOp::BitOr(_) => 5,
        NumBOp::BitXor(_) => 6,
        NumBOp::ShiftL(_) => 7,
        NumBOp::ShiftR(_) => 8,
    }
}

/// Whether two numeric expressions are equal.
pub fn nums_equal<'a, S: ScopednessTypestate>(a: &NumExpr<'a, S>, b: &NumExpr<'a, S>) -> (r: bool)
    ensures
        r == same_num(*a, *b),
    decreases a,
{
    match (a, b) {
        (NumExpr::BOp(x), NumExpr::BOp(y)) => {
            operator_of(x) == operator_of(y) && num_lists_equal(operands_of(x), operands_of(y))
        },
        (NumExpr::Neg(x), NumExpr::Neg(y)) => nums_equal(&**x, &**y),
        (NumExpr::Lit(x), NumExpr::Lit(y)) => *x == *y,
        (NumExpr::Deref(x), NumExpr::Deref(y)) => *x == *y,
        (NumExpr::Call(x), NumExpr::Call(y)) => apps_equal(x, y),
        _ => false,
    }
}

/// Whether two lists of numeric expressions are equal.
pub fn num_lists_equal<'a, S: ScopednessTypestate>(
    a: &Vec<NumExpr<'a, S>>,
    b: &Vec<NumExpr<'a, S>>,
) -> (r: bool)
    ensures
        r == same_nums(a@, b@),
    decreases a,
{
    if a.len() != b.len() {
        return false;
    }
    let mut i: usize = 0;
    while i < a.len()
        invariant
            i <= a@.len(),
            a@.len() == b@.len(),
            forall|j: int| #![trigger b@[j]] 0 <= j < i ==> same_num(a@[j], b@[j]),
        decreases a.len() - i,
    {
        if !nums_equal(&a[i], &b[i]) {
            assert(!same_num(a@[i as int], b@[i as int]));
            return false;
        }
        i += 1;
    }
    true
}

/// Whether two lists of identifiers hold the same names in the same order.
fn names_equal(
    a: &Vec<crate::position::Positional<String>>,
    b: &Vec<crate::position::Positional<String>>,
) -> (r: bool)
    ensures
        r == (ident_names(ident_models(a@)) == ident_names(ident_models(b@))),
{
    let ghost x = ident_names(ident_models(a@));
    let ghost y = ident_names(ident_models(b@));
    if a.len() != b.len() {
        assert(x.len() != y.len());
        return false;
    }
    let mut i: usize = 0;
    while i < a.len()
        invariant
            i <= a@.len(),
            a@.len() == b@.len(),
            x == ident_names(ident_models(a@)),
            y == ident_names(ident_models(b@)),
            forall|j: int| 0 <= j < i ==> #[trigger] x[j] == y[j],
        decreases a.len() - i,
    {
        if !(a[i].value == b[i].value) {
            assert(x[i as int] != y[i as int]);
            return false;
        }
        i += 1;
    }
    assert(x =~= y);
    true
}

impl<'a, S: ScopednessTypestate> PartialEq for Form<'a, S> {
    fn eq(&self, other: &Form<'a, S>) -> (r: bool) {
        forms_equal(self, other)
    }
}

impl<'a, S: ScopednessTypestate> vstd::std_specs::cmp::PartialEqSpecImpl for Form<'a, S> {
    open spec fn obeys_eq_spec() -> bool {
        true
    }

    open spec fn eq_spec(&self, other: &Form<'a, S>) -> bool {
        same_form(*self, *other)
    }
}

impl<'a, S: ScopednessTypestate> PartialEq for DefForm<'a, S> {
    fn eq(&self, other: &DefForm<'a, S>) -> (r: bool) {
        defs_equal(self, other)
    }
}

impl<'a, S: ScopednessTypestate> vstd::std_specs::cmp::PartialEqSpecImpl for DefForm<'a, S> {
    open spec fn obeys_eq_spec() -> bool {
        true
    }

    open spec fn eq_spec(&self, other: &DefForm<'a, S>) -> bool {
        same_def(*self, *other)
    }
}

impl<'a, S: ScopednessTypestate> PartialEq for LetForm<'a, S> {
    fn eq(&self, other: &LetForm<'a, S>) -> (r: bool) {
        lets_equal(self, other)
    }
}

impl<'a, S: ScopednessTypestate> vstd::std_specs::cmp::PartialEqSpecImpl for LetForm<'a, S> {
    open spec fn obeys_eq_spec() -> bool {
        true
    }

    open spec fn eq_spec(&self, other: &LetForm<'a, S>) -> bool {
        same_let(*self, *other)
    }
}

impl<'a, S: ScopednessTypestate> PartialEq for AppForm<'a, S> {
    fn eq(&self, other: &AppForm<'a, S>) -> (r: bool) {
        apps_equal(self, other)
    }
}

impl<'a, S: ScopednessTypestate> vstd::std_specs::cmp::PartialEqSpecImpl for AppForm<'a, S> {
    open spec fn obeys_eq_spec() -> bool {
        true
    }

    open spec fn eq_spec(&self, other: &AppForm<'a, S>) -> bool {
        same_app(*self, *other)
    }
}

impl<'a, S: ScopednessTypestate> PartialEq for Function<'a, S> {
    fn eq(&self, other: &Function<'a, S>) -> (r: bool) {
        functions_equal(self, other)
    }
}

impl<'a, S: ScopednessTypestate> vstd::std_specs::cmp::PartialEqSpecImpl for Function<'a, S> {
    open spec fn obeys_eq_spec() -> bool {
        true
    }

    open spec fn eq_spec(&self, other: &Function<'a, S>) -> bool {
        same_function(*self, *other)
    }
}

impl<'a, S: ScopednessTypestate> PartialEq for Equation<'a, S> {
    fn eq(&self, other: &Equation<'a, S>) -> (r: bool) {
        equations_equal(self, other)
    }
}

impl<'a, S: ScopednessTypestate> vstd::std_specs::cmp::PartialEqSpecImpl for Equation<'a, S> {
    open spec fn obeys_eq_spec() -> bool {
        true
    }

    open spec fn eq_spec(&self, other: &Equation<'a, S>) -> bool {
        same_equation(*self, *other)
    }
}

impl<'a, S: ScopednessTypestate> PartialEq for Binding<'a, S> {
    fn eq(&self, other: &Binding<'a, S>) -> (r: bool) {
        bindings_equal(self, other)
    }
}

impl<'a, S: ScopednessTypestate> vstd::std_specs::cmp::PartialEqSpecImpl for Binding<'a, S> {
    open spec fn obeys_eq_spec() -> bool {
        true
    }

    open spec fn eq_spec(&self, other: &Binding<'a, S>) -> bool {
        same_binding(*self, *other)
    }
}

impl<'a, S: ScopednessTypestate> PartialEq for Logical<'a, S> {
    fn eq(&self, other: &Logical<'a, S>) -> (r: bool) {
        logicals_equal(self, other)
    }
}

impl<'a, S: ScopednessTypestate> vstd::std_specs::cmp::PartialEqSpecImpl for Logical<'a, S> {
    open spec fn obeys_eq_spec() -> bool {
        true
    }

    open spec fn eq_spec(&self, other: &Logical<'a, S>) -> bool {
        same_logical(*self, *other)
    }
}

impl<'a, S: ScopednessTypestate> PartialEq for NumExpr<'a, S> {
    fn eq(&self, other: &NumExpr<'a, S>) -> (r: bool) {
        nums_equal(self, other)
    }
}

impl<'a, S: ScopednessTypestate> vstd::std_specs::cmp::PartialEqSpecImpl for NumExpr<'a, S> {
    open spec fn obeys_eq_spec() -> bool {
        true
    }

    open spec fn eq_spec(&self, other: &NumExpr<'a, S>) -> bool {
        same_num(*self, *other)
    }
}

impl<'a, S: ScopednessTypestate> PartialEq for NumBOp<'a, S> {
    fn eq(&self, other: &NumBOp<'a, S>) -> (r: bool) {
        operator_of(self) == operator_of(other) && num_lists_equal(
            operands_of(self),
            operands_of(other),
        )
    }
}

impl<'a, S: ScopednessTypestate> vstd::std_specs::cmp::PartialEqSpecImpl for NumBOp<'a, S> {
    open spec fn obeys_eq_spec() -> bool {
        true
    }

    open spec fn eq_spec(&self, other: &NumBOp<'a, S>) -> bool {
        same_operation(*self, *other)
    }
}

impl<'a, S: ScopednessTypestate> PartialEq for Module<'a, S> {
    fn eq(&self, other: &Module<'a, S>) -> (r: bool) {
        self.name.value == other.name.value && names_equal(&self.exporting, &other.exporting)
            && bodies_equal(&self.body, &other.body)
    }
}

impl<'a, S: ScopednessTypestate> vstd::std_specs::cmp::PartialEqSpecImpl for Module<'a, S> {
    open spec fn obeys_eq_spec() -> bool {
        true
    }

    open spec fn eq_spec(&self, other: &Module<'a, S>) -> bool {
        same_module(*self, *other)
    }
}

/// Whether two lists hold formal parameters of the same names and type
/// names in the same order.
pub open spec fn same_formals<'a, S: ScopednessTypestate>(
    a: Seq<Annotated<'a, Formal, S>>,
    b: Seq<Annotated<'a, Formal, S>>,
) -> bool {
    a.len() == b.len() && forall|i: int|
        #![trigger b[i]]
        0 <= i < a.len() ==> a[i].node.name.value@ == b[i].node.name.value@
            && a[i].node.annot.value@ == b[i].node.annot.value@
}

/// Whether two prototypes have the same formal parameters and the same type
/// name.
pub open spec fn same_prototype<'a, S: ScopednessTypestate>(
    a: Prototype<'a, S>,
    b: Prototype<'a, S>,
) -> bool {
    same_formals(a.formals@, b.formals@) && a.annot.value@ == b.annot.value@
}

/// Whether two lists hold the same prototypes in the same order.
pub open spec fn same_prototypes<'a, S: ScopednessTypestate>(
    a: Seq<Prototype<'a, S>>,
    b: Seq<Prototype<'a, S>>,
) -> bool {
    a.len() == b.len() && forall|i: int|
        #![trigger b[i]]
        0 <= i < a.len() ==> same_prototype(a[i], b[i])
}

/// Whether two lists hold the same functions in the same order.
pub open spec fn same_functions<'a, S: ScopednessTypestate>(
    a: Seq<Function<'a, S>>,
    b: Seq<Function<'a, S>>,
) -> bool {
    a.len() == b.len() && forall|i: int|
        #![trigger b[i]]
        0 <= i < a.len() ==> same_function(a[i], b[i])
}

/// Whether two variants are of the same kind and hold the same parts.
pub open spec fn same_variant<'a, S: ScopednessTypestate>(a: Variant<'a, S>, b: Variant<'a, S>) -> bool
    decreases a,
{
    match a {
        Variant::Tagword(x) => b matches Variant::Tagword(y) && x.value@ == y.value@,
        Variant::Constant(x) => b matches Variant::Constant(y) && x@ == y@,
        Variant::Record(x) => b matches Variant::Record(y) && same_formals(x@, y@),
        Variant::Value(x) => b matches Variant::Value(y) && x@ == y@,
        Variant::Sum(x) => b matches Variant::Sum(y) && same_variants(x@, y@),
    }
}

/// Whether two lists hold the same variants under the same names in the
/// same order.
pub open spec fn same_variants<'a, S: ScopednessTypestate>(
    a: Seq<(Ident, Variant<'a, S>)>,
    b: Seq<(Ident, Variant<'a, S>)>,
) -> bool
    decreases a,
{
    a.len() == b.len() && forall|i: int|
        #![trigger b[i]]
        0 <= i < a.len() ==> a[i].0.value@ == b[i].0.value@ && same_variant(a[i].1, b[i].1)
}

/// Whether two lists of formal parameters are equal.
pub fn formals_equal<'a, S: ScopednessTypestate>(
    a: &Vec<Annotated<'a, Formal, S>>,
    b: &Vec<Annotated<'a, Formal, S>>,
) -> (r: bool)
    ensures
        r == same_formals(a@, b@),
{
    if a.len() != b.len() {
        return false;
    }
    let mut i: usize = 0;
    while i < a.len()
        invariant
            i <= a@.len(),
            a@.len() == b@.len(),
            forall|j: int|
                #![trigger b@[j]]
                0 <= j < i ==> a@[j].node.name.value@ == b@[j].node.name.value@
                    && a@[j].node.annot.value@ == b@[j].node.annot.value@,
        decreases a.len() - i,
    {
        if !(a[i].node == b[i].node) {
            assert(!(a@[i as int].node.name.value@ == b@[i as int].node.name.value@
                && a@[i as int].node.annot.value@ == b@[i as int].node.annot.value@));
            return false;
        }
        i += 1;
    }
    true
}

/// Whether two prototypes are equal.
pub fn prototypes_equal<'a, S: ScopednessTypestate>(a: &Prototype<'a, S>, b: &Prototype<'a, S>) -> (r:
    bool)
    ensures
        r == same_prototype(*a, *b),
{
    formals_equal(&a.formals, &b.formals) && a.annot.value == b.annot.value
}

/// Whether two variants are equal.
pub fn variants_equal<'a, S: ScopednessTypestate>(a: &Variant<'a, S>, b: &Variant<'a, S>) -> (r:
    bool)
    ensures
        r == same_variant(*a, *b),
    decreases a,
{
    match (a, b) {
        (Variant::Tagword(x), Variant::Tagword(y)) => x.value == y.value,
        (Variant::Constant(x), Variant::Constant(y)) => *x == *y,
        (Variant::Record(x), Variant::Record(y)) => formals_equal(x, y),
        (Variant::Value(x), Variant::Value(y)) => *x == *y,
        (Variant::Sum(x), Variant::Sum(y)) => variant_lists_equal(x, y),
        _ => false,
    }
}

/// Whether two lists of named variants are equal.
pub fn variant_lists_equal<'a, S: ScopednessTypestate>(
    a: &Vec<(Ident, Variant<'a, S>)>,
    b: &Vec<(Ident, Variant<'a, S>)>,
) -> (r: bool)
    ensures
        r == same_variants(a@, b@),
    decreases a,
{
    if a.len() != b.len() {
        return false;
    }
    let mut i: usize = 0;
    while i < a.len()
        invariant
            i <= a@.len(),
            a@.len() == b@.len(),
            forall|j: int|
                #![trigger b@[j]]
                0 <= j < i ==> a@[j].0.value@ == b@[j].0.value@ && same_variant(a@[j].1, b@[j].1),
        decreases a.len() - i,
    {
        if !(a[i].0.value == b[i].0.value && variants_equal(&a[i].1, &b[i].1)) {
            assert(!(a@[i as int].0.value@ == b@[i as int].0.value@ && same_variant(
                a@[i as int].1,
                b@[i as int].1,
            )));
            return false;
        }
        i += 1;
    }
    true
}

impl<'a, S: ScopednessTypestate> PartialEq for Prototype<'a, S> {
    fn eq(&self, other: &Prototype<'a, S>) -> (r: bool) {
        prototypes_equal(self, other)
    }
}

impl<'a, S: ScopednessTypestate> vstd::std_specs::cmp::PartialEqSpecImpl for Prototype<'a, S> {
    open spec fn obeys_eq_spec() -> bool {
        true
    }

    open spec fn eq_spec(&self, other: &Prototype<'a, S>) -> bool {
        same_prototype(*self, *other)
    }
}

impl<'a, S: ScopednessTypestate> PartialEq for Class<'a, S> {
    fn eq(&self, other: &Class<'a, S>) -> (r: bool) {
        if !(self.name.value == other.name.value && self.ty_param.value == other.ty_param.value) {
            return false;
        }
        if self.defs.len() != other.defs.len() {
            return false;
        }
        let mut i: usize = 0;
        while i < self.defs.len()
            invariant
                i <= self.defs@.len(),
                self.defs@.len() == other.defs@.len(),
                forall|j: int|
                    #![trigger other.defs@[j]]
                    0 <= j < i ==> same_prototype(self.defs@[j], other.defs@[j]),
            decreases self.defs.len() - i,
        {
            if !prototypes_equal(&self.defs[i], &other.defs[i]) {
                assert(!same_prototype(self.defs@[i as int], other.defs@[i as int]));
                return false;
            }
            i += 1;
        }
        true
    }
}

impl<'a, S: ScopednessTypestate> vstd::std_specs::cmp::PartialEqSpecImpl for Class<'a, S> {
    open spec fn obeys_eq_spec() -> bool {
        true
    }

    open spec fn eq_spec(&self, other: &Class<'a, S>) -> bool {
        self.name.value@ == other.name.value@ && self.ty_param.value@ == other.ty_param.value@
            && same_prototypes(self.defs@, other.defs@)
    }
}

impl<'a, S: ScopednessTypestate> PartialEq for Instance<'a, S> {
    fn eq(&self, other: &Instance<'a, S>) -> (r: bool) {
        if !(self.class.value == other.class.value && self.ty == other.ty) {
            return false;
        }
        if self.functions.len() != other.functions.len() {
            return false;
        }
        let mut i: usize = 0;
        while i < self.functions.len()
            invariant
                i <= self.functions@.len(),
                self.functions@.len() == other.functions@.len(),
                forall|j: int|
                    #![trigger other.functions@[j]]
                    0 <= j < i ==> same_function(self.functions@[j], other.functions@[j]),
            decreases self.functions.len() - i,
        {
            if !functions_equal(&self.functions[i], &other.functions[i]) {
                assert(!same_function(self.functions@[i as int], other.functions@[i as int]));
                return false;
            }
            i += 1;
        }
        true
    }
}

impl<'a, S: ScopednessTypestate> vstd::std_specs::cmp::PartialEqSpecImpl for Instance<'a, S> {
    open spec fn obeys_eq_spec() -> bool {
        true
    }

    open spec fn eq_spec(&self, other: &Instance<'a, S>) -> bool {
        self.class.value@ == other.class.value@ && self.ty@ == other.ty@ && same_functions(
            self.functions@,
            other.functions@,
        )
    }
}

impl<'a, S: ScopednessTypestate> PartialEq for Variant<'a, S> {
    fn eq(&self, other: &Variant<'a, S>) -> (r: bool) {
        variants_equal(self, other)
    }
}

impl<'a, S: ScopednessTypestate> vstd::std_specs::cmp::PartialEqSpecImpl for Variant<'a, S> {
    open spec fn obeys_eq_spec() -> bool {
        true
    }

    open spec fn eq_spec(&self, other: &Variant<'a, S>) -> bool {
        same_variant(*self, *other)
    }
}

impl<'a, S: ScopednessTypestate> PartialEq for Data<'a, S> {
    fn eq(&self, other: &Data<'a, S>) -> (r: bool) {
        self.name.value == other.name.value && variant_lists_equal(
            &self.variants,
            &other.variants,
        )
    }
}

impl<'a, S: ScopednessTypestate> vstd::std_specs::cmp::PartialEqSpecImpl for Data<'a, S> {
    open spec fn obeys_eq_spec() -> bool {
        true
    }

    open spec fn eq_spec(&self, other: &Data<'a, S>) -> bool {
        self.name.value@ == other.name.value@ && same_variants(self.variants@, other.variants@)
    }
}

} // verus!
