//! What syntax trees stand for in specifications: trees of the same shape
//! over sequences and texts, without the scopes.
use vstd::prelude::*;
use crate::position::{Position, Positional};
use crate::semantic::annotations::{Annotated, ScopednessTypestate};
use crate::semantic::ast::{
    operands, operator, pattern_model, AppForm, Binding, DefForm, Equation, Form, Function,
    LetForm, LiteralModel, Logical, NameRefModel, NumExpr, PatElementModel,
};
use crate::semantic::types::{SignatureModel, TypeModel};

verus! {

/// What an expression stands for: a form at a position.
pub struct ExprModel {
    pub position: Position,
    pub form: FormModel,
}

/// What a form stands for.
pub enum FormModel {
    Define(DefModel),
    If { condition: Box<ExprModel>, if_clause: Box<ExprModel>, else_clause: Option<Box<ExprModel>> },
    Let(LetModel),
    App(AppModel),
    Lambda(FunctionModel),
    And { a: Box<ExprModel>, b: Box<ExprModel> },
    Or { a: Box<ExprModel>, b: Box<ExprModel> },
    Num(NumModel),
    Lit(LiteralModel),
    NameRef(NameRefModel),
}

/// What a definition stands for.
pub enum DefModel {
    TopLevel { name: Positional<Seq<char>>, annot: TypeModel, value: Box<ExprModel> },
    Function { name: Positional<Seq<char>>, position: Position, fun: FunctionModel },
}

/// What a function stands for.
pub struct FunctionModel {
    pub sig: SignatureModel,
    pub equations: Seq<EquationModel>,
}

/// What an annotated equation stands for.
pub struct EquationModel {
    pub position: Position,
    pub pattern: Seq<PatElementModel>,
    pub body: Seq<ExprModel>,
}

/// What a binding stands for.
pub struct BindingModel {
    pub name: Positional<Seq<char>>,
    pub typ: TypeModel,
    pub value: Box<ExprModel>,
}

/// What an annotated binding stands for.
pub struct PlacedBindingModel {
    pub position: Position,
    pub binding: BindingModel,
}

/// What a `let` form stands for.
pub enum LetModel {
    Let { bindings: Seq<PlacedBindingModel>, body: Seq<ExprModel> },
    Invocation { proc_id: Positional<Seq<char>>, init: BindingModel, body: Seq<ExprModel> },
    LetRec { bindings: Seq<PlacedBindingModel>, body: Seq<ExprModel> },
    LetSplat { bindings: Seq<PlacedBindingModel>, body: Seq<ExprModel> },
}

/// What a function application stands for.
pub struct AppModel {
    pub fun: Positional<Seq<char>>,
    pub params: Seq<ExprModel>,
}

/// What a numeric expression stands for.
pub enum NumModel {
    BOp { operator: nat, operands: Seq<NumModel> },
    Neg(Box<NumModel>),
    Lit(LiteralModel),
    Deref(NameRefModel),
    Call(AppModel),
}

/// The model of an expression.
pub open spec fn expr_model<'a, S: ScopednessTypestate>(e: Annotated<'a, Form<'a, S>, S>) -> ExprModel
    decreases e,
{
    ExprModel { position: e.position, form: form_model(e.node) }
}

/// The model of a form.
pub open spec fn form_model<'a, S: ScopednessTypestate>(f: Form<'a, S>) -> FormModel
    decreases f,
{
    match f {
        Form::Define(d) => FormModel::Define(def_model(d)),
        Form::If { condition, if_clause, else_clause } => FormModel::If {
            condition: Box::new(expr_model(*condition)),
            if_clause: Box::new(expr_model(*if_clause)),
            else_clause: match else_clause {
                Some(e) => Some(Box::new(expr_model(*e))),
                None => None,
            },
        },
        Form::Let(l) => FormModel::Let(let_model(l)),
        Form::App(a) => FormModel::App(app_model(a)),
        Form::Lambda(fun) => FormModel::Lambda(function_model(fun)),
        Form::Logical(l) => match l {
            Logical::And { a, b } => FormModel::And {
                a: Box::new(expr_model(*a)),
                b: Box::new(expr_model(*b)),
            },
            Logical::Or { a, b } => FormModel::Or {
                a: Box::new(expr_model(*a)),
                b: Box::new(expr_model(*b)),
            },
        },
        Form::Num(n) => FormModel::Num(num_model(n)),
        Form::Lit(l) => FormModel::Lit(l@),
        Form::NameRef(r) => FormModel::NameRef(r@),
    }
}

/// The models of the expressions of a body.
pub open spec fn body_model<'a, S: ScopednessTypestate>(
    body: Seq<Annotated<'a, Form<'a, S>, S>>,
) -> Seq<ExprModel>
    decreases body,
{
    if body.len() == 0 {
        Seq::empty()
    } else {
        body_model(body.drop_last()).push(expr_model(body.last()))
    }
}

/// The model of a definition.
pub open spec fn def_model<'a, S: ScopednessTypestate>(d: DefForm<'a, S>) -> DefModel
    decreases d,
{
    match d {
        DefForm::TopLevel { name, annot, value } => DefModel::TopLevel {
            name: name@,
            annot: annot@,
            value: Box::new(expr_model(*value)),
        },
        DefForm::Function { name, fun } => DefModel::Function {
            name: name@,
            position: fun.position,
            fun: function_model(fun.node),
        },
    }
}

/// The model of a function.
pub open spec fn function_model<'a, S: ScopednessTypestate>(fun: Function<'a, S>) -> FunctionModel
    decreases fun,
{
    FunctionModel { sig: fun.sig@, equations: equations_model(fun.equations@) }
}

/// The models of the equations of a function.
pub open spec fn equations_model<'a, S: ScopednessTypestate>(
    equations: Seq<Annotated<'a, Equation<'a, S>, S>>,
) -> Seq<EquationModel>
    decreases equations,
{
    if equations.len() == 0 {
        Seq::empty()
    } else {
        equations_model(equations.drop_last()).push(equation_model(equations.last()))
    }
}

/// The model of an annotated equation.
pub open spec fn equation_model<'a, S: ScopednessTypestate>(
    equation: Annotated<'a, Equation<'a, S>, S>,
) -> EquationModel
    decreases equation,
{
    EquationModel {
        position: equation.position,
        pattern: pattern_model(equation.node.pattern@),
        body: body_model(equation.node.body@),
    }
}

/// The model of a binding.
pub open spec fn binding_model<'a, S: ScopednessTypestate>(b: Binding<'a, S>) -> BindingModel
    decreases b,
{
    BindingModel { name: b.name@, typ: b.typ@, value: Box::new(expr_model(*b.value)) }
}

/// The models of the annotated bindings of a `let` form.
pub open spec fn bindings_model<'a, S: ScopednessTypestate>(
    bindings: Seq<Annotated<'a, Binding<'a, S>, S>>,
) -> Seq<PlacedBindingModel>
    decreases bindings,
{
    if bindings.len() == 0 {
        Seq::empty()
    } else {
        bindings_model(bindings.drop_last()).push(
            PlacedBindingModel {
                position: bindings.last().position,
                binding: binding_model(bindings.last().node),
            },
        )
    }
}

/// The model of a `let` form.
pub open spec fn let_model<'a, S: ScopednessTypestate>(l: LetForm<'a, S>) -> LetModel
    decreases l,
{
    match l {
        LetForm::Let { bindings, body } => LetModel::Let {
            bindings: bindings_model(bindings@),
            body: body_model(body@),
        },
        LetForm::Invocation { proc_id, init, body } => LetModel::Invocation {
            proc_id: proc_id@,
            init: binding_model(init),
            body: body_model(body@),
        },
        LetForm::LetRec { bindings, body } => LetModel::LetRec {
            bindings: bindings_model(bindings@),
            body: body_model(body@),
        },
        LetForm::LetSplat { bindings, body } => LetModel::LetSplat {
            bindings: bindings_model(bindings@),
            body: body_model(body@),
        },
    }
}

/// The model of a function application.
pub open spec fn app_model<'a, S: ScopednessTypestate>(a: AppForm<'a, S>) -> AppModel
    decreases a,
{
    AppModel { fun: a.fun@, params: body_model(a.params@) }
}

/// The model of a numeric expression.
pub open spec fn num_model<'a, S: ScopednessTypestate>(n: NumExpr<'a, S>) -> NumModel
    decreases n,
{
    match n {
        NumExpr::BOp(op) => NumModel::BOp {
            operator: operator(op),
            operands: nums_model(operands(op)@),
        },
        NumExpr::Neg(inner) => NumModel::Neg(Box::new(num_model(*inner))),
        NumExpr::Lit(l) => NumModel::Lit(l@),
        NumExpr::Deref(r) => NumModel::Deref(r@),
        NumExpr::Call(a) => NumModel::Call(app_model(a)),
    }
}

/// The models of the numeric expressions of a list.
pub open spec fn nums_model<'a, S: ScopednessTypestate>(nums: Seq<NumExpr<'a, S>>) -> Seq<NumModel>
    decreases nums,
{
    if nums.len() == 0 {
        Seq::empty()
    } else {
        nums_model(nums.drop_last()).push(num_model(nums.last()))
    }
}

/// The models of a body, element by element.
pub proof fn lemma_body_model<'a, S: ScopednessTypestate>(body: Seq<Annotated<'a, Form<'a, S>, S>>)
    ensures
        body_model(body).len() == body.len(),
        forall|i: int| 0 <= i < body.len() ==> #[trigger] body_model(body)[i] == expr_model(body[i]),
    decreases body.len(),
{
    if body.len() > 0 {
        lemma_body_model(body.drop_last());
    }
}

/// The model of a body with one more expression.
pub proof fn lemma_body_model_push<'a, S: ScopednessTypestate>(
    body: Seq<Annotated<'a, Form<'a, S>, S>>,
    e: Annotated<'a, Form<'a, S>, S>,
)
    ensures
        body_model(body.push(e)) == body_model(body).push(expr_model(e)),
{
    assert(body.push(e).drop_last() =~= body);
}

/// The models of the equations with one more equation.
pub proof fn lemma_equations_model_push<'a, S: ScopednessTypestate>(
    equations: Seq<Annotated<'a, Equation<'a, S>, S>>,
    e: Annotated<'a, Equation<'a, S>, S>,
)
    ensures
        equations_model(equations.push(e)) == equations_model(equations).push(equation_model(e)),
{
    assert(equations.push(e).drop_last() =~= equations);
}

/// The models of the bindings with one more binding.
pub proof fn lemma_bindings_model_push<'a, S: ScopednessTypestate>(
    bindings: Seq<Annotated<'a, Binding<'a, S>, S>>,
    b: Annotated<'a, Binding<'a, S>, S>,
)
    ensures
        bindings_model(bindings.push(b)) == bindings_model(bindings).push(
            PlacedBindingModel { position: b.position, binding: binding_model(b.node) },
        ),
{
    assert(bindings.push(b).drop_last() =~= bindings);
}

/// The models of the equations are as many as the equations.
pub proof fn lemma_equations_model_len<'a, S: ScopednessTypestate>(
    equations: Seq<Annotated<'a, Equation<'a, S>, S>>,
)
    ensures
        equations_model(equations).len() == equations.len(),
    decreases equations.len(),
{
    if equations.len() > 0 {
        lemma_equations_model_len(equations.drop_last());
    }
}

} // verus!
