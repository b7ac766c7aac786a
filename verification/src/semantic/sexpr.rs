//! Pretty-printing of syntax trees as S-expressions.
//!
//! The text is the desugared form of a tree and may not be a perfect match
//! for the source it was parsed from.
use vstd::prelude::*;
use vstd::string::StringExecFns;
use crate::chars;
use crate::position::Positional;
use crate::semantic::annotations::{Annotated, ScopednessTypestate};
use crate::semantic::ast::{
    operands, pattern_model, AppForm, Binding, DefForm, Equation, Form, Formal, Function, LetForm,
    Literal, LiteralModel, Logical, NameRef, NameRefModel, NumBOp, NumExpr, PatElement,
    PatElementModel,
};
use crate::semantic::types::{signature_text, type_text, Signature};
use crate::text::{append_digits, decimal, decimal_string, digits, join, joined, views};

verus! {

/// The indentation of a level: one tab for each level.
pub open spec fn indent(level: nat) -> Seq<char> {
    Seq::new(level, |i: int| '\t')
}

/// The level below `level`. Levels stop growing at the largest number.
pub open spec fn deeper(level: usize) -> usize {
    if level < usize::MAX {
        (level + 1) as usize
    } else {
        level
    }
}

/// The text of a literal: a number in decimal, a string as it is.
pub open spec fn literal_text(l: LiteralModel) -> Seq<char> {
    match l {
        LiteralModel::IntConst(n) => decimal(n as int),
        LiteralModel::UintConst(n) => digits(n as nat),
        LiteralModel::StringLit(s) => s,
    }
}

/// The text of a reference to a name: the name, after the sign of how it is
/// taken.
pub open spec fn name_ref_text(r: NameRefModel) -> Seq<char> {
    match r {
        NameRefModel::Owned(id) => id.value,
        NameRefModel::Borrowed(id) => "&"@ + id.value,
        NameRefModel::Deref(id) => "$"@ + id.value,
        NameRefModel::Unique(id) => "@"@ + id.value,
    }
}

/// The text of an element of a pattern.
pub open spec fn pat_element_text(p: PatElementModel) -> Seq<char> {
    match p {
        PatElementModel::Name(id) => id.value,
        PatElementModel::Typed { name, ty } => name.value + ": "@ + type_text(ty),
        PatElementModel::Lit(l) => literal_text(l),
        PatElementModel::Anything => "_"@,
    }
}

/// The text of a pattern: its elements between parentheses.
pub open spec fn pattern_text(p: Seq<PatElementModel>) -> Seq<char> {
    "("@ + joined(Seq::new(p.len(), |i: int| pat_element_text(p[i])), " "@) + ")"@
}

/// The sign of a numeric operator.
pub open spec fn operator_text<'a, S: ScopednessTypestate>(op: NumBOp<'a, S>) -> Seq<char> {
    match op {
        NumBOp::Add(_) => "+"@,
        NumBOp::Sub(_) => "-"@,
        NumBOp::Mul(_) => "*"@,
        NumBOp::Div(_) => "/"@,
        NumBOp::BitAnd(_) => "&"@,
        NumBOp::BitOr(_) => "|"@,
        NumBOp::BitXor(_) => "^"@,
        NumBOp::ShiftL(_) => "<<"@,
        NumBOp::ShiftR(_) => ">>"@,
    }
}

/// The S-expression of an expression at an indentation level.
pub open spec fn expr_sexpr<'a, S: ScopednessTypestate>(
    e: Annotated<'a, Form<'a, S>, S>,
    level: usize,
) -> Seq<char>
    decreases e,
{
    form_sexpr(e.node, level)
}

/// The S-expression of a form at an indentation level.
pub open spec fn form_sexpr<'a, S: ScopednessTypestate>(f: Form<'a, S>, level: usize) -> Seq<char>
    decreases f,
{
    match f {
        Form::Define(d) => def_sexpr(d, level),
        Form::If { condition, if_clause, else_clause } => "(if "@ + expr_sexpr(*condition, level)
            + " "@ + expr_sexpr(*if_clause, level) + match else_clause {
            Some(e) => " "@ + expr_sexpr(*e, level),
            None => Seq::empty(),
        } + ")"@,
        Form::Let(l) => let_sexpr(l, level),
        Form::App(a) => app_sexpr(a, level),
        Form::Lambda(fun) => function_sexpr(fun, level),
        Form::Logical(l) => match l {
            Logical::And { a, b } => "(and "@ + expr_sexpr(*a, level) + " "@ + expr_sexpr(
                *b,
                level,
            ) + ")"@,
            Logical::Or { a, b } => "(or "@ + expr_sexpr(*a, level) + " "@ + expr_sexpr(*b, level)
                + ")"@,
        },
        Form::Num(n) => num_sexpr(n, level),
        Form::Lit(l) => literal_text(l@),
        Form::NameRef(r) => name_ref_text(r@),
    }
}

/// The S-expressions of the expressions of a body.
pub open spec fn body_sexprs<'a, S: ScopednessTypestate>(
    body: Seq<Annotated<'a, Form<'a, S>, S>>,
    level: usize,
) -> Seq<Seq<char>>
    decreases body,
{
    if body.len() == 0 {
        Seq::empty()
    } else {
        body_sexprs(body.drop_last(), level).push(expr_sexpr(body.last(), level))
    }
}

/// The S-expression of a function application: the function's name and the
/// parameters, between parentheses.
pub open spec fn app_sexpr<'a, S: ScopednessTypestate>(a: AppForm<'a, S>, level: usize) -> Seq<
    char,
>
    decreases a,
{
    "("@ + a.fun.value@ + " "@ + joined(body_sexprs(a.params@, level), " "@) + ")"@
}

/// The S-expression of a definition.
pub open spec fn def_sexpr<'a, S: ScopednessTypestate>(d: DefForm<'a, S>, level: usize) -> Seq<
    char,
>
    decreases d,
{
    match d {
        DefForm::TopLevel { name, annot, value } => indent(level as nat) + "(define "@
            + name.value@ + " "@ + type_text(annot@) + " "@ + expr_sexpr(*value, deeper(level))
            + ")"@,
        DefForm::Function { name, fun } => indent(level as nat) + "(define "@ + name.value@
            + " "@ + function_sexpr(fun.node, level) + "\n)"@,
    }
}

/// The S-expression of a function: the lambda sign, the signature, and the
/// equations, each on a line of its own one level below.
pub open spec fn function_sexpr<'a, S: ScopednessTypestate>(
    fun: Function<'a, S>,
    level: usize,
) -> Seq<char>
    decreases fun,
{
    "(\u{03bb} "@ + indent(level as nat) + signature_text(fun.sig@) + "\n"@ + indent(
        deeper(level) as nat,
    ) + joined(equations_sexprs(fun.equations@, deeper(level)), "\n"@ + indent(deeper(level) as nat))
        + ")"@
}

/// The S-expressions of the equations of a function.
pub open spec fn equations_sexprs<'a, S: ScopednessTypestate>(
    equations: Seq<Annotated<'a, Equation<'a, S>, S>>,
    level: usize,
) -> Seq<Seq<char>>
    decreases equations,
{
    if equations.len() == 0 {
        Seq::empty()
    } else {
        equations_sexprs(equations.drop_last(), level).push(
            equation_sexpr(equations.last().node, level),
        )
    }
}

/// The S-expression of an equation: the pattern, then the expressions of the
/// body, each after the first on a line of its own one level below.
pub open spec fn equation_sexpr<'a, S: ScopednessTypestate>(
    equation: Equation<'a, S>,
    level: usize,
) -> Seq<char>
    decreases equation,
{
    "("@ + pattern_text(pattern_model(equation.pattern@)) + " "@ + joined(
        body_sexprs(equation.body@, deeper(level)),
        "\n"@ + indent(deeper(level) as nat),
    ) + ")"@
}

/// The S-expression of a binding: the name, its type and its initializer,
/// between parentheses.
pub open spec fn binding_sexpr<'a, S: ScopednessTypestate>(b: Binding<'a, S>, level: usize) -> Seq<
    char,
>
    decreases b,
{
    "("@ + b.name.value@ + " "@ + type_text(b.typ@) + " "@ + expr_sexpr(*b.value, level) + ")"@
}

/// The S-expressions of the bindings of a `let` form.
pub open spec fn bindings_sexprs<'a, S: ScopednessTypestate>(
    bindings: Seq<Annotated<'a, Binding<'a, S>, S>>,
    level: usize,
) -> Seq<Seq<char>>
    decreases bindings,
{
    if bindings.len() == 0 {
        Seq::empty()
    } else {
        bindings_sexprs(bindings.drop_last(), level).push(
            binding_sexpr(bindings.last().node, level),
        )
    }
}

/// The S-expression of a `let` form: the keyword, the bindings between
/// brackets, each on a line of its own, and the body on the next line.
pub open spec fn let_sexpr<'a, S: ScopednessTypestate>(l: LetForm<'a, S>, level: usize) -> Seq<
    char,
>
    decreases l,
{
    match l {
        LetForm::Let { bindings, body } => indent(level as nat) + "(let ["@ + joined(
            bindings_sexprs(bindings@, level),
            "\n"@,
        ) + "]\n"@ + joined(body_sexprs(body@, deeper(level)), " "@) + ")"@,
        LetForm::LetRec { bindings, body } => indent(level as nat) + "(letrec ["@ + joined(
            bindings_sexprs(bindings@, level),
            "\n"@,
        ) + "]\n"@ + joined(body_sexprs(body@, deeper(level)), " "@) + ")"@,
        LetForm::LetSplat { bindings, body } => indent(level as nat) + "(let* ["@ + joined(
            bindings_sexprs(bindings@, level),
            "\n"@,
        ) + "]\n"@ + joined(body_sexprs(body@, deeper(level)), " "@) + ")"@,
        LetForm::Invocation { proc_id, init, body } => indent(level as nat) + "(let "@
            + proc_id.value@ + " ["@ + binding_sexpr(init, level) + "]\n"@ + joined(
            body_sexprs(body@, deeper(level)),
            " "@,
        ) + ")"@,
    }
}

/// The S-expression of a numeric expression.
pub open spec fn num_sexpr<'a, S: ScopednessTypestate>(n: NumExpr<'a, S>, level: usize) -> Seq<
    char,
>
    decreases n,
{
    match n {
        NumExpr::BOp(op) => "("@ + operator_text(op) + " "@ + joined(
            nums_sexprs(operands(op)@, level),
            " "@,
        ) + ")"@,
        NumExpr::Neg(inner) => "(- "@ + num_sexpr(*inner, level) + ")"@,
        NumExpr::Lit(l) => literal_text(l@),
        NumExpr::Deref(r) => name_ref_text(r@),
        NumExpr::Call(a) => app_sexpr(a, level),
    }
}

/// The S-expressions of the numeric expressions of a list.
pub open spec fn nums_sexprs<'a, S: ScopednessTypestate>(
    nums: Seq<NumExpr<'a, S>>,
    level: usize,
) -> Seq<Seq<char>>
    decreases nums,
{
    if nums.len() == 0 {
        Seq::empty()
    } else {
        nums_sexprs(nums.drop_last(), level).push(num_sexpr(nums.last(), level))
    }
}

/// The level below `level`.
fn next_level(level: usize) -> (n: usize)
    ensures
        n == deeper(level),
{
    if level < usize::MAX {
        level + 1
    } else {
        level
    }
}

/// Renders the indentation of a level.
pub fn indentation(level: usize) -> (s: String)
    ensures
        s@ == indent(level as nat),
{
    let mut s = String::new();
    let mut i: usize = 0;
    proof {
        assert(s@ =~= indent(0));
    }
    while i < level
        invariant
            i <= level,
            s@ == indent(i as nat),
        decreases level - i,
    {
        proof {
            reveal_strlit("\t");
        }
        s.append("\t");
        i += 1;
        assert(s@ =~= indent(i as nat));
    }
    s
}

/// Renders a literal.
pub fn render_literal(l: &Literal) -> (s: String)
    ensures
        s@ == literal_text(l@),
{
    match l {
        Literal::IntConst(n) => decimal_string(*n),
        Literal::UintConst(n) => {
            let mut s = String::new();
            append_digits(&mut s, *n);
            assert(s@ =~= digits(*n as nat));
            s
        },
        Literal::StringLit(text) => text.clone(),
    }
}

/// Renders a reference to a name.
pub fn render_name_ref(r: &NameRef) -> (s: String)
    ensures
        s@ == name_ref_text(r@),
{
    match r {
        NameRef::Owned(id) => id.value.clone(),
        NameRef::Borrowed(id) => {
            let mut s = String::from_str("&");
            s.append(id.value.as_str());
            s
        },
        NameRef::Deref(id) => {
            let mut s = String::from_str("$");
            s.append(id.value.as_str());
            s
        },
        NameRef::Unique(id) => {
            let mut s = String::from_str("@");
            s.append(id.value.as_str());
            s
        },
    }
}

/// Renders an element of a pattern.
pub fn render_pat_element(p: &PatElement) -> (s: String)
    ensures
        s@ == pat_element_text(p@),
{
    match p {
        PatElement::Name(id) => id.value.clone(),
        PatElement::Typed { name, ty } => {
            let mut s = name.value.clone();
            s.append(": ");
            let t = ty.to_string();
            s.append(t.as_str());
            s
        },
        PatElement::Lit(l) => render_literal(l),
        PatElement::Anything => String::from_str("_"),
    }
}

/// Renders a pattern.
pub fn render_pattern(pattern: &Vec<PatElement>) -> (s: String)
    ensures
        s@ == pattern_text(pattern_model(pattern@)),
{
    let mut parts: Vec<String> = Vec::new();
    let mut i: usize = 0;
    while i < pattern.len()
        invariant
            i <= pattern@.len(),
            parts@.len() == i,
            forall|j: int| 0 <= j < i ==> (#[trigger] parts@[j])@ == pat_element_text(pattern@[j]@),
        decreases pattern.len() - i,
    {
        parts.push(render_pat_element(&pattern[i]));
        i += 1;
    }
    let inner = join(&parts, " ");
    let mut s = String::from_str("(");
    s.append(inner.as_str());
    s.append(")");
    proof {
        let p = pattern_model(pattern@);
        assert(views(parts@) =~= Seq::new(p.len(), |i: int| pat_element_text(p[i])));
    }
    s
}

proof fn lemma_body_sexprs<'a, S: ScopednessTypestate>(
    body: Seq<Annotated<'a, Form<'a, S>, S>>,
    level: usize,
)
    ensures
        body_sexprs(body, level).len() == body.len(),
        forall|i: int|
            0 <= i < body.len() ==> #[trigger] body_sexprs(body, level)[i] == expr_sexpr(
                body[i],
                level,
            ),
    decreases body.len(),
{
    if body.len() > 0 {
        lemma_body_sexprs(body.drop_last(), level);
    }
}

proof fn lemma_equations_sexprs<'a, S: ScopednessTypestate>(
    equations: Seq<Annotated<'a, Equation<'a, S>, S>>,
    level: usize,
)
    ensures
        equations_sexprs(equations, level).len() == equations.len(),
        forall|i: int|
            0 <= i < equations.len() ==> #[trigger] equations_sexprs(equations, level)[i]
                == equation_sexpr(equations[i].node, level),
    decreases equations.len(),
{
    if equations.len() > 0 {
        lemma_equations_sexprs(equations.drop_last(), level);
    }
}

proof fn lemma_bindings_sexprs<'a, S: ScopednessTypestate>(
    bindings: Seq<Annotated<'a, Binding<'a, S>, S>>,
    level: usize,
)
    ensures
        bindings_sexprs(bindings, level).len() == bindings.len(),
        forall|i: int|
            0 <= i < bindings.len() ==> #[trigger] bindings_sexprs(bindings, level)[i]
                == binding_sexpr(bindings[i].node, level),
    decreases bindings.len(),
{
    if bindings.len() > 0 {
        lemma_bindings_sexprs(bindings.drop_last(), level);
    }
}

proof fn lemma_nums_sexprs<'a, S: ScopednessTypestate>(nums: Seq<NumExpr<'a, S>>, level: usize)
    ensures
        nums_sexprs(nums, level).len() == nums.len(),
        forall|i: int|
            0 <= i < nums.len() ==> #[trigger] nums_sexprs(nums, level)[i] == num_sexpr(
                nums[i],
                level,
            ),
    decreases nums.len(),
{
    if nums.len() > 0 {
        lemma_nums_sexprs(nums.drop_last(), level);
    }
}

/// Renders an expression as an S-expression at an indentation level.
pub fn render_expr<'a, S: ScopednessTypestate>(e: &Annotated<'a, Form<'a, S>, S>, level: usize) -> (s:
    String)
    ensures
        s@ == expr_sexpr(*e, level),
    decreases e,
{
    render_form(&e.node, level)
}

/// Renders a form as an S-expression at an indentation level.
pub fn render_form<'a, S: ScopednessTypestate>(f: &Form<'a, S>, level: usize) -> (s: String)
    ensures
        s@ == form_sexpr(*f, level),
    decreases f,
{
    match f {
        Form::Define(d) => render_def(d, level),
        Form::If { condition, if_clause, else_clause } => {
            let mut s = String::from_str("(if ");
            let c = render_expr(&**condition, level);
            s.append(c.as_str());
            s.append(" ");
            let t = render_expr(&**if_clause, level);
            s.append(t.as_str());
            match else_clause {
                Some(e) => {
                    s.append(" ");
                    let x = render_expr(&**e, level);
                    s.append(x.as_str());
                },
                None => {},
            }
            s.append(")");
            assert(s@ =~= form_sexpr(*f, level));
            s
        },
        Form::Let(l) => render_let(l, level),
        Form::App(a) => render_app(a, level),
        Form::Lambda(fun) => render_function(fun, level),
        Form::Logical(l) => {
            let (mut s, a, b) = match l {
                Logical::And { a, b } => (String::from_str("(and "), a, b),
                Logical::Or { a, b } => (String::from_str("(or "), a, b),
            };
            let x = render_expr(&**a, level);
            s.append(x.as_str());
            s.append(" ");
            let y = render_expr(&**b, level);
            s.append(y.as_str());
            s.append(")");
            s
        },
        Form::Num(n) => render_num(n, level),
        Form::Lit(l) => render_literal(l),
        Form::NameRef(r) => render_name_ref(r),
    }
}

fn render_body<'a, S: ScopednessTypestate>(
    body: &Vec<Annotated<'a, Form<'a, S>, S>>,
    level: usize,
) -> (parts: Vec<String>)
    ensures
        views(parts@) == body_sexprs(body@, level),
    decreases body,
{
    let mut parts: Vec<String> = Vec::new();
    let mut i: usize = 0;
    while i < body.len()
        invariant
            i <= body@.len(),
            parts@.len() == i,
            forall|j: int| 0 <= j < i ==> (#[trigger] parts@[j])@ == expr_sexpr(body@[j], level),
        decreases body.len() - i,
    {
        parts.push(render_expr(&body[i], level));
        i += 1;
    }
    proof {
        lemma_body_sexprs(body@, level);
        assert(views(parts@) =~= body_sexprs(body@, level));
    }
    parts
}

/// Renders a function application as an S-expression.
pub fn render_app<'a, S: ScopednessTypestate>(a: &AppForm<'a, S>, level: usize) -> (s: String)
    ensures
        s@ == app_sexpr(*a, level),
    decreases a,
{
    let mut s = String::from_str("(");
    s.append(a.fun.value.as_str());
    s.append(" ");
    let parts = render_body(&a.params, level);
    let params = join(&parts, " ");
    s.append(params.as_str());
    s.append(")");
    s
}

/// Renders a definition as an S-expression.
pub fn render_def<'a, S: ScopednessTypestate>(d: &DefForm<'a, S>, level: usize) -> (s: String)
    ensures
        s@ == def_sexpr(*d, level),
    decreases d,
{
    let mut s = indentation(level);
    s.append("(define ");
    match d {
        DefForm::TopLevel { name, annot, value } => {
            s.append(name.value.as_str());
            s.append(" ");
            let t = annot.to_string();
            s.append(t.as_str());
            s.append(" ");
            let v = render_expr(&**value, next_level(level));
            s.append(v.as_str());
            s.append(")");
            assert(s@ =~= def_sexpr(*d, level));
        },
        DefForm::Function { name, fun } => {
            s.append(name.value.as_str());
            s.append(" ");
            let f = render_function(&fun.node, level);
            s.append(f.as_str());
            s.append("\n)");
            assert(s@ =~= def_sexpr(*d, level));
        },
    }
    s
}

/// A line break and the indentation of a level.
fn line_break(level: usize) -> (s: String)
    ensures
        s@ == "\n"@ + indent(level as nat),
{
    let mut s = String::from_str("\n");
    let i = indentation(level);
    s.append(i.as_str());
    s
}

/// Renders a function as an S-expression.
pub fn render_function<'a, S: ScopednessTypestate>(fun: &Function<'a, S>, level: usize) -> (s:
    String)
    ensures
        s@ == function_sexpr(*fun, level),
    decreases fun,
{
    let mut s = String::from_str("(");
    s.append(chars::LAMBDA);
    s.append(" ");
    let sig = render_signature(&fun.sig, level);
    s.append(sig.as_str());
    let below = next_level(level);
    let sep = line_break(below);
    s.append(sep.as_str());
    let parts = render_equations(&fun.equations, below);
    let equations = join(&parts, sep.as_str());
    s.append(equations.as_str());
    s.append(")");
    proof {
        reveal_strlit("(\u{03bb} ");
        reveal_strlit("(");
        reveal_strlit("\u{03bb}");
        reveal_strlit(" ");
        assert("(\u{03bb} "@ =~= "("@ + "\u{03bb}"@ + " "@);
        assert(s@ =~= function_sexpr(*fun, level));
    }
    s
}

/// Renders a signature as an S-expression: the signature in the language's
/// notation, after the indentation of the level.
pub fn render_signature(sig: &Signature, level: usize) -> (s: String)
    ensures
        s@ == indent(level as nat) + signature_text(sig@),
{
    let mut s = indentation(level);
    let t = sig.to_string();
    s.append(t.as_str());
    s
}

fn render_equations<'a, S: ScopednessTypestate>(
    equations: &Vec<Annotated<'a, Equation<'a, S>, S>>,
    level: usize,
) -> (parts: Vec<String>)
    ensures
        views(parts@) == equations_sexprs(equations@, level),
    decreases equations,
{
    let mut parts: Vec<String> = Vec::new();
    let mut i: usize = 0;
    while i < equations.len()
        invariant
            i <= equations@.len(),
            parts@.len() == i,
            forall|j: int|
                0 <= j < i ==> (#[trigger] parts@[j])@ == equation_sexpr(
                    equations@[j].node,
                    level,
                ),
        decreases equations.len() - i,
    {
        parts.push(render_equation(&equations[i].node, level));
        i += 1;
    }
    proof {
        lemma_equations_sexprs(equations@, level);
        assert(views(parts@) =~= equations_sexprs(equations@, level));
    }
    parts
}

/// Renders an equation as an S-expression.
pub fn render_equation<'a, S: ScopednessTypestate>(equation: &Equation<'a, S>, level: usize) -> (s:
    String)
    ensures
        s@ == equation_sexpr(*equation, level),
    decreases equation,
{
    let mut s = String::from_str("(");
    let p = render_pattern(&equation.pattern);
    s.append(p.as_str());
    s.append(" ");
    let below = next_level(level);
    let parts = render_body(&equation.body, below);
    let sep = line_break(below);
    let body = join(&parts, sep.as_str());
    s.append(body.as_str());
    s.append(")");
    s
}

/// Renders a binding as an S-expression.
pub fn render_binding<'a, S: ScopednessTypestate>(b: &Binding<'a, S>, level: usize) -> (s: String)
    ensures
        s@ == binding_sexpr(*b, level),
    decreases b,
{
    let mut s = String::from_str("(");
    s.append(b.name.value.as_str());
    s.append(" ");
    let t = b.typ.to_string();
    s.append(t.as_str());
    s.append(" ");
    let v = render_expr(&*b.value, level);
    s.append(v.as_str());
    s.append(")");
    s
}

fn render_bindings<'a, S: ScopednessTypestate>(
    bindings: &Vec<Annotated<'a, Binding<'a, S>, S>>,
    level: usize,
) -> (parts: Vec<String>)
    ensures
        views(parts@) == bindings_sexprs(bindings@, level),
    decreases bindings,
{
    let mut parts: Vec<String> = Vec::new();
    let mut i: usize = 0;
    while i < bindings.len()
        invariant
            i <= bindings@.len(),
            parts@.len() == i,
            forall|j: int|
                0 <= j < i ==> (#[trigger] parts@[j])@ == binding_sexpr(bindings@[j].node, level),
        decreases bindings.len() - i,
    {
        parts.push(render_binding(&bindings[i].node, level));
        i += 1;
    }
    proof {
        lemma_bindings_sexprs(bindings@, level);
        assert(views(parts@) =~= bindings_sexprs(bindings@, level));
    }
    parts
}

/// Renders a `let` form as an S-expression.
pub fn render_let<'a, S: ScopednessTypestate>(l: &LetForm<'a, S>, level: usize) -> (s: String)
    ensures
        s@ == let_sexpr(*l, level),
    decreases l,
{
    let mut s = indentation(level);
    match l {
        LetForm::Let { bindings, body } => {
            s.append("(let [");
            let parts = render_bindings(bindings, level);
            let bs = join(&parts, "\n");
            s.append(bs.as_str());
            s.append("]\n");
            let exprs = render_body(body, next_level(level));
            let b = join(&exprs, " ");
            s.append(b.as_str());
            s.append(")");
            assert(s@ =~= let_sexpr(*l, level));
        },
        LetForm::LetRec { bindings, body } => {
            s.append("(letrec [");
            let parts = render_bindings(bindings, level);
            let bs = join(&parts, "\n");
            s.append(bs.as_str());
            s.append("]\n");
            let exprs = render_body(body, next_level(level));
            let b = join(&exprs, " ");
            s.append(b.as_str());
            s.append(")");
            assert(s@ =~= let_sexpr(*l, level));
        },
        LetForm::LetSplat { bindings, body } => {
            s.append("(let* [");
            let parts = render_bindings(bindings, level);
            let bs = join(&parts, "\n");
            s.append(bs.as_str());
            s.append("]\n");
            let exprs = render_body(body, next_level(level));
            let b = join(&exprs, " ");
            s.append(b.as_str());
            s.append(")");
            assert(s@ =~= let_sexpr(*l, level));
        },
        LetForm::Invocation { proc_id, init, body } => {
            s.append("(let ");
            s.append(proc_id.value.as_str());
            s.append(" [");
            let i = render_binding(init, level);
            s.append(i.as_str());
            s.append("]\n");
            let exprs = render_body(body, next_level(level));
            let b = join(&exprs, " ");
            s.append(b.as_str());
            s.append(")");
            assert(s@ =~= let_sexpr(*l, level));
        },
    }
    s
}

/// The sign of a numeric operator.
fn operator_sign<'a, S: ScopednessTypestate>(op: &NumBOp<'a, S>) -> (s: &'static str)
    ensures
        s@ == operator_text(*op),
{
    match op {
        NumBOp::Add(_) => "+",
        NumBOp::Sub(_) => "-",
        NumBOp::Mul(_) => "*",
        NumBOp::Div(_) => "/",
        NumBOp::BitAnd(_) => "&",
        NumBOp::BitOr(_) => "|",
        NumBOp::BitXor(_) => "^",
        NumBOp::ShiftL(_) => "<<",
        NumBOp::ShiftR(_) => ">>",
    }
}

/// The operands of a numeric operator.
fn operands_of<'b, 'a, S: ScopednessTypestate>(op: &'b NumBOp<'a, S>) -> (v: &'b Vec<NumExpr<'a, S>>)
    ensures
        *v == operands(*op),
{
    match op {
        NumBOp::Add(v) => v,
        NumBOp::Sub(v) => v,
        NumBOp::Mul(v) => v,
        NumBOp::Div(v) => v,
        NumBOp::BitAnd(v) => v,
        NumBOp::BitOr(v) => v,
        NumBOp::BitXor(v) => v,
        NumBOp::ShiftL(v) => v,
        NumBOp::ShiftR(v) => v,
    }
}

/// Renders a numeric expression as an S-expression.
pub fn render_num<'a, S: ScopednessTypestate>(n: &NumExpr<'a, S>, level: usize) -> (s: String)
    ensures
        s@ == num_sexpr(*n, level),
    decreases n,
{
    match n {
        NumExpr::BOp(op) => {
            let mut s = String::from_str("(");
            s.append(operator_sign(op));
            s.append(" ");
            let parts = render_nums(operands_of(op), level);
            let args = join(&parts, " ");
            s.append(args.as_str());
            s.append(")");
            s
        },
        NumExpr::Neg(inner) => {
            let mut s = String::from_str("(- ");
            let i = render_num(&**inner, level);
            s.append(i.as_str());
            s.append(")");
            s
        },
        NumExpr::Lit(l) => render_literal(l),
        NumExpr::Deref(r) => render_name_ref(r),
        NumExpr::Call(a) => render_app(a, level),
    }
}

fn render_nums<'a, S: ScopednessTypestate>(nums: &Vec<NumExpr<'a, S>>, level: usize) -> (parts: Vec<
    String,
>)
    ensures
        views(parts@) == nums_sexprs(nums@, level),
    decreases nums,
{
    let mut parts: Vec<String> = Vec::new();
    let mut i: usize = 0;
    while i < nums.len()
        invariant
            i <= nums@.len(),
            parts@.len() == i,
            forall|j: int| 0 <= j < i ==> (#[trigger] parts@[j])@ == num_sexpr(nums@[j], level),
        decreases nums.len() - i,
    {
        parts.push(render_num(&nums[i], level));
        i += 1;
    }
    proof {
        lemma_nums_sexprs(nums@, level);
        assert(views(parts@) =~= nums_sexprs(nums@, level));
    }
    parts
}

/// A node in the abstract syntax tree, which can be pretty-printed as an
/// S-expression.
pub trait Node {
    /// The S-expression of the node at an indentation level.
    spec fn sexpr(&self, level: usize) -> Seq<char>;

    /// Pretty-print the AST node as an S-expression at the desired
    /// indentation level.
    fn to_sexpr(&self, level: usize) -> (s: String)
        ensures
            s@ == self.sexpr(level),
    ;
}

impl Node for Positional<String> {
    open spec fn sexpr(&self, level: usize) -> Seq<char> {
        self.value@
    }

    fn to_sexpr(&self, level: usize) -> (s: String) {
        self.value.clone()
    }
}

impl Node for Vec<PatElement> {
    open spec fn sexpr(&self, level: usize) -> Seq<char> {
        pattern_text(pattern_model(self@))
    }

    fn to_sexpr(&self, level: usize) -> (s: String) {
        render_pattern(self)
    }
}

impl Node for PatElement {
    open spec fn sexpr(&self, level: usize) -> Seq<char> {
        pat_element_text(self@)
    }

    fn to_sexpr(&self, level: usize) -> (s: String) {
        render_pat_element(self)
    }
}

impl Node for NameRef {
    open spec fn sexpr(&self, level: usize) -> Seq<char> {
        name_ref_text(self@)
    }

    fn to_sexpr(&self, level: usize) -> (s: String) {
        render_name_ref(self)
    }
}

impl Node for Formal {
    open spec fn sexpr(&self, level: usize) -> Seq<char> {
        self.name.value@ + ": "@ + self.annot.value@
    }

    fn to_sexpr(&self, level: usize) -> (s: String) {
        let mut s = self.name.value.clone();
        s.append(": ");
        s.append(self.annot.value.as_str());
        s
    }
}

impl Node for Signature {
    open spec fn sexpr(&self, level: usize) -> Seq<char> {
        indent(level as nat) + signature_text(self@)
    }

    fn to_sexpr(&self, level: usize) -> (s: String) {
        render_signature(self, level)
    }
}

impl<'a, S: ScopednessTypestate> Node for Form<'a, S> {
    open spec fn sexpr(&self, level: usize) -> Seq<char> {
        form_sexpr(*self, level)
    }

    fn to_sexpr(&self, level: usize) -> (s: String) {
        render_form(self, level)
    }
}

impl<'a, S: ScopednessTypestate> Node for DefForm<'a, S> {
    open spec fn sexpr(&self, level: usize) -> Seq<char> {
        def_sexpr(*self, level)
    }

    fn to_sexpr(&self, level: usize) -> (s: String) {
        render_def(self, level)
    }
}

impl<'a, S: ScopednessTypestate> Node for LetForm<'a, S> {
    open spec fn sexpr(&self, level: usize) -> Seq<char> {
        let_sexpr(*self, level)
    }

    fn to_sexpr(&self, level: usize) -> (s: String) {
        render_let(self, level)
    }
}

impl<'a, S: ScopednessTypestate> Node for Logical<'a, S> {
    open spec fn sexpr(&self, level: usize) -> Seq<char> {
        form_sexpr(Form::Logical(*self), level)
    }

    fn to_sexpr(&self, level: usize) -> (s: String) {
        let (mut s, a, b) = match self {
            Logical::And { a, b } => (String::from_str("(and "), a, b),
            Logical::Or { a, b } => (String::from_str("(or "), a, b),
        };
        let x = render_expr(&**a, level);
        s.append(x.as_str());
        s.append(" ");
        let y = render_expr(&**b, level);
        s.append(y.as_str());
        s.append(")");
        s
    }
}

impl<'a, S: ScopednessTypestate> Node for Function<'a, S> {
    open spec fn sexpr(&self, level: usize) -> Seq<char> {
        function_sexpr(*self, level)
    }

    fn to_sexpr(&self, level: usize) -> (s: String) {
        render_function(self, level)
    }
}

impl<'a, S: ScopednessTypestate> Node for Equation<'a, S> {
    open spec fn sexpr(&self, level: usize) -> Seq<char> {
        equation_sexpr(*self, level)
    }

    fn to_sexpr(&self, level: usize) -> (s: String) {
        render_equation(self, level)
    }
}

impl<'a, S: ScopednessTypestate> Node for Binding<'a, S> {
    open spec fn sexpr(&self, level: usize) -> Seq<char> {
        binding_sexpr(*self, level)
    }

    fn to_sexpr(&self, level: usize) -> (s: String) {
        render_binding(self, level)
    }
}

} // verus!
