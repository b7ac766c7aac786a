//! The grammar of the language, as functions from a text and a place in it
//! to what stands there and the place after it.
//!
//! Every rule reads from left to right and takes the first alternative that
//! fits. A rule that reads a word or a sign also skips the white space and
//! the comments after it.
use vstd::prelude::*;
use crate::parser::lexical::{
    identifier, integer, place, reserved, reserved_op, sign, skip_blank,
};
use crate::parser::model::{
    AppModel, BindingModel, DefModel, EquationModel, ExprModel, FormModel, FunctionModel,
    LetModel, PlacedBindingModel,
};
use crate::position::Positional;
use crate::semantic::ast::{LiteralModel, NameRefModel, PatElementModel};
use crate::semantic::types::{
    primitive_text, ConstraintModel, Primitive, ReferenceModel, SignatureModel, TypeModel,
};
use crate::syntax::writable_order;

verus! {

/// Whether reading from `from` came to `to`, further on in the text.
pub open spec fn advanced(text: Seq<char>, from: int, to: int) -> bool {
    0 <= from < to <= text.len()
}

/// A name: an identifier, with the position it stands at.
pub open spec fn name(text: Seq<char>, pos: int) -> Option<(Positional<Seq<char>>, int)> {
    match identifier(text, pos) {
        Some((word, end)) => Some((Positional { pos: place(text, pos), value: word }, end)),
        None => None,
    }
}

/// Names, as many as stand there.
pub open spec fn names(text: Seq<char>, pos: int) -> (Seq<Seq<char>>, int)
    decreases text.len() - pos,
{
    match name(text, pos) {
        Some((n, end)) => if advanced(text, pos, end) {
            let rest = names(text, end);
            (seq![n.value] + rest.0, rest.1)
        } else {
            (Seq::empty(), pos)
        },
        None => (Seq::empty(), pos),
    }
}

/// The name of a primitive type: the first of the names, from the `i`-th
/// on, that stands there.
pub open spec fn primitive_from(text: Seq<char>, pos: int, i: int) -> Option<(Primitive, int)>
    decreases writable_order().len() - i,
{
    if 0 <= i < writable_order().len() {
        match reserved(text, pos, primitive_text(writable_order()[i])) {
            Some(end) => Some((writable_order()[i], end)),
            None => primitive_from(text, pos, i + 1),
        }
    } else {
        None
    }
}

/// A type: the name of a primitive type, or the sign of a raw, a unique or
/// a borrowed pointer before a type.
pub open spec fn type_at(text: Seq<char>, pos: int) -> Option<(TypeModel, int)>
    decreases text.len() - pos,
{
    match primitive_from(text, pos, 0) {
        Some((p, end)) => Some((TypeModel::Prim(p), end)),
        None => if 0 <= pos < text.len() && (text[pos] == '*' || text[pos] == '@' || text[pos]
            == '&') {
            match type_at(text, pos + 1) {
                Some((ty, end)) => Some(
                    (
                        TypeModel::Ref(
                            if text[pos] == '*' {
                                ReferenceModel::Raw(Box::new(ty))
                            } else if text[pos] == '@' {
                                ReferenceModel::Unique(Box::new(ty))
                            } else {
                                ReferenceModel::Borrowed(Box::new(ty))
                            },
                        ),
                        end,
                    ),
                ),
                None => None,
            }
        } else {
            None
        },
    }
}

/// Types, as many as stand there.
pub open spec fn types(text: Seq<char>, pos: int) -> (Seq<TypeModel>, int)
    decreases text.len() - pos,
{
    match type_at(text, pos) {
        Some((ty, end)) => if advanced(text, pos, end) {
            let rest = types(text, end);
            (seq![ty] + rest.0, rest.1)
        } else {
            (Seq::empty(), pos)
        },
        None => (Seq::empty(), pos),
    }
}

/// The arrow of a signature: `->` or `→`.
pub open spec fn arrow(text: Seq<char>, pos: int) -> Option<int> {
    match reserved_op(text, pos, "->"@) {
        Some(end) => Some(end),
        None => reserved_op(text, pos, "\u{2192}"@),
    }
}

/// The arrow of a constraint: `=>` or `⇒`.
pub open spec fn fat_arrow(text: Seq<char>, pos: int) -> Option<int> {
    match reserved_op(text, pos, "=>"@) {
        Some(end) => Some(end),
        None => reserved_op(text, pos, "\u{21D2}"@),
    }
}

/// Types with an arrow before each: the rest of a type chain in the infix
/// notation.
pub open spec fn arrow_types(text: Seq<char>, pos: int) -> (Seq<TypeModel>, int)
    decreases text.len() - pos,
{
    match arrow(text, pos) {
        Some(after) => match type_at(text, after) {
            Some((ty, end)) => if advanced(text, pos, end) {
                let rest = arrow_types(text, end);
                (seq![ty] + rest.0, rest.1)
            } else {
                (Seq::empty(), pos)
            },
            None => (Seq::empty(), pos),
        },
        None => (Seq::empty(), pos),
    }
}

/// A constraint in the prefix notation: `(=> Class a b)`.
pub open spec fn prefix_constraint(text: Seq<char>, pos: int) -> Option<(ConstraintModel, int)> {
    match sign(text, pos, '(') {
        Some(p1) => match fat_arrow(text, p1) {
            Some(p2) => match name(text, p2) {
                Some((class, p3)) => {
                    let generics = names(text, p3);
                    if generics.0.len() > 0 {
                        match sign(text, generics.1, ')') {
                            Some(end) => Some(
                                (
                                    ConstraintModel { typeclass: class.value, generics: generics.0 },
                                    end,
                                ),
                            ),
                            None => None,
                        }
                    } else {
                        None
                    }
                },
                None => None,
            },
            None => None,
        },
        None => None,
    }
}

/// A constraint in the infix notation: `{Class => a b}`.
pub open spec fn infix_constraint(text: Seq<char>, pos: int) -> Option<(ConstraintModel, int)> {
    match sign(text, pos, '{') {
        Some(p1) => match name(text, p1) {
            Some((class, p2)) => match fat_arrow(text, p2) {
                Some(p3) => {
                    let generics = names(text, p3);
                    if generics.0.len() > 0 {
                        match sign(text, generics.1, '}') {
                            Some(end) => Some(
                                (
                                    ConstraintModel { typeclass: class.value, generics: generics.0 },
                                    end,
                                ),
                            ),
                            None => None,
                        }
                    } else {
                        None
                    }
                },
                None => None,
            },
            None => None,
        },
        None => None,
    }
}

/// A constraint, in the prefix or in the infix notation.
pub open spec fn constraint(text: Seq<char>, pos: int) -> Option<(ConstraintModel, int)> {
    match prefix_constraint(text, pos) {
        Some(r) => Some(r),
        None => infix_constraint(text, pos),
    }
}

/// Constraints, as many as stand there.
pub open spec fn constraints(text: Seq<char>, pos: int) -> (Seq<ConstraintModel>, int)
    decreases text.len() - pos,
{
    match constraint(text, pos) {
        Some((c, end)) => if advanced(text, pos, end) {
            let rest = constraints(text, end);
            (seq![c] + rest.0, rest.1)
        } else {
            (Seq::empty(), pos)
        },
        None => (Seq::empty(), pos),
    }
}

/// The constraints of a signature: none where no constraint stands there.
pub open spec fn some_constraints(found: Seq<ConstraintModel>) -> Option<Seq<ConstraintModel>> {
    if found.len() > 0 {
        Some(found)
    } else {
        None
    }
}

/// A signature in the prefix notation: `(-> constraints types)`.
pub open spec fn prefix_signature(text: Seq<char>, pos: int) -> Option<(SignatureModel, int)> {
    match sign(text, pos, '(') {
        Some(p1) => match arrow(text, p1) {
            Some(p2) => {
                let cs = constraints(text, p2);
                let chain = types(text, cs.1);
                if chain.0.len() > 0 {
                    match sign(text, chain.1, ')') {
                        Some(end) => Some(
                            (
                                SignatureModel {
                                    constraints: some_constraints(cs.0),
                                    typechain: chain.0,
                                },
                                end,
                            ),
                        ),
                        None => None,
                    }
                } else {
                    None
                }
            },
            None => None,
        },
        None => None,
    }
}

/// A signature in the infix notation: `{constraints type -> type}`.
pub open spec fn infix_signature(text: Seq<char>, pos: int) -> Option<(SignatureModel, int)> {
    match sign(text, pos, '{') {
        Some(p1) => {
            let cs = constraints(text, p1);
            match type_at(text, cs.1) {
                Some((first, p2)) => {
                    let rest = arrow_types(text, p2);
                    match sign(text, rest.1, '}') {
                        Some(end) => Some(
                            (
                                SignatureModel {
                                    constraints: some_constraints(cs.0),
                                    typechain: seq![first] + rest.0,
                                },
                                end,
                            ),
                        ),
                        None => None,
                    }
                },
                None => None,
            }
        },
        None => None,
    }
}

/// A signature, in the prefix or in the infix notation.
pub open spec fn signature(text: Seq<char>, pos: int) -> Option<(SignatureModel, int)> {
    match prefix_signature(text, pos) {
        Some(r) => Some(r),
        None => infix_signature(text, pos),
    }
}

/// An element of a pattern: a name, or a number.
pub open spec fn pat_element(text: Seq<char>, pos: int) -> Option<(PatElementModel, int)> {
    match name(text, pos) {
        Some((n, end)) => Some((PatElementModel::Name(n), end)),
        None => match integer(text, pos) {
            Some((n, end)) => Some((PatElementModel::Lit(LiteralModel::IntConst(n)), end)),
            None => None,
        },
    }
}

/// Elements of a pattern, as many as stand there.
pub open spec fn pat_elements(text: Seq<char>, pos: int) -> (Seq<PatElementModel>, int)
    decreases text.len() - pos,
{
    match pat_element(text, pos) {
        Some((p, end)) => if advanced(text, pos, end) {
            let rest = pat_elements(text, end);
            (seq![p] + rest.0, rest.1)
        } else {
            (Seq::empty(), pos)
        },
        None => (Seq::empty(), pos),
    }
}

/// A pattern: its elements between parentheses.
pub open spec fn pattern(text: Seq<char>, pos: int) -> Option<(Seq<PatElementModel>, int)> {
    match sign(text, pos, '(') {
        Some(p1) => {
            let elements = pat_elements(text, p1);
            match sign(text, elements.1, ')') {
                Some(end) => Some((elements.0, end)),
                None => None,
            }
        },
        None => None,
    }
}

/// A reference to a name: a name, or a name right after the sign of how it
/// is taken.
pub open spec fn name_ref(text: Seq<char>, pos: int) -> Option<(NameRefModel, int)> {
    if 0 <= pos < text.len() && text[pos] == '$' {
        match name(text, pos + 1) {
            Some((n, end)) => Some((NameRefModel::Deref(n), end)),
            None => None,
        }
    } else if 0 <= pos < text.len() && text[pos] == '@' {
        match name(text, pos + 1) {
            Some((n, end)) => Some((NameRefModel::Unique(n), end)),
            None => None,
        }
    } else if 0 <= pos < text.len() && text[pos] == '&' {
        match name(text, pos + 1) {
            Some((n, end)) => Some((NameRefModel::Borrowed(n), end)),
            None => None,
        }
    } else {
        match name(text, pos) {
            Some((n, end)) => Some((NameRefModel::Owned(n), end)),
            None => None,
        }
    }
}

/// The word that starts a definition: `def` or `define`.
pub open spec fn define_word(text: Seq<char>, pos: int) -> Option<int> {
    match reserved(text, pos, "def"@) {
        Some(end) => Some(end),
        None => reserved(text, pos, "define"@),
    }
}

/// The word that starts a lambda: `lambda` or `λ`.
pub open spec fn lambda_word(text: Seq<char>, pos: int) -> Option<int> {
    match reserved(text, pos, "lambda"@) {
        Some(end) => Some(end),
        None => reserved(text, pos, "\u{03bb}"@),
    }
}

/// The word that starts a function: `fn`, `lambda` or `λ`.
pub open spec fn function_word(text: Seq<char>, pos: int) -> Option<int> {
    match reserved(text, pos, "fn"@) {
        Some(end) => Some(end),
        None => lambda_word(text, pos),
    }
}

/// An expression: a compound form between parentheses, a number, or a
/// reference to a name. The position of the expression is the place it
/// starts at.
pub open spec fn expr(text: Seq<char>, pos: int) -> Option<(ExprModel, int)>
    decreases text.len() - pos, 0nat,
{
    match sign(text, pos, '(') {
        Some(p1) => if advanced(text, pos, p1) {
            match compound(text, p1) {
                Some((form, p2)) => match sign(text, p2, ')') {
                    Some(end) => Some((ExprModel { position: place(text, pos), form }, end)),
                    None => None,
                },
                None => None,
            }
        } else {
            None
        },
        None => match integer(text, pos) {
            Some((n, end)) => Some(
                (
                    ExprModel {
                        position: place(text, pos),
                        form: FormModel::Lit(LiteralModel::IntConst(n)),
                    },
                    end,
                ),
            ),
            None => match name_ref(text, pos) {
                Some((r, end)) => Some(
                    (ExprModel { position: place(text, pos), form: FormModel::NameRef(r) }, end),
                ),
                None => None,
            },
        },
    }
}

/// Expressions, as many as stand there.
pub open spec fn exprs(text: Seq<char>, pos: int) -> (Seq<ExprModel>, int)
    decreases text.len() - pos, 1nat,
{
    match expr(text, pos) {
        Some((e, end)) => if advanced(text, pos, end) {
            let rest = exprs(text, end);
            (seq![e] + rest.0, rest.1)
        } else {
            (Seq::empty(), pos)
        },
        None => (Seq::empty(), pos),
    }
}

/// What stands between the parentheses of a compound form: a function
/// application, a definition, a conditional, a lambda or a `let` form,
/// tried in this order.
pub open spec fn compound(text: Seq<char>, pos: int) -> Option<(FormModel, int)>
    decreases text.len() - pos, 5nat,
{
    match call(text, pos) {
        Some(r) => Some(r),
        None => match definition(text, pos) {
            Some(r) => Some(r),
            None => match conditional(text, pos) {
                Some(r) => Some(r),
                None => match lambda(text, pos) {
                    Some(r) => Some(r),
                    None => let_form(text, pos),
                },
            },
        },
    }
}

/// A function application: the name of the function, and the parameters.
pub open spec fn call(text: Seq<char>, pos: int) -> Option<(FormModel, int)>
    decreases text.len() - pos, 4nat,
{
    match name(text, pos) {
        Some((fun, p1)) => if advanced(text, pos, p1) {
            let params = exprs(text, p1);
            Some((FormModel::App(AppModel { fun, params: params.0 }), params.1))
        } else {
            None
        },
        None => None,
    }
}

/// A definition: of a function, by a name and a function; or of a value, by
/// a name, a type and an expression.
pub open spec fn definition(text: Seq<char>, pos: int) -> Option<(FormModel, int)>
    decreases text.len() - pos, 4nat,
{
    match define_word(text, pos) {
        Some(p1) => match name(text, p1) {
            Some((n, p2)) => if advanced(text, pos, p2) {
                match function(text, p2) {
                    Some((fun, end)) => Some(
                        (
                            FormModel::Define(
                                DefModel::Function { name: n, position: place(text, p2), fun },
                            ),
                            end,
                        ),
                    ),
                    None => match type_at(text, p2) {
                        Some((annot, p3)) => if advanced(text, pos, p3) {
                            match expr(text, p3) {
                                Some((value, end)) => Some(
                                    (
                                        FormModel::Define(
                                            DefModel::TopLevel {
                                                name: n,
                                                annot,
                                                value: Box::new(value),
                                            },
                                        ),
                                        end,
                                    ),
                                ),
                                None => None,
                            }
                        } else {
                            None
                        },
                        None => None,
                    },
                }
            } else {
                None
            },
            None => None,
        },
        None => None,
    }
}

/// A conditional: a condition, what holds if it is true, and, if it is
/// there, what holds else.
pub open spec fn conditional(text: Seq<char>, pos: int) -> Option<(FormModel, int)>
    decreases text.len() - pos, 4nat,
{
    match reserved(text, pos, "if"@) {
        Some(p1) => if advanced(text, pos, p1) {
            match expr(text, p1) {
                Some((condition, p2)) => if advanced(text, p1, p2) {
                    match expr(text, p2) {
                        Some((if_clause, p3)) => if advanced(text, p2, p3) {
                            match expr(text, p3) {
                                Some((else_clause, end)) => Some(
                                    (
                                        FormModel::If {
                                            condition: Box::new(condition),
                                            if_clause: Box::new(if_clause),
                                            else_clause: Some(Box::new(else_clause)),
                                        },
                                        end,
                                    ),
                                ),
                                None => Some(
                                    (
                                        FormModel::If {
                                            condition: Box::new(condition),
                                            if_clause: Box::new(if_clause),
                                            else_clause: None,
                                        },
                                        p3,
                                    ),
                                ),
                            }
                        } else {
                            None
                        },
                        None => None,
                    }
                } else {
                    None
                },
                None => None,
            }
        } else {
            None
        },
        None => None,
    }
}

/// A lambda: the word, and a function.
pub open spec fn lambda(text: Seq<char>, pos: int) -> Option<(FormModel, int)>
    decreases text.len() - pos, 4nat,
{
    match lambda_word(text, pos) {
        Some(p1) => if advanced(text, pos, p1) {
            match function(text, p1) {
                Some((fun, end)) => Some((FormModel::Lambda(fun), end)),
                None => None,
            }
        } else {
            None
        },
        None => None,
    }
}

/// A function: between parentheses, the word, a signature and at least one
/// equation.
pub open spec fn function(text: Seq<char>, pos: int) -> Option<(FunctionModel, int)>
    decreases text.len() - pos, 3nat,
{
    match sign(text, pos, '(') {
        Some(p1) => match function_word(text, p1) {
            Some(p2) => match signature(text, p2) {
                Some((sig, p3)) => if advanced(text, pos, p3) {
                    let eqs = equations(text, p3);
                    if eqs.0.len() > 0 {
                        match sign(text, eqs.1, ')') {
                            Some(end) => Some((FunctionModel { sig, equations: eqs.0 }, end)),
                            None => None,
                        }
                    } else {
                        None
                    }
                } else {
                    None
                },
                None => None,
            },
            None => None,
        },
        None => None,
    }
}

/// An equation: between parentheses, a pattern and the expressions of the
/// body. The position of the equation is the place it starts at.
pub open spec fn equation(text: Seq<char>, pos: int) -> Option<(EquationModel, int)>
    decreases text.len() - pos, 1nat,
{
    match sign(text, pos, '(') {
        Some(p1) => match pattern(text, p1) {
            Some((pat, p2)) => if advanced(text, pos, p2) {
                let body = exprs(text, p2);
                match sign(text, body.1, ')') {
                    Some(end) => Some(
                        (
                            EquationModel { position: place(text, pos), pattern: pat, body: body.0 },
                            end,
                        ),
                    ),
                    None => None,
                }
            } else {
                None
            },
            None => None,
        },
        None => None,
    }
}

/// Equations, as many as stand there.
pub open spec fn equations(text: Seq<char>, pos: int) -> (Seq<EquationModel>, int)
    decreases text.len() - pos, 2nat,
{
    match equation(text, pos) {
        Some((e, end)) => if advanced(text, pos, end) {
            let rest = equations(text, end);
            (seq![e] + rest.0, rest.1)
        } else {
            (Seq::empty(), pos)
        },
        None => (Seq::empty(), pos),
    }
}

/// A binding: a name, its type and its initializer. The position of the
/// binding is the place it starts at.
pub open spec fn binding(text: Seq<char>, pos: int) -> Option<(PlacedBindingModel, int)>
    decreases text.len() - pos, 1nat,
{
    match name(text, pos) {
        Some((n, p1)) => match type_at(text, p1) {
            Some((typ, p2)) => if advanced(text, pos, p2) {
                match expr(text, p2) {
                    Some((value, end)) => Some(
                        (
                            PlacedBindingModel {
                                position: place(text, pos),
                                binding: BindingModel { name: n, typ, value: Box::new(value) },
                            },
                            end,
                        ),
                    ),
                    None => None,
                }
            } else {
                None
            },
            None => None,
        },
        None => None,
    }
}

/// Bindings, each between parentheses, as many as stand there.
pub open spec fn bindings(text: Seq<char>, pos: int) -> (Seq<PlacedBindingModel>, int)
    decreases text.len() - pos, 2nat,
{
    match sign(text, pos, '(') {
        Some(p1) => if advanced(text, pos, p1) {
            match binding(text, p1) {
                Some((b, p2)) => match sign(text, p2, ')') {
                    Some(end) => if advanced(text, pos, end) {
                        let rest = bindings(text, end);
                        (seq![b] + rest.0, rest.1)
                    } else {
                        (Seq::empty(), pos)
                    },
                    None => (Seq::empty(), pos),
                },
                None => (Seq::empty(), pos),
            }
        } else {
            (Seq::empty(), pos)
        },
        None => (Seq::empty(), pos),
    }
}

/// A `let` form: the word, the bindings between parentheses, and the
/// expressions of the body.
pub open spec fn let_form(text: Seq<char>, pos: int) -> Option<(FormModel, int)>
    decreases text.len() - pos, 4nat,
{
    match reserved(text, pos, "let"@) {
        Some(p1) => match sign(text, p1, '(') {
            Some(p2) => if advanced(text, pos, p2) {
                let bs = bindings(text, p2);
                match sign(text, bs.1, ')') {
                    Some(p3) => if advanced(text, pos, p3) {
                        let body = exprs(text, p3);
                        Some(
                            (
                                FormModel::Let(LetModel::Let { bindings: bs.0, body: body.0 }),
                                body.1,
                            ),
                        )
                    } else {
                        None
                    },
                    None => None,
                }
            } else {
                None
            },
            None => None,
        },
        None => None,
    }
}

/// A module: after white space and comments, the expressions that stand at
/// the start of the text, at least one. What follows them is not looked at.
pub open spec fn module(text: Seq<char>) -> Option<Seq<ExprModel>> {
    let found = exprs(text, skip_blank(text, 0));
    if found.0.len() > 0 {
        Some(found.0)
    } else {
        None
    }
}

} // verus!
