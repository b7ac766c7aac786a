//! The parser: it reads a source text by the rules of the grammar and
//! builds the syntax tree that the grammar says stands there.
use vstd::prelude::*;
use vstd::string::{StrSliceExecFns, StringExecFns};
use std::rc::Rc;
use crate::chars;
use crate::parser::grammar::{
    arrow, arrow_types, binding, bindings, call, compound, conditional, constraint,
    constraints, define_word, definition, equation, equations, expr, exprs, fat_arrow, function,
    function_word, infix_constraint, infix_signature, lambda, lambda_word, let_form, module,
    name, name_ref, names, pat_element, pat_elements, pattern, prefix_constraint,
    prefix_signature, primitive_from, signature, some_constraints, type_at, types,
};
use crate::parser::lexical::{place, skip_blank, Source};
use crate::parser::model::{
    binding_model, bindings_model, body_model, equation_model, equations_model, expr_model,
    form_model, function_model, lemma_bindings_model_push, lemma_body_model,
    lemma_body_model_push, lemma_equations_model_len, lemma_equations_model_push, EquationModel,
    ExprModel, PlacedBindingModel,
};
use crate::position::Positional;
use crate::semantic::annotations::{Annotated, UnscopedState};
use crate::semantic::ast::{
    pattern_model, AppForm, Binding, DefForm, Equation, Form, Function, Ident, LetForm, Literal,
    NameRef, PatElement, PatElementModel,
};
use crate::semantic::types::{
    constraint_models, ident_models, ident_names, lemma_type_models, primitive_text, type_models,
    Constraint, ConstraintModel, Primitive, Reference, Signature, Type, TypeModel,
};
use crate::syntax::{writable_order, writable_primitives};

verus! {

/// An expression as the parser yields it.
pub type Parsed = Annotated<'static, Form<'static, UnscopedState>, UnscopedState>;

proof fn lemma_type_models_push(ts: Seq<Type>, t: Type)
    ensures
        type_models(ts.push(t)) == type_models(ts).push(t@),
{
    assert(ts.push(t).drop_last() =~= ts);
}

/// Reads a name.
pub fn parse_name(src: &Source, pos: usize) -> (r: Option<(Ident, usize)>)
    requires
        pos <= src@.len(),
    ensures
        match r {
            Some((n, end)) => name(src@, pos as int) == Some((n@, end as int)) && pos < end
                <= src@.len(),
            None => name(src@, pos as int) is None,
        },
{
    match src.identifier(pos) {
        Some((word, end)) => Some((Positional::from(src.position(pos), word), end)),
        None => None,
    }
}

/// Reads names, as many as stand there.
pub fn parse_names(src: &Source, pos: usize) -> (r: (Vec<Ident>, usize))
    requires
        pos <= src@.len(),
    ensures
        names(src@, pos as int) == (ident_names(ident_models(r.0@)), r.1 as int),
        pos <= r.1 <= src@.len(),
{
    let mut found: Vec<Ident> = Vec::new();
    let mut cur: usize = pos;
    proof {
        assert(ident_names(ident_models(found@)) =~= Seq::empty());
        assert(Seq::<Seq<char>>::empty() + names(src@, pos as int).0 =~= names(
            src@,
            pos as int,
        ).0);
    }
    loop
        invariant
            pos <= cur <= src@.len(),
            names(src@, pos as int) == (
                ident_names(ident_models(found@)) + names(src@, cur as int).0,
                names(src@, cur as int).1,
            ),
        ensures
            names(src@, pos as int) == (ident_names(ident_models(found@)), cur as int),
            pos <= cur <= src@.len(),
        decreases src@.len() - cur,
    {
        match parse_name(src, cur) {
            Some((n, end)) => {
                proof {
                    let before = ident_names(ident_models(found@));
                    let after = ident_names(ident_models(found@.push(n)));
                    assert(after =~= before.push(n.value@));
                    assert(before + (seq![n.value@] + names(src@, end as int).0) =~= after + names(
                        src@,
                        end as int,
                    ).0);
                }
                found.push(n);
                cur = end;
            },
            None => {
                proof {
                    assert(ident_names(ident_models(found@)) + Seq::<Seq<char>>::empty()
                        =~= ident_names(ident_models(found@)));
                }
                break ;
            },
        }
    }
    (found, cur)
}

/// Reads the name of a primitive type.
pub fn parse_primitive(src: &Source, pos: usize) -> (r: Option<(Primitive, usize)>)
    requires
        pos <= src@.len(),
    ensures
        match r {
            Some((p, end)) => primitive_from(src@, pos as int, 0) == Some((p, end as int)) && pos
                < end <= src@.len(),
            None => primitive_from(src@, pos as int, 0) is None,
        },
{
    let all = writable_primitives();
    let mut i: usize = 0;
    while i < all.len()
        invariant
            i <= all@.len(),
            all@ == writable_order(),
            pos <= src@.len(),
            primitive_from(src@, pos as int, 0) == primitive_from(src@, pos as int, i as int),
        decreases all.len() - i,
    {
        let p = all[i];
        match src.reserved(pos, p.name()) {
            Some(end) => {
                proof {
                    reveal_strlit("int");
                    reveal_strlit("uint");
                    reveal_strlit("float");
                    reveal_strlit("double");
                    reveal_strlit("bool");
                    reveal_strlit("i8");
                    reveal_strlit("i16");
                    reveal_strlit("i32");
                    reveal_strlit("i64");
                    reveal_strlit("u8");
                    reveal_strlit("u16");
                    reveal_strlit("u32");
                    reveal_strlit("u64");
                    assert(primitive_text(p).len() > 0);
                }
                return Some((p, end));
            },
            None => {},
        }
        i += 1;
    }
    None
}

/// Reads a type.
pub fn parse_type(src: &Source, pos: usize) -> (r: Option<(Type, usize)>)
    requires
        pos <= src@.len(),
    ensures
        match r {
            Some((ty, end)) => type_at(src@, pos as int) == Some((ty@, end as int)) && pos < end
                <= src@.len(),
            None => type_at(src@, pos as int) is None,
        },
    decreases src@.len() - pos,
{
    match parse_primitive(src, pos) {
        Some((p, end)) => Some((Type::Prim(p), end)),
        None => {
            if pos < src.len() {
                let c = src.at(pos);
                if c == '*' || c == '@' || c == '&' {
                    match parse_type(src, pos + 1) {
                        Some((ty, end)) => {
                            let reference = if c == '*' {
                                Reference::Raw(Rc::new(ty))
                            } else if c == '@' {
                                Reference::Unique(Rc::new(ty))
                            } else {
                                Reference::Borrowed(Rc::new(ty))
                            };
                            Some((Type::Ref(reference), end))
                        },
                        None => None,
                    }
                } else {
                    None
                }
            } else {
                None
            }
        },
    }
}

/// Reads types, as many as stand there.
pub fn parse_types(src: &Source, pos: usize) -> (r: (Vec<Type>, usize))
    requires
        pos <= src@.len(),
    ensures
        types(src@, pos as int) == (type_models(r.0@), r.1 as int),
        pos <= r.1 <= src@.len(),
{
    let mut found: Vec<Type> = Vec::new();
    let mut cur: usize = pos;
    proof {
        assert(Seq::<TypeModel>::empty() + types(src@, pos as int).0
            =~= types(src@, pos as int).0);
    }
    loop
        invariant
            pos <= cur <= src@.len(),
            types(src@, pos as int) == (
                type_models(found@) + types(src@, cur as int).0,
                types(src@, cur as int).1,
            ),
        ensures
            types(src@, pos as int) == (type_models(found@), cur as int),
            pos <= cur <= src@.len(),
        decreases src@.len() - cur,
    {
        match parse_type(src, cur) {
            Some((ty, end)) => {
                proof {
                    lemma_type_models_push(found@, ty);
                    assert(type_models(found@) + (seq![ty@] + types(src@, end as int).0)
                        =~= type_models(found@).push(ty@) + types(src@, end as int).0);
                }
                found.push(ty);
                cur = end;
            },
            None => {
                proof {
                    assert(type_models(found@) + Seq::<TypeModel>::empty()
                        =~= type_models(found@));
                }
                break ;
            },
        }
    }
    (found, cur)
}

/// Reads the arrow of a signature.
pub fn parse_arrow(src: &Source, pos: usize) -> (r: Option<usize>)
    requires
        pos <= src@.len(),
    ensures
        match r {
            Some(end) => arrow(src@, pos as int) == Some(end as int) && pos < end <= src@.len(),
            None => arrow(src@, pos as int) is None,
        },
{
    proof {
        reveal_strlit("->");
        reveal_strlit("\u{2192}");
    }
    match src.reserved_op(pos, "->") {
        Some(end) => Some(end),
        None => src.reserved_op(pos, chars::ARROW),
    }
}

/// Reads the arrow of a constraint.
pub fn parse_fat_arrow(src: &Source, pos: usize) -> (r: Option<usize>)
    requires
        pos <= src@.len(),
    ensures
        match r {
            Some(end) => fat_arrow(src@, pos as int) == Some(end as int) && pos < end
                <= src@.len(),
            None => fat_arrow(src@, pos as int) is None,
        },
{
    proof {
        reveal_strlit("=>");
        reveal_strlit("\u{21D2}");
    }
    match src.reserved_op(pos, "=>") {
        Some(end) => Some(end),
        None => src.reserved_op(pos, chars::FAT_ARROW),
    }
}

/// Reads the rest of a type chain in the infix notation onto the chain:
/// types with an arrow before each.
pub fn parse_arrow_types(src: &Source, pos: usize, chain: &mut Vec<Type>) -> (end: usize)
    requires
        pos <= src@.len(),
    ensures
        type_models(final(chain)@) == type_models(old(chain)@) + arrow_types(src@, pos as int).0,
        arrow_types(src@, pos as int).1 == end,
        pos <= end <= src@.len(),
{
    let mut cur: usize = pos;
    proof {
        assert(type_models(chain@) + arrow_types(src@, pos as int).0 =~= type_models(chain@)
            + arrow_types(src@, pos as int).0);
    }
    loop
        invariant
            pos <= cur <= src@.len(),
            type_models(old(chain)@) + arrow_types(src@, pos as int).0 == type_models(chain@)
                + arrow_types(src@, cur as int).0,
            arrow_types(src@, pos as int).1 == arrow_types(src@, cur as int).1,
        ensures
            type_models(chain@) == type_models(old(chain)@) + arrow_types(src@, pos as int).0,
            arrow_types(src@, pos as int).1 == cur,
            pos <= cur <= src@.len(),
        decreases src@.len() - cur,
    {
        let next = match parse_arrow(src, cur) {
            Some(after) => parse_type(src, after),
            None => None,
        };
        match next {
            Some((ty, end)) => {
                proof {
                    lemma_type_models_push(chain@, ty);
                    assert(type_models(chain@) + (seq![ty@] + arrow_types(src@, end as int).0)
                        =~= type_models(chain@).push(ty@) + arrow_types(src@, end as int).0);
                }
                chain.push(ty);
                cur = end;
            },
            None => {
                proof {
                    assert(type_models(chain@) + Seq::<
                        TypeModel,
                    >::empty() =~= type_models(chain@));
                }
                break ;
            },
        }
    }
    cur
}

/// Reads a constraint in the prefix notation.
pub fn parse_prefix_constraint(src: &Source, pos: usize) -> (r: Option<(Constraint, usize)>)
    requires
        pos <= src@.len(),
    ensures
        match r {
            Some((c, end)) => prefix_constraint(src@, pos as int) == Some((c@, end as int)) && pos
                < end <= src@.len(),
            None => prefix_constraint(src@, pos as int) is None,
        },
{
    let p1 = match src.sign(pos, '(') {
        Some(p) => p,
        None => return None,
    };
    let p2 = match parse_fat_arrow(src, p1) {
        Some(p) => p,
        None => return None,
    };
    let (typeclass, p3) = match parse_name(src, p2) {
        Some(r) => r,
        None => return None,
    };
    let (generics, p4) = parse_names(src, p3);
    if generics.len() == 0 {
        return None;
    }
    match src.sign(p4, ')') {
        Some(end) => Some((Constraint { typeclass, generics }, end)),
        None => None,
    }
}

/// Reads a constraint in the infix notation.
pub fn parse_infix_constraint(src: &Source, pos: usize) -> (r: Option<(Constraint, usize)>)
    requires
        pos <= src@.len(),
    ensures
        match r {
            Some((c, end)) => infix_constraint(src@, pos as int) == Some((c@, end as int)) && pos
                < end <= src@.len(),
            None => infix_constraint(src@, pos as int) is None,
        },
{
    let p1 = match src.sign(pos, '{') {
        Some(p) => p,
        None => return None,
    };
    let (typeclass, p2) = match parse_name(src, p1) {
        Some(r) => r,
        None => return None,
    };
    let p3 = match parse_fat_arrow(src, p2) {
        Some(p) => p,
        None => return None,
    };
    let (generics, p4) = parse_names(src, p3);
    if generics.len() == 0 {
        return None;
    }
    match src.sign(p4, '}') {
        Some(end) => Some((Constraint { typeclass, generics }, end)),
        None => None,
    }
}

/// Reads a constraint.
pub fn parse_constraint(src: &Source, pos: usize) -> (r: Option<(Constraint, usize)>)
    requires
        pos <= src@.len(),
    ensures
        match r {
            Some((c, end)) => constraint(src@, pos as int) == Some((c@, end as int)) && pos < end
                <= src@.len(),
            None => constraint(src@, pos as int) is None,
        },
{
    match parse_prefix_constraint(src, pos) {
        Some(r) => Some(r),
        None => parse_infix_constraint(src, pos),
    }
}

/// Reads constraints, as many as stand there.
pub fn parse_constraints(src: &Source, pos: usize) -> (r: (Vec<Constraint>, usize))
    requires
        pos <= src@.len(),
    ensures
        constraints(src@, pos as int) == (constraint_models(r.0@), r.1 as int),
        pos <= r.1 <= src@.len(),
{
    let mut found: Vec<Constraint> = Vec::new();
    let mut cur: usize = pos;
    proof {
        assert(constraint_models(found@) =~= Seq::empty());
        assert(Seq::<ConstraintModel>::empty() + constraints(
            src@,
            pos as int,
        ).0 =~= constraints(src@, pos as int).0);
    }
    loop
        invariant
            pos <= cur <= src@.len(),
            constraints(src@, pos as int) == (
                constraint_models(found@) + constraints(src@, cur as int).0,
                constraints(src@, cur as int).1,
            ),
        ensures
            constraints(src@, pos as int) == (constraint_models(found@), cur as int),
            pos <= cur <= src@.len(),
        decreases src@.len() - cur,
    {
        match parse_constraint(src, cur) {
            Some((c, end)) => {
                proof {
                    assert(constraint_models(found@.push(c)) =~= constraint_models(found@).push(
                        c@,
                    ));
                    assert(constraint_models(found@) + (seq![c@] + constraints(
                        src@,
                        end as int,
                    ).0) =~= constraint_models(found@).push(c@) + constraints(src@, end as int).0);
                }
                found.push(c);
                cur = end;
            },
            None => {
                proof {
                    assert(constraint_models(found@) + Seq::<
                        ConstraintModel,
                    >::empty() =~= constraint_models(found@));
                }
                break ;
            },
        }
    }
    (found, cur)
}

/// The constraints of a signature: none where no constraint was found.
fn found_constraints(found: Vec<Constraint>) -> (r: Option<Vec<Constraint>>)
    ensures
        match r {
            Some(cs) => some_constraints(constraint_models(found@)) == Some(
                constraint_models(cs@),
            ),
            None => some_constraints(constraint_models(found@)) is None,
        },
{
    if found.len() > 0 {
        Some(found)
    } else {
        None
    }
}

/// Reads a signature in the prefix notation.
pub fn parse_prefix_signature(src: &Source, pos: usize) -> (r: Option<(Signature, usize)>)
    requires
        pos <= src@.len(),
    ensures
        match r {
            Some((sig, end)) => prefix_signature(src@, pos as int) == Some((sig@, end as int))
                && pos < end <= src@.len(),
            None => prefix_signature(src@, pos as int) is None,
        },
{
    let p1 = match src.sign(pos, '(') {
        Some(p) => p,
        None => return None,
    };
    let p2 = match parse_arrow(src, p1) {
        Some(p) => p,
        None => return None,
    };
    let (cs, p3) = parse_constraints(src, p2);
    let (typechain, p4) = parse_types(src, p3);
    proof {
        lemma_type_models(typechain@);
    }
    if typechain.len() == 0 {
        return None;
    }
    match src.sign(p4, ')') {
        Some(end) => Some((Signature { constraints: found_constraints(cs), typechain }, end)),
        None => None,
    }
}

/// Reads a signature in the infix notation.
pub fn parse_infix_signature(src: &Source, pos: usize) -> (r: Option<(Signature, usize)>)
    requires
        pos <= src@.len(),
    ensures
        match r {
            Some((sig, end)) => infix_signature(src@, pos as int) == Some((sig@, end as int))
                && pos < end <= src@.len(),
            None => infix_signature(src@, pos as int) is None,
        },
{
    let p1 = match src.sign(pos, '{') {
        Some(p) => p,
        None => return None,
    };
    let (cs, p2) = parse_constraints(src, p1);
    let (first, p3) = match parse_type(src, p2) {
        Some(r) => r,
        None => return None,
    };
    let mut typechain: Vec<Type> = Vec::new();
    typechain.push(first);
    proof {
        lemma_type_models_push(Seq::empty(), first);
        assert(typechain@ =~= Seq::<Type>::empty().push(first));
        assert(type_models(typechain@) =~= seq![first@]);
    }
    let p4 = parse_arrow_types(src, p3, &mut typechain);
    match src.sign(p4, '}') {
        Some(end) => Some((Signature { constraints: found_constraints(cs), typechain }, end)),
        None => None,
    }
}

/// Reads a signature.
pub fn parse_signature(src: &Source, pos: usize) -> (r: Option<(Signature, usize)>)
    requires
        pos <= src@.len(),
    ensures
        match r {
            Some((sig, end)) => signature(src@, pos as int) == Some((sig@, end as int)) && pos
                < end <= src@.len(),
            None => signature(src@, pos as int) is None,
        },
{
    match parse_prefix_signature(src, pos) {
        Some(r) => Some(r),
        None => parse_infix_signature(src, pos),
    }
}

/// Reads an element of a pattern.
pub fn parse_pat_element(src: &Source, pos: usize) -> (r: Option<(PatElement, usize)>)
    requires
        pos <= src@.len(),
    ensures
        match r {
            Some((p, end)) => pat_element(src@, pos as int) == Some((p@, end as int)) && pos < end
                <= src@.len(),
            None => pat_element(src@, pos as int) is None,
        },
{
    match parse_name(src, pos) {
        Some((n, end)) => Some((PatElement::Name(n), end)),
        None => match src.integer(pos) {
            Some((n, end)) => Some((PatElement::Lit(Literal::IntConst(n)), end)),
            None => None,
        },
    }
}

/// Reads a pattern.
pub fn parse_pattern(src: &Source, pos: usize) -> (r: Option<(Vec<PatElement>, usize)>)
    requires
        pos <= src@.len(),
    ensures
        match r {
            Some((p, end)) => pattern(src@, pos as int) == Some((pattern_model(p@), end as int))
                && pos < end <= src@.len(),
            None => pattern(src@, pos as int) is None,
        },
{
    let p1 = match src.sign(pos, '(') {
        Some(p) => p,
        None => return None,
    };
    let mut found: Vec<PatElement> = Vec::new();
    let mut cur: usize = p1;
    proof {
        assert(pattern_model(found@) =~= Seq::empty());
        assert(Seq::<PatElementModel>::empty() + pat_elements(
            src@,
            p1 as int,
        ).0 =~= pat_elements(src@, p1 as int).0);
    }
    loop
        invariant
            p1 <= cur <= src@.len(),
            pat_elements(src@, p1 as int) == (
                pattern_model(found@) + pat_elements(src@, cur as int).0,
                pat_elements(src@, cur as int).1,
            ),
        ensures
            pat_elements(src@, p1 as int) == (pattern_model(found@), cur as int),
            p1 <= cur <= src@.len(),
        decreases src@.len() - cur,
    {
        match parse_pat_element(src, cur) {
            Some((p, end)) => {
                proof {
                    assert(pattern_model(found@.push(p)) =~= pattern_model(found@).push(p@));
                    assert(pattern_model(found@) + (seq![p@] + pat_elements(src@, end as int).0)
                        =~= pattern_model(found@).push(p@) + pat_elements(src@, end as int).0);
                }
                found.push(p);
                cur = end;
            },
            None => {
                proof {
                    assert(pattern_model(found@) + Seq::<
                        PatElementModel,
                    >::empty() =~= pattern_model(found@));
                }
                break ;
            },
        }
    }
    match src.sign(cur, ')') {
        Some(end) => Some((found, end)),
        None => None,
    }
}

/// Reads a reference to a name.
pub fn parse_name_ref(src: &Source, pos: usize) -> (r: Option<(NameRef, usize)>)
    requires
        pos <= src@.len(),
    ensures
        match r {
            Some((n, end)) => name_ref(src@, pos as int) == Some((n@, end as int)) && pos < end
                <= src@.len(),
            None => name_ref(src@, pos as int) is None,
        },
{
    if pos < src.len() && src.at(pos) == '$' {
        match parse_name(src, pos + 1) {
            Some((n, end)) => Some((NameRef::Deref(n), end)),
            None => None,
        }
    } else if pos < src.len() && src.at(pos) == '@' {
        match parse_name(src, pos + 1) {
            Some((n, end)) => Some((NameRef::Unique(n), end)),
            None => None,
        }
    } else if pos < src.len() && src.at(pos) == '&' {
        match parse_name(src, pos + 1) {
            Some((n, end)) => Some((NameRef::Borrowed(n), end)),
            None => None,
        }
    } else {
        match parse_name(src, pos) {
            Some((n, end)) => Some((NameRef::Owned(n), end)),
            None => None,
        }
    }
}

/// Reads the word that starts a definition.
fn parse_define_word(src: &Source, pos: usize) -> (r: Option<usize>)
    requires
        pos <= src@.len(),
    ensures
        match r {
            Some(end) => define_word(src@, pos as int) == Some(end as int) && pos < end
                <= src@.len(),
            None => define_word(src@, pos as int) is None,
        },
{
    proof {
        reveal_strlit("def");
        reveal_strlit("define");
    }
    match src.reserved(pos, "def") {
        Some(end) => Some(end),
        None => src.reserved(pos, "define"),
    }
}

/// Reads the word that starts a lambda.
fn parse_lambda_word(src: &Source, pos: usize) -> (r: Option<usize>)
    requires
        pos <= src@.len(),
    ensures
        match r {
            Some(end) => lambda_word(src@, pos as int) == Some(end as int) && pos < end
                <= src@.len(),
            None => lambda_word(src@, pos as int) is None,
        },
{
    proof {
        reveal_strlit("lambda");
        reveal_strlit("\u{03bb}");
    }
    match src.reserved(pos, "lambda") {
        Some(end) => Some(end),
        None => src.reserved(pos, chars::LAMBDA),
    }
}

/// Reads the word that starts a function.
fn parse_function_word(src: &Source, pos: usize) -> (r: Option<usize>)
    requires
        pos <= src@.len(),
    ensures
        match r {
            Some(end) => function_word(src@, pos as int) == Some(end as int) && pos < end
                <= src@.len(),
            None => function_word(src@, pos as int) is None,
        },
{
    proof {
        reveal_strlit("fn");
    }
    match src.reserved(pos, "fn") {
        Some(end) => Some(end),
        None => parse_lambda_word(src, pos),
    }
}

/// Reads an expression.
pub fn parse_expr(src: &Source, pos: usize) -> (r: Option<(Parsed, usize)>)
    requires
        pos <= src@.len(),
    ensures
        match r {
            Some((e, end)) => expr(src@, pos as int) == Some((expr_model(e), end as int)) && pos
                < end <= src@.len(),
            None => expr(src@, pos as int) is None,
        },
    decreases src@.len() - pos, 0nat,
{
    match src.sign(pos, '(') {
        Some(p1) => match parse_compound(src, p1) {
            Some((form, p2)) => match src.sign(p2, ')') {
                Some(end) => Some((Annotated::new(form, src.position(pos)), end)),
                None => None,
            },
            None => None,
        },
        None => match src.integer(pos) {
            Some((n, end)) => Some(
                (Annotated::new(Form::Lit(Literal::IntConst(n)), src.position(pos)), end),
            ),
            None => match parse_name_ref(src, pos) {
                Some((r, end)) => Some(
                    (Annotated::new(Form::NameRef(r), src.position(pos)), end),
                ),
                None => None,
            },
        },
    }
}

/// Reads expressions, as many as stand there.
pub fn parse_exprs(src: &Source, pos: usize) -> (r: (Vec<Parsed>, usize))
    requires
        pos <= src@.len(),
    ensures
        exprs(src@, pos as int) == (body_model(r.0@), r.1 as int),
        pos <= r.1 <= src@.len(),
    decreases src@.len() - pos, 1nat,
{
    let mut found: Vec<Parsed> = Vec::new();
    let mut cur: usize = pos;
    proof {
        assert(Seq::<ExprModel>::empty() + exprs(src@, pos as int).0
            =~= exprs(src@, pos as int).0);
    }
    loop
        invariant
            pos <= cur <= src@.len(),
            exprs(src@, pos as int) == (
                body_model(found@) + exprs(src@, cur as int).0,
                exprs(src@, cur as int).1,
            ),
        ensures
            exprs(src@, pos as int) == (body_model(found@), cur as int),
            pos <= cur <= src@.len(),
        decreases src@.len() - cur,
    {
        match parse_expr(src, cur) {
            Some((e, end)) => {
                proof {
                    lemma_body_model_push(found@, e);
                    assert(body_model(found@) + (seq![expr_model(e)] + exprs(src@, end as int).0)
                        =~= body_model(found@).push(expr_model(e)) + exprs(src@, end as int).0);
                }
                found.push(e);
                cur = end;
            },
            None => {
                proof {
                    assert(body_model(found@) + Seq::<ExprModel>::empty()
                        =~= body_model(found@));
                }
                break ;
            },
        }
    }
    (found, cur)
}

/// Reads what stands between the parentheses of a compound form.
pub fn parse_compound(src: &Source, pos: usize) -> (r: Option<(Form<'static, UnscopedState>, usize)>)
    requires
        pos <= src@.len(),
    ensures
        match r {
            Some((f, end)) => compound(src@, pos as int) == Some((form_model(f), end as int))
                && pos < end <= src@.len(),
            None => compound(src@, pos as int) is None,
        },
    decreases src@.len() - pos, 5nat,
{
    match parse_call(src, pos) {
        Some(r) => Some(r),
        None => match parse_definition(src, pos) {
            Some(r) => Some(r),
            None => match parse_conditional(src, pos) {
                Some(r) => Some(r),
                None => match parse_lambda(src, pos) {
                    Some(r) => Some(r),
                    None => parse_let(src, pos),
                },
            },
        },
    }
}

/// Reads a function application.
pub fn parse_call(src: &Source, pos: usize) -> (r: Option<(Form<'static, UnscopedState>, usize)>)
    requires
        pos <= src@.len(),
    ensures
        match r {
            Some((f, end)) => call(src@, pos as int) == Some((form_model(f), end as int)) && pos
                < end <= src@.len(),
            None => call(src@, pos as int) is None,
        },
    decreases src@.len() - pos, 4nat,
{
    match parse_name(src, pos) {
        Some((fun, p1)) => {
            let (params, end) = parse_exprs(src, p1);
            Some((Form::App(AppForm { fun, params }), end))
        },
        None => None,
    }
}

/// Reads a definition.
pub fn parse_definition(src: &Source, pos: usize) -> (r: Option<
    (Form<'static, UnscopedState>, usize),
>)
    requires
        pos <= src@.len(),
    ensures
        match r {
            Some((f, end)) => definition(src@, pos as int) == Some((form_model(f), end as int))
                && pos < end <= src@.len(),
            None => definition(src@, pos as int) is None,
        },
    decreases src@.len() - pos, 4nat,
{
    let p1 = match parse_define_word(src, pos) {
        Some(p) => p,
        None => return None,
    };
    let (name, p2) = match parse_name(src, p1) {
        Some(r) => r,
        None => return None,
    };
    match parse_function(src, p2) {
        Some((fun, end)) => Some(
            (
                Form::Define(
                    DefForm::Function { name, fun: Annotated::new(fun, src.position(p2)) },
                ),
                end,
            ),
        ),
        None => match parse_type(src, p2) {
            Some((annot, p3)) => match parse_expr(src, p3) {
                Some((value, end)) => Some(
                    (Form::Define(DefForm::TopLevel { name, annot, value: Rc::new(value) }), end),
                ),
                None => None,
            },
            None => None,
        },
    }
}

/// Reads a conditional.
pub fn parse_conditional(src: &Source, pos: usize) -> (r: Option<
    (Form<'static, UnscopedState>, usize),
>)
    requires
        pos <= src@.len(),
    ensures
        match r {
            Some((f, end)) => conditional(src@, pos as int) == Some((form_model(f), end as int))
                && pos < end <= src@.len(),
            None => conditional(src@, pos as int) is None,
        },
    decreases src@.len() - pos, 4nat,
{
    proof {
        reveal_strlit("if");
    }
    let p1 = match src.reserved(pos, "if") {
        Some(p) => p,
        None => return None,
    };
    let (condition, p2) = match parse_expr(src, p1) {
        Some(r) => r,
        None => return None,
    };
    let (if_clause, p3) = match parse_expr(src, p2) {
        Some(r) => r,
        None => return None,
    };
    match parse_expr(src, p3) {
        Some((else_clause, end)) => Some(
            (
                Form::If {
                    condition: Rc::new(condition),
                    if_clause: Rc::new(if_clause),
                    else_clause: Some(Rc::new(else_clause)),
                },
                end,
            ),
        ),
        None => Some(
            (
                Form::If {
                    condition: Rc::new(condition),
                    if_clause: Rc::new(if_clause),
                    else_clause: None,
                },
                p3,
            ),
        ),
    }
}

/// Reads a lambda.
pub fn parse_lambda(src: &Source, pos: usize) -> (r: Option<(Form<'static, UnscopedState>, usize)>)
    requires
        pos <= src@.len(),
    ensures
        match r {
            Some((f, end)) => lambda(src@, pos as int) == Some((form_model(f), end as int)) && pos
                < end <= src@.len(),
            None => lambda(src@, pos as int) is None,
        },
    decreases src@.len() - pos, 4nat,
{
    match parse_lambda_word(src, pos) {
        Some(p1) => match parse_function(src, p1) {
            Some((fun, end)) => Some((Form::Lambda(fun), end)),
            None => None,
        },
        None => None,
    }
}

/// Reads a function.
pub fn parse_function(src: &Source, pos: usize) -> (r: Option<
    (Function<'static, UnscopedState>, usize),
>)
    requires
        pos <= src@.len(),
    ensures
        match r {
            Some((f, end)) => function(src@, pos as int) == Some((function_model(f), end as int))
                && pos < end <= src@.len(),
            None => function(src@, pos as int) is None,
        },
    decreases src@.len() - pos, 3nat,
{
    let p1 = match src.sign(pos, '(') {
        Some(p) => p,
        None => return None,
    };
    let p2 = match parse_function_word(src, p1) {
        Some(p) => p,
        None => return None,
    };
    let (sig, p3) = match parse_signature(src, p2) {
        Some(r) => r,
        None => return None,
    };
    let (equations, p4) = parse_equations(src, p3);
    proof {
        lemma_equations_model_len(equations@);
    }
    if equations.len() == 0 {
        return None;
    }
    match src.sign(p4, ')') {
        Some(end) => Some((Function { sig, equations }, end)),
        None => None,
    }
}

/// Reads an equation.
pub fn parse_equation(src: &Source, pos: usize) -> (r: Option<
    (Annotated<'static, Equation<'static, UnscopedState>, UnscopedState>, usize),
>)
    requires
        pos <= src@.len(),
    ensures
        match r {
            Some((e, end)) => equation(src@, pos as int) == Some((equation_model(e), end as int))
                && pos < end <= src@.len(),
            None => equation(src@, pos as int) is None,
        },
    decreases src@.len() - pos, 1nat,
{
    let p1 = match src.sign(pos, '(') {
        Some(p) => p,
        None => return None,
    };
    let (pattern, p2) = match parse_pattern(src, p1) {
        Some(r) => r,
        None => return None,
    };
    let (body, p3) = parse_exprs(src, p2);
    match src.sign(p3, ')') {
        Some(end) => Some((Annotated::new(Equation { pattern, body }, src.position(pos)), end)),
        None => None,
    }
}

/// Reads equations, as many as stand there.
pub fn parse_equations(src: &Source, pos: usize) -> (r: (
    Vec<Annotated<'static, Equation<'static, UnscopedState>, UnscopedState>>,
    usize,
))
    requires
        pos <= src@.len(),
    ensures
        equations(src@, pos as int) == (equations_model(r.0@), r.1 as int),
        pos <= r.1 <= src@.len(),
    decreases src@.len() - pos, 2nat,
{
    let mut found: Vec<Annotated<'static, Equation<'static, UnscopedState>, UnscopedState>> =
        Vec::new();
    let mut cur: usize = pos;
    proof {
        assert(Seq::<EquationModel>::empty() + equations(
            src@,
            pos as int,
        ).0 =~= equations(src@, pos as int).0);
    }
    loop
        invariant
            pos <= cur <= src@.len(),
            equations(src@, pos as int) == (
                equations_model(found@) + equations(src@, cur as int).0,
                equations(src@, cur as int).1,
            ),
        ensures
            equations(src@, pos as int) == (equations_model(found@), cur as int),
            pos <= cur <= src@.len(),
        decreases src@.len() - cur,
    {
        match parse_equation(src, cur) {
            Some((e, end)) => {
                proof {
                    lemma_equations_model_push(found@, e);
                    assert(equations_model(found@) + (seq![equation_model(e)] + equations(
                        src@,
                        end as int,
                    ).0) =~= equations_model(found@).push(equation_model(e)) + equations(
                        src@,
                        end as int,
                    ).0);
                }
                found.push(e);
                cur = end;
            },
            None => {
                proof {
                    assert(equations_model(found@) + Seq::<
                        EquationModel,
                    >::empty() =~= equations_model(found@));
                }
                break ;
            },
        }
    }
    (found, cur)
}

/// Reads a binding.
pub fn parse_binding(src: &Source, pos: usize) -> (r: Option<
    (Annotated<'static, Binding<'static, UnscopedState>, UnscopedState>, usize),
>)
    requires
        pos <= src@.len(),
    ensures
        match r {
            Some((b, end)) => binding(src@, pos as int) == Some(
                (
                    PlacedBindingModel { position: b.position, binding: binding_model(b.node) },
                    end as int,
                ),
            ) && pos < end <= src@.len(),
            None => binding(src@, pos as int) is None,
        },
    decreases src@.len() - pos, 1nat,
{
    let (name, p1) = match parse_name(src, pos) {
        Some(r) => r,
        None => return None,
    };
    let (typ, p2) = match parse_type(src, p1) {
        Some(r) => r,
        None => return None,
    };
    match parse_expr(src, p2) {
        Some((value, end)) => Some(
            (
                Annotated::new(Binding { name, typ, value: Rc::new(value) }, src.position(pos)),
                end,
            ),
        ),
        None => None,
    }
}

/// Reads bindings, each between parentheses, as many as stand there.
pub fn parse_bindings(src: &Source, pos: usize) -> (r: (
    Vec<Annotated<'static, Binding<'static, UnscopedState>, UnscopedState>>,
    usize,
))
    requires
        pos <= src@.len(),
    ensures
        bindings(src@, pos as int) == (bindings_model(r.0@), r.1 as int),
        pos <= r.1 <= src@.len(),
    decreases src@.len() - pos, 2nat,
{
    let mut found: Vec<Annotated<'static, Binding<'static, UnscopedState>, UnscopedState>> =
        Vec::new();
    let mut cur: usize = pos;
    proof {
        assert(Seq::<PlacedBindingModel>::empty() + bindings(src@, pos as int).0 =~= bindings(
            src@,
            pos as int,
        ).0);
    }
    loop
        invariant
            pos <= cur <= src@.len(),
            bindings(src@, pos as int) == (
                bindings_model(found@) + bindings(src@, cur as int).0,
                bindings(src@, cur as int).1,
            ),
        ensures
            bindings(src@, pos as int) == (bindings_model(found@), cur as int),
            pos <= cur <= src@.len(),
        decreases src@.len() - cur,
    {
        let next = match src.sign(cur, '(') {
            Some(p1) => match parse_binding(src, p1) {
                Some((b, p2)) => match src.sign(p2, ')') {
                    Some(end) => Some((b, end)),
                    None => None,
                },
                None => None,
            },
            None => None,
        };
        match next {
            Some((b, end)) => {
                proof {
                    lemma_bindings_model_push(found@, b);
                    let m = PlacedBindingModel {
                        position: b.position,
                        binding: binding_model(b.node),
                    };
                    assert(bindings_model(found@) + (seq![m] + bindings(src@, end as int).0)
                        =~= bindings_model(found@).push(m) + bindings(src@, end as int).0);
                }
                found.push(b);
                cur = end;
            },
            None => {
                proof {
                    assert(bindings_model(found@) + Seq::<PlacedBindingModel>::empty()
                        =~= bindings_model(found@));
                }
                break ;
            },
        }
    }
    (found, cur)
}

/// Reads a `let` form.
pub fn parse_let(src: &Source, pos: usize) -> (r: Option<(Form<'static, UnscopedState>, usize)>)
    requires
        pos <= src@.len(),
    ensures
        match r {
            Some((f, end)) => let_form(src@, pos as int) == Some((form_model(f), end as int))
                && pos < end <= src@.len(),
            None => let_form(src@, pos as int) is None,
        },
    decreases src@.len() - pos, 4nat,
{
    proof {
        reveal_strlit("let");
    }
    let p1 = match src.reserved(pos, "let") {
        Some(p) => p,
        None => return None,
    };
    let p2 = match src.sign(p1, '(') {
        Some(p) => p,
        None => return None,
    };
    let (bindings, p3) = parse_bindings(src, p2);
    let p4 = match src.sign(p3, ')') {
        Some(p) => p,
        None => return None,
    };
    let (body, end) = parse_exprs(src, p4);
    Some((Form::Let(LetForm::Let { bindings, body }), end))
}

/// Parses the source text of a module into its top-level expressions.
///
/// The expressions are those that stand at the start of the text, after
/// white space and comments. What follows the last expression is not looked
/// at. Where no expression stands at the start of the text, the text is no
/// module: the error says so, at the place where an expression should
/// stand.
pub fn parse_module(src: &Source) -> (r: Result<Vec<Parsed>, Positional<String>>)
    ensures
        match r {
            Ok(found) => module(src@) == Some(body_model(found@)),
            Err(problem) => module(src@) is None && problem.pos == place(
                src@,
                skip_blank(src@, 0),
            ) && problem.value@ == "[error] expected an expression"@,
        },
{
    let start = src.skip_blank(0);
    let (found, _) = parse_exprs(src, start);
    proof {
        lemma_body_model(found@);
    }
    if found.len() > 0 {
        Ok(found)
    } else {
        Err(Positional::from(src.position(start), String::from_str("[error] expected an expression")))
    }
}

/// Parses a text as the source of a module. The characters of the text are
/// taken one by one, each found from the start of the text: for a long text,
/// make a `Source` of its characters and parse that.
pub fn parse_text(code: &str) -> (r: Result<Vec<Parsed>, Positional<String>>)
    ensures
        match r {
            Ok(found) => module(code@) == Some(body_model(found@)),
            Err(problem) => module(code@) is None && problem.pos == place(
                code@,
                skip_blank(code@, 0),
            ) && problem.value@ == "[error] expected an expression"@,
        },
{
    let n = code.unicode_len();
    let mut text: Vec<char> = Vec::new();
    let mut i: usize = 0;
    while i < n
        invariant
            i <= n,
            n == code@.len(),
            text@ == code@.subrange(0, i as int),
        decreases n - i,
    {
        text.push(code.get_char(i));
        i += 1;
        assert(text@ =~= code@.subrange(0, i as int));
    }
    assert(text@ =~= code@);
    let src = Source::new(text);
    parse_module(&src)
}

/// A signature that stands in a text has a type chain with a type in it, so
/// that it has a return type and an arity.
pub proof fn law_signatures_have_a_return_type(text: Seq<char>, pos: int)
    requires
        signature(text, pos) is Some,
    ensures
        signature(text, pos) matches Some(found) && found.0.typechain.len() > 0,
{
}

/// A function that stands in a text has an equation.
pub proof fn law_functions_have_an_equation(text: Seq<char>, pos: int)
    requires
        function(text, pos) is Some,
    ensures
        function(text, pos) matches Some(found) && found.0.equations.len() > 0,
{
}

} // verus!
