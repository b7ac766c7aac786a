use std::rc::Rc;

use mnemosyne::compile::{word_size, MachineType};
use mnemosyne::position::Positional;
use mnemosyne::semantic::types::{Constraint, Int, Primitive, Reference, Signature, Type};
use mnemosyne::semantic::SymbolAnnotation;

fn prim(p: Primitive) -> Type {
    Type::Prim(p)
}

fn word() -> Type {
    prim(Primitive::IntSize)
}

fn name(n: &str) -> Positional<String> {
    Positional::at(1, 1, n.to_string())
}

#[test]
fn arity_is_the_chain_length_less_one() {
    let unary = Signature { constraints: None, typechain: vec![word(), word()] };
    assert_eq!(unary.arity(), 1);
    let nullary = Signature { constraints: None, typechain: vec![prim(Primitive::Bool)] };
    assert_eq!(nullary.arity(), 0);
    let ternary = Signature {
        constraints: None,
        typechain: vec![word(), prim(Primitive::Bool), prim(Primitive::Char), word()],
    };
    assert_eq!(ternary.arity(), 3);
}

#[test]
fn return_type_is_the_last_of_the_chain() {
    let sig = Signature {
        constraints: None,
        typechain: vec![word(), prim(Primitive::Char), prim(Primitive::Bool)],
    };
    assert_eq!(sig.return_type(), &prim(Primitive::Bool));
    let constant = Signature { constraints: None, typechain: vec![prim(Primitive::Double)] };
    assert_eq!(constant.return_type(), &prim(Primitive::Double));
    assert_eq!(sig.typechain.len(), sig.arity() + 1);
}

#[test]
fn primitives_render_under_their_names() {
    let cases = vec![
        (Primitive::Int(Int::Int8), "i8"),
        (Primitive::Int(Int::Int16), "i16"),
        (Primitive::Int(Int::Int32), "i32"),
        (Primitive::Int(Int::Int64), "i64"),
        (Primitive::Uint(Int::Int8), "u8"),
        (Primitive::Uint(Int::Int16), "u16"),
        (Primitive::Uint(Int::Int32), "u32"),
        (Primitive::Uint(Int::Int64), "u64"),
        (Primitive::IntSize, "int"),
        (Primitive::UintSize, "uint"),
        (Primitive::Byte, "byte"),
        (Primitive::Char, "char"),
        (Primitive::Str, "string"),
        (Primitive::Bool, "bool"),
        (Primitive::Float, "float"),
        (Primitive::Double, "double"),
    ];
    for (p, text) in cases {
        assert_eq!(p.to_string(), text);
        assert_eq!(p.name(), text);
        assert_eq!(Type::Prim(p).to_string(), text);
    }
}

#[test]
fn integer_widths() {
    assert_eq!(Int::Int8.bits(), 8);
    assert_eq!(Int::Int16.bits(), 16);
    assert_eq!(Int::Int32.bits(), 32);
    assert_eq!(Int::Int64.bits(), 64);
}

#[test]
fn references_render_their_qualifier_first() {
    assert_eq!(Reference::Borrowed(Rc::new(word())).to_string(), "&int");
    assert_eq!(Reference::Moved(Rc::new(word())).to_string(), "move int");
    assert_eq!(Reference::Unique(Rc::new(word())).to_string(), "@int");
    assert_eq!(Reference::Raw(Rc::new(word())).to_string(), "*int");
    let nested = Type::Ref(Reference::Raw(Rc::new(Type::Ref(Reference::Borrowed(Rc::new(
        prim(Primitive::Uint(Int::Int8)),
    ))))));
    assert_eq!(nested.to_string(), "*&u8");
}

#[test]
fn signature_without_constraints_renders_in_the_arrow_form() {
    let sig = Signature { constraints: None, typechain: vec![word(), word()] };
    assert_eq!(sig.to_string(), "(\u{2192} int int)");
    let one = Signature { constraints: None, typechain: vec![prim(Primitive::Bool)] };
    assert_eq!(one.to_string(), "(\u{2192} bool)");
    let higher = Signature {
        constraints: None,
        typechain: vec![Type::Function(sig), prim(Primitive::Char), Type::Symbol("a".to_string())],
    };
    assert_eq!(higher.to_string(), "(\u{2192} (\u{2192} int int) char a)");
    assert_eq!(Type::Function(one).to_string(), "(\u{2192} bool)");
}

#[test]
fn signature_with_constraints_renders_in_the_braces_form() {
    let sig = Signature {
        constraints: Some(vec![
            Constraint { typeclass: name("Eq"), generics: vec![name("a")] },
            Constraint { typeclass: name("Map"), generics: vec![name("k"), name("v")] },
        ]),
        typechain: vec![
            Type::Symbol("a".to_string()),
            Type::Symbol("a".to_string()),
            prim(Primitive::Bool),
        ],
    };
    assert_eq!(
        sig.to_string(),
        "{{Eq \u{21D2} a} {Map \u{21D2} k v} a \u{2192} a \u{2192} bool}"
    );
    let bare = Signature { constraints: Some(vec![]), typechain: vec![word()] };
    assert_eq!(bare.to_string(), "{int}");
}

#[test]
fn constraint_renders_class_then_generics() {
    let c = Constraint { typeclass: name("Show"), generics: vec![name("a"), name("b")] };
    assert_eq!(c.to_string(), "{Show \u{21D2} a b}");
}

#[test]
fn algebraic_and_symbol_types() {
    let sum = Type::Algebraic(vec![word(), prim(Primitive::Bool), Type::Symbol("nil".to_string())]);
    assert_eq!(sum.to_string(), "int | bool | nil");
    assert_eq!(Type::Algebraic(vec![]).to_string(), "");
    assert_eq!(Type::Symbol("'tag".to_string()).to_string(), "'tag");
}

#[test]
fn equality_of_types_is_structural() {
    let a = Type::Function(Signature { constraints: None, typechain: vec![word(), word()] });
    let b = Type::Function(Signature { constraints: None, typechain: vec![word(), word()] });
    let c = Type::Function(Signature { constraints: None, typechain: vec![word()] });
    assert_eq!(a, b);
    assert_ne!(a, c);
    assert_ne!(word(), prim(Primitive::UintSize));
    assert_ne!(
        Type::Ref(Reference::Borrowed(Rc::new(word()))),
        Type::Ref(Reference::Moved(Rc::new(word())))
    );
}

#[test]
fn clone_of_a_type_is_equal_to_it() {
    let t = Type::Function(Signature {
        constraints: Some(vec![Constraint { typeclass: name("Eq"), generics: vec![name("a")] }]),
        typechain: vec![
            Type::Ref(Reference::Unique(Rc::new(Type::Symbol("a".to_string())))),
            Type::Algebraic(vec![word(), prim(Primitive::Byte)]),
        ],
    });
    assert_eq!(t.clone(), t);
    assert_eq!(t.clone().to_string(), t.to_string());
}

#[test]
fn annotations_know_function_and_primitive_types() {
    let function = Type::Function(Signature { constraints: None, typechain: vec![word()] });
    let def_fn: SymbolAnnotation = SymbolAnnotation::TypeDef(function.clone());
    let val_fn: SymbolAnnotation = SymbolAnnotation::Value { ty: function, proven_value: None };
    let def_prim: SymbolAnnotation = SymbolAnnotation::TypeDef(word());
    let val_prim: SymbolAnnotation = SymbolAnnotation::Value { ty: word(), proven_value: None };
    let def_sym: SymbolAnnotation = SymbolAnnotation::TypeDef(Type::Symbol("a".to_string()));
    assert!(def_fn.is_fn_type());
    assert!(val_fn.is_fn_type());
    assert!(!def_prim.is_fn_type());
    assert!(!val_prim.is_fn_type());
    assert!(def_prim.is_prim_type());
    assert!(!val_prim.is_prim_type());
    assert!(!def_fn.is_prim_type());
    assert!(!def_sym.is_prim_type());
    assert!(!def_sym.is_fn_type());
    assert_eq!(val_prim.clone(), val_prim);
}

#[test]
fn primitives_are_lowered_to_machine_types() {
    assert_eq!(word_size(), std::mem::size_of::<isize>());
    assert_eq!(Primitive::IntSize.machine_type(8), Some(MachineType::Int(8)));
    assert_eq!(Primitive::UintSize.machine_type(4), Some(MachineType::Int(4)));
    assert_eq!(Primitive::Int(Int::Int16).machine_type(8), Some(MachineType::Int(16)));
    assert_eq!(Primitive::Uint(Int::Int64).machine_type(8), Some(MachineType::Int(64)));
    assert_eq!(Primitive::Float.machine_type(8), Some(MachineType::Float));
    assert_eq!(Primitive::Double.machine_type(8), Some(MachineType::Double));
    assert_eq!(Primitive::Byte.machine_type(8), Some(MachineType::Byte));
    assert_eq!(Primitive::Char.machine_type(8), None);
    assert_eq!(Primitive::Str.machine_type(8), None);
    assert_eq!(Primitive::Bool.machine_type(8), None);
}

#[test]
fn equality_of_constraints_ignores_where_the_names_were_written() {
    let here = Constraint {
        typeclass: Positional::at(1, 1, "Eq".to_string()),
        generics: vec![Positional::at(4, 1, "a".to_string())],
    };
    let there = Constraint {
        typeclass: Positional::at(9, 7, "Eq".to_string()),
        generics: vec![Positional::at(12, 7, "a".to_string())],
    };
    let other = Constraint {
        typeclass: Positional::at(1, 1, "Eq".to_string()),
        generics: vec![Positional::at(4, 1, "b".to_string())],
    };
    let longer = Constraint {
        typeclass: Positional::at(1, 1, "Eq".to_string()),
        generics: vec![name("a"), name("a")],
    };
    assert!(here == there);
    assert!(here != other);
    assert!(here != longer);
    let sig = |c: Option<Vec<Constraint>>| Signature { constraints: c, typechain: vec![word()] };
    assert!(sig(Some(vec![here.clone()])) == sig(Some(vec![there])));
    assert!(sig(Some(vec![here.clone()])) != sig(Some(vec![other])));
    assert!(sig(Some(vec![here])) != sig(None));
    assert!(sig(Some(vec![])) != sig(None));
    assert!(sig(None) == sig(None));
}

#[test]
fn types_with_different_tags_or_substructure_are_never_equal() {
    let all = vec![
        word(),
        prim(Primitive::Bool),
        Type::Symbol("int".to_string()),
        Type::Symbol("bool".to_string()),
        Type::Algebraic(vec![]),
        Type::Algebraic(vec![word()]),
        Type::Algebraic(vec![word(), word()]),
        Type::Function(Signature { constraints: None, typechain: vec![] }),
        Type::Function(Signature { constraints: None, typechain: vec![word()] }),
        Type::Ref(Reference::Raw(Rc::new(word()))),
        Type::Ref(Reference::Unique(Rc::new(word()))),
        Type::Ref(Reference::Unique(Rc::new(prim(Primitive::Bool)))),
    ];
    for (i, a) in all.iter().enumerate() {
        for (j, b) in all.iter().enumerate() {
            assert_eq!(a == b, i == j);
        }
    }
}
