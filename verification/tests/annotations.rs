use std::rc::Rc;

use mnemosyne::ast::{AnnotateTypes, Node};
use mnemosyne::errors::Problem;
use mnemosyne::mnemosyne_version;
use mnemosyne::position::{Position, Positional};
use mnemosyne::semantic::annotations::{
    Annotated, ScopedState, ScopednessTypestate, Unscoped, UnscopedState,
};
use mnemosyne::semantic::ast::{
    AppForm, Binding, Data, DefForm, Equation, Form, Formal, Function, Ident, LetForm, Literal,
    Logical, Module, NameRef, NumBOp, NumExpr, PatElement, Variant,
};
use mnemosyne::semantic::types::{Primitive, Signature, Type};
use mnemosyne::semantic::{SymbolAnnotation, SymbolTable};

type U = UnscopedState;
type UExpr = Unscoped<'static, Form<'static, U>>;

fn id(name: &str) -> Ident {
    Positional::at(1, 1, name.to_string())
}

fn word() -> Type {
    Type::Prim(Primitive::IntSize)
}

fn value(ty: Type) -> SymbolAnnotation<'static> {
    SymbolAnnotation::Value { ty, proven_value: None }
}

fn expr(form: Form<'static, U>) -> UExpr {
    Annotated::new(form, Position::new(1, 1))
}

fn name_ref(name: &str) -> UExpr {
    expr(Form::NameRef(NameRef::Owned(id(name))))
}

fn lit(n: i64) -> UExpr {
    expr(Form::Lit(Literal::IntConst(n)))
}

fn call(fun: &str, params: Vec<UExpr>) -> UExpr {
    expr(Form::App(AppForm { fun: id(fun), params }))
}

#[test]
fn typestate_markers() {
    assert!(ScopedState::is_scoped());
    assert!(!UnscopedState::is_scoped());
}

#[test]
fn version_names_the_language() {
    assert_eq!(mnemosyne_version(), "Mnemosyne 0.1.0");
}

#[test]
fn with_scope_attaches_the_table() {
    let mut table = SymbolTable::new();
    table.insert("x".to_string(), value(word()));
    let node: Unscoped<u8> = Annotated::new(7u8, Position::new(3, 4));
    let scoped = node.with_scope(table);
    assert_eq!(scoped.node, 7);
    assert_eq!(*scoped, 7);
    assert_eq!(scoped.position, Position::new(3, 4));
    assert_eq!(scoped.get_type("x"), Some(&value(word())));
    assert_eq!(scoped.get_type("y"), None);
    assert!(scoped.is_defined_here("x"));
    assert!(!scoped.is_defined_here("y"));
    assert_eq!(scoped.symbol_table().get(&"x".to_string()), Some(&value(word())));
}

#[test]
fn get_type_looks_through_the_chain_and_is_defined_here_does_not() {
    let mut root = SymbolTable::new();
    root.insert("outer".to_string(), value(word()));
    let mut child = root.fork();
    child.insert("inner".to_string(), value(Type::Prim(Primitive::Bool)));
    let scoped = Annotated::new((), Position::new(0, 0)).with_scope(child);
    assert_eq!(scoped.get_type("outer"), Some(&value(word())));
    assert_eq!(scoped.get_type("inner"), Some(&value(Type::Prim(Primitive::Bool))));
    assert!(scoped.is_defined_here("inner"));
    assert!(!scoped.is_defined_here("outer"));
}

#[test]
fn annotation_equality_ignores_position_and_scope() {
    let a: Unscoped<String> = Annotated::new("x".to_string(), Position::new(1, 1));
    let b: Unscoped<String> = Annotated::new("x".to_string(), Position::new(9, 9));
    let c: Unscoped<String> = Annotated::new("y".to_string(), Position::new(1, 1));
    assert!(a == b);
    assert!(a != c);
    let mut table = SymbolTable::new();
    table.insert("x".to_string(), value(word()));
    let sa = a.with_scope(table);
    let sb = b.with_scope(SymbolTable::new());
    let sc = c.with_scope(SymbolTable::new());
    assert!(sa == sb);
    assert!(sa != sc);
}

#[test]
fn map_pos_and_from_positional() {
    let node: Unscoped<u8> = Annotated::new(7u8, Position::new(3, 4));
    let message = node.map_pos("oops".to_string());
    assert_eq!(message.pos, Position::new(3, 4));
    assert_eq!(message.to_string(), "oops at line 4, column 3");
    let from: Unscoped<u8> = Annotated::from(Positional::at(5, 6, 9u8));
    assert_eq!(from.node, 9);
    assert_eq!(from.position, Position::new(5, 6));
}

#[test]
fn module_is_a_library_when_it_exports() {
    let lib: Module<U> = Module { name: id("m"), exporting: vec![id("f")], body: vec![] };
    let bin: Module<U> = Module { name: id("m"), exporting: vec![], body: vec![] };
    assert!(lib.is_lib());
    assert!(!bin.is_lib());
}

#[test]
fn module_contains_the_names_it_defines_and_exports() {
    let mut table = SymbolTable::new();
    table.insert("f".to_string(), value(word()));
    table.insert("hidden".to_string(), value(word()));
    let module: Module<ScopedState> =
        Module { name: id("m"), exporting: vec![id("f"), id("ghost")], body: vec![] };
    let scoped = Annotated::new(module, Position::new(0, 0)).with_scope(table);
    assert!(scoped.contains_name("f"));
    assert!(!scoped.contains_name("hidden"));
    assert!(!scoped.contains_name("ghost"));
}

#[test]
fn function_definition_of_an_application() {
    let mut table = SymbolTable::new();
    let function = Type::Function(Signature { constraints: None, typechain: vec![word(), word()] });
    table.insert("f".to_string(), value(function.clone()));
    let known: AppForm<ScopedState> = AppForm { fun: id("f"), params: vec![] };
    let unknown: AppForm<ScopedState> = AppForm { fun: id("g"), params: vec![] };
    let known = Annotated::new(known, Position::new(2, 3)).with_scope(table.clone());
    let unknown = Annotated::new(unknown, Position::new(2, 3)).with_scope(table);
    assert_eq!(known.get_fn_def(), Ok(&value(function)));
    let errs = unknown.get_fn_def().expect_err("the function is not defined");
    assert_eq!(errs.len(), 1);
    assert_eq!(errs[0].pos, Position::new(2, 3));
    assert_eq!(errs[0].value, Problem::UndefinedFunction("g".to_string()));
    assert_eq!(errs[0].value.message(), "Undefined function g");
    assert_eq!(mnemosyne::errors::render(&errs[0]), "Undefined function g at line 3, column 2");
}

#[test]
fn data_types() {
    let field = |n: &str| -> Unscoped<'static, Formal> {
        Annotated::new(Formal { name: id(n), annot: id("int") }, Position::new(0, 0))
    };
    let record: Data<U> = Data {
        name: id("point"),
        variants: vec![(id("point"), Variant::Record(vec![field("x"), field("y")]))],
    };
    assert!(!record.is_sum_type());
    assert!(record.is_struct());
    assert_eq!(record.get_struct_fields().map(|fs| fs.len()), Some(2));

    let sum: Data<U> = Data {
        name: id("shape"),
        variants: vec![
            (id("circle"), Variant::Value(word())),
            (id("shape"), Variant::Record(vec![field("x")])),
        ],
    };
    assert!(sum.is_sum_type());
    assert!(!sum.is_struct());
    assert_eq!(sum.get_struct_fields().map(|fs| fs.len()), Some(1));

    let tag: Data<U> = Data { name: id("unit"), variants: vec![(id("unit"), Variant::Tagword(id("unit")))] };
    assert!(!tag.is_sum_type());
    assert!(!tag.is_struct());
    assert!(tag.get_struct_fields().is_none());

    let other: Data<U> = Data { name: id("a"), variants: vec![(id("b"), Variant::Record(vec![]))] };
    assert!(!other.is_struct());
    let empty: Data<U> = Data { name: id("a"), variants: vec![] };
    assert!(!empty.is_sum_type());
    assert!(!empty.is_struct());
}

#[test]
fn constant_numeric_expressions() {
    let one = || -> NumExpr<'static, U> { NumExpr::Lit(Literal::IntConst(1)) };
    let x = || -> NumExpr<'static, U> { NumExpr::Deref(NameRef::Owned(id("x"))) };
    assert!(one().is_const());
    assert!(!x().is_const());
    assert!(NumExpr::Neg(Box::new(one())).is_const());
    assert!(!NumExpr::Neg(Box::new(x())).is_const());
    assert!(NumBOp::Add(vec![one(), NumExpr::BOp(NumBOp::Mul(vec![one(), one()]))]).is_const());
    assert!(!NumBOp::Add(vec![one(), NumExpr::BOp(NumBOp::Mul(vec![one(), x()]))]).is_const());
    assert!(NumBOp::<U>::ShiftL(vec![]).is_const());
    assert!(!NumExpr::<U>::Call(AppForm { fun: id("f"), params: vec![] }).is_const());
}

fn factorial() -> UExpr {
    let equations = vec![
        Annotated::new(
            Equation { pattern: vec![PatElement::Lit(Literal::IntConst(0))], body: vec![lit(1)] },
            Position::new(0, 2),
        ),
        Annotated::new(
            Equation {
                pattern: vec![PatElement::Name(id("n"))],
                body: vec![call("fac", vec![call("-", vec![name_ref("n"), lit(1)])])],
            },
            Position::new(0, 3),
        ),
    ];
    let fun = Function {
        sig: Signature { constraints: None, typechain: vec![word(), word()] },
        equations,
    };
    expr(Form::Define(DefForm::Function {
        name: id("fac"),
        fun: Annotated::new(fun, Position::new(12, 1)),
    }))
}

#[test]
fn factorial_prints_as_its_desugared_source() {
    assert_eq!(
        factorial().to_sexpr(0),
        "(define fac (\u{3bb} (\u{2192} int int)\n\t((0) 1)\n\t((n) (fac (- n 1))))\n)"
    );
}

#[test]
fn simple_forms_print_as_s_expressions() {
    assert_eq!(call("+", vec![lit(1), lit(2)]).to_sexpr(0), "(+ 1 2)");
    assert_eq!(
        call("*", vec![call("+", vec![lit(1), lit(2)]), lit(3), lit(4)]).to_sexpr(0),
        "(* (+ 1 2) 3 4)"
    );
    assert_eq!(
        call("my_fn", vec![name_ref("a"), expr(Form::NameRef(NameRef::Deref(id("b"))))]).to_sexpr(0),
        "(my_fn a $b)"
    );
    assert_eq!(
        call(
            "my_fn",
            vec![
                expr(Form::NameRef(NameRef::Borrowed(id("a")))),
                expr(Form::NameRef(NameRef::Unique(id("b")))),
            ]
        )
        .to_sexpr(0),
        "(my_fn &a @b)"
    );
    assert_eq!(lit(-12).to_sexpr(3), "-12");
    assert_eq!(expr(Form::Lit(Literal::UintConst(u64::MAX))).to_sexpr(0), "18446744073709551615");
    assert_eq!(expr(Form::Lit(Literal::StringLit("hi".to_string()))).to_sexpr(0), "hi");
}

#[test]
fn compound_forms_print_as_s_expressions() {
    let cond = expr(Form::If {
        condition: Rc::new(name_ref("c")),
        if_clause: Rc::new(lit(1)),
        else_clause: Some(Rc::new(lit(2))),
    });
    assert_eq!(cond.to_sexpr(0), "(if c 1 2)");
    let half = expr(Form::If {
        condition: Rc::new(name_ref("c")),
        if_clause: Rc::new(lit(1)),
        else_clause: None,
    });
    assert_eq!(half.to_sexpr(0), "(if c 1)");
    let both = Logical::And { a: Rc::new(name_ref("p")), b: Rc::new(name_ref("q")) };
    assert_eq!(both.to_sexpr(0), "(and p q)");
    let either = expr(Form::Logical(Logical::Or {
        a: Rc::new(name_ref("p")),
        b: Rc::new(name_ref("q")),
    }));
    assert_eq!(either.to_sexpr(0), "(or p q)");
    let top = expr(Form::Define(DefForm::TopLevel {
        name: id("x"),
        annot: word(),
        value: Rc::new(lit(5)),
    }));
    assert_eq!(top.to_sexpr(1), "\t(define x int 5)");
    let sum = expr(Form::Num(NumExpr::BOp(NumBOp::ShiftL(vec![
        NumExpr::Lit(Literal::IntConst(1)),
        NumExpr::Neg(Box::new(NumExpr::Deref(NameRef::Deref(id("x"))))),
        NumExpr::Call(AppForm { fun: id("f"), params: vec![lit(2)] }),
    ]))));
    assert_eq!(sum.to_sexpr(0), "(<< 1 (- $x) (f 2))");
}

fn binding(name: &str, value: UExpr) -> Unscoped<'static, Binding<'static, U>> {
    Annotated::new(
        Binding { name: id(name), typ: word(), value: Rc::new(value) },
        Position::new(0, 0),
    )
}

#[test]
fn let_forms_print_their_keyword_bindings_and_body() {
    let plain = LetForm::Let {
        bindings: vec![binding("a", lit(1)), binding("b", lit(2))],
        body: vec![name_ref("a"), name_ref("b")],
    };
    assert_eq!(plain.to_sexpr(1), "\t(let [(a int 1)\n(b int 2)]\na b)");
    let rec: LetForm<U> = LetForm::LetRec { bindings: vec![], body: vec![] };
    assert_eq!(rec.to_sexpr(0), "(letrec []\n)");
    let splat = LetForm::LetSplat { bindings: vec![binding("a", lit(1))], body: vec![name_ref("a")] };
    assert_eq!(splat.to_sexpr(0), "(let* [(a int 1)]\na)");
    let named = LetForm::Invocation {
        proc_id: id("loop"),
        init: Binding { name: id("i"), typ: word(), value: Rc::new(lit(0)) },
        body: vec![call("loop", vec![name_ref("i")])],
    };
    assert_eq!(named.to_sexpr(0), "(let loop [(i int 0)]\n(loop i))");
}

#[test]
fn leaves_print_as_s_expressions() {
    assert_eq!(id("x").to_sexpr(4), "x");
    assert_eq!(Formal { name: id("x"), annot: id("int") }.to_sexpr(0), "x: int");
    assert_eq!(PatElement::Anything.to_sexpr(0), "_");
    assert_eq!(PatElement::Typed { name: id("x"), ty: word() }.to_sexpr(0), "x: int");
    let pattern = vec![
        PatElement::Name(id("a")),
        PatElement::Anything,
        PatElement::Lit(Literal::IntConst(3)),
    ];
    assert_eq!(pattern.to_sexpr(0), "(a _ 3)");
    let none: Vec<PatElement> = vec![];
    assert_eq!(none.to_sexpr(0), "()");
    let sig = Signature { constraints: None, typechain: vec![word()] };
    assert_eq!(sig.to_sexpr(2), "\t\t(\u{2192} int)");
}

#[test]
fn an_expression_can_be_resolved_on_its_own() {
    let mut table = SymbolTable::new();
    table.insert("x".to_string(), value(word()));
    let resolved = name_ref("x").annotate_types(table.clone()).expect("x is bound");
    assert_eq!(resolved.get_type("x"), Some(&value(word())));
    assert!(resolved.is_defined_here("x"));
    let errs = name_ref("y").annotate_types(table).expect_err("y is not bound");
    assert_eq!(errs.len(), 1);
    assert_eq!(errs[0].value, Problem::UndefinedName("y".to_string()));
}

#[test]
fn a_definition_can_be_resolved_on_its_own() {
    let def: Unscoped<'static, DefForm<'static, U>> = Annotated::new(
        DefForm::TopLevel { name: id("x"), annot: word(), value: Rc::new(name_ref("x")) },
        Position::new(2, 2),
    );
    let resolved = def.annotate_types(SymbolTable::new()).expect("a value may refer to itself");
    assert_eq!(resolved.position, Position::new(2, 2));
    assert_eq!(resolved.get_type("x"), None);
    match &resolved.node {
        DefForm::TopLevel { value, .. } => {
            assert_eq!(value.get_type("x"), Some(&value_of_word()));
            assert!(value.is_defined_here("x"));
        }
        other => panic!("a value definition is expected, not {:?}", other),
    }
}

fn value_of_word() -> SymbolAnnotation<'static> {
    value(word())
}

#[test]
fn a_module_can_be_resolved_through_the_trait() {
    let module: Unscoped<'static, Module<'static, U>> = Annotated::new(
        Module { name: id("m"), exporting: vec![], body: vec![factorial()] },
        Position::new(0, 0),
    );
    let errs = module.annotate_types(SymbolTable::new()).expect_err("minus is not bound");
    assert_eq!(errs.len(), 1);
    assert_eq!(errs[0].value, Problem::UndefinedFunction("-".to_string()));
    let mut root = SymbolTable::new();
    root.insert("-".to_string(), value(word()));
    let resolved = module.annotate_types(root).expect("minus is bound now");
    assert!(resolved.is_defined_here("fac"));
    assert!(!resolved.is_defined_here("-"));
    assert!(resolved.get_type("-").is_some());
}

#[test]
fn identifiers_at_different_positions_are_equal() {
    let a = Positional::at(1, 1, String::from("x"));
    let b = Positional::at(9, 4, String::from("x"));
    let c = Positional::at(1, 1, String::from("y"));
    assert!(a == b);
    assert!(a.pos != b.pos);
    assert!(a != c);
}

#[test]
fn annotated_pattern_elements_at_different_positions_are_equal() {
    let a: Unscoped<PatElement> = Annotated::new(PatElement::Anything, Position::new(1, 1));
    let b: Unscoped<PatElement> = Annotated::new(PatElement::Anything, Position::new(7, 3));
    assert!(a == b);
    assert!(a.position != b.position);
    let name = |n: &str, col: i32| -> Unscoped<'static, PatElement> {
        Annotated::new(PatElement::Name(Positional::at(col, 1, n.to_string())), Position::new(col, 1))
    };
    assert!(name("x", 1) == name("x", 5));
    assert!(name("x", 1) != name("y", 1));
    assert!(name("x", 1) != a);
    let typed = |ty: Type| PatElement::Typed { name: id("x"), ty };
    assert!(typed(word()) == typed(word()));
    assert!(typed(word()) != typed(Type::Prim(Primitive::Bool)));
    assert!(PatElement::Lit(Literal::IntConst(1)) == PatElement::Lit(Literal::IntConst(1)));
    assert!(PatElement::Lit(Literal::IntConst(1)) != PatElement::Lit(Literal::UintConst(1)));
    assert!(PatElement::Lit(Literal::StringLit("a".into())) != PatElement::Lit(Literal::StringLit("b".into())));
}

#[test]
fn trees_are_equal_iff_they_have_the_same_shape_and_parts() {
    let at = |form: Form<'static, U>, col: i32| -> UExpr { Annotated::new(form, Position::new(col, 9)) };
    let reference = |n: &str, col: i32| at(Form::NameRef(NameRef::Owned(Positional::at(col, 9, n.to_string()))), col);
    let application = |f: &str, col: i32| {
        at(
            Form::App(AppForm {
                fun: Positional::at(col, 9, f.to_string()),
                params: vec![reference("a", col + 2), at(Form::Lit(Literal::IntConst(1)), col + 4)],
            }),
            col,
        )
    };
    assert!(application("f", 1) == application("f", 30));
    assert!(application("f", 1) != application("g", 1));
    assert!(application("f", 1) != reference("f", 1));
    assert!(factorial() == factorial());
    let conditional = |with_else: bool| {
        at(
            Form::If {
                condition: Rc::new(reference("c", 1)),
                if_clause: Rc::new(lit(1)),
                else_clause: if with_else { Some(Rc::new(lit(2))) } else { None },
            },
            1,
        )
    };
    assert!(conditional(true) == conditional(true));
    assert!(conditional(true) != conditional(false));
    let both = |kind: bool| {
        if kind {
            Logical::And { a: Rc::new(lit(1)), b: Rc::new(lit(2)) }
        } else {
            Logical::Or { a: Rc::new(lit(1)), b: Rc::new(lit(2)) }
        }
    };
    assert!(both(true) == both(true));
    assert!(both(true) != both(false));
    let list = |kind: u8, names: &[&str]| {
        let bindings = names.iter().map(|n| binding(n, lit(1))).collect();
        let body = vec![name_ref("a")];
        match kind {
            0 => LetForm::Let { bindings, body },
            1 => LetForm::LetRec { bindings, body },
            _ => LetForm::LetSplat { bindings, body },
        }
    };
    assert!(list(0, &["a", "b"]) == list(0, &["a", "b"]));
    assert!(list(0, &["a", "b"]) != list(1, &["a", "b"]));
    assert!(list(2, &["a", "b"]) != list(2, &["a"]));
    assert!(list(2, &["a", "b"]) != list(2, &["a", "c"]));
    let sum = |n: i64| NumExpr::<U>::BOp(NumBOp::Add(vec![NumExpr::Lit(Literal::IntConst(n))]));
    assert!(sum(1) == sum(1));
    assert!(sum(1) != sum(2));
    assert!(sum(1) != NumExpr::BOp(NumBOp::Sub(vec![NumExpr::Lit(Literal::IntConst(1))])));
    assert!(NumExpr::Neg(Box::new(sum(1))) == NumExpr::Neg(Box::new(sum(1))));
    let module = |name: &str, export: &str| -> Module<'static, U> {
        Module { name: id(name), exporting: vec![id(export)], body: vec![factorial()] }
    };
    assert!(module("m", "fac") == module("m", "fac"));
    assert!(module("m", "fac") != module("n", "fac"));
    assert!(module("m", "fac") != module("m", "f"));
    let record = |field: &str| -> Data<'static, U> {
        Data {
            name: id("point"),
            variants: vec![(
                id("point"),
                Variant::Record(vec![Annotated::new(
                    Formal { name: id(field), annot: id("int") },
                    Position::new(0, 0),
                )]),
            )],
        }
    };
    assert!(record("x") == record("x"));
    assert!(record("x") != record("y"));
    assert!(value(word()) == value(word()));
    assert!(value(word()) != SymbolAnnotation::TypeDef(word()));
}
