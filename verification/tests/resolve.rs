use std::rc::Rc;

use mnemosyne::errors::{render, Problem};
use mnemosyne::position::{Position, Positional};
use mnemosyne::semantic::annotations::{Annotated, Unscoped, UnscopedState};
use mnemosyne::semantic::ast::{
    AppForm, Binding, DefForm, Equation, Form, Function, Ident, LetForm, Literal, Logical,
    Module, NameRef, NumBOp, NumExpr, PatElement,
};
use mnemosyne::semantic::resolve::resolve_module;
use mnemosyne::semantic::types::{Primitive, Signature, Type};
use mnemosyne::semantic::{SymbolAnnotation, SymbolTable};

type U = UnscopedState;
type UExpr = Unscoped<'static, Form<'static, U>>;

fn id(name: &str, col: i32, row: i32) -> Ident {
    Positional::at(col, row, name.to_string())
}

fn int_type() -> Type {
    Type::Prim(Primitive::IntSize)
}

fn sig(n: usize) -> Signature {
    Signature { constraints: None, typechain: (0..n).map(|_| int_type()).collect() }
}

fn expr(form: Form<'static, U>, col: i32, row: i32) -> UExpr {
    Annotated::new(form, Position::new(col, row))
}

fn name_ref(name: &str, col: i32, row: i32) -> UExpr {
    expr(Form::NameRef(NameRef::Owned(id(name, col, row))), col, row)
}

fn lit(n: i64, col: i32, row: i32) -> UExpr {
    expr(Form::Lit(Literal::IntConst(n)), col, row)
}

fn call(fun: &str, params: Vec<UExpr>, col: i32, row: i32) -> UExpr {
    expr(Form::App(AppForm { fun: id(fun, col + 1, row), params }), col, row)
}

fn equation(
    names: &[&str],
    body: Vec<UExpr>,
    col: i32,
    row: i32,
) -> Unscoped<'static, Equation<'static, U>> {
    let pattern = names.iter().map(|n| PatElement::Name(id(n, col + 1, row))).collect();
    Annotated::new(Equation { pattern, body }, Position::new(col, row))
}

fn define_fn(
    name: &str,
    chain: usize,
    equations: Vec<Unscoped<'static, Equation<'static, U>>>,
    col: i32,
    row: i32,
) -> UExpr {
    let fun = Annotated::new(Function { sig: sig(chain), equations }, Position::new(col + 8, row));
    expr(Form::Define(DefForm::Function { name: id(name, col + 7, row), fun }), col, row)
}

fn define_value(name: &str, value: UExpr, col: i32, row: i32) -> UExpr {
    expr(
        Form::Define(DefForm::TopLevel {
            name: id(name, col + 7, row),
            annot: int_type(),
            value: Rc::new(value),
        }),
        col,
        row,
    )
}

fn binding(name: &str, value: UExpr, col: i32, row: i32) -> Unscoped<'static, Binding<'static, U>> {
    Annotated::new(
        Binding { name: id(name, col, row), typ: int_type(), value: Rc::new(value) },
        Position::new(col, row),
    )
}

fn module(body: Vec<UExpr>) -> Unscoped<'static, Module<'static, U>> {
    Annotated::new(
        Module { name: id("main", 0, 0), exporting: vec![id("f", 0, 0)], body },
        Position::new(0, 0),
    )
}

fn problems(m: &Unscoped<'static, Module<'static, U>>, root: SymbolTable<'static>) -> Vec<String> {
    match resolve_module(m, root) {
        Ok(_) => vec![],
        Err(errs) => errs.iter().map(render).collect(),
    }
}

fn int_value() -> SymbolAnnotation<'static> {
    SymbolAnnotation::Value { ty: int_type(), proven_value: None }
}

#[test]
fn resolving_a_recursive_unary_function_yields_a_scoped_module() {
    // define f (-> int int) ((n) (f n))
    let m = module(vec![define_fn(
        "f",
        2,
        vec![equation(&["n"], vec![call("f", vec![name_ref("n", 30, 1)], 27, 1)], 22, 1)],
        1,
        1,
    )]);
    let resolved = resolve_module(&m, SymbolTable::new()).expect("no problem is expected");
    assert_eq!(resolved.position, Position::new(0, 0));
    assert_eq!(resolved.node.name.value, "main");
    assert_eq!(resolved.node.body.len(), 1);
    assert!(resolved.is_defined_here("f"));
    assert!(!resolved.is_defined_here("n"));
    assert!(resolved.contains_name("f"));
    assert!(!resolved.contains_name("n"));
    assert!(resolved.get_type("f").unwrap().is_fn_type());
    match &resolved.node.body[0].node {
        Form::Define(DefForm::Function { name, fun }) => {
            assert_eq!(name.value, "f");
            assert_eq!(fun.arity(), 1);
            assert_eq!(fun.node.equations.len(), 1);
            let eq = &fun.node.equations[0];
            assert_eq!(eq.pattern_length(), 1);
            assert_eq!(eq.pattern_length(), fun.arity());
            assert_eq!(eq.position, Position::new(22, 1));
            assert_eq!(eq.get_type("n"), Some(&int_value()));
            assert!(eq.is_defined_here("n"));
            assert!(!eq.is_defined_here("f"));
            assert!(eq.get_type("f").unwrap().is_fn_type());
            assert!(fun.arity_errors().is_empty());
            match &eq.node.body[0].node {
                Form::App(app) => {
                    assert_eq!(app.fun.value, "f");
                    assert_eq!(app.params.len(), 1);
                    assert_eq!(app.params[0].get_type("n"), Some(&int_value()));
                    assert_eq!(app.params[0].position, Position::new(30, 1));
                }
                other => panic!("an application is expected, not {:?}", other),
            }
        }
        other => panic!("a function definition is expected, not {:?}", other),
    }
}

#[test]
fn an_equation_that_binds_too_few_arguments_is_the_one_problem() {
    // define f (-> int int int) ((n) (f n))
    let m = module(vec![define_fn(
        "f",
        3,
        vec![equation(&["n"], vec![call("f", vec![name_ref("n", 30, 1)], 27, 1)], 22, 1)],
        1,
        1,
    )]);
    let errs = resolve_module(&m, SymbolTable::new()).expect_err("a problem is expected");
    assert_eq!(errs.len(), 1);
    assert_eq!(errs[0].pos, Position::new(22, 1));
    assert_eq!(
        errs[0].value,
        Problem::TooFewBindings {
            arity: 2,
            bound: 1,
            signature: "(\u{2192} int int int)".to_string(),
            function: "((n) (f n))".to_string(),
        }
    );
    assert_eq!(
        render(&errs[0]),
        "[error] equation had fewer bindings than function arity\n [error] auto-currying is not currently implemented.\n signature: (\u{2192} int int int)\nfunction: ((n) (f n))\n at line 1, column 22"
    );
}

#[test]
fn a_reference_to_an_unbound_name_is_the_one_problem() {
    let m = module(vec![name_ref("y", 3, 5)]);
    let errs = resolve_module(&m, SymbolTable::new()).expect_err("a problem is expected");
    assert_eq!(errs.len(), 1);
    assert_eq!(errs[0].pos, Position::new(3, 5));
    assert_eq!(errs[0].value, Problem::UndefinedName("y".to_string()));
    assert_eq!(render(&errs[0]), "[error] undefined name y at line 5, column 3");
}

#[test]
fn names_of_the_root_table_are_visible_in_the_module() {
    let mut root = SymbolTable::new();
    root.insert("y".to_string(), int_value());
    let m = module(vec![name_ref("y", 3, 5)]);
    let resolved = resolve_module(&m, root).expect("no problem is expected");
    assert_eq!(resolved.get_type("y"), Some(&int_value()));
    assert!(!resolved.is_defined_here("y"));
    assert_eq!(resolved.node.body[0].get_type("y"), Some(&int_value()));
}

#[test]
fn every_mismatched_equation_is_reported_and_none_other() {
    // arity 2; patterns of length 2, 1, 3, 2, 0
    let m = module(vec![define_fn(
        "f",
        3,
        vec![
            equation(&["a", "b"], vec![name_ref("a", 1, 10)], 0, 10),
            equation(&["a"], vec![name_ref("nowhere", 1, 11)], 0, 11),
            equation(&["a", "b", "c"], vec![name_ref("c", 1, 12)], 0, 12),
            equation(&["a", "b"], vec![name_ref("b", 1, 13)], 0, 13),
            equation(&[], vec![], 0, 14),
        ],
        1,
        1,
    )]);
    let errs = resolve_module(&m, SymbolTable::new()).expect_err("problems are expected");
    let few = |bound: usize, function: &str| Problem::TooFewBindings {
        arity: 2,
        bound,
        signature: "(\u{2192} int int int)".to_string(),
        function: function.to_string(),
    };
    let many = Problem::TooManyBindings {
        arity: 2,
        bound: 3,
        signature: "(\u{2192} int int int)".to_string(),
        function: "((a b c) c)".to_string(),
    };
    let found: Vec<(Position, Problem)> =
        errs.iter().map(|e| (e.pos, e.value.clone())).collect();
    assert_eq!(
        found,
        vec![
            (Position::new(0, 11), few(1, "((a) nowhere)")),
            (Position::new(0, 12), many),
            (Position::new(0, 14), few(0, "(() )")),
        ]
    );
}

#[test]
fn arity_errors_of_a_function_alone() {
    let fun: Unscoped<'static, Function<'static, U>> = Annotated::new(
        Function {
            sig: sig(2),
            equations: vec![
                equation(&["a"], vec![], 0, 1),
                equation(&[], vec![], 0, 2),
                equation(&["a", "b"], vec![], 0, 3),
            ],
        },
        Position::new(0, 0),
    );
    assert_eq!(fun.arity(), 1);
    assert_eq!(fun.declared_arity(), 1);
    let errs = fun.arity_errors();
    assert_eq!(errs.len(), 2);
    assert_eq!(errs[0].pos, Position::new(0, 2));
    assert_eq!(
        errs[0].value,
        Problem::TooFewBindings {
            arity: 1,
            bound: 0,
            signature: "(\u{2192} int int)".to_string(),
            function: "(() )".to_string(),
        }
    );
    assert_eq!(errs[1].pos, Position::new(0, 3));
    assert_eq!(
        errs[1].value,
        Problem::TooManyBindings {
            arity: 1,
            bound: 2,
            signature: "(\u{2192} int int)".to_string(),
            function: "((a b) )".to_string(),
        }
    );
}

#[test]
fn top_level_definitions_may_refer_to_later_ones() {
    let m = module(vec![
        define_value("a", name_ref("b", 20, 1), 1, 1),
        define_value("b", lit(1, 20, 2), 1, 2),
    ]);
    assert_eq!(problems(&m, SymbolTable::new()), Vec::<String>::new());
}

#[test]
fn problems_come_in_the_order_of_the_walk() {
    let m = module(vec![
        call("p", vec![name_ref("q", 5, 1), name_ref("r", 7, 1)], 1, 1),
        expr(
            Form::If {
                condition: Rc::new(name_ref("s", 5, 2)),
                if_clause: Rc::new(name_ref("t", 7, 2)),
                else_clause: Some(Rc::new(name_ref("u", 9, 2))),
            },
            1,
            2,
        ),
        expr(
            Form::Logical(Logical::Or {
                a: Rc::new(name_ref("v", 5, 3)),
                b: Rc::new(name_ref("w", 7, 3)),
            }),
            1,
            3,
        ),
    ]);
    assert_eq!(
        problems(&m, SymbolTable::new()),
        vec![
            "Undefined function p at line 1, column 1",
            "[error] undefined name q at line 1, column 5",
            "[error] undefined name r at line 1, column 7",
            "[error] undefined name s at line 2, column 5",
            "[error] undefined name t at line 2, column 7",
            "[error] undefined name u at line 2, column 9",
            "[error] undefined name v at line 3, column 5",
            "[error] undefined name w at line 3, column 7",
        ]
    );
}

fn let_form(kind: &str, body_name: &str) -> UExpr {
    // bindings: a = a0, b = a ; body: body_name
    let bindings = vec![
        binding("a", name_ref("a0", 10, 1), 8, 1),
        binding("b", name_ref("a", 20, 1), 18, 1),
    ];
    let body = vec![name_ref(body_name, 30, 1)];
    let form = match kind {
        "let" => LetForm::Let { bindings, body },
        "letrec" => LetForm::LetRec { bindings, body },
        _ => LetForm::LetSplat { bindings, body },
    };
    expr(Form::Let(form), 1, 1)
}

#[test]
fn plain_let_initializers_do_not_see_sibling_bindings() {
    let mut root = SymbolTable::new();
    root.insert("a0".to_string(), int_value());
    let m = module(vec![let_form("let", "b")]);
    assert_eq!(problems(&m, root), vec!["[error] undefined name a at line 1, column 20"]);
}

#[test]
fn let_splat_initializers_see_the_bindings_before_them() {
    let mut root = SymbolTable::new();
    root.insert("a0".to_string(), int_value());
    let m = module(vec![let_form("let*", "b")]);
    assert_eq!(problems(&m, root), Vec::<String>::new());

    // the first initializer does not see the second binding
    let bindings = vec![
        binding("a", name_ref("b", 10, 1), 8, 1),
        binding("b", lit(1, 20, 1), 18, 1),
    ];
    let m = module(vec![expr(
        Form::Let(LetForm::LetSplat { bindings, body: vec![name_ref("a", 30, 1)] }),
        1,
        1,
    )]);
    assert_eq!(
        problems(&m, SymbolTable::new()),
        vec!["[error] undefined name b at line 1, column 10"]
    );
}

#[test]
fn letrec_initializers_see_every_binding() {
    let bindings = vec![
        binding("a", name_ref("b", 10, 1), 8, 1),
        binding("b", name_ref("a", 20, 1), 18, 1),
    ];
    let m = module(vec![expr(
        Form::Let(LetForm::LetRec { bindings, body: vec![name_ref("a", 30, 1)] }),
        1,
        1,
    )]);
    assert_eq!(problems(&m, SymbolTable::new()), Vec::<String>::new());
}

#[test]
fn let_bindings_are_gone_after_the_form() {
    let mut root = SymbolTable::new();
    root.insert("a0".to_string(), int_value());
    let m = module(vec![let_form("let*", "b"), name_ref("b", 1, 2)]);
    assert_eq!(problems(&m, root), vec!["[error] undefined name b at line 2, column 1"]);
}

#[test]
fn named_let_binds_its_procedure_and_its_binding_in_the_body() {
    let form = LetForm::Invocation {
        proc_id: id("loop", 6, 1),
        init: Binding { name: id("i", 12, 1), typ: int_type(), value: Rc::new(name_ref("i", 14, 1)) },
        body: vec![call("loop", vec![name_ref("i", 25, 1)], 19, 1)],
    };
    let m = module(vec![expr(Form::Let(form), 1, 1)]);
    assert_eq!(
        problems(&m, SymbolTable::new()),
        vec!["[error] undefined name i at line 1, column 14"]
    );
}

#[test]
fn numeric_expressions_are_walked() {
    let sum = NumExpr::BOp(NumBOp::Add(vec![
        NumExpr::Lit(Literal::IntConst(1)),
        NumExpr::Neg(Box::new(NumExpr::Deref(NameRef::Deref(id("x", 5, 1))))),
        NumExpr::Call(AppForm { fun: id("g", 9, 1), params: vec![name_ref("x", 11, 1)] }),
    ]));
    let m = module(vec![expr(Form::Num(sum), 1, 1)]);
    assert_eq!(
        problems(&m, SymbolTable::new()),
        vec![
            "[error] undefined name x at line 1, column 1",
            "Undefined function g at line 1, column 1",
            "[error] undefined name x at line 1, column 11",
        ]
    );
    let mut root = SymbolTable::new();
    root.insert("x".to_string(), int_value());
    root.insert("g".to_string(), int_value());
    assert_eq!(problems(&m, root), Vec::<String>::new());
}

#[test]
fn a_lambda_is_checked_like_a_function() {
    let fun = Function {
        sig: sig(2),
        equations: vec![equation(&["x", "y"], vec![name_ref("x", 9, 1)], 3, 1)],
    };
    let m = module(vec![expr(Form::Lambda(fun), 1, 1)]);
    assert_eq!(
        problems(&m, SymbolTable::new()),
        vec!["[error] equation bound too many arguments\n signature: (\u{2192} int int)\nfunction: ((x y) x)\n at line 1, column 3"]
    );
}

#[test]
fn a_signature_without_any_type_declares_no_parameter() {
    let m = module(vec![define_fn("f", 0, vec![equation(&[], vec![name_ref("f", 9, 1)], 3, 1)], 1, 1)]);
    assert_eq!(problems(&m, SymbolTable::new()), Vec::<String>::new());
}

#[test]
fn resolution_is_deterministic() {
    let build = || {
        module(vec![
            call("p", vec![name_ref("q", 5, 1)], 1, 1),
            define_fn("f", 3, vec![equation(&["n"], vec![], 22, 2)], 1, 2),
        ])
    };
    assert_eq!(problems(&build(), SymbolTable::new()), problems(&build(), SymbolTable::new()));
    assert_eq!(problems(&build(), SymbolTable::new()).len(), 3);
}

#[test]
fn plain_let_accepts_a_name_bound_twice_and_the_last_binding_stands() {
    let twice = |kind: &str| -> UExpr {
        let bindings = vec![
            binding("a", lit(1, 10, 1), 8, 1),
            Annotated::new(
                Binding {
                    name: id("a", 18, 1),
                    typ: Type::Prim(Primitive::Bool),
                    value: Rc::new(lit(2, 20, 1)),
                },
                Position::new(18, 1),
            ),
        ];
        let body = vec![name_ref("a", 30, 1)];
        let form = match kind {
            "let" => LetForm::Let { bindings, body },
            "letrec" => LetForm::LetRec { bindings, body },
            _ => LetForm::LetSplat { bindings, body },
        };
        expr(Form::Let(form), 1, 1)
    };
    for kind in ["let", "letrec", "let*"] {
        let m = module(vec![twice(kind)]);
        let resolved = resolve_module(&m, SymbolTable::new()).expect("no problem is expected");
        let body = match &resolved.node.body[0].node {
            Form::Let(LetForm::Let { body, .. }) => body,
            Form::Let(LetForm::LetRec { body, .. }) => body,
            Form::Let(LetForm::LetSplat { body, .. }) => body,
            other => panic!("a let form is expected, not {:?}", other),
        };
        assert_eq!(
            body[0].get_type("a"),
            Some(&SymbolAnnotation::Value { ty: Type::Prim(Primitive::Bool), proven_value: None })
        );
    }
}

#[test]
fn a_later_top_level_definition_of_a_name_stands_for_the_whole_module() {
    let bool_def = expr(
        Form::Define(DefForm::TopLevel {
            name: id("a", 8, 2),
            annot: Type::Prim(Primitive::Bool),
            value: Rc::new(lit(0, 20, 2)),
        }),
        1,
        2,
    );
    let m = module(vec![define_value("a", lit(1, 20, 1), 1, 1), bool_def]);
    let resolved = resolve_module(&m, SymbolTable::new()).expect("no problem is expected");
    assert_eq!(
        resolved.get_type("a"),
        Some(&SymbolAnnotation::Value { ty: Type::Prim(Primitive::Bool), proven_value: None })
    );
    // inside the first definition, the name stands for that definition
    match &resolved.node.body[0].node {
        Form::Define(DefForm::TopLevel { value, .. }) => {
            assert_eq!(value.get_type("a"), Some(&int_value()))
        }
        other => panic!("a value definition is expected, not {:?}", other),
    }
}

#[test]
fn scopes_of_nested_nodes_chain_to_the_scopes_around_them() {
    let inner = expr(
        Form::Let(LetForm::Let {
            bindings: vec![binding("y", lit(1, 10, 2), 8, 2)],
            body: vec![name_ref("x", 30, 2), name_ref("y", 32, 2), name_ref("top", 34, 2)],
        }),
        5,
        2,
    );
    let outer = expr(
        Form::Let(LetForm::Let {
            bindings: vec![binding("x", lit(1, 10, 1), 8, 1)],
            body: vec![inner],
        }),
        1,
        1,
    );
    let m = module(vec![define_value("top", lit(0, 5, 0), 1, 0), outer]);
    let resolved = resolve_module(&m, SymbolTable::new()).expect("no problem is expected");
    let outer_body = match &resolved.node.body[1].node {
        Form::Let(LetForm::Let { body, .. }) => body,
        other => panic!("a let form is expected, not {:?}", other),
    };
    assert!(outer_body[0].is_defined_here("x"));
    assert!(!outer_body[0].is_defined_here("top"));
    assert!(outer_body[0].get_type("top").is_some());
    assert!(outer_body[0].get_type("y").is_none());
    let inner_body = match &outer_body[0].node {
        Form::Let(LetForm::Let { body, .. }) => body,
        other => panic!("a let form is expected, not {:?}", other),
    };
    for node in inner_body {
        assert!(node.is_defined_here("y"));
        assert!(!node.is_defined_here("x"));
        assert!(node.get_type("x").is_some());
        assert!(node.get_type("top").is_some());
    }
    // the scope of the module itself knows nothing of the inner names
    assert!(resolved.get_type("x").is_none());
    assert!(resolved.get_type("y").is_none());
}

#[test]
fn an_unbound_name_is_reported_at_the_position_of_the_node_that_refers_to_it() {
    // the reference stands at column 3; the name after its sign at column 4
    let reference = expr(Form::NameRef(NameRef::Deref(id("y", 4, 5))), 3, 5);
    let errs = resolve_module(&module(vec![reference]), SymbolTable::new())
        .expect_err("a problem is expected");
    assert_eq!(errs.len(), 1);
    assert_eq!(errs[0].pos, Position::new(3, 5));
    assert_eq!(errs[0].value, Problem::UndefinedName("y".to_string()));
    // an application is reported at its own position, as its definition is asked for
    let application = call("g", vec![], 7, 2);
    let errs = resolve_module(&module(vec![application]), SymbolTable::new())
        .expect_err("a problem is expected");
    assert_eq!(errs.len(), 1);
    assert_eq!(errs[0].pos, Position::new(7, 2));
    assert_eq!(errs[0].value, Problem::UndefinedFunction("g".to_string()));
}

#[test]
fn each_binding_of_a_let_splat_gets_a_level_of_its_own() {
    let bindings = vec![
        binding("a", lit(1, 10, 1), 8, 1),
        binding("b", name_ref("a", 20, 1), 18, 1),
        binding("c", name_ref("b", 30, 1), 28, 1),
    ];
    let m = module(vec![expr(
        Form::Let(LetForm::LetSplat { bindings, body: vec![name_ref("c", 40, 1)] }),
        1,
        1,
    )]);
    let resolved = resolve_module(&m, SymbolTable::new()).expect("no problem is expected");
    match &resolved.node.body[0].node {
        Form::Let(LetForm::LetSplat { bindings, body }) => {
            // the first binding stands in the scope of the form itself
            assert!(!bindings[0].is_defined_here("a"));
            assert!(bindings[0].get_type("a").is_none());
            // the second in a level that binds the first name alone
            assert!(bindings[1].is_defined_here("a"));
            assert!(!bindings[1].is_defined_here("b"));
            // the third in a level that binds the second name alone
            assert!(bindings[2].is_defined_here("b"));
            assert!(!bindings[2].is_defined_here("a"));
            assert!(bindings[2].get_type("a").is_some());
            // the body in a level that binds the last name alone
            assert!(body[0].is_defined_here("c"));
            assert!(!body[0].is_defined_here("b"));
            assert!(body[0].get_type("a").is_some());
        }
        other => panic!("a let form is expected, not {:?}", other),
    }
}

#[test]
fn a_named_let_binds_both_names_in_one_level() {
    let form = LetForm::Invocation {
        proc_id: id("loop", 6, 1),
        init: Binding { name: id("i", 12, 1), typ: int_type(), value: Rc::new(lit(0, 14, 1)) },
        body: vec![name_ref("i", 25, 1)],
    };
    let m = module(vec![expr(Form::Let(form), 1, 1)]);
    let resolved = resolve_module(&m, SymbolTable::new()).expect("no problem is expected");
    match &resolved.node.body[0].node {
        Form::Let(LetForm::Invocation { init, body, .. }) => {
            assert!(init.value.get_type("i").is_none());
            assert!(body[0].is_defined_here("i"));
            assert!(body[0].is_defined_here("loop"));
            assert_eq!(
                body[0].get_type("loop"),
                Some(&SymbolAnnotation::Value {
                    ty: Type::Symbol("loop".to_string()),
                    proven_value: None
                })
            );
        }
        other => panic!("a named let is expected, not {:?}", other),
    }
}
