use std::rc::Rc;

use mnemosyne::ast::Node;
use mnemosyne::parser::parse::{
    parse_expr, parse_name, parse_name_ref, parse_pattern, parse_signature, parse_type, Parsed,
};
use mnemosyne::parser::{parse_module, parse_text, Source};
use mnemosyne::position::Position;
use mnemosyne::semantic::ast::{DefForm, Form, LetForm, Literal, NameRef, PatElement};
use mnemosyne::semantic::resolve::resolve_module;
use mnemosyne::semantic::annotations::Annotated;
use mnemosyne::semantic::ast::Module;
use mnemosyne::position::Positional;
use mnemosyne::semantic::types::{Int, Primitive, Reference, Type};
use mnemosyne::semantic::{SymbolAnnotation, SymbolTable};

fn source(code: &str) -> Source {
    Source::new(code.chars().collect())
}

fn first(code: &str) -> Parsed {
    parse_text(code).expect("the text is a module").remove(0)
}

fn printed(code: &str) -> String {
    first(code).to_sexpr(0)
}

#[test]
fn test_defsyntax_sugar() {
    let string = r#"(def fac (fn {int -> int}
    ((0) 1)
    ((n) (fac (- n 1)))))"#;
    assert_eq!(
        parse_module(&source(string)).unwrap()[0].to_sexpr(0),
        "(define fac (\u{3bb} (\u{2192} int int)
\t((0) 1)
\t((n) (fac (- n 1))))\n)"
    )
}

#[test]
fn what_is_printed_parses_to_what_prints_the_same() {
    let cases = [
        "(+ 1 2)",
        "(- 3 4)",
        "(/ 5 6)",
        "(* 1 2)",
        "(+ 1 (- 2 3))",
        "(* (+ 1 2) 3 4)",
        "(+ (/ 1 2) (* 3 4))",
        "(myfn 1 2)",
        "(myfn (myotherfn avar adifferentvar))",
        "(myfn (myotherfn avar adifferentvar) VarWithUppercase Othervar)",
        "(myfn (myotherfn avar adifferentvar) (anotherfn avar))",
        "(myfn a $b)",
        "(myfn $a $b)",
        "(myfn &a)",
        "(myfn a &b)",
        "(myfn &a &b)",
        "(myfn @a)",
        "(myfn a @b)",
        "(myfn @a @b)",
        "(if c 1 2)",
        "(if (< a b) a)",
        "(define fac (\u{3bb} (\u{2192} int int)\n\t((0) 1)\n\t((n) (fac (- n 1))))\n)",
        "(define x int 5)",
        "(define p *&u8 q)",
    ];
    for code in cases {
        assert_eq!(printed(code), code);
    }
}

#[test]
fn sugar_is_taken_off() {
    assert_eq!(printed("(def x int 5)"), "(define x int 5)");
    assert_eq!(
        printed("(define id (lambda (-> int int) ((n) n)))"),
        "(define id (\u{3bb} (\u{2192} int int)\n\t((n) n))\n)"
    );
    assert_eq!(
        printed("(lambda (fn {i8 \u{2192} u64 -> bool} ((a b) a)))"),
        "(\u{3bb} (\u{2192} i8 u64 bool)\n\t((a b) a))"
    );
    assert_eq!(
        printed("(\u{3bb} (\u{3bb} (\u{2192} (\u{21D2} Eq a b) {Ord => a} int) (() 1)))"),
        "(\u{3bb} {{Eq \u{21D2} a b} {Ord \u{21D2} a} int}\n\t(() 1))"
    );
    assert_eq!(printed("(let ((a int 1) (b bool c)) a b)"), "(let [(a int 1)\n(b bool c)]\na b)");
    assert_eq!(printed("(let ())"), "(let []\n)");
}

#[test]
fn white_space_and_comments_are_skipped() {
    let code = "  # a module\n\n(f   1 # the first\n   2)\t# done\n# the end";
    let module = parse_text(code).unwrap();
    assert_eq!(module.len(), 1);
    assert_eq!(module[0].to_sexpr(0), "(f 1 2)");
    assert_eq!(module[0].position, Position::new(1, 3));
    let both = parse_text("a\nb").unwrap();
    assert_eq!(both.len(), 2);
    assert_eq!(both[1].position, Position::new(1, 2));
}

#[test]
fn what_follows_the_last_expression_is_not_looked_at() {
    let module = parse_text("(f 1) (g 2) ) (h").unwrap();
    assert_eq!(module.len(), 2);
    assert_eq!(module[1].to_sexpr(0), "(g 2)");
    let one = parse_text("x (").unwrap();
    assert_eq!(one.len(), 1);
}

#[test]
fn a_text_without_an_expression_is_no_module() {
    for code in ["", "   ", "# only a comment", ")", "(", "(f 1", "(define x)", "(if c)", "define"] {
        let problem = parse_text(code).expect_err("the text is no module");
        assert_eq!(problem.value, "[error] expected an expression");
    }
    let problem = parse_text("\n  # nothing\n   )").unwrap_err();
    assert_eq!(problem.pos, Position::new(4, 3));
    assert_eq!(problem.to_string(), "[error] expected an expression at line 3, column 4");
}

#[test]
fn positions_are_lines_and_columns_from_one() {
    let module = parse_text("(f a\n   (g b))").unwrap();
    assert_eq!(module[0].position, Position::new(1, 1));
    match &module[0].node {
        Form::App(app) => {
            assert_eq!(app.fun.pos, Position::new(2, 1));
            assert_eq!(app.params[0].position, Position::new(4, 1));
            assert_eq!(app.params[1].position, Position::new(4, 2));
            match &app.params[1].node {
                Form::App(inner) => {
                    assert_eq!(inner.fun.value, "g");
                    assert_eq!(inner.fun.pos, Position::new(5, 2));
                    match &inner.params[0].node {
                        Form::NameRef(NameRef::Owned(b)) => {
                            assert_eq!(b.pos, Position::new(7, 2))
                        }
                        other => panic!("a name is expected, not {:?}", other),
                    }
                }
                other => panic!("an application is expected, not {:?}", other),
            }
        }
        other => panic!("an application is expected, not {:?}", other),
    }
}

#[test]
fn names_and_reserved_words() {
    let src = source("fac' define defined \u{3bb}x let* <=> 9a");
    let (name, end) = parse_name(&src, 0).unwrap();
    assert_eq!(name.value, "fac'");
    assert_eq!(end, 5);
    assert!(parse_name(&src, 5).is_none());
    let (name, end) = parse_name(&src, 12).unwrap();
    assert_eq!(name.value, "defined");
    assert_eq!(name.pos, Position::new(13, 1));
    assert_eq!(end, 20);
    let (name, _) = parse_name(&src, 20).unwrap();
    assert_eq!(name.value, "\u{3bb}x");
    assert!(parse_name(&src, 23).is_none());
    let (name, _) = parse_name(&src, 28).unwrap();
    assert_eq!(name.value, "<=>");
    assert!(parse_name(&src, 32).is_none());
    assert!(parse_name(&src, 34).is_none());
}

#[test]
fn numbers() {
    assert_eq!(first("0").node, Form::Lit(Literal::IntConst(0)));
    assert_eq!(first("007").node, Form::Lit(Literal::IntConst(7)));
    assert_eq!(
        first("9223372036854775807").node,
        Form::Lit(Literal::IntConst(i64::MAX))
    );
    assert!(parse_text("9223372036854775808").is_err());
    assert!(parse_text("99999999999999999999999999").is_err());
    // a number goes on as far as its digits
    let module = parse_text("12ab").unwrap();
    assert_eq!(module.len(), 2);
    assert_eq!(module[0].node, Form::Lit(Literal::IntConst(12)));
}

#[test]
fn types_and_pointers() {
    let parse = |code: &str| parse_type(&source(code), 0).map(|r| r.0);
    assert_eq!(parse("int"), Some(Type::Prim(Primitive::IntSize)));
    assert_eq!(parse("uint"), Some(Type::Prim(Primitive::UintSize)));
    assert_eq!(parse("i16"), Some(Type::Prim(Primitive::Int(Int::Int16))));
    assert_eq!(parse("u64 "), Some(Type::Prim(Primitive::Uint(Int::Int64))));
    assert_eq!(parse("double"), Some(Type::Prim(Primitive::Double)));
    assert_eq!(parse("integer"), None);
    assert_eq!(parse("int8"), None);
    assert_eq!(parse("byte"), None);
    assert_eq!(
        parse("*int"),
        Some(Type::Ref(Reference::Raw(Rc::new(Type::Prim(Primitive::IntSize)))))
    );
    assert_eq!(
        parse("@&bool"),
        Some(Type::Ref(Reference::Unique(Rc::new(Type::Ref(Reference::Borrowed(Rc::new(
            Type::Prim(Primitive::Bool)
        )))))))
    );
    assert_eq!(parse("* int"), None);
    assert_eq!(parse("$int"), None);
}

#[test]
fn signatures_have_a_type_in_their_chain() {
    let parse = |code: &str| parse_signature(&source(code), 0).map(|r| r.0);
    assert_eq!(parse("(-> int)").map(|s| s.arity()), Some(0));
    assert_eq!(parse("{int}").map(|s| s.arity()), Some(0));
    assert_eq!(parse("(-> int bool i8)").map(|s| s.arity()), Some(2));
    assert_eq!(parse("{int -> bool \u{2192} i8}").map(|s| s.arity()), Some(2));
    assert_eq!(parse("(->)"), None);
    assert_eq!(parse("{}"), None);
    assert_eq!(parse("{int ->}"), None);
    assert_eq!(parse("(-> int"), None);
    assert_eq!(parse("(int)"), None);
    let constrained = parse("{{Eq => a} int}").unwrap();
    assert_eq!(constrained.constraints.as_ref().map(|c| c.len()), Some(1));
    assert_eq!(constrained.constraints.unwrap()[0].typeclass.value, "Eq");
    assert_eq!(parse("(-> int)").unwrap().constraints, None);
    // a constraint needs a generic
    assert_eq!(parse("(-> (=> Eq) int)"), None);
}

#[test]
fn patterns_and_name_references() {
    let (pattern, end) = parse_pattern(&source("(a 1 b) x"), 0).unwrap();
    assert_eq!(end, 8);
    assert_eq!(pattern.len(), 3);
    assert!(matches!(&pattern[0], PatElement::Name(n) if n.value == "a"));
    assert_eq!(pattern[1], PatElement::Lit(Literal::IntConst(1)));
    assert!(parse_pattern(&source("(a (b))"), 0).is_none());
    let reference = |code: &str| parse_name_ref(&source(code), 0).map(|r| r.0.to_sexpr(0));
    assert_eq!(reference("x"), Some("x".to_string()));
    assert_eq!(reference("$x"), Some("$x".to_string()));
    assert_eq!(reference("@x"), Some("@x".to_string()));
    assert_eq!(reference("&x"), Some("&x".to_string()));
    assert_eq!(reference("$ x"), None);
    assert_eq!(reference("$$x"), None);
    assert_eq!(reference("if"), None);
}

#[test]
fn definitions_of_functions_and_of_values() {
    match first("(define f (fn (-> int int) ((n) n) ((m) 0)))").node {
        Form::Define(DefForm::Function { name, fun }) => {
            assert_eq!(name.value, "f");
            assert_eq!(fun.position, Position::new(11, 1));
            assert_eq!(fun.arity(), 1);
            assert_eq!(fun.node.equations.len(), 2);
            assert_eq!(fun.node.equations[1].position, Position::new(36, 1));
            assert!(fun.arity_errors().is_empty());
        }
        other => panic!("a function definition is expected, not {:?}", other),
    }
    match first("(def x *int (f 1))").node {
        Form::Define(DefForm::TopLevel { name, annot, value }) => {
            assert_eq!(name.value, "x");
            assert_eq!(annot.to_string(), "*int");
            assert_eq!(value.to_sexpr(0), "(f 1)");
        }
        other => panic!("a value definition is expected, not {:?}", other),
    }
    // a function needs an equation
    assert!(parse_text("(define f (fn (-> int int)))").is_err());
    match first("(let ((a int 1)) a)").node {
        Form::Let(LetForm::Let { bindings, body }) => {
            assert_eq!(bindings.len(), 1);
            assert_eq!(bindings[0].position, Position::new(8, 1));
            assert_eq!(body.len(), 1);
        }
        other => panic!("a let form is expected, not {:?}", other),
    }
}

#[test]
fn an_expression_is_read_from_any_place() {
    let src = source("(f 1) (g 2)");
    let (e, end) = parse_expr(&src, 6).unwrap();
    assert_eq!(e.to_sexpr(0), "(g 2)");
    assert_eq!(e.position, Position::new(7, 1));
    assert_eq!(end, 11);
    assert!(parse_expr(&src, 5).is_none());
    assert!(parse_expr(&src, 11).is_none());
    assert_eq!(src.len(), 11);
}

#[test]
fn a_parsed_module_resolves() {
    let code = "(def fac (fn {int -> int}\n    ((0) 1)\n    ((n) (fac (- n 1)))))\n(fac 5)";
    let body = parse_text(code).unwrap();
    let module = Annotated::new(
        Module { name: Positional::at(1, 1, "main".to_string()), exporting: vec![], body },
        Position::new(1, 1),
    );
    let errs = resolve_module(&module, SymbolTable::new()).expect_err("minus is not bound");
    assert_eq!(errs.len(), 1);
    assert_eq!(errs[0].pos, Position::new(15, 3));
    let mut root = SymbolTable::new();
    let minus = SymbolAnnotation::Value {
        ty: Type::Prim(Primitive::IntSize),
        proven_value: None,
    };
    root.insert("-".to_string(), minus);
    let resolved = resolve_module(&module, root).expect("minus is bound now");
    assert!(resolved.is_defined_here("fac"));

    let wrong = parse_text("(def f (fn {int -> int -> int} ((n) (f n))))").unwrap();
    let module = Annotated::new(
        Module { name: Positional::at(1, 1, "main".to_string()), exporting: vec![], body: wrong },
        Position::new(1, 1),
    );
    let errs = resolve_module(&module, SymbolTable::new()).expect_err("the pattern is too short");
    assert_eq!(errs.len(), 1);
    assert_eq!(errs[0].pos, Position::new(32, 1));
}

#[test]
fn a_comment_ends_with_its_line_whatever_it_starts_with() {
    assert!(parse_text("#| a comment |# (f 1)").is_err());
    let module = parse_text("#| a comment |# (f 1)\n(g 2) #| and |#\n|# x").unwrap();
    assert_eq!(module.len(), 1);
    assert_eq!(module[0].to_sexpr(0), "(g 2)");
    assert_eq!(module[0].position, Position::new(1, 2));
}
