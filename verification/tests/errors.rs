use mnemosyne::errors::{ice_report, render, ExpectICE, Problem, UnwrapICE};
use mnemosyne::position::Positional;

#[test]
fn test_option_expect_ok() {
    let x = Some("value");
    assert_eq!(x.expect_ice("the world is ending"), "value");
}

#[test]
fn test_option_unwrap_ok() {
    let x = Some("air");
    assert_eq!(x.unwrap_ice(), "air");
}

#[test]
fn test_result_unwrap_ok() {
    let x: Result<u32, &str> = Ok(2);
    assert_eq!(x.unwrap_ice(), 2);
}

#[test]
fn result_expect_ok() {
    let x: Result<u32, &str> = Ok(7);
    assert_eq!(x.expect_ice("Testing expect"), 7);
}

#[test]
fn undefined_function_is_rendered_with_its_position() {
    let e = Positional::at(7, 3, Problem::UndefinedFunction("f".to_string()));
    assert_eq!(e.value.message(), "Undefined function f");
    assert_eq!(render(&e), "Undefined function f at line 3, column 7");
}

#[test]
fn undefined_name_is_rendered_with_its_position() {
    let e = Positional::at(4, 2, Problem::UndefinedName("y".to_string()));
    assert_eq!(render(&e), "[error] undefined name y at line 2, column 4");
}

#[test]
fn arity_problems_are_rendered_with_both_counts() {
    let few = Problem::TooFewBindings {
        arity: 2,
        bound: 1,
        signature: "(\u{2192} int int int)".to_string(),
        function: "((n) (f n))".to_string(),
    };
    assert_eq!(
        few.message(),
        "[error] equation had fewer bindings than function arity\n [error] auto-currying is not currently implemented.\n signature: (\u{2192} int int int)\nfunction: ((n) (f n))\n"
    );
    let many = Problem::TooManyBindings {
        arity: 1,
        bound: 2,
        signature: "(\u{2192} int int)".to_string(),
        function: "((a b) a)".to_string(),
    };
    assert_eq!(
        many.message(),
        "[error] equation bound too many arguments\n signature: (\u{2192} int int)\nfunction: ((a b) a)\n"
    );
}

#[test]
fn internal_error_report_has_the_banner_and_the_versions() {
    assert_eq!(
        ice_report("undefined index", "Mnemosyne 0.1.0"),
        "[internal error] undefined index\n [internal error] Something has gone horribly wrong.\n [internal error] Please contact the Mnemosyne implementors.\nMnemosyne 0.1.0"
    );
}
