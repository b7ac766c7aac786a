use mnemosyne::position::{Position, Positional};
use mnemosyne::text::{concat_all, decimal_string, join};

#[test]
fn test_from_tuple() {
    let tuple: (i32, i32) = (1, 1);
    assert_eq!(Position::from(tuple), Position::new(1, 1));
}

#[test]
fn new_position_holds_column_row_and_their_sum() {
    let p = Position::new(3, 4);
    assert_eq!(p.col, 3);
    assert_eq!(p.row, 4);
    assert_eq!(p.raw, 7);
}

#[test]
fn raw_offset_wraps_where_the_sum_does_not_fit() {
    let p = Position::new(i32::MAX, 1);
    assert_eq!(p.raw, i32::MIN);
    let q = Position::new(i32::MIN, -1);
    assert_eq!(q.raw, i32::MAX);
}

#[test]
fn position_renders_line_then_column() {
    assert_eq!(Position::new(7, 12).to_string(), "line 12, column 7");
    assert_eq!(Position::new(-1, 0).to_string(), "line 0, column -1");
    assert_eq!(
        Position::new(i32::MIN, i32::MAX).to_string(),
        "line 2147483647, column -2147483648"
    );
}

#[test]
fn positioned_message_renders_message_then_position() {
    let m = Positional::at(5, 9, "something is off".to_string());
    assert_eq!(m.to_string(), "something is off at line 9, column 5");
}

#[test]
fn equality_ignores_position() {
    let a = Positional::at(1, 1, "x".to_string());
    let b = Positional::at(40, 7, "x".to_string());
    let c = Positional::at(1, 1, "y".to_string());
    assert!(a == b);
    assert!(a != c);
    assert!(b != c);
}

#[test]
fn map_keeps_the_position() {
    let a = Positional::at(2, 3, "x".to_string());
    let b = a.map(17u8);
    assert_eq!(b.pos, a.pos);
    assert_eq!(b.value, 17);
    assert_eq!(*a.value(), "x");
    let c = Positional::from(Position::new(2, 3), 1u8);
    assert_eq!(c.pos, a.pos);
}

#[test]
fn deref_reaches_the_value() {
    let mut a = Positional::at(2, 3, "x".to_string());
    assert_eq!(a.len(), 1);
    a.push('y');
    assert_eq!(a.value, "xy");
    assert_eq!(a.pos, Position::new(2, 3));
}

#[test]
fn decimal_rendering() {
    assert_eq!(decimal_string(0), "0");
    assert_eq!(decimal_string(9), "9");
    assert_eq!(decimal_string(10), "10");
    assert_eq!(decimal_string(-305), "-305");
    assert_eq!(decimal_string(i64::MAX), "9223372036854775807");
    assert_eq!(decimal_string(i64::MIN), "-9223372036854775808");
}

#[test]
fn join_puts_the_separator_between_neighbours() {
    let none: Vec<String> = vec![];
    assert_eq!(join(&none, ", "), "");
    assert_eq!(join(&vec!["a".to_string()], ", "), "a");
    assert_eq!(
        join(&vec!["a".to_string(), "".to_string(), "c".to_string()], ", "),
        "a, , c"
    );
}

#[test]
fn concat_all_puts_nothing_between_the_pieces() {
    let none: Vec<String> = vec![];
    assert_eq!(concat_all(&none), "");
    assert_eq!(concat_all(&vec!["ab".to_string(), "".to_string(), "c".to_string()]), "abc");
}
