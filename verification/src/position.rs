//! Positions within a source file, and values that carry one.
use vstd::prelude::*;
use vstd::string::StringExecFns;
use vstd::std_specs::cmp::PartialEqSpec;
use crate::text::{append_decimal, decimal};

verus! {

/// The raw offset of a position: column plus row, wrapped into 32 bits where
/// the sum does not fit.
pub open spec fn raw_offset(col: i32, row: i32) -> i32 {
    if col + row > i32::MAX {
        (col + row - 0x1_0000_0000) as i32
    } else if col + row < i32::MIN {
        (col + row + 0x1_0000_0000) as i32
    } else {
        (col + row) as i32
    }
}

/// A position within a source code file.
#[derive(Copy, Clone, PartialEq, Eq, Structural, Debug, PartialOrd, Ord)]
pub struct Position {
    pub col: i32,
    pub row: i32,
    pub raw: i32,
}

impl Position {
    /// The position at the given column and row, as a value of specifications.
    pub open spec fn at(col: i32, row: i32) -> Position {
        Position { col, row, raw: raw_offset(col, row) }
    }

    /// The text that `to_string` renders a position as.
    pub open spec fn text(self) -> Seq<char> {
        "line "@ + decimal(self.row as int) + ", column "@ + decimal(self.col as int)
    }

    /// Create a new `Position` at the given column and row.
    #[inline]
    pub fn new(col: i32, row: i32) -> (p: Self)
        ensures
            p == Position::at(col, row),
    {
        Position { col, row, raw: col.wrapping_add(row) }
    }

    /// Renders the position as `line <row>, column <col>`.
    pub fn to_string(&self) -> (s: String)
        ensures
            s@ == self.text(),
    {
        let mut s = String::from_str("line ");
        append_decimal(&mut s, self.row as i64);
        s.append(", column ");
        append_decimal(&mut s, self.col as i64);
        assert(s@ =~= self.text());
        s
    }
}

impl From<(i32, i32)> for Position {
    /// Create a new `Position` from a tuple of column and row.
    fn from(pair: (i32, i32)) -> (p: Self) {
        Position::new(pair.0, pair.1)
    }
}

impl vstd::std_specs::convert::FromSpecImpl<(i32, i32)> for Position {
    open spec fn obeys_from_spec() -> bool {
        true
    }

    open spec fn from_spec(pair: (i32, i32)) -> Position {
        Position::at(pair.0, pair.1)
    }
}

/// A value with an associated `Position`.
#[derive(Debug)]
pub struct Positional<T> {
    pub pos: Position,
    pub value: T,
}

impl<A> Positional<A> {
    /// Create a new `Positional` marker at the given column and row.
    #[inline]
    pub fn at(col: i32, row: i32, value: A) -> (p: Positional<A>)
        ensures
            p.pos == Position::at(col, row),
            p.value == value,
    {
        Positional { pos: Position::new(col, row), value }
    }

    /// Create a new `Positional` marker at the given position.
    #[inline]
    pub fn from(pos: Position, value: A) -> (p: Positional<A>)
        ensures
            p.pos == pos,
            p.value == value,
    {
        Positional { pos, value }
    }

    /// Create a `Positional` wrapping a new value at the same position.
    #[inline]
    pub fn map<B>(&self, value: B) -> (p: Positional<B>)
        ensures
            p.pos == self.pos,
            p.value == value,
    {
        Positional { pos: self.pos, value }
    }

    /// The value at the position.
    pub fn value(&self) -> (v: &A)
        ensures
            *v == self.value,
    {
        &self.value
    }
}

impl<T: View> View for Positional<T> {
    type V = Positional<T::V>;

    open spec fn view(&self) -> Positional<T::V> {
        Positional { pos: self.pos, value: self.value@ }
    }
}

impl<T: Clone> Clone for Positional<T> {
    /// A clone of the value at the same position.
    fn clone(&self) -> (r: Self)
        ensures
            r.pos == self.pos,
            cloned(self.value, r.value),
    {
        Positional { pos: self.pos, value: self.value.clone() }
    }
}

impl Positional<String> {
    /// The text that `to_string` renders a positioned message as.
    pub open spec fn text(self) -> Seq<char> {
        self.value@ + " at "@ + self.pos.text()
    }

    /// Renders a positioned message as `<message> at line <row>, column
    /// <col>`.
    pub fn to_string(&self) -> (s: String)
        ensures
            s@ == self.text(),
    {
        let mut s = self.value.clone();
        s.append(" at ");
        let p = self.pos.to_string();
        s.append(p.as_str());
        assert(s@ =~= self.text());
        s
    }
}

/// A positional value is equal to another whenever the underlying values are
/// equal, whatever their positions. This is what lets two occurrences of one
/// identifier compare equal.
impl<T: PartialEq> PartialEq for Positional<T> {
    fn eq(&self, other: &Positional<T>) -> (r: bool)
        ensures
            call_ensures(T::eq, (&self.value, &other.value), r),
    {
        self.value == other.value
    }
}

impl<T: PartialEq> vstd::std_specs::cmp::PartialEqSpecImpl for Positional<T> {
    open spec fn obeys_eq_spec() -> bool {
        T::obeys_eq_spec()
    }

    open spec fn eq_spec(&self, other: &Positional<T>) -> bool {
        self.value.eq_spec(&other.value)
    }
}

impl<T: Eq> Eq for Positional<T> {

}

impl<T> core::ops::Deref for Positional<T> {
    type Target = T;

    fn deref(&self) -> (v: &T)
        ensures
            *v == self.value,
    {
        &self.value
    }
}

impl<T> core::ops::DerefMut for Positional<T> {
    fn deref_mut(&mut self) -> (v: &mut T)
        ensures
            *v == old(self).value,
            final(self).value == *final(v),
            final(self).pos == old(self).pos,
    {
        &mut self.value
    }
}

/// Equality of positional values looks at the values alone: two values at
/// different positions compare as the values themselves do.
pub proof fn law_equality_ignores_position<T: PartialEq>(a: Positional<T>, b: Positional<T>)
    ensures
        a.eq_spec(&b) == a.value.eq_spec(&b.value),
        a.eq_spec(&b) == (Positional { pos: b.pos, value: a.value }).eq_spec(
            &Positional { pos: a.pos, value: b.value },
        ),
{
}

/// Where the values compare by what they are, identical values compare
/// equal at whatever positions, and different values never do.
pub proof fn law_positionals_compare_as_values<T: PartialEq>(a: Positional<T>, b: Positional<T>)
    requires
        vstd::laws_eq::obeys_concrete_eq::<T>(),
    ensures
        a.eq_spec(&b) <==> a.value == b.value,
{
    reveal(vstd::laws_eq::obeys_concrete_eq);
}

} // verus!
