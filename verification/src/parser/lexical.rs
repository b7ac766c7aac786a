//! The lexical level of the language: white space and comments, words,
//! signs and numbers, and the places of characters in a source text.
use vstd::prelude::*;
use vstd::string::StrSliceExecFns;
use crate::position::Position;
use crate::syntax::{
    is_alpha_ext, is_alpha_ext_subsequent, is_operator_char, is_reserved_word,
    reserved_word_texts,
};

verus! {

/// Whether a character is a letter, as `char::is_alphabetic` says.
pub uninterp spec fn alphabetic(c: char) -> bool;

/// Whether a character is a letter or a digit, as `char::is_alphanumeric`
/// says.
pub uninterp spec fn alphanumeric(c: char) -> bool;

/// Whether a character is white space, as `char::is_whitespace` says.
pub uninterp spec fn white(c: char) -> bool;

/// Whether the character is a letter. This calls `char::is_alphabetic`: the
/// answer depends on the character alone, and `alphabetic` is its name.
#[verifier::external_body]
fn is_letter(c: char) -> (b: bool)
    ensures
        b == alphabetic(c),
{
    c.is_alphabetic()
}

/// Whether the character is a letter or a digit. This calls
/// `char::is_alphanumeric`: the answer depends on the character alone, and
/// `alphanumeric` is its name.
#[verifier::external_body]
fn is_letter_or_digit(c: char) -> (b: bool)
    ensures
        b == alphanumeric(c),
{
    c.is_alphanumeric()
}

/// Whether the character is white space. This calls `char::is_whitespace`:
/// the answer depends on the character alone, and `white` is its name.
#[verifier::external_body]
fn is_white(c: char) -> (b: bool)
    ensures
        b == white(c),
{
    c.is_whitespace()
}

/// Appends a character to a string. This calls `String::push`, which
/// appends the given character to the end of the string.
#[verifier::external_body]
fn push_char(s: &mut String, c: char)
    ensures
        final(s)@ == old(s)@.push(c),
{
    s.push(c)
}

/// Whether a character may start an identifier: a letter, or one of the
/// signs that identifiers may start with.
pub open spec fn ident_start(c: char) -> bool {
    alphabetic(c) || "+-*/<=>!:%^"@.contains(c)
}

/// Whether a character may continue an identifier: a letter, a digit, or
/// one of the signs that identifiers may go on with.
pub open spec fn ident_rest(c: char) -> bool {
    alphanumeric(c) || "+-*/<=>!:%^'"@.contains(c)
}

/// Whether a character is one that operators are made of.
pub open spec fn op_char(c: char) -> bool {
    "+-*/|=<>"@.contains(c)
}

/// Whether a character is a decimal digit.
pub open spec fn digit_char(c: char) -> bool {
    '0' <= c <= '9'
}

/// The number that a decimal digit stands for.
pub open spec fn digit_value(c: char) -> nat {
    (c as u32 - '0' as u32) as nat
}

/// The number that a text of decimal digits stands for.
pub open spec fn decimal_value(digits: Seq<char>) -> nat
    decreases digits.len(),
{
    if digits.len() == 0 {
        0
    } else {
        decimal_value(digits.drop_last()) * 10 + digit_value(digits.last())
    }
}

/// The place from `pos` on where the line ends: at the next line break, or
/// at the end of the text.
pub open spec fn line_end(text: Seq<char>, pos: int) -> int
    decreases text.len() - pos,
{
    if 0 <= pos < text.len() && text[pos] != '\n' {
        line_end(text, pos + 1)
    } else {
        pos
    }
}

/// The place from `pos` on where something other than white space and
/// comments stands. A comment starts with `#` and goes on to the end of the
/// line; one that starts with `#|` does so too, and ends with its line, not
/// with `|#`.
pub open spec fn skip_blank(text: Seq<char>, pos: int) -> int
    decreases text.len() - pos,
{
    if 0 <= pos < text.len() && white(text[pos]) {
        skip_blank(text, pos + 1)
    } else if 0 <= pos < text.len() && text[pos] == '#' {
        let end = line_end(text, pos + 1);
        if pos < end <= text.len() {
            skip_blank(text, end)
        } else {
            pos
        }
    } else {
        pos
    }
}

/// The place from `pos` on where the characters that may continue an
/// identifier end.
pub open spec fn word_end(text: Seq<char>, pos: int) -> int
    decreases text.len() - pos,
{
    if 0 <= pos < text.len() && ident_rest(text[pos]) {
        word_end(text, pos + 1)
    } else {
        pos
    }
}

/// The place from `pos` on where the decimal digits end.
pub open spec fn digits_end(text: Seq<char>, pos: int) -> int
    decreases text.len() - pos,
{
    if 0 <= pos < text.len() && digit_char(text[pos]) {
        digits_end(text, pos + 1)
    } else {
        pos
    }
}

/// Whether the word stands in the text at `pos`.
pub open spec fn stands_at(text: Seq<char>, pos: int, word: Seq<char>) -> bool {
    0 <= pos && pos + word.len() <= text.len() && text.subrange(pos, pos + word.len()) == word
}

/// An identifier at `pos`: a character that may start one, and the
/// characters after it that may continue one, unless the word is reserved.
/// Yields the word, and the place after it and the blank that follows.
pub open spec fn identifier(text: Seq<char>, pos: int) -> Option<(Seq<char>, int)> {
    if 0 <= pos < text.len() && ident_start(text[pos]) {
        let end = word_end(text, pos + 1);
        let word = text.subrange(pos, end);
        if reserved_word_texts().contains(word) {
            None
        } else {
            Some((word, skip_blank(text, end)))
        }
    } else {
        None
    }
}

/// The reserved word at `pos`: the word itself, not followed by a character
/// that may continue an identifier. Yields the place after it and the blank
/// that follows.
pub open spec fn reserved(text: Seq<char>, pos: int, word: Seq<char>) -> Option<int> {
    let end = pos + word.len();
    if stands_at(text, pos, word) && !(end < text.len() && ident_rest(text[end])) {
        Some(skip_blank(text, end))
    } else {
        None
    }
}

/// The reserved operator at `pos`: the operator itself, not followed by a
/// character that operators are made of. Yields the place after it and the
/// blank that follows.
pub open spec fn reserved_op(text: Seq<char>, pos: int, word: Seq<char>) -> Option<int> {
    let end = pos + word.len();
    if stands_at(text, pos, word) && !(end < text.len() && op_char(text[end])) {
        Some(skip_blank(text, end))
    } else {
        None
    }
}

/// The sign at `pos`. Yields the place after it and the blank that follows.
pub open spec fn sign(text: Seq<char>, pos: int, c: char) -> Option<int> {
    if 0 <= pos < text.len() && text[pos] == c {
        Some(skip_blank(text, pos + 1))
    } else {
        None
    }
}

/// A number at `pos`: one decimal digit or more, standing for a number that
/// fits 64 bits with a sign. Yields the number, and the place after it and
/// the blank that follows.
pub open spec fn integer(text: Seq<char>, pos: int) -> Option<(i64, int)> {
    let end = digits_end(text, pos);
    if 0 <= pos < end && decimal_value(text.subrange(pos, end)) <= i64::MAX {
        Some((decimal_value(text.subrange(pos, end)) as i64, skip_blank(text, end)))
    } else {
        None
    }
}

/// One more than a line or column number, wrapped into 32 bits.
pub open spec fn next_number(n: i32) -> i32 {
    if n == i32::MAX {
        i32::MIN
    } else {
        (n + 1) as i32
    }
}

/// The line and the column of the place `pos` of a text. The first
/// character stands in line 1, column 1; a line break starts a new line.
pub open spec fn line_and_column(text: Seq<char>, pos: int) -> (i32, i32)
    decreases pos,
{
    if pos <= 0 || pos > text.len() {
        (1, 1)
    } else {
        let before = line_and_column(text, pos - 1);
        if text[pos - 1] == '\n' {
            (next_number(before.0), 1)
        } else {
            (before.0, next_number(before.1))
        }
    }
}

/// The position of the place `pos` of a text.
pub open spec fn place(text: Seq<char>, pos: int) -> Position {
    Position::at(line_and_column(text, pos).1, line_and_column(text, pos).0)
}

/// The places that scanning stops at lie between the start and the end of
/// the text.
pub proof fn lemma_scan_bounds(text: Seq<char>, pos: int)
    requires
        0 <= pos <= text.len(),
    ensures
        pos <= line_end(text, pos) <= text.len(),
        pos <= skip_blank(text, pos) <= text.len(),
        pos <= word_end(text, pos) <= text.len(),
        pos <= digits_end(text, pos) <= text.len(),
    decreases text.len() - pos,
{
    if pos < text.len() {
        lemma_scan_bounds(text, pos + 1);
        if text[pos] == '#' && !white(text[pos]) {
            let end = line_end(text, pos + 1);
            lemma_scan_bounds(text, end);
        }
    }
}

/// A source text, with the position of each of its places.
pub struct Source {
    text: Vec<char>,
    places: Vec<Position>,
}

impl View for Source {
    type V = Seq<char>;

    closed spec fn view(&self) -> Seq<char> {
        self.text@
    }
}

impl Source {
    #[verifier::type_invariant]
    spec fn inv(&self) -> bool {
        &&& self.places@.len() == self.text@.len() + 1
        &&& forall|i: int| 0 <= i <= self.text@.len() ==> #[trigger] self.places@[i] == place(
            self.text@,
            i,
        )
    }

    /// Takes a text as a source, and finds the position of each place.
    pub fn new(text: Vec<char>) -> (source: Source)
        ensures
            source@ == text@,
    {
        let mut places: Vec<Position> = Vec::new();
        let mut line: i32 = 1;
        let mut column: i32 = 1;
        places.push(Position::new(column, line));
        let mut i: usize = 0;
        while i < text.len()
            invariant
                i <= text@.len(),
                places@.len() == i + 1,
                (line, column) == line_and_column(text@, i as int),
                forall|j: int| 0 <= j <= i ==> #[trigger] places@[j] == place(text@, j),
            decreases text.len() - i,
        {
            if text[i] == '\n' {
                line = line.wrapping_add(1);
                column = 1;
            } else {
                column = column.wrapping_add(1);
            }
            i += 1;
            places.push(Position::new(column, line));
        }
        Source { text, places }
    }

    /// The number of characters of the text.
    pub fn len(&self) -> (n: usize)
        ensures
            n == self@.len(),
    {
        self.text.len()
    }

    /// The position of a place of the text.
    pub fn position(&self, pos: usize) -> (p: Position)
        requires
            pos <= self@.len(),
        ensures
            p == place(self@, pos as int),
    {
        proof {
            use_type_invariant(self);
        }
        self.places[pos]
    }

    /// The character at a place of the text.
    pub fn at(&self, pos: usize) -> (c: char)
        requires
            pos < self@.len(),
        ensures
            c == self@[pos as int],
    {
        self.text[pos]
    }

    /// The text from one place to another.
    pub fn slice(&self, from: usize, to: usize) -> (s: String)
        requires
            from <= to <= self@.len(),
        ensures
            s@ == self@.subrange(from as int, to as int),
    {
        let mut s = String::new();
        let mut i: usize = from;
        assert(s@ =~= self@.subrange(from as int, from as int));
        while i < to
            invariant
                from <= i <= to <= self@.len(),
                s@ == self@.subrange(from as int, i as int),
            decreases to - i,
        {
            push_char(&mut s, self.text[i]);
            i += 1;
            assert(s@ =~= self@.subrange(from as int, i as int));
        }
        s
    }

    /// Skips to the end of the line.
    pub fn skip_line(&self, pos: usize) -> (end: usize)
        requires
            pos <= self@.len(),
        ensures
            end == line_end(self@, pos as int),
            pos <= end <= self@.len(),
    {
        let mut i: usize = pos;
        while i < self.text.len() && self.text[i] != '\n'
            invariant
                pos <= i <= self@.len(),
                line_end(self@, pos as int) == line_end(self@, i as int),
            decreases self.text.len() - i,
        {
            i += 1;
        }
        i
    }

    /// Skips white space and comments.
    pub fn skip_blank(&self, pos: usize) -> (end: usize)
        requires
            pos <= self@.len(),
        ensures
            end == skip_blank(self@, pos as int),
            pos <= end <= self@.len(),
    {
        let mut i: usize = pos;
        loop
            invariant
                pos <= i <= self@.len(),
                skip_blank(self@, pos as int) == skip_blank(self@, i as int),
            ensures
                pos <= i <= self@.len(),
                i == skip_blank(self@, pos as int),
            decreases self.text.len() - i,
        {
            if i < self.text.len() && is_white(self.text[i]) {
                i += 1;
            } else if i < self.text.len() && self.text[i] == '#' {
                let end = self.skip_line(i + 1);
                i = end;
            } else {
                break;
            }
        }
        i
    }

    /// Skips the characters that may continue an identifier.
    pub fn skip_word(&self, pos: usize) -> (end: usize)
        requires
            pos <= self@.len(),
        ensures
            end == word_end(self@, pos as int),
            pos <= end <= self@.len(),
    {
        let mut i: usize = pos;
        while i < self.text.len() && Self::may_continue(self.text[i])
            invariant
                pos <= i <= self@.len(),
                word_end(self@, pos as int) == word_end(self@, i as int),
            decreases self.text.len() - i,
        {
            i += 1;
        }
        i
    }

    /// Whether a character may start an identifier.
    pub fn may_start(c: char) -> (b: bool)
        ensures
            b == ident_start(c),
    {
        is_letter(c) || is_alpha_ext(c)
    }

    /// Whether a character may continue an identifier.
    pub fn may_continue(c: char) -> (b: bool)
        ensures
            b == ident_rest(c),
    {
        is_letter_or_digit(c) || is_alpha_ext_subsequent(c)
    }

    /// Reads an identifier.
    pub fn identifier(&self, pos: usize) -> (r: Option<(String, usize)>)
        requires
            pos <= self@.len(),
        ensures
            match r {
                Some((word, end)) => identifier(self@, pos as int) == Some((word@, end as int))
                    && pos < end <= self@.len(),
                None => identifier(self@, pos as int) is None,
            },
    {
        if pos < self.text.len() && Self::may_start(self.text[pos]) {
            let end = self.skip_word(pos + 1);
            let word = self.slice(pos, end);
            if is_reserved_word(word.as_str()) {
                None
            } else {
                Some((word, self.skip_blank(end)))
            }
        } else {
            None
        }
    }

    /// Whether the word stands in the text at a place.
    pub fn stands_at(&self, pos: usize, word: &str) -> (b: bool)
        requires
            pos <= self@.len(),
        ensures
            b == stands_at(self@, pos as int, word@),
    {
        let n = word.unicode_len();
        if n > self.text.len() - pos {
            return false;
        }
        let mut i: usize = 0;
        while i < n
            invariant
                i <= n,
                n == word@.len(),
                pos + n <= self.text.len(),
                forall|j: int| 0 <= j < i ==> self@[pos + j] == #[trigger] word@[j],
            decreases n - i,
        {
            if self.text[pos + i] != word.get_char(i) {
                assert(self@.subrange(pos as int, pos + n)[i as int] != word@[i as int]);
                return false;
            }
            i += 1;
        }
        assert(self@.subrange(pos as int, pos + n) =~= word@);
        true
    }

    /// Reads a reserved word.
    pub fn reserved(&self, pos: usize, word: &str) -> (r: Option<usize>)
        requires
            pos <= self@.len(),
        ensures
            match r {
                Some(end) => reserved(self@, pos as int, word@) == Some(end as int) && pos
                    + word@.len() <= end <= self@.len(),
                None => reserved(self@, pos as int, word@) is None,
            },
    {
        if self.stands_at(pos, word) {
            let n = word.unicode_len();
            assert(pos + n <= self.text.len());
            let end = pos + n;
            if end < self.text.len() && Self::may_continue(self.text[end]) {
                None
            } else {
                Some(self.skip_blank(end))
            }
        } else {
            None
        }
    }

    /// Reads a reserved operator.
    pub fn reserved_op(&self, pos: usize, word: &str) -> (r: Option<usize>)
        requires
            pos <= self@.len(),
        ensures
            match r {
                Some(end) => reserved_op(self@, pos as int, word@) == Some(end as int) && pos
                    + word@.len() <= end <= self@.len(),
                None => reserved_op(self@, pos as int, word@) is None,
            },
    {
        if self.stands_at(pos, word) {
            let n = word.unicode_len();
            assert(pos + n <= self.text.len());
            let end = pos + n;
            if end < self.text.len() && is_operator_char(self.text[end]) {
                None
            } else {
                Some(self.skip_blank(end))
            }
        } else {
            None
        }
    }

    /// Reads a sign.
    pub fn sign(&self, pos: usize, c: char) -> (r: Option<usize>)
        requires
            pos <= self@.len(),
        ensures
            match r {
                Some(end) => sign(self@, pos as int, c) == Some(end as int) && pos < end
                    <= self@.len(),
                None => sign(self@, pos as int, c) is None,
            },
    {
        if pos < self.text.len() && self.text[pos] == c {
            Some(self.skip_blank(pos + 1))
        } else {
            None
        }
    }

    /// Reads a number.
    pub fn integer(&self, pos: usize) -> (r: Option<(i64, usize)>)
        requires
            pos <= self@.len(),
        ensures
            match r {
                Some((n, end)) => integer(self@, pos as int) == Some((n, end as int)) && pos < end
                    <= self@.len(),
                None => integer(self@, pos as int) is None,
            },
    {
        let mut i: usize = pos;
        let mut value: u64 = 0;
        let mut fits = true;
        proof {
            assert(self@.subrange(pos as int, pos as int) =~= Seq::<char>::empty());
        }
        while i < self.text.len() && self.text[i] >= '0' && self.text[i] <= '9'
            invariant
                pos <= i <= self@.len(),
                digits_end(self@, pos as int) == digits_end(self@, i as int),
                fits ==> value == decimal_value(self@.subrange(pos as int, i as int)) && value
                    <= i64::MAX,
                !fits ==> decimal_value(self@.subrange(pos as int, i as int)) > i64::MAX,
            decreases self.text.len() - i,
        {
            let d = (self.text[i] as u32 - '0' as u32) as u64;
            proof {
                let upto = self@.subrange(pos as int, i + 1);
                assert(upto.drop_last() =~= self@.subrange(pos as int, i as int));
                assert(upto.last() == self@[i as int]);
                assert(d == digit_value(self@[i as int]));
            }
            if fits {
                if value > (i64::MAX as u64 - d) / 10 {
                    fits = false;
                } else {
                    value = value * 10 + d;
                }
            }
            i += 1;
        }
        if i > pos && fits {
            Some((value as i64, self.skip_blank(i)))
        } else {
            None
        }
    }
}

} // verus!
