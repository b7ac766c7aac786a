//! Laws of the parser: what is rendered reads back as what it was.
use vstd::prelude::*;
use crate::parser::grammar::{primitive_from, type_at};
use crate::parser::lexical::{line_end, reserved, skip_blank, stands_at};
use crate::semantic::types::{primitive_text, type_text, Int, Primitive, ReferenceModel, TypeModel};
use crate::syntax::{writable, writable_order};

verus! {

/// Whether a type can be written in a program: a primitive type that has a
/// name there, or a raw, a unique or a borrowed pointer to such a type.
pub open spec fn readable(ty: TypeModel) -> bool
    decreases ty,
{
    match ty {
        TypeModel::Prim(p) => writable(p),
        TypeModel::Ref(r) => match r {
            ReferenceModel::Raw(inner) => readable(*inner),
            ReferenceModel::Unique(inner) => readable(*inner),
            ReferenceModel::Borrowed(inner) => readable(*inner),
            ReferenceModel::Moved(_) => false,
        },
        _ => false,
    }
}

/// What was read at a place of a text, seen from a text with `shift`
/// characters more before it.
pub open spec fn shifted<T>(r: Option<(T, int)>, shift: int) -> Option<(T, int)> {
    match r {
        Some((value, end)) => Some((value, end + shift)),
        None => None,
    }
}

proof fn lemma_line_end_shift(pre: Seq<char>, s: Seq<char>, k: int)
    requires
        0 <= k <= s.len(),
    ensures
        line_end(pre + s, pre.len() + k) == line_end(s, k) + pre.len(),
    decreases s.len() - k,
{
    if k < s.len() {
        assert((pre + s)[pre.len() + k] == s[k]);
        lemma_line_end_shift(pre, s, k + 1);
    }
}

proof fn lemma_skip_blank_shift(pre: Seq<char>, s: Seq<char>, k: int)
    requires
        0 <= k <= s.len(),
    ensures
        skip_blank(pre + s, pre.len() + k) == skip_blank(s, k) + pre.len(),
    decreases s.len() - k,
{
    if k < s.len() {
        assert((pre + s)[pre.len() + k] == s[k]);
        if crate::parser::lexical::white(s[k]) {
            lemma_skip_blank_shift(pre, s, k + 1);
        } else if s[k] == '#' {
            lemma_line_end_shift(pre, s, k + 1);
            crate::parser::lexical::lemma_scan_bounds(s, k + 1);
            let end = line_end(s, k + 1);
            lemma_skip_blank_shift(pre, s, end);
        }
    }
}

proof fn lemma_reserved_shift(pre: Seq<char>, s: Seq<char>, k: int, word: Seq<char>)
    requires
        0 <= k <= s.len(),
    ensures
        stands_at(pre + s, pre.len() + k, word) == stands_at(s, k, word),
        reserved(pre + s, pre.len() + k, word) == match reserved(s, k, word) {
            Some(end) => Some(end + pre.len()),
            None => None,
        },
{
    let text = pre + s;
    let at = pre.len() + k;
    if k + word.len() <= s.len() {
        assert(text.subrange(at, at + word.len()) =~= s.subrange(k, k + word.len()));
        let end = k + word.len();
        if end < s.len() {
            assert(text[pre.len() + end] == s[end]);
        }
        lemma_skip_blank_shift(pre, s, end);
    }
}

proof fn lemma_primitive_shift(pre: Seq<char>, s: Seq<char>, k: int, i: int)
    requires
        0 <= k <= s.len(),
        0 <= i,
    ensures
        primitive_from(pre + s, pre.len() + k, i) == shifted(
            primitive_from(s, k, i),
            pre.len() as int,
        ),
    decreases writable_order().len() - i,
{
    if i < writable_order().len() {
        lemma_reserved_shift(pre, s, k, primitive_text(writable_order()[i]));
        lemma_primitive_shift(pre, s, k, i + 1);
    }
}

/// Reading a type does not depend on what stands before it in the text.
pub proof fn lemma_type_shift(pre: Seq<char>, s: Seq<char>, k: int)
    requires
        0 <= k <= s.len(),
    ensures
        type_at(pre + s, pre.len() + k) == shifted(type_at(s, k), pre.len() as int),
    decreases s.len() - k,
{
    lemma_primitive_shift(pre, s, k, 0);
    if k < s.len() {
        assert((pre + s)[pre.len() + k] == s[k]);
        lemma_type_shift(pre, s, k + 1);
    }
}

proof fn lemma_primitive_found(text: Seq<char>, pos: int, n: int, i: int)
    requires
        0 <= i <= n < writable_order().len(),
        forall|j: int|
            0 <= j < n ==> reserved(text, pos, primitive_text(#[trigger] writable_order()[j]))
                is None,
        reserved(text, pos, primitive_text(writable_order()[n])) is Some,
    ensures
        primitive_from(text, pos, i) == Some(
            (writable_order()[n], reserved(text, pos, primitive_text(writable_order()[n]))->0),
        ),
    decreases n - i,
{
    if i < n {
        lemma_primitive_found(text, pos, n, i + 1);
    }
}

proof fn lemma_no_primitive(text: Seq<char>, i: int)
    requires
        text.len() > 0,
        text[0] == '*' || text[0] == '@' || text[0] == '&',
        0 <= i,
    ensures
        primitive_from(text, 0, i) is None,
    decreases writable_order().len() - i,
{
    reveal_strlit("int");
    reveal_strlit("uint");
    reveal_strlit("float");
    reveal_strlit("double");
    reveal_strlit("bool");
    reveal_strlit("i8");
    reveal_strlit("i16");
    reveal_strlit("i32");
    reveal_strlit("i64");
    reveal_strlit("u8");
    reveal_strlit("u16");
    reveal_strlit("u32");
    reveal_strlit("u64");
    if i < writable_order().len() {
        let word = primitive_text(writable_order()[i]);
        if stands_at(text, 0, word) {
            assert(text.subrange(0, word.len() as int)[0] == word[0]);
        }
        lemma_no_primitive(text, i + 1);
    }
}

/// The name that a primitive type is rendered under, read as a type, is
/// that very type.
pub proof fn law_primitive_names_read_back(p: Primitive)
    requires
        writable(p),
    ensures
        type_at(primitive_text(p), 0) == Some(
            (TypeModel::Prim(p), primitive_text(p).len() as int),
        ),
{
    reveal_strlit("int");
    reveal_strlit("uint");
    reveal_strlit("float");
    reveal_strlit("double");
    reveal_strlit("bool");
    reveal_strlit("i8");
    reveal_strlit("i16");
    reveal_strlit("i32");
    reveal_strlit("i64");
    reveal_strlit("u8");
    reveal_strlit("u16");
    reveal_strlit("u32");
    reveal_strlit("u64");
    let text = primitive_text(p);
    let order = writable_order();
    let n: int = match p {
        Primitive::IntSize => 0,
        Primitive::UintSize => 1,
        Primitive::Float => 2,
        Primitive::Double => 3,
        Primitive::Bool => 4,
        Primitive::Int(Int::Int8) => 5,
        Primitive::Int(Int::Int16) => 6,
        Primitive::Int(Int::Int32) => 7,
        Primitive::Int(Int::Int64) => 8,
        Primitive::Uint(Int::Int8) => 9,
        Primitive::Uint(Int::Int16) => 10,
        Primitive::Uint(Int::Int32) => 11,
        _ => 12,
    };
    assert(order[n] == p);
    assert(text.subrange(0, text.len() as int) =~= text);
    assert(skip_blank(text, text.len() as int) == text.len());
    assert(reserved(text, 0, text) == Some(text.len() as int));
    assert forall|i: int| 0 <= i < n implies reserved(
        text,
        0,
        primitive_text(#[trigger] order[i]),
    ) is None by {
        let other = primitive_text(order[i]);
        if stands_at(text, 0, other) {
            assert(other.len() <= text.len());
            assert(text.subrange(0, other.len() as int)[0] == other[0]);
            assert(text.subrange(0, other.len() as int)[1] == other[1]);
            if other.len() > 2 {
                assert(text.subrange(0, other.len() as int)[2] == other[2]);
            }
        }
    }
    lemma_primitive_found(text, 0, n, 0);
}

/// A type that can be written in a program, rendered in the language's
/// notation and read back, is that very type: for these types, reading is
/// the inverse of rendering.
pub proof fn law_types_read_back(ty: TypeModel)
    requires
        readable(ty),
    ensures
        type_at(type_text(ty), 0) == Some((ty, type_text(ty).len() as int)),
    decreases ty,
{
    match ty {
        TypeModel::Prim(p) => {
            law_primitive_names_read_back(p);
        },
        TypeModel::Ref(r) => {
            reveal_strlit("*");
            reveal_strlit("@");
            reveal_strlit("&");
            let inner = match r {
                ReferenceModel::Raw(inner) => *inner,
                ReferenceModel::Unique(inner) => *inner,
                ReferenceModel::Borrowed(inner) => *inner,
                ReferenceModel::Moved(inner) => *inner,
            };
            let sigil = match r {
                ReferenceModel::Raw(_) => "*"@,
                ReferenceModel::Unique(_) => "@"@,
                _ => "&"@,
            };
            let text = type_text(ty);
            assert(text == sigil + type_text(inner));
            assert(sigil.len() == 1);
            assert(text[0] == sigil[0]);
            law_types_read_back(inner);
            lemma_no_primitive(text, 0);
            lemma_type_shift(sigil, type_text(inner), 0);
            assert(type_at(text, 1) == Some((inner, (type_text(inner).len() + 1) as int)));
            assert(text.len() == type_text(inner).len() + 1);
        },
        _ => {},
    }
}

} // verus!
