//! The words and signs of the language: the characters that names and
//! operators are made of, the words that are reserved, and the primitive
//! types that have a name.
use vstd::prelude::*;
use crate::chars;
use crate::semantic::types::{primitive_text, Int, Primitive};

verus! {

/// Whether a character, besides the letters, may start an identifier.
pub fn is_alpha_ext(c: char) -> (b: bool)
    ensures
        b == "+-*/<=>!:%^"@.contains(c),
        b == chars::ALPHA_EXT@.contains(c),
{
    proof {
        reveal_strlit("+-*/<=>!:%^");
    }
    let ghost text = "+-*/<=>!:%^"@;
    let b = c == '+' || c == '-' || c == '*' || c == '/' || c == '<' || c == '=' || c == '>' || c
        == '!' || c == ':' || c == '%' || c == '^';
    proof {
        if b {
            let i: int = if c == '+' {
                0
            } else if c == '-' {
                1
            } else if c == '*' {
                2
            } else if c == '/' {
                3
            } else if c == '<' {
                4
            } else if c == '=' {
                5
            } else if c == '>' {
                6
            } else if c == '!' {
                7
            } else if c == ':' {
                8
            } else if c == '%' {
                9
            } else {
                10
            };
            assert(text[i] == c);
        }
    }
    b
}

/// Whether a character, besides the letters and the digits, may continue an
/// identifier.
pub fn is_alpha_ext_subsequent(c: char) -> (b: bool)
    ensures
        b == "+-*/<=>!:%^'"@.contains(c),
        b == chars::ALPHA_EXT_SUBSEQUENT@.contains(c),
{
    proof {
        reveal_strlit("+-*/<=>!:%^'");
    }
    let ghost text = "+-*/<=>!:%^'"@;
    let b = c == '+' || c == '-' || c == '*' || c == '/' || c == '<' || c == '=' || c == '>' || c
        == '!' || c == ':' || c == '%' || c == '^' || c == '\'';
    proof {
        if b {
            let i: int = if c == '+' {
                0
            } else if c == '-' {
                1
            } else if c == '*' {
                2
            } else if c == '/' {
                3
            } else if c == '<' {
                4
            } else if c == '=' {
                5
            } else if c == '>' {
                6
            } else if c == '!' {
                7
            } else if c == ':' {
                8
            } else if c == '%' {
                9
            } else if c == '^' {
                10
            } else {
                11
            };
            assert(text[i] == c);
        }
    }
    b
}

/// Whether a character is one that operators are made of.
pub fn is_operator_char(c: char) -> (b: bool)
    ensures
        b == "+-*/|=<>"@.contains(c),
        b == chars::OPS@.contains(c),
{
    proof {
        reveal_strlit("+-*/|=<>");
    }
    let ghost text = "+-*/|=<>"@;
    let b = c == '+' || c == '-' || c == '*' || c == '/' || c == '|' || c == '=' || c == '<' || c
        == '>';
    proof {
        if b {
            let i: int = if c == '+' {
                0
            } else if c == '-' {
                1
            } else if c == '*' {
                2
            } else if c == '/' {
                3
            } else if c == '|' {
                4
            } else if c == '=' {
                5
            } else if c == '<' {
                6
            } else {
                7
            };
            assert(text[i] == c);
        }
    }
    b
}

/// Whether two pieces of text are the same.
pub fn same_text(a: &str, b: &str) -> (r: bool)
    ensures
        r == (a@ == b@),
{
    let x = a.to_owned();
    let y = b.to_owned();
    x == y
}

/// The views of a list of words.
pub open spec fn word_views(words: Seq<&'static str>) -> Seq<Seq<char>> {
    Seq::new(words.len(), |i: int| words[i]@)
}

/// Whether the word is one of the words of the list.
pub fn is_among(word: &str, words: &Vec<&'static str>) -> (b: bool)
    ensures
        b == word_views(words@).contains(word@),
{
    let mut i: usize = 0;
    while i < words.len()
        invariant
            i <= words@.len(),
            forall|j: int| 0 <= j < i ==> #[trigger] word_views(words@)[j] != word@,
        decreases words.len() - i,
    {
        if same_text(word, words[i]) {
            assert(word_views(words@)[i as int] == word@);
            return true;
        }
        i += 1;
    }
    false
}

/// The words that cannot be identifiers. A number of them have no meaning
/// yet.
pub open spec fn reserved_word_texts() -> Seq<Seq<char>> {
    seq![
        "and"@,
        "begin"@,
        "case"@,
        "cond"@,
        "class"@,
        "data"@,
        "define"@,
        "defn"@,
        "def"@,
        "delay"@,
        "fn"@,
        "do"@,
        "else"@,
        "if"@,
        "lambda"@,
        "\u{03bb}"@,
        "let"@,
        "let*"@,
        "letrec"@,
        "or"@,
        "quasiquote"@,
        "quote"@,
        "unquote"@,
        "set!"@,
        "unquote-splicing"@,
        "struct"@,
        "union"@,
        "i8"@,
        "u8"@,
        "i16"@,
        "u16"@,
        "i32"@,
        "u32"@,
        "f32"@,
        "i64"@,
        "u64"@,
        "f64"@,
        "int"@,
        "uint"@,
        "float"@,
        "bool"@,
        "string"@,
        "double"@,
        "ref"@,
        "move"@,
        "borrow"@,
        "trait"@,
        "typeclass"@,
        "instance"@,
        "impl"@,
    ]
}

/// The words that cannot be identifiers.
pub fn reserved_words() -> (words: Vec<&'static str>)
    ensures
        word_views(words@) == reserved_word_texts(),
{
    let words = vec![
        "and",
        "begin",
        "case",
        "cond",
        "class",
        "data",
        "define",
        "defn",
        "def",
        "delay",
        "fn",
        "do",
        "else",
        "if",
        "lambda",
        "\u{03bb}",
        "let",
        "let*",
        "letrec",
        "or",
        "quasiquote",
        "quote",
        "unquote",
        "set!",
        "unquote-splicing",
        "struct",
        "union",
        "i8",
        "u8",
        "i16",
        "u16",
        "i32",
        "u32",
        "f32",
        "i64",
        "u64",
        "f64",
        "int",
        "uint",
        "float",
        "bool",
        "string",
        "double",
        "ref",
        "move",
        "borrow",
        "trait",
        "typeclass",
        "instance",
        "impl",
    ];
    assert(word_views(words@) =~= reserved_word_texts());
    words
}

/// Whether the word cannot be an identifier.
pub fn is_reserved_word(word: &str) -> (b: bool)
    ensures
        b == reserved_word_texts().contains(word@),
{
    let words = reserved_words();
    is_among(word, &words)
}

/// Whether a primitive type has a name that can be written in a program.
pub open spec fn writable(p: Primitive) -> bool {
    !(p is Byte || p is Char || p is Str)
}

/// The primitive types that can be written in a program, each once, in the
/// order in which their names are tried.
pub open spec fn writable_order() -> Seq<Primitive> {
    seq![
        Primitive::IntSize,
        Primitive::UintSize,
        Primitive::Float,
        Primitive::Double,
        Primitive::Bool,
        Primitive::Int(Int::Int8),
        Primitive::Int(Int::Int16),
        Primitive::Int(Int::Int32),
        Primitive::Int(Int::Int64),
        Primitive::Uint(Int::Int8),
        Primitive::Uint(Int::Int16),
        Primitive::Uint(Int::Int32),
        Primitive::Uint(Int::Int64),
    ]
}

/// The primitive types that can be written in a program, each once, in the
/// order in which their names are tried.
pub fn writable_primitives() -> (all: Vec<Primitive>)
    ensures
        all@ == writable_order(),
        forall|p: Primitive| writable(p) <==> all@.contains(p),
        all@.no_duplicates(),
{
    let all = vec![
        Primitive::IntSize,
        Primitive::UintSize,
        Primitive::Float,
        Primitive::Double,
        Primitive::Bool,
        Primitive::Int(Int::Int8),
        Primitive::Int(Int::Int16),
        Primitive::Int(Int::Int32),
        Primitive::Int(Int::Int64),
        Primitive::Uint(Int::Int8),
        Primitive::Uint(Int::Int16),
        Primitive::Uint(Int::Int32),
        Primitive::Uint(Int::Int64),
    ];
    proof {
        assert(all@ =~= writable_order());
        assert forall|p: Primitive| writable(p) implies all@.contains(p) by {
            let i: int = match p {
                Primitive::IntSize => 0,
                Primitive::UintSize => 1,
                Primitive::Float => 2,
                Primitive::Double => 3,
                Primitive::Bool => 4,
                Primitive::Int(Int::Int8) => 5,
                Primitive::Int(Int::Int16) => 6,
                Primitive::Int(Int::Int32) => 7,
                Primitive::Int(Int::Int64) => 8,
                Primitive::Uint(Int::Int8) => 9,
                Primitive::Uint(Int::Int16) => 10,
                Primitive::Uint(Int::Int32) => 11,
                _ => 12,
            };
            assert(all@[i] == p);
        }
    }
    all
}

/// A primitive type that can be written in a program is the one that its own
/// name names.
pub proof fn law_primitive_names_round_trip(p: Primitive, q: Primitive)
    requires
        writable(p),
        writable(q),
        primitive_text(p) == primitive_text(q),
    ensures
        p == q,
{
    reveal_strlit("int");
    reveal_strlit("uint");
    reveal_strlit("float");
    reveal_strlit("double");
    reveal_strlit("bool");
    reveal_strlit("i8");
    reveal_strlit("i16");
    reveal_strlit("i32");
    reveal_strlit("i64");
    reveal_strlit("u8");
    reveal_strlit("u16");
    reveal_strlit("u32");
    reveal_strlit("u64");
    let a = primitive_text(p);
    let b = primitive_text(q);
    assert(a.len() == b.len());
    assert(a[0] == b[0]);
    assert(a[1] == b[1]);
}

} // verus!
