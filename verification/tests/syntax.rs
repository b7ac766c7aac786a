use mnemosyne::chars;
use mnemosyne::semantic::types::{Int, Primitive};
use mnemosyne::syntax::{
    is_alpha_ext, is_alpha_ext_subsequent, is_among, is_operator_char, is_reserved_word,
    reserved_words, same_text, writable_primitives,
};

#[test]
fn character_classes_are_the_characters_of_their_texts() {
    for code in 0u32..0x250 {
        let c = char::from_u32(code).unwrap();
        assert_eq!(is_alpha_ext(c), chars::ALPHA_EXT.contains(c));
        assert_eq!(is_alpha_ext_subsequent(c), chars::ALPHA_EXT_SUBSEQUENT.contains(c));
        assert_eq!(is_operator_char(c), chars::OPS.contains(c));
    }
    assert!(is_alpha_ext('^'));
    assert!(!is_alpha_ext('\''));
    assert!(is_alpha_ext_subsequent('\''));
    assert!(is_operator_char('|'));
    assert!(!is_operator_char('!'));
    assert!(!is_alpha_ext('\u{03bb}'));
}

#[test]
fn reserved_words_cannot_be_names() {
    assert_eq!(reserved_words().len(), 50);
    for word in reserved_words() {
        assert!(is_reserved_word(word));
    }
    assert!(is_reserved_word("define"));
    assert!(is_reserved_word("let*"));
    assert!(is_reserved_word("\u{03bb}"));
    assert!(is_reserved_word("impl"));
    assert!(!is_reserved_word("defined"));
    assert!(!is_reserved_word(""));
    assert!(!is_reserved_word("fac"));
    assert!(!is_reserved_word("->"));
}

#[test]
fn words_are_compared_by_their_text() {
    assert!(same_text("", ""));
    assert!(same_text("let*", "let*"));
    assert!(!same_text("let", "let*"));
    assert!(!same_text("a", "b"));
    assert!(is_among("b", &vec!["a", "b"]));
    assert!(!is_among("c", &vec!["a", "b"]));
    assert!(!is_among("c", &vec![]));
}

#[test]
fn writable_primitives_have_names_of_their_own() {
    let all = writable_primitives();
    assert_eq!(all.len(), 13);
    for (i, p) in all.iter().enumerate() {
        for (j, q) in all.iter().enumerate() {
            assert_eq!(p.name() == q.name(), i == j);
        }
    }
    assert_eq!(all[0], Primitive::IntSize);
    assert_eq!(all[12], Primitive::Uint(Int::Int64));
}
