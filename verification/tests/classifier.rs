use nocopy::classify::{classify, TypeKind};
use nocopy::text::{copied, joined, same_text};

#[test]
fn the_four_unsigned_integers_are_integer_kinds() {
    assert_eq!(classify("u8"), TypeKind::U8);
    assert_eq!(classify("u16"), TypeKind::U16);
    assert_eq!(classify("u32"), TypeKind::U32);
    assert_eq!(classify("u64"), TypeKind::U64);
}

#[test]
fn signed_and_floating_types_are_opaque() {
    for ty in ["i8", "i16", "i32", "i64", "f32", "f64", "u128", "usize", "bool", "char"] {
        assert_eq!(classify(ty), TypeKind::Opaque);
    }
}

#[test]
fn composite_types_are_opaque() {
    for ty in ["[u8; 4]", "(u8)", "Inner", "*const u8", "&u8", "Option<u8>", "std::primitive::u8", "::u8"] {
        assert_eq!(classify(ty), TypeKind::Opaque);
    }
}

#[test]
fn type_names_are_compared_exactly() {
    for ty in ["", "U8", " u8", "u8 ", "u 8", "u08", "u", "u6", "u644"] {
        assert_eq!(classify(ty), TypeKind::Opaque);
    }
}

#[test]
fn texts_are_compared_character_by_character() {
    assert!(same_text("", ""));
    assert!(same_text("endian", "endian"));
    assert!(!same_text("endian", "endian "));
    assert!(!same_text("endian", "Endian"));
    assert!(!same_text("a", ""));
    assert!(same_text("größe", "größe"));
}

#[test]
fn texts_are_joined_and_copied() {
    assert_eq!(joined("get_", "a"), "get_a");
    assert_eq!(joined("", ""), "");
    assert_eq!(joined("Example", "Buffer"), "ExampleBuffer");
    assert_eq!(copied("abc"), "abc");
}
