use nocopy::accessor::{
    big_endian, little_endian, match_endian, native_endian, AccessorKind, AccessorPair,
    GeneratedAccessor,
};
use nocopy::config::Endian;
use nocopy::schema::Field;

fn named(name: &str, ty: &str) -> Field {
    Field { name: Some(name.to_string()), ty: ty.to_string(), size: 0 }
}

fn pair(field: &str, ty: &str, order: Endian) -> AccessorPair {
    AccessorPair {
        getter: GeneratedAccessor {
            field_name: field.to_string(),
            name: format!("get_{}", field),
            ty: ty.to_string(),
            kind: AccessorKind::Getter,
            order,
        },
        setter: GeneratedAccessor {
            field_name: field.to_string(),
            name: format!("set_{}", field),
            ty: ty.to_string(),
            kind: AccessorKind::Setter,
            order,
        },
    }
}

#[test]
fn accessors_are_named_after_the_field() {
    let p = match_endian(&named("length", "u32"), Endian::Native).unwrap();
    assert_eq!(p.getter.name, "get_length");
    assert_eq!(p.setter.name, "set_length");
    assert_eq!(p.getter.field_name, "length");
    assert_eq!(p.setter.field_name, "length");
    assert_eq!(p.getter.kind, AccessorKind::Getter);
    assert_eq!(p.setter.kind, AccessorKind::Setter);
    assert_eq!(p.getter.ty, "u32");
    assert_eq!(p.setter.ty, "u32");
}

#[test]
fn integer_fields_follow_the_record_order() {
    for ty in ["u8", "u16", "u32", "u64"] {
        assert_eq!(match_endian(&named("a", ty), Endian::Big), Some(pair("a", ty, Endian::Big)));
        assert_eq!(match_endian(&named("a", ty), Endian::Little), Some(pair("a", ty, Endian::Little)));
        assert_eq!(match_endian(&named("a", ty), Endian::Native), Some(pair("a", ty, Endian::Native)));
    }
}

#[test]
fn opaque_fields_pass_through_under_every_order() {
    for ty in ["i32", "[u8; 4]", "Inner", "f64"] {
        for endian in [Endian::Big, Endian::Little, Endian::Native] {
            assert_eq!(match_endian(&named("x", ty), endian), Some(pair("x", ty, Endian::Native)));
        }
    }
}

#[test]
fn conversion_is_used_for_integers_under_a_named_order_only() {
    let uses = |ty: &str, endian: Endian| -> (bool, bool) {
        let p = match_endian(&named("f", ty), endian).unwrap();
        (p.getter.uses_conversion(), p.setter.uses_conversion())
    };
    assert_eq!(uses("u16", Endian::Big), (true, true));
    assert_eq!(uses("u8", Endian::Little), (true, true));
    assert_eq!(uses("u64", Endian::Native), (false, false));
    assert_eq!(uses("i16", Endian::Big), (false, false));
    assert_eq!(uses("Inner", Endian::Native), (false, false));
}

#[test]
fn positional_field_has_no_accessors() {
    let field = Field { name: None, ty: "u8".to_string(), size: 1 };
    assert_eq!(match_endian(&field, Endian::Big), None);
    assert_eq!(match_endian(&field, Endian::Native), None);
}

#[test]
fn the_three_builders_differ_in_the_order_only() {
    let big = big_endian("a", "read_a", "write_a", "u16");
    let little = little_endian("a", "read_a", "write_a", "u16");
    let native = native_endian("a", "read_a", "write_a", "u16");
    assert_eq!(big.getter.order, Endian::Big);
    assert_eq!(big.setter.order, Endian::Big);
    assert_eq!(little.getter.order, Endian::Little);
    assert_eq!(little.setter.order, Endian::Little);
    assert_eq!(native.getter.order, Endian::Native);
    assert_eq!(native.setter.order, Endian::Native);
    for p in [&big, &little, &native] {
        assert_eq!(p.getter.name, "read_a");
        assert_eq!(p.setter.name, "write_a");
        assert_eq!(p.getter.field_name, "a");
        assert_eq!(p.setter.field_name, "a");
        assert_eq!(p.getter.ty, "u16");
        assert_eq!(p.getter.kind, AccessorKind::Getter);
        assert_eq!(p.setter.kind, AccessorKind::Setter);
    }
}
