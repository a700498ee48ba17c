use nocopy::buffer::{AccessError, Buffer, Value};
use nocopy::classify::TypeKind;
use nocopy::codec::{host_order, ByteOrder};
use nocopy::config::Endian;
use nocopy::generate::{no_copy, Overlay};
use nocopy::layout::{field_offsets, FieldSchema};
use nocopy::schema::{AttrStyle, Attribute, Data, Definition, Field, Fields, Meta, NestedMeta};

fn overlay(endian: Option<&str>, fields: Vec<(&str, &str, usize)>) -> Overlay {
    let mut attrs = vec![Attribute {
        style: AttrStyle::Outer,
        path: "repr".to_string(),
        meta: Meta::List { nested: vec![NestedMeta::Word { name: "C".to_string() }] },
    }];
    if let Some(order) = endian {
        attrs.push(Attribute {
            style: AttrStyle::Outer,
            path: "nocopy_macro".to_string(),
            meta: Meta::List {
                nested: vec![NestedMeta::NameValue { key: "endian".to_string(), value: order.to_string() }],
            },
        });
    }
    let named = fields
        .into_iter()
        .map(|(name, ty, size)| Field { name: Some(name.to_string()), ty: ty.to_string(), size })
        .collect();
    let def = Definition { name: "Example".to_string(), attrs, data: Data::Struct(Fields::Named(named)) };
    no_copy(&def).unwrap()
}

fn example(endian: Option<&str>) -> Overlay {
    overlay(endian, vec![("a", "u16", 2), ("b", "u8", 1)])
}

fn mixed(endian: Option<&str>) -> Overlay {
    overlay(
        endian,
        vec![("tag", "u8", 1), ("len", "u32", 4), ("mac", "[u8; 6]", 6), ("id", "u64", 8), ("flags", "u16", 2), ("pad", "Pad", 0)],
    )
}

#[test]
fn example_buffer_reads_and_writes_in_place() {
    let overlay = example(Some("big"));
    let mut buffer = Buffer::new_buffer(&overlay, vec![0x01, 0x02, 0x00]).unwrap();
    assert_eq!(buffer.get(0), Some(Value::U16(0x0102)));
    assert_eq!(buffer.get(1), Some(Value::U8(0x00)));
    assert_eq!(buffer.set(1, Value::U8(5)), Ok(()));
    assert_eq!(buffer.as_buffer(), &[0x01, 0x02, 0x05]);
}

#[test]
fn example_buffer_in_little_endian() {
    let overlay = example(Some("little"));
    let mut buffer = Buffer::new_buffer(&overlay, vec![0x01, 0x02, 0x00]).unwrap();
    assert_eq!(buffer.get(0), Some(Value::U16(0x0201)));
    assert_eq!(buffer.set(0, Value::U16(0xABCD)), Ok(()));
    assert_eq!(buffer.as_buffer(), &[0xCD, 0xAB, 0x00]);
}

#[test]
fn new_instance_shows_the_bytes_it_was_made_from() {
    for endian in [None, Some("big"), Some("little")] {
        let overlay = mixed(endian);
        let bytes: Vec<u8> = (0..21).map(|i| (i * 7 + 3) as u8).collect();
        let buffer = Buffer::new_buffer(&overlay, bytes.clone()).unwrap();
        assert_eq!(buffer.as_buffer(), &bytes[..]);
    }
}

#[test]
fn buffer_must_have_exactly_the_size_of_the_record() {
    let overlay = example(Some("big"));
    assert!(Buffer::new_buffer(&overlay, vec![]).is_none());
    assert!(Buffer::new_buffer(&overlay, vec![1, 2]).is_none());
    assert!(Buffer::new_buffer(&overlay, vec![1, 2, 3]).is_some());
    assert!(Buffer::new_buffer(&overlay, vec![1, 2, 3, 4]).is_none());
    assert!(Buffer::with_host(&overlay, vec![1, 2, 3, 4], ByteOrder::Big).is_none());
    let empty = overlay_without_fields();
    assert!(Buffer::new_buffer(&empty, vec![]).is_some());
    assert!(Buffer::new_buffer(&empty, vec![0]).is_none());
}

fn overlay_without_fields() -> Overlay {
    overlay(None, vec![])
}

#[test]
fn storage_too_large_for_any_buffer_has_no_instance() {
    let overlay = overlay(None, vec![("a", "Huge", usize::MAX), ("b", "u8", 1)]);
    assert!(Buffer::new_buffer(&overlay, vec![0; 16]).is_none());
    assert_eq!(field_offsets(&overlay.fields), None);
}

#[test]
fn fields_follow_one_another_in_declaration_order() {
    let overlay = mixed(None);
    assert_eq!(field_offsets(&overlay.fields), Some((vec![0, 1, 5, 11, 19, 21], 21)));
    let widths: Vec<usize> = overlay.fields.iter().map(|f| f.width()).collect();
    assert_eq!(widths, vec![1, 4, 6, 8, 2, 0]);
}

#[test]
fn integer_width_comes_from_the_kind_not_from_the_declared_size() {
    let overlay = overlay(Some("big"), vec![("a", "u16", 9), ("b", "u8", 0), ("c", "T", 3)]);
    assert_eq!(field_offsets(&overlay.fields), Some((vec![0, 2, 3], 6)));
    let schema = FieldSchema { name: "x".to_string(), ty: "u64".to_string(), kind: TypeKind::U64, size: 1 };
    assert_eq!(schema.width(), 8);
}

#[test]
fn getter_after_setter_returns_the_value_under_every_order() {
    let values = [
        (0, Value::U8(0xA5)),
        (1, Value::U32(0xDEAD_BEEF)),
        (2, Value::Opaque(vec![1, 2, 3, 4, 5, 6])),
        (3, Value::U64(0x0123_4567_89AB_CDEF)),
        (4, Value::U16(0xBEEF)),
        (5, Value::Opaque(vec![])),
        (0, Value::U8(0)),
        (1, Value::U32(u32::MAX)),
        (3, Value::U64(u64::MAX)),
        (4, Value::U16(1)),
    ];
    for endian in [None, Some("big"), Some("little")] {
        for host in [ByteOrder::Big, ByteOrder::Little] {
            let overlay = mixed(endian);
            let mut buffer = Buffer::with_host(&overlay, vec![0x55; 21], host).unwrap();
            for (field, value) in values.iter() {
                assert_eq!(buffer.set(*field, value.clone()), Ok(()));
                assert_eq!(buffer.get(*field), Some(value.clone()));
            }
        }
    }
}

#[test]
fn big_endian_record_stores_the_big_endian_encoding() {
    let overlay = mixed(Some("big"));
    for host in [ByteOrder::Big, ByteOrder::Little] {
        let mut buffer = Buffer::with_host(&overlay, vec![0; 21], host).unwrap();
        buffer.set(1, Value::U32(0x0102_0304)).unwrap();
        buffer.set(3, Value::U64(0x1112_1314_1516_1718)).unwrap();
        buffer.set(4, Value::U16(0x2122)).unwrap();
        buffer.set(0, Value::U8(0x31)).unwrap();
        assert_eq!(&buffer.as_buffer()[1..5], &0x0102_0304u32.to_be_bytes());
        assert_eq!(&buffer.as_buffer()[11..19], &0x1112_1314_1516_1718u64.to_be_bytes());
        assert_eq!(&buffer.as_buffer()[19..21], &0x2122u16.to_be_bytes());
        assert_eq!(buffer.as_buffer()[0], 0x31);
    }
}

#[test]
fn little_endian_record_stores_the_little_endian_encoding() {
    let overlay = mixed(Some("little"));
    for host in [ByteOrder::Big, ByteOrder::Little] {
        let mut buffer = Buffer::with_host(&overlay, vec![0; 21], host).unwrap();
        buffer.set(1, Value::U32(0x0102_0304)).unwrap();
        buffer.set(3, Value::U64(0x1112_1314_1516_1718)).unwrap();
        buffer.set(4, Value::U16(0x2122)).unwrap();
        assert_eq!(&buffer.as_buffer()[1..5], &[0x04, 0x03, 0x02, 0x01]);
        assert_eq!(&buffer.as_buffer()[11..19], &0x1112_1314_1516_1718u64.to_le_bytes());
        assert_eq!(&buffer.as_buffer()[19..21], &[0x22, 0x21]);
    }
}

#[test]
fn native_record_stores_in_the_order_of_the_host() {
    let overlay = mixed(None);
    let mut big = Buffer::with_host(&overlay, vec![0; 21], ByteOrder::Big).unwrap();
    big.set(4, Value::U16(0x2122)).unwrap();
    assert_eq!(&big.as_buffer()[19..21], &[0x21, 0x22]);
    let mut little = Buffer::with_host(&overlay, vec![0; 21], ByteOrder::Little).unwrap();
    little.set(4, Value::U16(0x2122)).unwrap();
    assert_eq!(&little.as_buffer()[19..21], &[0x22, 0x21]);
}

#[test]
fn native_record_on_this_machine_stores_as_the_machine_does() {
    let overlay = mixed(None);
    let mut buffer = Buffer::new_buffer(&overlay, vec![0; 21]).unwrap();
    assert_eq!(buffer.host(), host_order());
    buffer.set(1, Value::U32(0x0102_0304)).unwrap();
    buffer.set(3, Value::U64(0x1112_1314_1516_1718)).unwrap();
    buffer.set(4, Value::U16(0x2122)).unwrap();
    assert_eq!(&buffer.as_buffer()[1..5], &0x0102_0304u32.to_ne_bytes());
    assert_eq!(&buffer.as_buffer()[11..19], &0x1112_1314_1516_1718u64.to_ne_bytes());
    assert_eq!(&buffer.as_buffer()[19..21], &0x2122u16.to_ne_bytes());
    let mut raw = vec![0u8; 21];
    raw[19..21].copy_from_slice(&0xCAFEu16.to_ne_bytes());
    let read = Buffer::new_buffer(&overlay, raw).unwrap();
    assert_eq!(read.get(4), Some(Value::U16(0xCAFE)));
}

#[test]
fn opaque_field_passes_through_unconverted() {
    for endian in [None, Some("big"), Some("little")] {
        let overlay = mixed(endian);
        let bytes: Vec<u8> = (100..121).collect();
        let mut buffer = Buffer::new_buffer(&overlay, bytes).unwrap();
        assert_eq!(buffer.get(2), Some(Value::Opaque(vec![105, 106, 107, 108, 109, 110])));
        assert_eq!(buffer.get(5), Some(Value::Opaque(vec![])));
        buffer.set(2, Value::Opaque(vec![9, 8, 7, 6, 5, 4])).unwrap();
        assert_eq!(&buffer.as_buffer()[5..11], &[9, 8, 7, 6, 5, 4]);
    }
}

#[test]
fn signed_integer_field_is_not_converted() {
    let overlay = overlay(Some("big"), vec![("x", "i32", 4)]);
    assert_eq!(overlay.fields[0].kind, TypeKind::Opaque);
    let mut buffer = Buffer::with_host(&overlay, vec![1, 2, 3, 4], ByteOrder::Little).unwrap();
    assert_eq!(buffer.get(0), Some(Value::Opaque(vec![1, 2, 3, 4])));
    assert_eq!(buffer.set(0, Value::U32(1)), Err(AccessError::Mismatch));
}

#[test]
fn setter_changes_only_the_bytes_of_its_field() {
    let ranges = [(0usize, 1usize), (1, 5), (5, 11), (11, 19), (19, 21)];
    let values = [
        Value::U8(0xEE),
        Value::U32(0xEEEE_EEEE),
        Value::Opaque(vec![0xEE; 6]),
        Value::U64(0xEEEE_EEEE_EEEE_EEEE),
        Value::U16(0xEEEE),
    ];
    for endian in [None, Some("big"), Some("little")] {
        let overlay = mixed(endian);
        for (field, (from, to)) in ranges.iter().enumerate() {
            let before: Vec<u8> = (1..22).collect();
            let mut buffer = Buffer::new_buffer(&overlay, before.clone()).unwrap();
            buffer.set(field, values[field].clone()).unwrap();
            let after = buffer.as_buffer();
            assert_eq!(after.len(), before.len());
            for j in 0..before.len() {
                if *from <= j && j < *to {
                    assert_eq!(after[j], 0xEE);
                } else {
                    assert_eq!(after[j], before[j]);
                }
            }
        }
    }
}

#[test]
fn setter_leaves_the_other_fields_as_they_were() {
    let overlay = mixed(Some("big"));
    let bytes: Vec<u8> = (1..22).collect();
    let mut buffer = Buffer::new_buffer(&overlay, bytes).unwrap();
    let before: Vec<Option<Value>> = (0..6).map(|i| buffer.get(i)).collect();
    buffer.set(3, Value::U64(42)).unwrap();
    for i in 0..6 {
        if i == 3 {
            assert_eq!(buffer.get(i), Some(Value::U64(42)));
        } else {
            assert_eq!(buffer.get(i), before[i]);
        }
    }
}

#[test]
fn writing_back_what_was_read_changes_nothing() {
    for endian in [None, Some("big"), Some("little")] {
        let overlay = mixed(endian);
        let bytes: Vec<u8> = (200..221).collect();
        let mut buffer = Buffer::new_buffer(&overlay, bytes.clone()).unwrap();
        for i in 0..6 {
            let value = buffer.get(i).unwrap();
            assert_eq!(buffer.set(i, value), Ok(()));
        }
        assert_eq!(buffer.as_buffer(), &bytes[..]);
    }
}

#[test]
fn field_that_does_not_exist_is_neither_read_nor_written() {
    let overlay = example(Some("big"));
    let mut buffer = Buffer::new_buffer(&overlay, vec![1, 2, 3]).unwrap();
    assert_eq!(buffer.get(2), None);
    assert_eq!(buffer.get(usize::MAX), None);
    assert_eq!(buffer.set(2, Value::U8(9)), Err(AccessError::NoSuchField));
    assert_eq!(buffer.set(usize::MAX, Value::Opaque(vec![])), Err(AccessError::NoSuchField));
    assert_eq!(buffer.as_buffer(), &[1, 2, 3]);
}

#[test]
fn value_of_another_kind_or_size_is_not_written() {
    let overlay = mixed(Some("little"));
    let bytes: Vec<u8> = (1..22).collect();
    let mut buffer = Buffer::new_buffer(&overlay, bytes.clone()).unwrap();
    assert_eq!(buffer.set(0, Value::U16(1)), Err(AccessError::Mismatch));
    assert_eq!(buffer.set(1, Value::U64(1)), Err(AccessError::Mismatch));
    assert_eq!(buffer.set(1, Value::Opaque(vec![0; 4])), Err(AccessError::Mismatch));
    assert_eq!(buffer.set(2, Value::Opaque(vec![0; 5])), Err(AccessError::Mismatch));
    assert_eq!(buffer.set(2, Value::Opaque(vec![0; 7])), Err(AccessError::Mismatch));
    assert_eq!(buffer.set(2, Value::U8(0)), Err(AccessError::Mismatch));
    assert_eq!(buffer.set(5, Value::Opaque(vec![0])), Err(AccessError::Mismatch));
    assert_eq!(buffer.as_buffer(), &bytes[..]);
}

#[test]
fn instance_knows_its_overlay() {
    let overlay = example(Some("big"));
    let buffer = Buffer::with_host(&overlay, vec![0; 3], ByteOrder::Big).unwrap();
    assert_eq!(buffer.overlay().name, "ExampleBuffer");
    assert_eq!(buffer.overlay().endian, Endian::Big);
    assert_eq!(buffer.host(), ByteOrder::Big);
    let b = buffer.overlay().field_index("b").unwrap();
    assert_eq!(buffer.get(b), Some(Value::U8(0)));
}

#[test]
fn copy_of_an_instance_has_a_storage_of_its_own() {
    let overlay = example(Some("big"));
    let mut first = Buffer::new_buffer(&overlay, vec![1, 2, 3]).unwrap();
    let second = first.clone();
    first.set(1, Value::U8(9)).unwrap();
    assert_eq!(first.as_buffer(), &[1, 2, 9]);
    assert_eq!(second.as_buffer(), &[1, 2, 3]);
    assert_eq!(second.get(1), Some(Value::U8(3)));
}
