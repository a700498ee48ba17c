use nocopy::codec::{decode, encode, host_order, order_shown_by, ByteOrder};

#[test]
fn big_endian_puts_the_high_byte_first() {
    assert_eq!(encode(0x0102, 2, ByteOrder::Big), vec![0x01, 0x02]);
    assert_eq!(encode(0x0102_0304, 4, ByteOrder::Big), vec![0x01, 0x02, 0x03, 0x04]);
    assert_eq!(
        encode(0x0102_0304_0506_0708, 8, ByteOrder::Big),
        vec![0x01, 0x02, 0x03, 0x04, 0x05, 0x06, 0x07, 0x08]
    );
    assert_eq!(encode(0xAB, 1, ByteOrder::Big), vec![0xAB]);
}

#[test]
fn little_endian_puts_the_low_byte_first() {
    assert_eq!(encode(0x0102, 2, ByteOrder::Little), vec![0x02, 0x01]);
    assert_eq!(encode(0x0102_0304, 4, ByteOrder::Little), vec![0x04, 0x03, 0x02, 0x01]);
    assert_eq!(
        encode(0x0102_0304_0506_0708, 8, ByteOrder::Little),
        vec![0x08, 0x07, 0x06, 0x05, 0x04, 0x03, 0x02, 0x01]
    );
    assert_eq!(encode(0xAB, 1, ByteOrder::Little), vec![0xAB]);
}

#[test]
fn encoding_agrees_with_the_standard_library() {
    for v in [0u64, 1, 0xFF, 0x100, 0xFFFF, 0x1234_5678, u32::MAX as u64, u64::MAX, 0x8000_0000_0000_0001] {
        assert_eq!(encode(v, 8, ByteOrder::Big), v.to_be_bytes().to_vec());
        assert_eq!(encode(v, 8, ByteOrder::Little), v.to_le_bytes().to_vec());
        assert_eq!(encode(v, 4, ByteOrder::Big), (v as u32).to_be_bytes().to_vec());
        assert_eq!(encode(v, 4, ByteOrder::Little), (v as u32).to_le_bytes().to_vec());
        assert_eq!(encode(v, 2, ByteOrder::Big), (v as u16).to_be_bytes().to_vec());
        assert_eq!(encode(v, 2, ByteOrder::Little), (v as u16).to_le_bytes().to_vec());
        assert_eq!(encode(v, 1, ByteOrder::Big), vec![v as u8]);
    }
}

#[test]
fn encoding_keeps_the_lowest_bytes_and_pads_with_zeros() {
    assert_eq!(encode(0x0102_0304, 2, ByteOrder::Big), vec![0x03, 0x04]);
    assert_eq!(encode(0x0102_0304, 2, ByteOrder::Little), vec![0x04, 0x03]);
    assert_eq!(encode(0x01, 3, ByteOrder::Big), vec![0, 0, 1]);
    assert_eq!(encode(0x01, 3, ByteOrder::Little), vec![1, 0, 0]);
    assert_eq!(encode(7, 0, ByteOrder::Big), Vec::<u8>::new());
    assert_eq!(encode(u64::MAX, 10, ByteOrder::Big), vec![0, 0, 255, 255, 255, 255, 255, 255, 255, 255]);
    assert_eq!(encode(u64::MAX, 10, ByteOrder::Little), vec![255, 255, 255, 255, 255, 255, 255, 255, 0, 0]);
}

#[test]
fn decoding_reads_either_order() {
    assert_eq!(decode(&[0x01, 0x02], ByteOrder::Big), 0x0102);
    assert_eq!(decode(&[0x01, 0x02], ByteOrder::Little), 0x0201);
    assert_eq!(decode(&[0x01, 0x02, 0x03], ByteOrder::Big), 0x010203);
    assert_eq!(decode(&[0x01, 0x02, 0x03], ByteOrder::Little), 0x030201);
    assert_eq!(decode(&[], ByteOrder::Big), 0);
    assert_eq!(decode(&[], ByteOrder::Little), 0);
    assert_eq!(decode(&[0xFF; 8], ByteOrder::Big), u64::MAX);
    assert_eq!(decode(&[0xFF; 8], ByteOrder::Little), u64::MAX);
    assert_eq!(decode(&[0x80, 0, 0, 0, 0, 0, 0, 1], ByteOrder::Big), 0x8000_0000_0000_0001);
    assert_eq!(decode(&[0x80, 0, 0, 0, 0, 0, 0, 1], ByteOrder::Little), 0x0100_0000_0000_0080);
}

#[test]
fn decoding_an_encoding_gives_the_number_back() {
    for order in [ByteOrder::Big, ByteOrder::Little] {
        for v in [0u64, 1, 0x7F, 0x80, 0xFF] {
            assert_eq!(decode(&encode(v, 1, order), order), v);
        }
        for v in [0u64, 0x100, 0x1234, 0xFFFF] {
            assert_eq!(decode(&encode(v, 2, order), order), v);
        }
        for v in [0u64, 0x1_0000, 0xDEAD_BEEF, 0xFFFF_FFFF] {
            assert_eq!(decode(&encode(v, 4, order), order), v);
        }
        for v in [0u64, 0x1_0000_0000, 0x0123_4567_89AB_CDEF, u64::MAX] {
            assert_eq!(decode(&encode(v, 8, order), order), v);
        }
    }
}

#[test]
fn encoding_what_bytes_hold_gives_the_bytes_back() {
    let bytes = [0x00, 0x10, 0xFF, 0x7E, 0x01];
    for order in [ByteOrder::Big, ByteOrder::Little] {
        assert_eq!(encode(decode(&bytes, order), bytes.len(), order), bytes.to_vec());
    }
}

#[test]
fn host_order_is_the_order_of_this_machine() {
    let expected = if 1u16.to_ne_bytes() == 1u16.to_le_bytes() { ByteOrder::Little } else { ByteOrder::Big };
    assert_eq!(host_order(), expected);
    assert_eq!(encode(0x0102_0304, 4, host_order()), 0x0102_0304u32.to_ne_bytes().to_vec());
    assert_eq!(decode(&0xA1B2_C3D4_E5F6_0718u64.to_ne_bytes(), host_order()), 0xA1B2_C3D4_E5F6_0718);
}

#[test]
fn the_stored_form_of_one_shows_the_order() {
    assert_eq!(order_shown_by(&[1, 0]), ByteOrder::Little);
    assert_eq!(order_shown_by(&[0, 1]), ByteOrder::Big);
    assert_eq!(order_shown_by(&1u16.to_le_bytes()), ByteOrder::Little);
    assert_eq!(order_shown_by(&1u16.to_be_bytes()), ByteOrder::Big);
}
