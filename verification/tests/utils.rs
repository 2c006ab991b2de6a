use unaligned_int::utils::{
    be_bytes_to_ne, extend_bytes, le_bytes_to_ne, ne_bytes_to_be, ne_bytes_to_le, reverse_bytes,
    sign_ext_byte, truncate_bytes,
};

#[test]
fn sign_ext_byte_is_zero_for_positive() {
    assert_eq!(sign_ext_byte(true), 0x00);
}

#[test]
fn sign_ext_byte_is_all_ones_for_negative() {
    assert_eq!(sign_ext_byte(false), 0xFF);
}

#[test]
fn reverse_bytes_reverses() {
    assert_eq!(reverse_bytes([1u8, 2, 3, 4, 5]), [5u8, 4, 3, 2, 1]);
    assert_eq!(reverse_bytes([7u8]), [7u8]);
    let empty: [u8; 0] = [];
    assert_eq!(reverse_bytes(empty), empty);
}

#[test]
fn reverse_bytes_twice_is_identity() {
    let a = [0x12u8, 0x34, 0x56];
    assert_eq!(reverse_bytes(reverse_bytes(a)), a);
}

#[test]
fn little_endian_conversions_agree_with_primitives() {
    let x: u32 = 0x1234_5678;
    assert_eq!(le_bytes_to_ne(x.to_le_bytes()), x.to_ne_bytes());
    assert_eq!(ne_bytes_to_le(x.to_ne_bytes()), x.to_le_bytes());
}

#[test]
fn big_endian_conversions_agree_with_primitives() {
    let x: u64 = 0x0102_0304_0506_0708;
    assert_eq!(be_bytes_to_ne(x.to_be_bytes()), x.to_ne_bytes());
    assert_eq!(ne_bytes_to_be(x.to_ne_bytes()), x.to_be_bytes());
}

#[test]
fn extend_bytes_places_payload_and_keeps_the_rest() {
    let mut dst = [0xAAu8; 4];
    let src = [1u8, 2, 3];
    extend_bytes(&mut dst, &src);
    if u16::from_ne_bytes([1, 0]) == 1 {
        assert_eq!(dst, [1, 2, 3, 0xAA]);
    } else {
        assert_eq!(dst, [0xAA, 1, 2, 3]);
    }
}

#[test]
fn extend_bytes_matches_primitive_widening() {
    let narrow: u16 = 0xBEEF;
    let mut dst = [0u8; 8];
    extend_bytes(&mut dst, &narrow.to_ne_bytes());
    assert_eq!(u64::from_ne_bytes(dst), 0xBEEF);
}

#[test]
fn truncate_bytes_keeps_low_order_bytes() {
    let wide: u32 = 0x00AB_CDEF;
    let mut dst = [0u8; 3];
    truncate_bytes(&mut dst, &wide.to_ne_bytes());
    if u16::from_ne_bytes([1, 0]) == 1 {
        assert_eq!(dst, [0xEF, 0xCD, 0xAB]);
    } else {
        assert_eq!(dst, [0xAB, 0xCD, 0xEF]);
    }
}

#[test]
fn truncate_after_extend_gives_back_the_source() {
    let src = [9u8, 8, 7, 6, 5];
    let mut wide = [0u8; 16];
    extend_bytes(&mut wide, &src);
    let mut back = [0u8; 5];
    truncate_bytes(&mut back, &wide);
    assert_eq!(back, src);
}
