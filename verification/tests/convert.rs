use unaligned_int::convert::{
    is_within_bounds, msb_pos, same_bytes, sign_bit_clear, sign_fill, try_narrow_bytes,
    widen_bytes,
};
use unaligned_int::NativeInteger;

#[test]
fn msb_pos_is_the_high_end() {
    let little = 1u16.to_le() == 1u16;
    assert_eq!(msb_pos::<3>(), if little { 2 } else { 0 });
    assert_eq!(msb_pos::<1>(), 0);
    assert_eq!(msb_pos::<16>(), if little { 15 } else { 0 });
}

#[test]
fn sign_bit_is_read_from_the_most_significant_byte() {
    assert!(sign_bit_clear(&0x7FFFi16.to_ne_bytes()));
    assert!(!sign_bit_clear(&(-1i16).to_ne_bytes()));
    assert!(sign_bit_clear(&0x0080i16.to_ne_bytes()));
    assert!(!sign_bit_clear(&i64::MIN.to_ne_bytes()));
    assert!(sign_bit_clear(&0i32.to_ne_bytes()));
}

#[test]
fn sign_fill_is_zero_unless_signed_and_negative() {
    assert_eq!(sign_fill(&(-1i32).to_ne_bytes(), true), 0xFF);
    assert_eq!(sign_fill(&(-1i32).to_ne_bytes(), false), 0x00);
    assert_eq!(sign_fill(&1i32.to_ne_bytes(), true), 0x00);
    assert_eq!(sign_fill(&0i32.to_ne_bytes(), true), 0x00);
}

#[test]
fn widen_bytes_extends_with_the_sign() {
    let wide: [u8; 8] = widen_bytes(&(-2i16).to_ne_bytes(), true);
    assert_eq!(i64::from_ne_bytes(wide), -2);
    let wide: [u8; 8] = widen_bytes(&(-2i16).to_ne_bytes(), false);
    assert_eq!(u64::from_ne_bytes(wide), 0xFFFE);
    let wide: [u8; 16] = widen_bytes(&i32::MIN.to_ne_bytes(), true);
    assert_eq!(i128::from_ne_bytes(wide), i32::MIN as i128);
    let same: [u8; 4] = widen_bytes(&0xDEAD_BEEFu32.to_ne_bytes(), false);
    assert_eq!(u32::from_ne_bytes(same), 0xDEAD_BEEF);
}

#[test]
fn try_narrow_bytes_keeps_what_fits() {
    let r: [u8; 2] = try_narrow_bytes(&0x0000_1234u32.to_ne_bytes(), false).unwrap();
    assert_eq!(u16::from_ne_bytes(r), 0x1234);
    let r: [u8; 2] = try_narrow_bytes(&(-5i64).to_ne_bytes(), true).unwrap();
    assert_eq!(i16::from_ne_bytes(r), -5);
    let r: [u8; 4] = try_narrow_bytes(&7u32.to_ne_bytes(), false).unwrap();
    assert_eq!(u32::from_ne_bytes(r), 7);
}

#[test]
fn try_narrow_bytes_rejects_what_does_not_fit() {
    let r: Result<[u8; 2], _> = try_narrow_bytes(&0x0001_0000u32.to_ne_bytes(), false);
    assert!(r.is_err());
    let r: Result<[u8; 2], _> = try_narrow_bytes(&32_768i32.to_ne_bytes(), true);
    assert!(r.is_err());
    let r: Result<[u8; 2], _> = try_narrow_bytes(&(-32_769i32).to_ne_bytes(), true);
    assert!(r.is_err());
    let r: Result<[u8; 2], _> = try_narrow_bytes(&(-1i32).to_ne_bytes(), false);
    assert!(r.is_err());
    let r: Result<[u8; 2], _> = try_narrow_bytes(&0x0000_FFFFu32.to_ne_bytes(), true);
    assert!(r.is_err());
}

#[test]
fn same_bytes_compares_every_position() {
    assert!(same_bytes(&[1u8, 2, 3], &[1u8, 2, 3]));
    assert!(!same_bytes(&[1u8, 2, 3], &[1u8, 2, 4]));
    assert!(!same_bytes(&[0u8, 2, 3], &[1u8, 2, 3]));
    let empty: [u8; 0] = [];
    assert!(same_bytes(&empty, &empty));
}

#[test]
fn primitives_give_and_take_their_native_bytes() {
    assert_eq!(NativeInteger::ne_bytes(0x12u8), [0x12]);
    assert_eq!(NativeInteger::ne_bytes(-2i8), [0xFE]);
    assert_eq!(NativeInteger::ne_bytes(0x1234u16), 0x1234u16.to_ne_bytes());
    assert_eq!(NativeInteger::ne_bytes(-2i16), (-2i16).to_ne_bytes());
    assert_eq!(NativeInteger::ne_bytes(0x1234_5678u32), 0x1234_5678u32.to_ne_bytes());
    assert_eq!(NativeInteger::ne_bytes(i32::MIN), i32::MIN.to_ne_bytes());
    assert_eq!(NativeInteger::ne_bytes(u64::MAX - 1), (u64::MAX - 1).to_ne_bytes());
    assert_eq!(NativeInteger::ne_bytes(-3i64), (-3i64).to_ne_bytes());
    assert_eq!(NativeInteger::ne_bytes(1u128 << 100), (1u128 << 100).to_ne_bytes());
    assert_eq!(NativeInteger::ne_bytes(i128::MIN), i128::MIN.to_ne_bytes());
    let a: u8 = NativeInteger::from_ne([0xFF]);
    assert_eq!(a, 255);
    let b: i8 = NativeInteger::from_ne([0xFF]);
    assert_eq!(b, -1);
    let c: u16 = NativeInteger::from_ne(0xBEEFu16.to_ne_bytes());
    assert_eq!(c, 0xBEEF);
    let d: i16 = NativeInteger::from_ne((-300i16).to_ne_bytes());
    assert_eq!(d, -300);
    let e: u32 = NativeInteger::from_ne(0xDEAD_BEEFu32.to_ne_bytes());
    assert_eq!(e, 0xDEAD_BEEF);
    let f: i32 = NativeInteger::from_ne((-70_000i32).to_ne_bytes());
    assert_eq!(f, -70_000);
    let g: u64 = NativeInteger::from_ne(u64::MAX.to_ne_bytes());
    assert_eq!(g, u64::MAX);
    let h: i64 = NativeInteger::from_ne(i64::MIN.to_ne_bytes());
    assert_eq!(h, i64::MIN);
    let i: u128 = NativeInteger::from_ne(u128::MAX.to_ne_bytes());
    assert_eq!(i, u128::MAX);
    let j: i128 = NativeInteger::from_ne((-1i128).to_ne_bytes());
    assert_eq!(j, -1);
}

#[test]
fn is_within_bounds_tests_the_range() {
    assert!(is_within_bounds::<3, 4>(&16_777_215u32.to_ne_bytes(), false));
    assert!(!is_within_bounds::<3, 4>(&16_777_216u32.to_ne_bytes(), false));
    assert!(is_within_bounds::<3, 4>(&8_388_607i32.to_ne_bytes(), true));
    assert!(!is_within_bounds::<3, 4>(&8_388_608i32.to_ne_bytes(), true));
    assert!(is_within_bounds::<3, 4>(&(-8_388_608i32).to_ne_bytes(), true));
    assert!(!is_within_bounds::<3, 4>(&(-8_388_609i32).to_ne_bytes(), true));
    assert!(is_within_bounds::<4, 4>(&u32::MAX.to_ne_bytes(), false));
    assert!(is_within_bounds::<4, 4>(&i32::MIN.to_ne_bytes(), true));
    assert!(is_within_bounds::<1, 16>(&(-128i128).to_ne_bytes(), true));
    assert!(!is_within_bounds::<1, 16>(&(-129i128).to_ne_bytes(), true));
}
