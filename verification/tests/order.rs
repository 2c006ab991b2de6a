use std::cmp::Ordering;
use unaligned_int::{I24, I72, U24, U40};

#[test]
fn signed_order_is_not_byte_order() {
    let minus_one = I24::try_from_native(-1i32).unwrap();
    let one = I24::try_from_native(1i32).unwrap();
    assert_eq!(minus_one.cmp(&one), Ordering::Less);
    assert_eq!(one.cmp(&minus_one), Ordering::Greater);
    assert!(minus_one.lt(&one));
    assert!(minus_one.le(&one));
    assert!(one.gt(&minus_one));
    assert!(one.ge(&minus_one));
    assert!(!one.lt(&minus_one));
}

#[test]
fn unsigned_order_is_that_of_the_numbers() {
    let a = U24::try_from_native(0x00_0100u32).unwrap();
    let b = U24::try_from_native(0x00_00FFu32).unwrap();
    assert_eq!(a.cmp(&b), Ordering::Greater);
    assert_eq!(b.cmp(&a), Ordering::Less);
    assert_eq!(a.cmp(&a), Ordering::Equal);
    assert_eq!(a.partial_cmp(&b), Some(Ordering::Greater));
    assert!(a.ge(&a));
    assert!(a.le(&a));
    assert!(!a.lt(&a));
    assert!(!a.gt(&a));
}

#[test]
fn order_agrees_with_the_primitives() {
    let samples: [i32; 7] = [-8_388_608, -256, -1, 0, 1, 255, 8_388_607];
    for x in samples {
        for y in samples {
            let a = I24::try_from_native(x).unwrap();
            let b = I24::try_from_native(y).unwrap();
            assert_eq!(a.cmp(&b), x.cmp(&y));
            assert_eq!(a.partial_cmp(&b), x.partial_cmp(&y));
            assert_eq!(a.lt(&b), x < y);
            assert_eq!(a.le(&b), x <= y);
            assert_eq!(a.gt(&b), x > y);
            assert_eq!(a.ge(&b), x >= y);
        }
    }
}

#[test]
fn order_of_wide_values() {
    let lo = I72::min_value();
    let hi = I72::max_value();
    assert_eq!(lo.cmp(&hi), Ordering::Less);
    let a = U40::max_value();
    let b = U40::min_value();
    assert_eq!(a.cmp(&b), Ordering::Greater);
}
