use pong_core::fixed::Fixed;
use pong_core::SCALE;

#[test]
fn it_works() {
    assert_eq!(2 + 2, 4);
}

#[test]
fn one_unit_is_a_million_steps() {
    assert_eq!(SCALE, 1_000_000);
    assert_eq!(Fixed::from_int(1).raw(), 1_000_000);
    assert_eq!(Fixed::from_int(-3).raw(), -3_000_000);
    assert_eq!(Fixed::from_int(0), Fixed::from_raw(0));
}

#[test]
fn from_int_takes_every_i32() {
    assert_eq!(Fixed::from_int(i32::MAX).raw(), 2_147_483_647_000_000);
    assert_eq!(Fixed::from_int(i32::MIN).raw(), -2_147_483_648_000_000);
}

#[test]
fn wide_keeps_the_value() {
    assert_eq!(Fixed::from_raw(-7).wide(), -7i128);
    assert_eq!(Fixed::from_raw(i64::MAX).wide(), i64::MAX as i128);
}

#[test]
fn narrow_accepts_the_whole_range_and_nothing_more() {
    assert_eq!(Fixed::narrow(0), Some(Fixed::from_raw(0)));
    assert_eq!(Fixed::narrow(i64::MAX as i128), Some(Fixed::from_raw(i64::MAX)));
    assert_eq!(Fixed::narrow(i64::MIN as i128), Some(Fixed::from_raw(i64::MIN)));
    assert_eq!(Fixed::narrow(i64::MAX as i128 + 1), None);
    assert_eq!(Fixed::narrow(i64::MIN as i128 - 1), None);
}

#[test]
fn product_of_whole_numbers_is_exact() {
    assert_eq!(Fixed::from_int(300).times(Fixed::from_int(2)), 600_000_000);
    assert_eq!(Fixed::from_int(-50).times(Fixed::from_raw(400_000)), -20_000_000);
}

#[test]
fn product_rounds_toward_zero() {
    // 0.000001 * 0.5 is half a step and rounds to nothing, whatever the sign.
    assert_eq!(Fixed::from_raw(1).times(Fixed::from_raw(500_000)), 0);
    assert_eq!(Fixed::from_raw(-1).times(Fixed::from_raw(500_000)), 0);
    // 0.000003 * 0.5 is one step and a half.
    assert_eq!(Fixed::from_raw(3).times(Fixed::from_raw(500_000)), 1);
    assert_eq!(Fixed::from_raw(-3).times(Fixed::from_raw(500_000)), -1);
    assert_eq!(Fixed::from_raw(3).times(Fixed::from_raw(-500_000)), -1);
}

#[test]
fn product_of_extremes_stays_wide() {
    let p = Fixed::from_raw(i64::MIN).times(Fixed::from_raw(i64::MIN));
    assert_eq!(p, (i64::MIN as i128) * (i64::MIN as i128) / 1_000_000);
    assert_eq!(Fixed::narrow(p), None);
}
