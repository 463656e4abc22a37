use raster3d::fixed::ratio;
use raster3d::fixed::wide_product;
use raster3d::fixed::Fixed;
use raster3d::fixed::SCALE;

#[test]
fn whole_numbers_scale_by_two_to_the_sixteenth() {
    assert_eq!(SCALE, 65536);
    assert_eq!(Fixed::from_int(3).raw(), 196608);
    assert_eq!(Fixed::from_int(-1).raw(), -65536);
    assert_eq!(Fixed::zero().raw(), 0);
    assert_eq!(Fixed::one().raw(), 65536);
    assert_eq!(Fixed::from_raw(17).raw(), 17);
}

#[test]
fn whole_numbers_stop_at_the_ends_of_the_range() {
    assert_eq!(Fixed::from_int(32767).raw(), 32767 * 65536);
    assert_eq!(Fixed::from_int(32768).raw(), i32::MAX);
    assert_eq!(Fixed::from_int(1_000_000).raw(), i32::MAX);
    assert_eq!(Fixed::from_int(-32768).raw(), i32::MIN);
    assert_eq!(Fixed::from_int(-40000).raw(), i32::MIN);
}

#[test]
fn sums_and_differences_saturate() {
    let a = Fixed::from_int(30000);
    let b = Fixed::from_int(5000);
    assert_eq!(a.plus(b).raw(), i32::MAX);
    assert_eq!(a.negate().minus(b).raw(), i32::MIN);
    assert_eq!(a.minus(b).raw(), 25000 * 65536);
    assert_eq!(b.plus(b).raw(), 10000 * 65536);
    assert_eq!(Fixed::from_raw(i32::MIN).negate().raw(), i32::MAX);
    assert_eq!(Fixed::from_raw(5).negate().raw(), -5);
}

#[test]
fn products_round_to_nearest_with_ties_up() {
    let half = Fixed::from_raw(32768);
    assert_eq!(Fixed::from_int(3).times(half).raw(), 98304);
    // 1 raw unit times one half is half a raw unit: the tie goes up.
    assert_eq!(Fixed::from_raw(1).times(half).raw(), 1);
    // -1 raw unit times one half is minus half a raw unit: up is zero.
    assert_eq!(Fixed::from_raw(-1).times(half).raw(), 0);
    assert_eq!(Fixed::from_raw(3).times(half).raw(), 2);
    assert_eq!(Fixed::from_raw(-3).times(half).raw(), -1);
    assert_eq!(Fixed::from_int(200).times(Fixed::from_int(200)).raw(), i32::MAX);
    assert_eq!(Fixed::from_int(-200).times(Fixed::from_int(200)).raw(), i32::MIN);
    assert_eq!(Fixed::from_int(-7).times(Fixed::from_int(-6)).raw(), 42 * 65536);
}

#[test]
fn rounding_to_an_integer_takes_ties_up() {
    assert_eq!(Fixed::from_raw(32768).round(), 1);
    assert_eq!(Fixed::from_raw(32767).round(), 0);
    assert_eq!(Fixed::from_raw(-32768).round(), 0);
    assert_eq!(Fixed::from_raw(-32769).round(), -1);
    assert_eq!(Fixed::from_int(-12).round(), -12);
    assert_eq!(Fixed::from_raw(i32::MAX).round(), 32768);
    assert_eq!(Fixed::from_raw(i32::MIN).round(), -32768);
}

#[test]
fn ratios_round_and_saturate() {
    assert_eq!(ratio(7, 2).raw(), 4);
    assert_eq!(ratio(-7, 2).raw(), -3);
    assert_eq!(ratio(6, 3).raw(), 2);
    assert_eq!(ratio(1 << 40, 1).raw(), i32::MAX);
    assert_eq!(ratio(-(1 << 40), 1).raw(), i32::MIN);
    assert_eq!(wide_product(i32::MIN, i32::MIN), 1i128 << 62);
    assert_eq!(wide_product(-3, 5), -15);
}
