use particle_life::fixed::{Fixed, SCALE};
use particle_life::scalar::Scalar;

#[test]
fn one_whole_is_the_scale() {
    assert_eq!(SCALE, 65536);
    assert_eq!(Fixed::from_int(1).raw, 65536);
    assert_eq!(Fixed::from_int(-3).raw, -196608);
    assert_eq!(Fixed::from_int(i32::MAX).raw, i32::MAX as i64 * 65536);
}

#[test]
fn ratio_is_cut_off_towards_zero() {
    assert_eq!(Fixed::from_ratio(12, 100).raw, 7864);
    assert_eq!(Fixed::from_ratio(-12, 100).raw, -7864);
    assert_eq!(Fixed::from_ratio(12, -100).raw, -7864);
    assert_eq!(Fixed::from_ratio(-12, -100).raw, 7864);
    assert_eq!(Fixed::from_ratio(90, 100).raw, 58982);
    assert_eq!(Fixed::from_ratio(12, 10).raw, 78643);
    assert_eq!(Fixed::from_ratio(2100, 1).raw, 2100 * 65536);
    assert_eq!(Fixed::from_ratio(0, 1).raw, 0);
}

#[test]
fn sum_and_difference_are_exact() {
    let a = Fixed { raw: 100 };
    let b = Fixed { raw: -250 };
    assert_eq!(a.add(b).raw, -150);
    assert_eq!(a.sub(b).raw, 350);
    assert_eq!(b.sub(a).raw, -350);
}

#[test]
fn sum_and_difference_stop_at_the_ends() {
    let top = Fixed { raw: i64::MAX };
    let bottom = Fixed { raw: i64::MIN };
    let one = Fixed { raw: 1 };
    assert_eq!(top.add(one).raw, i64::MAX);
    assert_eq!(bottom.sub(one).raw, i64::MIN);
    assert_eq!(bottom.add(bottom).raw, i64::MIN);
    assert_eq!(top.sub(bottom).raw, i64::MAX);
}

#[test]
fn product_is_cut_off_towards_zero() {
    let half = Fixed::from_ratio(1, 2);
    assert_eq!(Fixed::from_int(3).mul(half).raw, 98304);
    assert_eq!(Fixed { raw: 3 }.mul(half).raw, 1);
    assert_eq!(Fixed { raw: -3 }.mul(half).raw, -1);
    assert_eq!(Fixed { raw: 1 }.mul(half).raw, 0);
    assert_eq!(Fixed::from_int(-7).mul(Fixed::from_int(6)), Fixed::from_int(-42));
}

#[test]
fn product_stops_at_the_ends() {
    let top = Fixed { raw: i64::MAX };
    let bottom = Fixed { raw: i64::MIN };
    assert_eq!(top.mul(top).raw, i64::MAX);
    assert_eq!(top.mul(bottom).raw, i64::MIN);
    assert_eq!(bottom.mul(bottom).raw, i64::MAX);
}

#[test]
fn quotient_is_cut_off_towards_zero() {
    assert_eq!(Fixed::from_int(1).div(Fixed::from_int(3)).raw, 21845);
    assert_eq!(Fixed::from_int(-1).div(Fixed::from_int(3)).raw, -21845);
    assert_eq!(Fixed::from_int(1).div(Fixed::from_int(-3)).raw, -21845);
    assert_eq!(Fixed::from_int(1000).div(Fixed::from_int(2500)).raw, 26214);
    assert_eq!(Fixed::from_int(42).div(Fixed::from_int(6)), Fixed::from_int(7));
}

#[test]
fn division_by_zero_gives_the_end_of_the_dividends_sign() {
    let zero = Fixed { raw: 0 };
    assert_eq!(Fixed::from_int(5).div(zero).raw, i64::MAX);
    assert_eq!(Fixed::from_int(-5).div(zero).raw, i64::MIN);
    assert_eq!(zero.div(zero).raw, 0);
}

#[test]
fn negation_stops_at_the_top() {
    assert_eq!(Fixed { raw: 17 }.neg().raw, -17);
    assert_eq!(Fixed { raw: -17 }.neg().raw, 17);
    assert_eq!(Fixed { raw: 0 }.neg().raw, 0);
    assert_eq!(Fixed { raw: i64::MIN }.neg().raw, i64::MAX);
    assert_eq!(Fixed { raw: i64::MAX }.neg().raw, -i64::MAX);
}

#[test]
fn root_is_the_whole_part_of_the_root() {
    assert_eq!(Fixed::from_int(4).sqrt(), Fixed::from_int(2));
    assert_eq!(Fixed::from_int(0).sqrt().raw, 0);
    assert_eq!(Fixed::from_int(1).sqrt(), Fixed::from_int(1));
    assert_eq!(Fixed::from_int(2).sqrt().raw, 92681);
    assert_eq!(Fixed::from_int(3600).sqrt(), Fixed::from_int(60));
    assert_eq!(Fixed { raw: 1 }.sqrt().raw, 256);
}

#[test]
fn root_of_the_largest_number_fits() {
    let r = Fixed { raw: i64::MAX }.sqrt().raw as i128;
    let v = i64::MAX as i128 * 65536;
    assert!(r * r <= v);
    assert!((r + 1) * (r + 1) > v);
}

#[test]
fn root_of_a_negative_number_is_zero() {
    assert_eq!(Fixed::from_int(-4).sqrt().raw, 0);
    assert_eq!(Fixed { raw: i64::MIN }.sqrt().raw, 0);
}

#[test]
fn order_is_that_of_the_raw_numbers() {
    assert!(Fixed { raw: -1 }.lt(Fixed { raw: 0 }));
    assert!(!Fixed { raw: 0 }.lt(Fixed { raw: 0 }));
    assert!(!Fixed { raw: 1 }.lt(Fixed { raw: 0 }));
    assert!(Fixed::from_ratio(12, 100).lt(Fixed::from_ratio(13, 100)));
}

#[test]
fn truncation_drops_the_fraction_towards_zero() {
    assert_eq!(Fixed::from_ratio(7, 2).truncate(), 3);
    assert_eq!(Fixed::from_ratio(-7, 2).truncate(), -3);
    assert_eq!(Fixed::from_ratio(-1, 10).truncate(), 0);
    assert_eq!(Fixed::from_int(42).truncate(), 42);
    assert_eq!(Fixed { raw: i64::MAX }.truncate(), (i64::MAX / 65536) as isize);
    assert_eq!(Fixed { raw: i64::MIN }.truncate(), (i64::MIN / 65536) as isize);
}

#[test]
fn a_random_number_lies_between_its_bounds() {
    let low = Fixed::from_int(-1000);
    let high = Fixed::from_int(1000);
    for _ in 0..500 {
        let r = Fixed::random_between(low, high);
        assert!(!r.lt(low));
        assert!(!high.lt(r));
    }
}

#[test]
fn a_random_number_between_far_bounds_lies_between_them() {
    let low = Fixed { raw: i64::MIN };
    let high = Fixed { raw: i64::MAX };
    for _ in 0..100 {
        let r = Fixed::random_between(low, high);
        assert!(!r.lt(low));
        assert!(!high.lt(r));
    }
    let narrow_low = Fixed { raw: i64::MAX - 3 };
    for _ in 0..100 {
        let r = Fixed::random_between(narrow_low, high);
        assert!(r.raw >= i64::MAX - 3);
    }
}

#[test]
fn random_numbers_differ() {
    let low = Fixed::from_int(0);
    let high = Fixed::from_int(1000);
    let first = Fixed::random_between(low, high);
    let mut other = false;
    for _ in 0..50 {
        if Fixed::random_between(low, high) != first {
            other = true;
        }
    }
    assert!(other);
}

#[test]
fn a_random_number_between_equal_bounds_is_the_bound() {
    let at = Fixed::from_int(7);
    assert_eq!(Fixed::random_between(at, at), at);
}

#[test]
fn a_drawn_number_between_the_bounds_is_kept() {
    let low = Fixed { raw: -10 };
    let high = Fixed { raw: 25 };
    assert_eq!(Fixed::bounded(low, high, 7).raw, 7);
    assert_eq!(Fixed::bounded(low, high, -10).raw, -10);
    assert_eq!(Fixed::bounded(low, high, 25).raw, 25);
}

#[test]
fn a_drawn_number_outside_the_bounds_is_brought_to_the_nearer_one() {
    let low = Fixed { raw: -10 };
    let high = Fixed { raw: 25 };
    assert_eq!(Fixed::bounded(low, high, -11).raw, -10);
    assert_eq!(Fixed::bounded(low, high, i64::MIN).raw, -10);
    assert_eq!(Fixed::bounded(low, high, 26).raw, 25);
    assert_eq!(Fixed::bounded(low, high, i64::MAX).raw, 25);
    assert_eq!(Fixed::bounded(high, high, 0).raw, 25);
}

#[test]
fn a_drawn_number_is_kept_where_the_bounds_are_crossed() {
    let low = Fixed { raw: 25 };
    let high = Fixed { raw: -10 };
    assert_eq!(Fixed::bounded(low, high, 7).raw, 7);
    assert_eq!(Fixed::bounded(low, high, 1000).raw, 1000);
    assert_eq!(Fixed::bounded(low, high, -1000).raw, -1000);
}

#[test]
fn floor_division_rounds_down() {
    assert_eq!(Fixed::from_int(7).floor_div(Fixed::from_int(2)), 3);
    assert_eq!(Fixed::from_int(-7).floor_div(Fixed::from_int(2)), -4);
    assert_eq!(Fixed::from_int(7).floor_div(Fixed::from_int(-2)), -4);
    assert_eq!(Fixed::from_int(-7).floor_div(Fixed::from_int(-2)), 3);
    assert_eq!(Fixed::from_int(6).floor_div(Fixed::from_int(2)), 3);
    assert_eq!(Fixed::from_int(-6).floor_div(Fixed::from_int(2)), -3);
    assert_eq!(Fixed::from_int(0).floor_div(Fixed::from_int(50)), 0);
}

#[test]
fn floor_division_of_a_small_negative_number_is_minus_one() {
    assert_eq!(Fixed::from_ratio(-1, 2).floor_div(Fixed::from_int(50)), -1);
    assert_eq!(Fixed { raw: -1 }.floor_div(Fixed::from_int(50)), -1);
    assert_eq!(Fixed { raw: -1 }.floor_div(Fixed { raw: i64::MAX }), -1);
    assert_eq!(Fixed { raw: 1 }.floor_div(Fixed { raw: i64::MAX }), 0);
    assert_eq!(Fixed { raw: 1 }.floor_div(Fixed { raw: i64::MIN }), -1);
    assert_eq!(Fixed { raw: i64::MIN }.floor_div(Fixed { raw: i64::MIN }), 1);
}

#[test]
fn floor_division_by_zero_gives_the_end_of_the_dividends_sign() {
    let zero = Fixed { raw: 0 };
    assert_eq!(Fixed::from_int(5).floor_div(zero), isize::MAX);
    assert_eq!(Fixed::from_int(-5).floor_div(zero), isize::MIN);
    assert_eq!(zero.floor_div(zero), 0);
}

#[test]
fn floor_division_at_the_ends_fits() {
    assert_eq!(Fixed { raw: i64::MIN }.floor_div(Fixed { raw: 1 }), i64::MIN as isize);
    assert_eq!(Fixed { raw: i64::MAX }.floor_div(Fixed { raw: 1 }), i64::MAX as isize);
    assert_eq!(Fixed { raw: i64::MIN }.floor_div(Fixed { raw: -1 }), isize::MAX);
    assert_eq!(Fixed { raw: i64::MAX }.floor_div(Fixed { raw: -1 }), -i64::MAX as isize);
}
