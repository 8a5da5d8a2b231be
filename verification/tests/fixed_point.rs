use lib_simulation::entropy::{fraction, part, signed_unit};
use lib_simulation::fixed::{Fixed, SCALE};
use lib_simulation::geometry::{wrap, Heading, Point, PI, TWO_PI};

fn fixed(value: f64) -> Fixed {
    Fixed::from_raw((value * 1e9).round() as i64)
}

#[test]
fn one_is_a_billion_raw_units() {
    assert_eq!(SCALE, 1_000_000_000);
    assert_eq!(Fixed::one().raw(), 1_000_000_000);
    assert_eq!(Fixed::zero().raw(), 0);
    assert_eq!(Fixed::from_raw(-7).raw(), -7);
}

#[test]
fn sums_and_differences_are_exact() {
    assert_eq!(fixed(0.75).plus(fixed(-1.5)), fixed(-0.75));
    assert_eq!(fixed(0.75).minus(fixed(-1.5)), fixed(2.25));
    assert_eq!(fixed(2.5).negated(), fixed(-2.5));
}

#[test]
fn sums_stick_to_the_ends_of_the_range() {
    let most = Fixed::from_raw(i64::MAX);
    let least = Fixed::from_raw(i64::MIN);
    assert_eq!(most.plus(Fixed::from_raw(1)), most);
    assert_eq!(least.minus(Fixed::from_raw(1)), least);
    assert_eq!(least.negated(), most);
    assert_eq!(most.times(fixed(2.0)), most);
    assert_eq!(most.times(fixed(-2.0)), least);
    assert_eq!(most.over(fixed(0.5)), most);
}

#[test]
fn products_drop_what_lies_beyond_the_ninth_place() {
    assert_eq!(fixed(0.5).times(fixed(0.5)), fixed(0.25));
    assert_eq!(fixed(-0.3).times(fixed(0.5)), fixed(-0.15));
    assert_eq!(Fixed::from_raw(1).times(Fixed::from_raw(999_999_999)).raw(), 0);
    assert_eq!(Fixed::from_raw(1_500_000_001).times(fixed(0.5)).raw(), 750_000_000);
    assert_eq!(Fixed::from_raw(-1_500_000_001).times(fixed(0.5)).raw(), -750_000_000);
}

#[test]
fn quotients_round_toward_zero() {
    assert_eq!(fixed(1.0).over(fixed(3.0)).raw(), 333_333_333);
    assert_eq!(fixed(-1.0).over(fixed(3.0)).raw(), -333_333_333);
    assert_eq!(fixed(1.0).over(fixed(-3.0)).raw(), -333_333_333);
    assert_eq!(fixed(-1.0).over(fixed(-3.0)).raw(), 333_333_333);
    assert_eq!(fixed(0.125).over(fixed(0.25)), fixed(0.5));
}

#[test]
fn counts_become_whole_numbers() {
    assert_eq!(Fixed::from_count(0).raw(), 0);
    assert_eq!(Fixed::from_count(3), fixed(3.0));
    assert_eq!(Fixed::from_count(usize::MAX).raw(), i64::MAX);
}

#[test]
fn clamping_holds_a_number_between_its_bounds() {
    assert_eq!(fixed(0.3).clamp(fixed(-0.2), fixed(0.2)), fixed(0.2));
    assert_eq!(fixed(-0.3).clamp(fixed(-0.2), fixed(0.2)), fixed(-0.2));
    assert_eq!(fixed(0.1).clamp(fixed(-0.2), fixed(0.2)), fixed(0.1));
    assert_eq!(fixed(-0.1).at_least(Fixed::zero()), Fixed::zero());
    assert_eq!(fixed(0.1).at_least(Fixed::zero()), fixed(0.1));
}

#[test]
fn drawn_bits_become_a_fraction() {
    assert_eq!(fraction(0).raw(), 0);
    assert_eq!(fraction(0xff).raw(), 0);
    assert_eq!(fraction(0x8000_0000).raw(), 500_000_000);
    assert_eq!(fraction(u32::MAX).raw(), 999_999_940);
}

#[test]
fn drawn_bits_become_a_number_between_minus_one_and_one() {
    assert_eq!(signed_unit(0).raw(), -1_000_000_000);
    assert_eq!(signed_unit(0x8000_0000).raw(), 119);
    assert_eq!(signed_unit(u32::MAX).raw(), 1_000_000_000);
}

#[test]
fn drawn_bits_become_a_part_of_a_span() {
    let turn = Fixed::from_raw(TWO_PI);
    assert_eq!(part(0, turn).raw(), 0);
    assert_eq!(part(0x8000_0000, turn).raw(), 3_141_592_653);
    assert_eq!(part(u32::MAX, turn).raw(), 6_283_184_557);
}

#[test]
fn wrapping_brings_a_number_into_its_range() {
    assert_eq!(wrap(3_500_000_000, -PI, PI).raw(), -2_783_185_308);
    assert_eq!(wrap(-6_000_000_000, -PI, PI).raw(), 283_185_308);
    assert_eq!(wrap(PI as i128, -PI, PI).raw(), -PI);
    assert_eq!(wrap(-(PI as i128), -PI, PI).raw(), -PI);
    assert_eq!(wrap(1_000_000_000, 0, SCALE).raw(), 0);
    assert_eq!(wrap(-1, 0, SCALE).raw(), 999_999_999);
    assert_eq!(wrap(2_250_000_000, 0, SCALE).raw(), 250_000_000);
    assert_eq!(wrap(-2_250_000_000, 0, SCALE).raw(), 750_000_000);
    assert_eq!(wrap(123, 0, SCALE).raw(), 123);
}

#[test]
fn a_step_over_the_edge_comes_back_on_the_other_side() {
    let place = Point::new(fixed(0.999), fixed(0.001));
    let there = place.advanced(fixed(0.005), Heading { x: fixed(1.0), y: fixed(-1.0) });
    assert_eq!(there, Point::new(fixed(0.004), fixed(0.996)));
}

#[test]
fn any_step_ends_in_the_arena() {
    let places = [fixed(0.0), fixed(0.5), fixed(0.999999999), fixed(-3.25), fixed(17.0)];
    let steps = [fixed(-1.0), fixed(0.0), fixed(0.3), fixed(1.0), fixed(250.0)];
    let speeds = [fixed(0.001), fixed(0.005), fixed(4.0), Fixed::from_raw(i64::MAX)];
    for x in places {
        for y in places {
            for across in steps {
                for along in steps {
                    for speed in speeds {
                        let there =
                            Point::new(x, y).advanced(speed, Heading { x: across, y: along });
                        assert!(0 <= there.x.raw() && there.x.raw() < SCALE);
                        assert!(0 <= there.y.raw() && there.y.raw() < SCALE);
                    }
                }
            }
        }
    }
}

#[test]
fn reach_is_measured_along_the_straight_line() {
    let here = Point::new(fixed(0.5), fixed(0.5));
    assert!(here.within(&Point::new(fixed(0.506), fixed(0.508)), fixed(0.01)));
    assert!(!here.within(&Point::new(fixed(0.506), fixed(0.508000001)), fixed(0.01)));
    assert!(here.within(&here, fixed(0.0)));
    assert!(!here.within(&here, fixed(-0.01)));
    assert!(!here.within(&Point::new(fixed(0.52), fixed(0.5)), fixed(0.01)));
    let far = Point::new(Fixed::from_raw(i64::MAX), Fixed::from_raw(i64::MIN));
    let away = Point::new(Fixed::from_raw(i64::MIN), Fixed::from_raw(i64::MAX));
    assert!(!far.within(&away, Fixed::from_raw(i64::MAX)));
}
