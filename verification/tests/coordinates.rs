use image_sort::coordinates::{decode_dms, describe, Coordinate, PlaceFinderError, Rational};

fn r(num: u32, denom: u32) -> Rational {
    Rational { num, denom }
}

#[test]
fn decode_takes_degrees_minutes_and_seconds() {
    let c = decode_dms(&vec![r(48, 1), r(5, 1), r(92, 2)], false).unwrap();
    assert_eq!(c.degrees(), r(48, 1));
    assert_eq!(c.minutes(), r(5, 1));
    assert_eq!(c.seconds(), r(92, 2));
    assert!(!c.is_negative());
    // 48 + 5/60 + 46/3600 = 48.0961111..
    assert_eq!(c.quantize(), 480961);
}

#[test]
fn decode_fails_on_fewer_than_three_values() {
    match decode_dms(&vec![r(48, 1), r(5, 1)], false) {
        Err(PlaceFinderError::Decode(text)) => {
            assert_eq!(text, "[Rational(48/1), Rational(5/1)]")
        }
        Ok(_) => panic!("two values are no coordinate"),
    }
    assert!(decode_dms(&Vec::new(), true).is_err());
}

#[test]
fn decode_fails_on_a_zero_denominator() {
    match decode_dms(&vec![r(48, 1), r(5, 0), r(92, 2)], false) {
        Err(PlaceFinderError::Decode(text)) => {
            assert_eq!(text, "[Rational(48/1), Rational(5/0), Rational(92/2)]")
        }
        Ok(_) => panic!("a zero denominator is no number"),
    }
}

#[test]
fn decode_ignores_further_values() {
    let c = decode_dms(&vec![r(1, 1), r(2, 1), r(3, 1), r(4, 0)], true).unwrap();
    assert!(c.is_negative());
    assert_eq!(c.seconds(), r(3, 1));
}

#[test]
fn describe_writes_the_fractions_out() {
    assert_eq!(describe(&Vec::new()), "[]");
    assert_eq!(describe(&vec![r(1, 2)]), "[Rational(1/2)]");
}

#[test]
fn new_refuses_zero_denominators() {
    assert!(Coordinate::new(r(1, 0), r(0, 1), r(0, 1), false).is_none());
    assert!(Coordinate::new(r(1, 1), r(0, 0), r(0, 1), false).is_none());
    assert!(Coordinate::new(r(1, 1), r(0, 1), r(0, 0), false).is_none());
    assert!(Coordinate::new(r(1, 1), r(0, 1), r(0, 1), false).is_some());
}

#[test]
fn zero_is_zero_on_grid_line_zero() {
    let z = Coordinate::zero();
    assert!(z.is_zero());
    assert_eq!(z.quantize(), 0);
    let also = Coordinate::new(r(0, 7), r(0, 3), r(0, 9), true).unwrap();
    assert!(also.is_zero());
    assert_eq!(also.quantize(), 0);
}

#[test]
fn quantize_rounds_to_the_nearest_ten_thousandth() {
    let c = |num: u32, denom: u32, negative: bool| {
        Coordinate::new(r(num, denom), r(0, 1), r(0, 1), negative).unwrap()
    };
    assert_eq!(c(48083328, 1000000, false).quantize(), 480833);
    assert_eq!(c(168333, 100000, true).quantize(), -16833);
    // halves go away from zero
    assert_eq!(c(5, 100000, false).quantize(), 1);
    assert_eq!(c(5, 100000, true).quantize(), -1);
    assert_eq!(c(4, 100000, false).quantize(), 0);
    assert_eq!(c(15, 100000, false).quantize(), 2);
    assert!(!c(4, 100000, false).is_zero());
}

#[test]
fn quantize_adds_minutes_and_seconds() {
    // 1 minute is 1/60 degree: 166.67 ten-thousandths
    let minute = Coordinate::new(r(0, 1), r(1, 1), r(0, 1), false).unwrap();
    assert_eq!(minute.quantize(), 167);
    // 1 second is 1/3600 degree: 2.78 ten-thousandths
    let second = Coordinate::new(r(0, 1), r(0, 1), r(1, 1), false).unwrap();
    assert_eq!(second.quantize(), 3);
    let all = Coordinate::new(r(10, 1), r(30, 1), r(36, 1), true).unwrap();
    assert_eq!(all.quantize(), -105100);
}

#[test]
fn quantize_is_limited_to_what_an_i32_holds() {
    let huge = Coordinate::new(r(u32::MAX, 1), r(u32::MAX, 1), r(u32::MAX, 1), false).unwrap();
    assert_eq!(huge.quantize(), i32::MAX);
    let huge = Coordinate::new(r(u32::MAX, 1), r(0, 1), r(0, 1), true).unwrap();
    assert_eq!(huge.quantize(), -i32::MAX);
    let large_parts = Coordinate::new(
        r(u32::MAX, u32::MAX),
        r(u32::MAX, u32::MAX),
        r(u32::MAX, u32::MAX),
        false,
    )
    .unwrap();
    // 1 + 1/60 + 1/3600 = 1.016944..
    assert_eq!(large_parts.quantize(), 10169);
}

/// The angle in decimal degrees.
fn decimal_degrees(c: &Coordinate) -> f64 {
    let part = |r: Rational| r.num as f64 / r.denom as f64;
    let value = part(c.degrees()) + part(c.minutes()) / 60.0 + part(c.seconds()) / 3600.0;
    if c.is_negative() {
        -1.0 * value
    } else {
        value
    }
}

#[test]
fn place_finder_test_convert_deg_min_sec_to_decimal_deg() {
    let deg: Rational = Rational { num: 48, denom: 1 };
    let min: Rational = Rational { num: 5, denom: 1 };
    let sec: Rational = Rational { num: 92, denom: 2 };
    let coordinate = decode_dms(&vec![deg, min, sec], false).unwrap();
    assert_eq!(decimal_degrees(&coordinate), 48.096111111111114);
    assert_eq!(coordinate.quantize(), 480961);
}

#[test]
fn reverse_gps_test_convert_deg_min_sec_to_decimal_deg() {
    let deg: Rational = Rational { num: 48, denom: 1 };
    let min: Rational = Rational { num: 5, denom: 1 };
    let sec: Rational = Rational { num: 92, denom: 2 };
    let coordinate = Coordinate::new(deg, min, sec, false).unwrap();
    assert_eq!(decimal_degrees(&coordinate), 48.096111111111114);
    assert_eq!(coordinate.quantize(), (48.096111111111114_f64 * 10000.0).round() as i32);
}
