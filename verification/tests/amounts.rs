use maker_desk::decimal::{Decimal, Relation};
use maker_desk::money::{Price, Qty};
use maker_desk::quantize::{quantize_down, quantize_up};

fn dec(text: &str) -> Decimal {
    Decimal::parse(text).unwrap()
}

#[test]
fn sums_and_differences_are_exact() {
    assert_eq!((dec("0.1") + dec("0.25")).text(), "0.35");
    assert_eq!((dec("0.1") - dec("0.25")).text(), "-0.15");
    assert_eq!(dec("1.50") + dec("1.5"), dec("3"));
    assert_eq!((dec("1.50") + dec("1.5")).text(), "3.00");
}

#[test]
fn products_and_quotients_follow_the_decimal_places() {
    assert_eq!((dec("0.2") * dec("0.30")).text(), "0.060");
    assert_eq!(dec("1") / dec("3"), dec("0.3333333333333333333333333333"));
    assert_eq!(dec("10") / dec("4"), dec("2.5"));
    assert_eq!(dec("-6") / dec("1.5"), dec("-4"));
}

#[test]
fn products_and_sums_keep_their_decimal_places() {
    assert_eq!((dec("1.50") * dec("2.0")).text(), "3.000");
    assert_eq!((dec("1.50") * dec("0.00")).text(), "0");
    assert_eq!((dec("1.5") + dec("2.25")).text(), "3.75");
}

#[test]
fn differences_have_their_sign_even_where_they_are_rounded() {
    let largest = dec("79228162514264337593543950335");
    let tiny = dec("0.0000000000000000000000000001");
    assert!((largest - tiny).is_positive() && (tiny - largest).is_negative());
    let a = dec("7.92281625142643375935439504");
    let b = dec("7.9228162514264337593543950335");
    assert!((a - b).is_positive() && (b - a).is_negative() && (a - a).is_zero());
    assert!((dec("8") - b).is_positive() && (-largest - tiny).is_negative());
}

#[test]
fn results_out_of_range_stop_at_the_largest_amount() {
    let largest = dec("79228162514264337593543950335");
    assert_eq!(largest + dec("1"), largest);
    assert_eq!(-largest - dec("1"), -largest);
    assert_eq!(largest * dec("-2"), -largest);
    assert_eq!(dec("5") / Decimal::zero(), largest);
}

#[test]
fn order_goes_by_value() {
    assert_eq!(dec("1.0").relation(dec("1")), Relation::Equal);
    assert_eq!(dec("1.01").relation(dec("1.1")), Relation::Less);
    assert_eq!(dec("-1").relation(dec("-2")), Relation::Greater);
    assert!(dec("1.0") == dec("1.000") && dec("2") > dec("1.9") && dec("-3") < dec("0"));
    assert_eq!(dec("2").max(dec("3")), dec("3"));
    assert_eq!(dec("2").min(dec("3")), dec("2"));
}

#[test]
fn whole_parts_of_negative_amounts() {
    assert_eq!(dec("-1.5").floor(), dec("-2"));
    assert_eq!(dec("-1.5").ceil(), dec("-1"));
    assert_eq!(dec("1.5").floor(), dec("1"));
    assert_eq!(dec("1.5").ceil(), dec("2"));
    assert_eq!(dec("7").floor(), dec("7"));
    assert_eq!(dec("-2.5").abs(), dec("2.5"));
    assert_eq!(dec("2.5").negated(), dec("-2.5"));
}

#[test]
fn texts_that_are_no_amounts_are_refused() {
    for text in ["", "abc", "1.2.3", "--1", "NaN"] {
        assert!(Decimal::parse(text).is_none(), "{text}");
    }
    assert_eq!(dec("0012.340").text(), "12.340");
}

#[test]
fn parts_build_an_amount() {
    let d = Decimal::from_parts(12345, 3).unwrap();
    assert_eq!(d.text(), "12.345");
    assert_eq!((d.mantissa(), d.scale()), (12345, 3));
    assert!(Decimal::from_parts(1, 29).is_none());
    assert!(Decimal::from_parts(79228162514264337593543950336, 0).is_none());
    assert_eq!(Decimal::new(-5, 1), dec("-0.5"));
    assert_eq!(Decimal::from_int(-7), dec("-7"));
    assert_eq!(Decimal::from_count(7), dec("7"));
    assert!(Decimal::one().is_positive() && dec("-1").is_negative() && dec("0.0").is_zero());
}

#[test]
fn rounding_stays_within_one_step() {
    let step = dec("0.05");
    for text in ["0.01", "0.05", "1.23", "7.77", "100"] {
        let raw = dec(text);
        let down = quantize_down(raw, step);
        let up = quantize_up(raw, step);
        assert!(down <= raw && raw < down + step, "{text}");
        assert!(up - step < raw && raw <= up, "{text}");
        assert_eq!(quantize_down(down, step), down, "{text}");
        assert_eq!(quantize_up(up, step), up, "{text}");
    }
    assert_eq!(quantize_down(dec("-0.07"), step), dec("-0.10"));
    assert_eq!(quantize_up(dec("-0.07"), step), dec("-0.05"));
}

#[test]
fn a_step_that_is_not_positive_leaves_the_amount_alone() {
    assert_eq!(quantize_down(dec("1.23"), Decimal::zero()), dec("1.23"));
    assert_eq!(quantize_up(dec("1.23"), dec("-0.1")), dec("1.23"));
}

#[test]
fn prices_and_quantities_carry_their_amount() {
    assert_eq!(Price::new(dec("3.50")).text(), "3.50");
    assert!(Price::new(dec("0.01")).is_positive());
    assert!(!Price::new(dec("0")).is_positive());
    assert_eq!(Qty::new(dec("1")) + Qty::new(dec("2")), Qty::new(dec("3")));
    assert_eq!(Qty::new(dec("1")) - Qty::new(dec("2")), Qty::new(dec("-1")));
    assert!(Qty::zero().is_zero() && !Qty::zero().is_positive());
    assert_eq!(Qty::new(dec("2.5")).text(), "2.5");
}
