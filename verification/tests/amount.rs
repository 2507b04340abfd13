use risq::domain::amount::{char_of_last_digit, NumberWithPrecision};
use std::cmp::Ordering;

#[test]
fn multiply() {
    let left_precision = 4;
    let right_precision = 8;

    let price_base = 9000 * 10_u64.pow(left_precision);
    let amount_base = 1 * 10_u64.pow(right_precision);
    let price = NumberWithPrecision::new(price_base, left_precision);
    let amount = NumberWithPrecision::new(amount_base, right_precision);

    let high_volume = price * amount;
    let low_volume = price * amount / 10000;
    assert!(&high_volume.format(8) == "9000.00000000");
    assert!(&low_volume.format(8) == "0.90000000");
}

#[test]
fn format_pads_and_cuts() {
    let n = NumberWithPrecision::new(15, 1);
    assert_eq!(n.format(1), "1.5");
    assert_eq!(n.format(2), "1.50");
    assert_eq!(n.format(4), "1.5000");
    assert_eq!(n.format(0), "1.");
    let small = NumberWithPrecision::new(7, 3);
    assert_eq!(small.format(3), "0.007");
    assert_eq!(small.format(2), "0.00");
    assert_eq!(small.format(5), "0.00700");
}

#[test]
fn format_of_zero_has_a_whole_part() {
    let zero = NumberWithPrecision::new(0, 0);
    assert_eq!(zero.format(0), "0.");
    assert_eq!(zero.format(3), "0.000");
    let zero = NumberWithPrecision::new(0, 40);
    assert_eq!(zero.format(2), "0.00");
}

#[test]
fn format_shape_holds_on_examples() {
    let numbers = [
        NumberWithPrecision::new(0, 0),
        NumberWithPrecision::new(1, 9),
        NumberWithPrecision::new(123456789, 4),
        NumberWithPrecision::new(u64::MAX, 19),
    ];
    for n in numbers.iter() {
        for p in 0..6u32 {
            let text = n.format(p);
            let point = text.find('.').unwrap();
            assert!(point >= 1);
            assert_eq!(text.len() - point - 1, p as usize);
            assert!(text.chars().all(|c| c == '.' || c.is_ascii_digit()));
        }
    }
}

#[test]
fn format_cuts_far_below_the_precision() {
    let n = NumberWithPrecision::new(u64::MAX, 30);
    assert_eq!(n.format(2), "0.00");
    let n = NumberWithPrecision::new(18_446_744_073_709_551_615, 19);
    assert_eq!(n.format(19), "1.8446744073709551615");
    assert_eq!(n.format(0), "1.");
}

#[test]
fn equal_numbers_of_different_precision() {
    let a = NumberWithPrecision::new(15, 1);
    let b = NumberWithPrecision::new(1500, 3);
    assert!(a == b);
    assert_eq!(a.cmp(&b), Ordering::Equal);
    assert_eq!(a.partial_cmp(&b), Some(Ordering::Equal));
    assert!(!(a < b));
    assert!(!(a > b));
}

#[test]
fn order_of_different_precision() {
    let a = NumberWithPrecision::new(15, 1);
    let b = NumberWithPrecision::new(1501, 3);
    assert!(a != b);
    assert!(a < b);
    assert!(b > a);
    assert_eq!(a.cmp(&b), Ordering::Less);
    assert_eq!(b.cmp(&a), Ordering::Greater);
    assert_eq!(a.sign_against(&b), -1);
    assert_eq!(b.sign_against(&a), 1);
}

#[test]
fn order_where_scaling_would_overflow() {
    let big = NumberWithPrecision::new(1, 0);
    let tiny = NumberWithPrecision::new(u64::MAX, 40);
    assert!(tiny < big);
    assert!(big > tiny);
    let zero = NumberWithPrecision::new(0, 0);
    let other_zero = NumberWithPrecision::new(0, 50);
    assert!(zero == other_zero);
}

#[test]
fn with_precision_scales_both_ways() {
    let n = NumberWithPrecision::new(12345, 3);
    assert_eq!(n.with_precision(5).format(5), "12.34500");
    assert_eq!(n.with_precision(1).format(1), "12.3");
    assert_eq!(n.with_precision(3).format(3), "12.345");
    assert_eq!(n.with_precision(0).format(0), "12.");
}

#[test]
fn product_is_cut_at_the_greater_precision() {
    let half = NumberWithPrecision::new(5, 1);
    let quarter = half * half;
    assert_eq!(quarter.format(1), "0.2");
    assert_eq!(quarter.format(2), "0.20");
    let a = NumberWithPrecision::new(125, 2);
    let b = NumberWithPrecision::new(3, 0);
    assert_eq!((a * b).format(2), "3.75");
    assert_eq!((b * a).format(2), "3.75");
}

#[test]
fn product_with_the_greater_precision_on_the_left() {
    let a = NumberWithPrecision::new(1_234_567, 6);
    let b = NumberWithPrecision::new(15, 1);
    assert_eq!((a * b).format(6), "1.851850");
    assert_eq!((b * a).format(6), "1.851850");
}

#[test]
fn product_rounds_toward_zero() {
    let a = NumberWithPrecision::new(19, 1);
    let b = NumberWithPrecision::new(19, 1);
    assert_eq!((a * b).format(1), "3.6");
    assert_eq!((a * b).format(0), "3.");
}

#[test]
fn quotient_rounds_toward_zero() {
    let a = NumberWithPrecision::new(1000, 2);
    assert_eq!((a / 3).format(2), "3.33");
    assert_eq!((a / 1).format(2), "10.00");
    assert_eq!((a / 2000).format(2), "0.00");
}

#[test]
fn sum_is_taken_at_the_greater_precision() {
    let a = NumberWithPrecision::new(15, 1);
    let b = NumberWithPrecision::new(25, 2);
    assert_eq!((a + b).format(2), "1.75");
    assert_eq!((b + a).format(2), "1.75");
}

#[test]
fn last_digits() {
    assert_eq!(char_of_last_digit(0), '0');
    assert_eq!(char_of_last_digit(9), '9');
    assert_eq!(char_of_last_digit(1234), '4');
    assert_eq!(char_of_last_digit(u64::MAX), '5');
}
