use toy_payments_engine::Amount;

#[test]
fn amount_addition_aligns_scales() {
    let a = Amount::new(125, 2);
    let b = Amount::new(3, 0);
    let s = a.add(&b);
    assert_eq!(s.mantissa(), 425);
    assert_eq!(s.scale(), 2);
    assert_eq!(s.to_string(), "4.25");
}

#[test]
fn amount_addition_with_zero_keeps_other_operand() {
    let zero = Amount::new(0, 1);
    let b = Amount::new(2123499999999999, 15);
    let s = zero.add(&b);
    assert_eq!(s.mantissa(), 2123499999999999);
    assert_eq!(s.scale(), 15);
}

#[test]
fn amount_subtraction() {
    let a = Amount::new(10, 1);
    let b = Amount::new(25, 1);
    let d = a.sub(&b);
    assert_eq!(d.mantissa(), -15);
    assert!(d.is_sign_negative());
    assert_eq!(d.to_string(), "-1.5");
    let z = a.sub(&a);
    assert_eq!(z.mantissa(), 0);
    assert!(!z.is_sign_negative());
    assert_eq!(z.to_string(), "0.0");
}

#[test]
fn amount_zero_minus_amount_negates() {
    let zero = Amount::new(0, 0);
    let b = Amount::new(7, 1);
    let d = zero.sub(&b);
    assert_eq!(d.mantissa(), -7);
    assert_eq!(d.scale(), 1);
}

#[test]
fn amount_comparison_uses_values() {
    assert!(Amount::new(1, 0).is_less_than(&Amount::new(101, 2)));
    assert!(!Amount::new(100, 2).is_less_than(&Amount::new(1, 0)));
    assert!(Amount::new(-5, 0).is_less_than(&Amount::new(0, 3)));
    assert!(Amount::new(10, 1) == Amount::new(1000, 3));
    assert!(Amount::new(10, 1) != Amount::new(11, 1));
}

#[test]
fn amount_rounding_to_four_digits() {
    let r = Amount::new(2123499999999999, 15).round_4dp();
    assert_eq!(r.mantissa(), 21235);
    assert_eq!(r.scale(), 4);
    // a midpoint goes to the even neighbour
    assert_eq!(Amount::new(123445, 5).round_4dp().mantissa(), 12344);
    assert_eq!(Amount::new(123455, 5).round_4dp().mantissa(), 12346);
    // short amounts are kept
    let k = Amount::new(15, 1).round_4dp();
    assert_eq!(k.mantissa(), 15);
    assert_eq!(k.scale(), 1);
    // a negative amount that rounds to zero loses its sign
    let z = Amount::new(-1, 6).round_4dp();
    assert_eq!(z.mantissa(), 0);
    assert!(!z.is_sign_negative());
}

#[test]
fn amount_text_with_four_digits() {
    assert_eq!(Amount::new(10, 1).to_string_4dp(), "1.0000");
    assert_eq!(Amount::new(5, 0).to_string_4dp(), "5.0000");
    assert_eq!(Amount::new(-123456, 5).to_string_4dp(), "-1.2345");
    assert_eq!(Amount::new(7, 3).to_string_4dp(), "0.0070");
    assert_eq!(Amount::new(0, 0).to_string_4dp(), "0.0000");
}

#[test]
fn amount_full_text() {
    assert_eq!(Amount::new(15, 0).to_string(), "15");
    assert_eq!(Amount::new(15, 3).to_string(), "0.015");
    assert_eq!(Amount::new(-2500, 2).to_string(), "-25.00");
}

#[test]
fn amount_parts() {
    assert!(Amount::from_parts(5, true, 0).is_none());
    assert!(Amount::from_parts(1, false, 29).is_none());
    let z = Amount::from_parts(0, true, 2).unwrap();
    assert!(z.is_sign_negative());
    assert_eq!(z.to_string(), "-0.00");
}

#[test]
fn amount_checked_arithmetic() {
    let big = Amount::from_parts(79228162514264337593543950335, false, 0).unwrap();
    assert!(big.checked_add(&Amount::new(1, 0)).is_none());
    assert!(big.checked_sub(&Amount::new(1, 0)).is_some());
    let small = Amount::from_parts(-79228162514264337593543950335, true, 0).unwrap();
    assert!(small.checked_sub(&Amount::new(1, 0)).is_none());
    // exact when everything fits at the larger scale
    let s = Amount::new(1, 0).checked_add(&Amount::new(1, 28)).unwrap();
    assert_eq!(s.scale(), 28);
    assert_eq!(s.mantissa(), 10000000000000000000000000001);
    // rounded, not refused, when the digits do not fit
    let r = Amount::new(10, 0).checked_add(&Amount::new(1, 28)).unwrap();
    assert!(r == Amount::new(10, 0));
    assert!(r.scale() < 28);
}

#[test]
fn amount_exact_checked_sum_is_some() {
    let one = Amount::new(1, 0);
    let two = Amount::new(2, 0);
    let s = one.checked_add(&two).unwrap();
    assert_eq!(s.to_string(), "3");
    let d = one.checked_sub(&two).unwrap();
    assert_eq!(d.to_string(), "-1");
}

#[test]
fn amount_text_4dp_fits_up_to_27_whole_digits() {
    // 27 nines at scale 0: 27 whole digits fit.
    let m27: i128 = 999_999_999_999_999_999_999_999_999;
    let a = Amount::from_parts(m27, false, 0).unwrap();
    assert!(a.fits_text_4dp());
    assert_eq!(a.to_string_4dp(), "999999999999999999999999999.0000");
    // 10^27 at scale 0 has 28 whole digits.
    let b = Amount::from_parts(m27 + 1, false, 0).unwrap();
    assert!(!b.fits_text_4dp());
    // the same mantissa at scale 1 has 27 whole digits.
    let c = Amount::from_parts(m27 + 1, false, 1).unwrap();
    assert!(c.fits_text_4dp());
    assert_eq!(c.to_string_4dp(), "100000000000000000000000000.0000");
    // from scale 2 on, every amount fits.
    let d = Amount::from_parts(-79_228_162_514_264_337_593_543_950_335, true, 2).unwrap();
    assert!(d.fits_text_4dp());
}
