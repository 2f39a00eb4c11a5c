use ledger::Amount;

fn amount(mantissa: i128, scale: u32) -> Amount {
    Amount::from_parts(mantissa, scale).unwrap()
}

#[test]
fn renders_with_four_fractional_digits() {
    assert_eq!(amount(10, 1).to_fixed4_string(), "1.0000");
    assert_eq!(amount(12345, 0).to_fixed4_string(), "12345.0000");
    assert_eq!(amount(0, 0).to_fixed4_string(), "0.0000");
    assert_eq!(amount(-15, 1).to_fixed4_string(), "-1.5000");
    assert_eq!(amount(7, 4).to_fixed4_string(), "0.0007");
}

#[test]
fn renders_rounded_half_to_even() {
    assert_eq!(amount(238896245323, 11).to_fixed4_string(), "2.3890");
    assert_eq!(amount(22345652, 7).to_fixed4_string(), "2.2346");
    assert_eq!(amount(5, 5).to_fixed4_string(), "0.0000");
    assert_eq!(amount(15, 5).to_fixed4_string(), "0.0002");
    assert_eq!(amount(25, 5).to_fixed4_string(), "0.0002");
    assert_eq!(amount(-123456, 5).to_fixed4_string(), "-1.2346");
    assert_eq!(amount(-5, 5).to_fixed4_string(), "0.0000");
}

#[test]
fn from_parts_checks_the_range() {
    assert_eq!(Amount::from_parts(1, 29), None);
    assert_eq!(Amount::from_parts(79228162514264337593543950336, 0), None);
    assert_eq!(Amount::from_parts(-79228162514264337593543950336, 0), None);
    assert!(Amount::from_parts(-79228162514264337593543950335, 28).is_some());
}

#[test]
fn addition_is_exact_across_scales() {
    let sum = amount(156787645323, 11).checked_add(amount(234354, 5)).unwrap();
    assert_eq!(sum, amount(391141645323, 11));
    let difference = sum.checked_sub(amount(1522454, 6)).unwrap();
    assert_eq!(difference, amount(238896245323, 11));
}

#[test]
fn arithmetic_out_of_range_is_reported() {
    let max = amount(79228162514264337593543950335, 0);
    assert_eq!(max.checked_add(amount(1, 0)), None);
    assert_eq!(amount(-79228162514264337593543950335, 0).checked_sub(amount(1, 0)), None);
    // Rescaling the larger operand to 28 digits leaves the range.
    assert_eq!(max.checked_add(amount(1, 28)), None);
    assert_eq!(max.checked_sub(max), Some(amount(0, 0)));
}

#[test]
fn comparison_is_by_value() {
    assert!(amount(1, 0).eq_value(&amount(10000, 4)));
    assert!(amount(1, 1).lt(&amount(11, 2)));
    assert!(!amount(11, 2).lt(&amount(1, 1)));
    assert!(amount(-79228162514264337593543950335, 0).lt(&amount(1, 28)));
    assert!(!amount(79228162514264337593543950335, 0).lt(&amount(79228162514264337593543950335, 28)));
    assert!(amount(-1, 28).is_negative());
    assert!(!amount(0, 5).is_negative());
}
