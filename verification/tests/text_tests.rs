use incremental_build::text::usize_to_decimal;

#[test]
fn decimal_of_zero() {
    assert_eq!(usize_to_decimal(0), "0");
}

#[test]
fn decimal_of_multi_digit_numbers() {
    assert_eq!(usize_to_decimal(7), "7");
    assert_eq!(usize_to_decimal(10), "10");
    assert_eq!(usize_to_decimal(1234), "1234");
    assert_eq!(usize_to_decimal(90001), "90001");
}
