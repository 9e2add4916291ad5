use tictactoe::text::decimal_string;

#[test]
fn decimal_of_small_numbers() {
    assert_eq!(decimal_string(0), "0");
    assert_eq!(decimal_string(1), "1");
    assert_eq!(decimal_string(7), "7");
    assert_eq!(decimal_string(9), "9");
}

#[test]
fn decimal_of_larger_numbers() {
    assert_eq!(decimal_string(10), "10");
    assert_eq!(decimal_string(42), "42");
    assert_eq!(decimal_string(100), "100");
    assert_eq!(decimal_string(909), "909");
    assert_eq!(decimal_string(123456789), "123456789");
}

#[test]
fn decimal_of_largest_value() {
    assert_eq!(decimal_string(usize::MAX), format!("{}", usize::MAX));
}
