use vikar::text::{decimal_string, unsigned_decimal_string};

#[test]
fn decimals() {
    assert_eq!(decimal_string(0), "0");
    assert_eq!(decimal_string(-1), "-1");
    assert_eq!(decimal_string(1234567890), "1234567890");
    assert_eq!(decimal_string(i64::MIN), "-9223372036854775808");
    assert_eq!(unsigned_decimal_string(u64::MAX), "18446744073709551615");
}
