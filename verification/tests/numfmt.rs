use sheet_records::numfmt::{i64_to_dec_string, u64_to_dec_string};

#[test]
fn unsigned_formatting() {
    assert_eq!(u64_to_dec_string(0), "0".to_string());
    assert_eq!(u64_to_dec_string(7), "7".to_string());
    assert_eq!(u64_to_dec_string(10), "10".to_string());
    assert_eq!(u64_to_dec_string(90210), "90210".to_string());
    assert_eq!(
        u64_to_dec_string(u64::MAX),
        "18446744073709551615".to_string()
    );
}

#[test]
fn signed_formatting() {
    assert_eq!(i64_to_dec_string(0), "0".to_string());
    assert_eq!(i64_to_dec_string(99), "99".to_string());
    assert_eq!(i64_to_dec_string(-1), "-1".to_string());
    assert_eq!(i64_to_dec_string(-42), "-42".to_string());
    assert_eq!(
        i64_to_dec_string(i64::MAX),
        "9223372036854775807".to_string()
    );
    assert_eq!(
        i64_to_dec_string(i64::MIN),
        "-9223372036854775808".to_string()
    );
}
