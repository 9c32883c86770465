use zecwallet_cli::number::{decimal_string, IntErrorKind};

#[test]
fn decimal_strings() {
    assert_eq!(decimal_string(0), "0");
    assert_eq!(decimal_string(7), "7");
    assert_eq!(decimal_string(9068), "9068");
    assert_eq!(decimal_string(u64::MAX), "18446744073709551615");
}

#[test]
fn int_error_messages_match_std() {
    assert_eq!(IntErrorKind::Empty.message(), "".parse::<u64>().unwrap_err().to_string());
    assert_eq!(IntErrorKind::InvalidDigit.message(), "x".parse::<u64>().unwrap_err().to_string());
    assert_eq!(
        IntErrorKind::PosOverflow.message(),
        "99999999999999999999".parse::<u64>().unwrap_err().to_string()
    );
}
