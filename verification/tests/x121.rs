use std::str::FromStr;

use xotpad::x121::X121Addr;

#[test]
fn x121_null_has_no_digits() {
    let addr = X121Addr::null();
    assert!(addr.is_null());
    assert_eq!(addr.len(), 0);
    assert_eq!(addr.to_text(), "");
    assert_eq!(X121Addr::from_str("").unwrap(), addr);
}

#[test]
fn x121_reads_up_to_fifteen_digits() {
    let addr = X121Addr::from_str("737411").unwrap();
    assert!(!addr.is_null());
    assert_eq!(addr.len(), 6);
    assert_eq!(addr.digit(0), 7);
    assert_eq!(addr.digit(5), 1);
    assert_eq!(addr.to_text(), "737411");
    assert!(X121Addr::from_str("123456789012345").is_ok());
    assert!(X121Addr::from_str("1234567890123456").is_err());
    assert!(X121Addr::from_str("12a").is_err());
    assert!(X121Addr::from_str("+12").is_err());
    assert!(X121Addr::from_str("\u{661}\u{662}").is_err());
}

#[test]
fn x121_from_digits_wants_values_up_to_nine() {
    assert_eq!(
        X121Addr::from_digits(&[0, 9, 5]).unwrap().to_text(),
        "095"
    );
    assert!(X121Addr::from_digits(&[10]).is_none());
    assert!(X121Addr::from_digits(&[1; 16]).is_none());
    assert!(X121Addr::from_digits(&[1; 15]).is_some());
    assert_eq!(X121Addr::from_digits(&[]).unwrap(), X121Addr::null());
}

#[test]
fn x121_clone_is_equal() {
    let addr = X121Addr::from_str("0123").unwrap();
    assert_eq!(addr.clone(), addr);
}
