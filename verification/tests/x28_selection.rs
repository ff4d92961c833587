use std::str::FromStr;

use xotpad::x121::X121Addr;
use xotpad::x28::{X28Addr, X28Selection};

#[test]
fn from_str() {
    assert_from_str(
        "R,Ncisc-.abcPD,12345,.info*cud",
        &[
            abbrev_addr("abcPD"),
            full_addr("12345"),
            abbrev_addr("info"),
        ],
        &[('R', ""), ('N', "cisc")],
        "cud",
    );

    assert_from_str("12345", &[full_addr("12345")], &[], "");

    assert_from_str("-12345", &[full_addr("12345")], &[], "");
    assert_from_str("R-12345", &[full_addr("12345")], &[('R', "")], "");
    assert_from_str("Ncisc-12345", &[full_addr("12345")], &[('N', "cisc")], "");
    assert_from_str(
        "R,Ncisc-12345",
        &[full_addr("12345")],
        &[('R', ""), ('N', "cisc")],
        "",
    );

    assert_from_str("12345*cud", &[full_addr("12345")], &[], "cud");
    assert_from_str("12345Pcud", &[full_addr("12345")], &[], "cud");
    assert_from_str("12345Dcud", &[full_addr("12345")], &[], "cud");

    assert_from_str(".abcPD", &[abbrev_addr("abcPD")], &[], "");
    assert_from_str(".999", &[abbrev_addr("999")], &[], "");

    assert_from_str(".abcPD*cud", &[abbrev_addr("abcPD")], &[], "cud");
    assert_from_str(".999*cud", &[abbrev_addr("999")], &[], "cud");

    assert_from_str(
        "12345,6789",
        &[full_addr("12345"), full_addr("6789")],
        &[],
        "",
    );
    assert_from_str(
        "12345,6789*cud",
        &[full_addr("12345"), full_addr("6789")],
        &[],
        "cud",
    );
    assert_from_str(
        "12345,6789Pcud",
        &[full_addr("12345"), full_addr("6789")],
        &[],
        "cud",
    );
    assert_from_str(
        "12345,6789Dcud",
        &[full_addr("12345"), full_addr("6789")],
        &[],
        "cud",
    );
    assert_from_str(
        "12345,.abcPD",
        &[full_addr("12345"), abbrev_addr("abcPD")],
        &[],
        "",
    );
    assert_from_str(
        "12345,.abcPD,.9",
        &[full_addr("12345"), abbrev_addr("abcPD"), abbrev_addr("9")],
        &[],
        "",
    );
    assert_from_str(
        "12345,.abcPD,.9*cud",
        &[full_addr("12345"), abbrev_addr("abcPD"), abbrev_addr("9")],
        &[],
        "cud",
    );

    assert_from_str("-.1-2-3.com", &[abbrev_addr("1-2-3.com")], &[], "");
    assert_from_str(
        "R-.1-2-3.com",
        &[abbrev_addr("1-2-3.com")],
        &[('R', "")],
        "",
    );
}

#[test]
fn selection_from_str_invalid() {
    assert!(X28Selection::from_str("").is_err());
    assert!(X28Selection::from_str("-").is_err());
    assert!(X28Selection::from_str("*").is_err());
    assert!(X28Selection::from_str("-*").is_err());

    assert!(X28Selection::from_str("test").is_err());
}

#[test]
fn selection_errors_name_what_is_wrong() {
    assert_eq!(
        X28Selection::from_str(""),
        Err("empty selection".to_string())
    );
    assert_eq!(
        X28Selection::from_str("-"),
        Err("at least one address is required".to_string())
    );
    assert!(X28Selection::from_str("1234567890123456").is_err());
    assert!(X28Selection::from_str("123456789012345").is_ok());
}

#[test]
fn selection_takes_facilities_by_character() {
    assert_from_str(
        "\u{e9}x,,R-1",
        &[full_addr("1")],
        &[('\u{e9}', "x"), ('R', "")],
        "",
    );
    assert_from_str("1,,2*", &[full_addr("1"), full_addr("2")], &[], "");
}

#[test]
fn selection_letters_end_no_address_behind_an_abbreviated_one() {
    assert_from_str("1Pa", &[full_addr("1")], &[], "a");
    assert_from_str(".a,.bPD*x", &[abbrev_addr("a"), abbrev_addr("bPD")], &[], "x");
    // "1P" is read as a full address here, and is none.
    assert!(X28Selection::from_str(".a,1P").is_err());
}

fn assert_from_str(
    s: &str,
    expected_addrs: &[X28Addr],
    expected_facilities: &[(char, &str)],
    expected_call_user_data: &str,
) {
    let Ok(selection) = X28Selection::from_str(s) else {
        panic!();
    };

    assert_eq!(selection.addrs, expected_addrs);

    let expected_facilities = expected_facilities
        .iter()
        .map(|&(f, v)| (f, v.to_string()))
        .collect::<Vec<_>>();

    assert_eq!(selection.facilities, expected_facilities);
    assert_eq!(selection.call_user_data, expected_call_user_data);
}

fn full_addr(s: &str) -> X28Addr {
    X28Addr::Full(X121Addr::from_str(s).unwrap())
}

fn abbrev_addr(s: &str) -> X28Addr {
    X28Addr::Abbrev(s.to_string())
}
