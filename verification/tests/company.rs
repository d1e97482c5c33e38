use smes::types::{BusinessRegistrationNumber, IndustryCode, SmesId, StockCode};
use smes::TypeError;

#[test]
fn company_id_should_be_seven_digits() {
    assert!(SmesId::try_from("1234567").is_ok());
    assert!(SmesId::try_from("12345678").is_err());
    assert!(SmesId::try_new("1234567").is_ok());
    assert!(SmesId::try_new("123456a").is_err())
}

#[test]
fn business_registration_number_should_be_ten_digits() {
    assert!(BusinessRegistrationNumber::try_from("1234567890").is_ok());
    assert!(BusinessRegistrationNumber::try_from("123456789").is_err());
    assert!(BusinessRegistrationNumber::try_new("1234567890").is_ok());
    assert!(BusinessRegistrationNumber::try_new("123456789").is_err());
}

#[test]
fn business_registration_number_should_allow_empty_string() {
    assert!(BusinessRegistrationNumber::try_from("").is_ok());
    assert!(BusinessRegistrationNumber::try_new("").is_ok());
}

#[test]
fn empty_smes_id_is_refused_with_its_message() {
    match SmesId::try_new("") {
        Err(TypeError::Validation(e)) => {
            assert_eq!(e.value, "");
            assert_eq!(e.message, "Empty value is not allowed for SmesId");
        }
        other => panic!("unexpected {:?}", other),
    }
}

#[test]
fn wrong_width_is_refused_with_its_message() {
    match IndustryCode::try_new("1234") {
        Err(TypeError::Validation(e)) => {
            assert_eq!(e.value, "1234");
            assert_eq!(e.message, "IndustryCode must be 5 digits");
        }
        other => panic!("unexpected {:?}", other),
    }
}

#[test]
fn non_ascii_digits_are_refused() {
    // Full-width digits are digits, but not ASCII ones.
    assert!(StockCode::try_new("１２３４５６").is_err());
    assert_eq!(StockCode::try_new("005930").unwrap().into_inner(), "005930");
}
