use smes::list::optional_number_from_text;
use smes::checks::{contains_str, is_digits, is_html_with_bspl, is_length_10_or_empty};
use smes::error::TypeConversionError;
use smes::parser::{parse_comma_sep_digit, single_element, str_eq};
use smes::types::Remark;
use smes::SmesError;

#[test]
fn comma_separated_numbers_are_read() {
    assert_eq!(parse_comma_sep_digit("543,858,000").unwrap(), 543858000);
    assert_eq!(parse_comma_sep_digit("  1,000 ").unwrap(), 1000);
    assert_eq!(parse_comma_sep_digit("12").unwrap(), 12);
    assert_eq!(parse_comma_sep_digit("+7").unwrap(), 7);
    assert_eq!(parse_comma_sep_digit(",,5,").unwrap(), 5);
}

#[test]
fn an_empty_or_blank_number_reads_as_zero() {
    assert_eq!(parse_comma_sep_digit("").unwrap(), 0);
    assert_eq!(parse_comma_sep_digit("   ").unwrap(), 0);
    assert_eq!(parse_comma_sep_digit("\u{3000}\t").unwrap(), 0);
}

#[test]
fn a_text_that_is_no_number_is_a_parse_error_without_commas() {
    match parse_comma_sep_digit(" -1,000 ") {
        Err(SmesError::ParseInt(e)) => assert_eq!(e.value, "-1000"),
        other => panic!("unexpected {:?}", other),
    }
    assert!(parse_comma_sep_digit("12a").is_err());
    assert!(parse_comma_sep_digit(",").is_err());
    assert!(parse_comma_sep_digit("+").is_err());
    assert!(parse_comma_sep_digit("99,999,999,999,999,999,999").is_err());
}

#[test]
fn the_largest_number_is_read() {
    let max = usize::MAX.to_string();
    assert_eq!(parse_comma_sep_digit(&max).unwrap(), usize::MAX);
}

#[test]
fn exactly_one_element_is_taken() {
    assert_eq!(single_element(vec![7]).unwrap(), 7);
    match single_element::<u8>(vec![]) {
        Err(SmesError::Invariant(e)) => assert_eq!(e.message, "Expected at least one element"),
        other => panic!("unexpected {:?}", other),
    }
    match single_element(vec![1, 2]) {
        Err(SmesError::HtmlParse(e)) => assert_eq!(e.message, "Only single element was expected"),
        other => panic!("unexpected {:?}", other),
    }
}

#[test]
fn digits_are_ascii_digits_only() {
    assert!(is_digits("0123456789"));
    assert!(is_digits(""));
    assert!(!is_digits("12a"));
    assert!(!is_digits("١٢"));
}

#[test]
fn length_ten_is_counted_in_bytes() {
    assert!(is_length_10_or_empty(""));
    assert!(is_length_10_or_empty("1234567890"));
    assert!(!is_length_10_or_empty("123456789"));
    assert!(is_length_10_or_empty("가나다a"));
}

#[test]
fn balance_sheet_pages_mention_current_assets() {
    assert!(is_html_with_bspl("<td>Ⅰ. 유동자산</td>"));
    assert!(!is_html_with_bspl("<td>비유동</td>"));
    assert!(contains_str("abcabd", "abd"));
    assert!(!contains_str("ab", "abc"));
    assert!(contains_str("ab", ""));
}

#[test]
fn string_equality_is_by_characters() {
    assert!(str_eq("SUCCESS", "SUCCESS"));
    assert!(!str_eq("SUCCESS", "SUCCES"));
    assert!(!str_eq("a", "b"));
}

#[test]
fn a_type_conversion_error_keeps_its_source() {
    let e = TypeConversionError::new("bad".to_string());
    assert_eq!(e.source, Some("bad".to_string()));
    assert_eq!(e.message, "Conversion between types failed");
}

#[test]
fn a_remark_keeps_its_text() {
    assert_eq!(Remark::new("비고").into_inner(), "비고");
    assert_eq!(Remark::new("").into_inner(), "");
}

#[test]
fn commas_do_not_change_the_number() {
    assert_eq!(
        parse_comma_sep_digit("1,2,3").unwrap(),
        parse_comma_sep_digit("123").unwrap()
    );
    // Nothing but commas is no number, while the empty text reads as zero.
    assert!(parse_comma_sep_digit(",,").is_err());
    assert_eq!(parse_comma_sep_digit("").unwrap(), 0);
}

#[test]
fn numbers_sent_as_text_are_read() {
    assert_eq!(optional_number_from_text("").unwrap(), None);
    assert_eq!(optional_number_from_text("10").unwrap(), Some(10));
    assert_eq!(optional_number_from_text("+3").unwrap(), Some(3));
    assert_eq!(optional_number_from_text(" 3").unwrap_err().value, " 3");
    assert!(optional_number_from_text("1,000").is_err());
}

#[test]
fn a_type_conversion_error_displays_its_message() {
    let e = TypeConversionError::new("bad".to_string());
    assert_eq!(e.to_string(), "Type conversion error: Conversion between types failed");
}
