use file_gateway::streams::{ContentLength, ContentLengthError};

fn values(strs: &[&str]) -> Vec<String> {
    strs.iter().map(|s| s.to_string()).collect()
}

#[test]
fn zero_headers_are_missing() {
    let r = ContentLength::from_header_values(&values(&[]));
    assert_eq!(r, Err(ContentLengthError::Missing));
}

#[test]
fn two_headers_are_a_bad_count() {
    let r = ContentLength::from_header_values(&values(&["10", "10"]));
    assert_eq!(r, Err(ContentLengthError::BadCount));
}

#[test]
fn non_numeric_value_is_invalid() {
    let r = ContentLength::from_header_values(&values(&["ten"]));
    assert_eq!(r, Err(ContentLengthError::Invalid));
}

#[test]
fn negative_value_is_invalid() {
    let r = ContentLength::from_header_values(&values(&["-5"]));
    assert_eq!(r, Err(ContentLengthError::Invalid));
}

#[test]
fn minus_signed_zero_denotes_zero() {
    let r = ContentLength::from_header_values(&values(&["-0"]));
    assert_eq!(r, Ok(ContentLength(0)));
}

#[test]
fn minus_signed_zeroes_denote_zero() {
    let r = ContentLength::from_header_values(&values(&["-00"]));
    assert_eq!(r, Ok(ContentLength(0)));
}

#[test]
fn lone_minus_sign_is_invalid() {
    let r = ContentLength::from_header_values(&values(&["-"]));
    assert_eq!(r, Err(ContentLengthError::Invalid));
}

#[test]
fn empty_value_is_invalid() {
    let r = ContentLength::from_header_values(&values(&[""]));
    assert_eq!(r, Err(ContentLengthError::Invalid));
}

#[test]
fn lone_plus_sign_is_invalid() {
    let r = ContentLength::from_header_values(&values(&["+"]));
    assert_eq!(r, Err(ContentLengthError::Invalid));
}

#[test]
fn oversized_value_is_invalid() {
    let r = ContentLength::from_header_values(&values(&["99999999999999999999999"]));
    assert_eq!(r, Err(ContentLengthError::Invalid));
}

#[test]
fn single_numeric_value_succeeds() {
    let r = ContentLength::from_header_values(&values(&["10000"]));
    assert_eq!(r, Ok(ContentLength(10000)));
}

#[test]
fn zero_length_is_a_valid_declaration() {
    let r = ContentLength::from_header_values(&values(&["0"]));
    assert_eq!(r, Ok(ContentLength(0)));
}

#[test]
fn plus_sign_and_leading_zeroes_parse() {
    let r = ContentLength::from_header_values(&values(&["+007"]));
    assert_eq!(r, Ok(ContentLength(7)));
}

#[test]
fn largest_declarable_length_parses() {
    let r = ContentLength::from_header_values(&values(&["9223372036854775807"]));
    assert_eq!(r, Ok(ContentLength(i64::MAX)));
}

#[test]
fn just_past_the_largest_length_is_invalid() {
    let r = ContentLength::from_header_values(&values(&["9223372036854775808"]));
    assert_eq!(r, Err(ContentLengthError::Invalid));
}
