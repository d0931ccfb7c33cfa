//! Typed leaf extraction and the decimal helpers.

use confluence::rpser::xml::{Element, XMLNode, Error};
use confluence::num::{parse_i64, parse_i32, i64_to_string, i32_to_string, NumError};
use confluence::datetime::parse_datetime;

fn typed_leaf(name: &str, ty: &str, text: &str) -> XMLNode {
    XMLNode::Element(Element::node(name).with_attr("type", ty).with_text(text))
}

#[test]
fn long_leaf_extracts_its_value() {
    let leaf = typed_leaf("id", "xsd:long", "42");
    assert_eq!(leaf.as_long().unwrap(), 42);
}

#[test]
fn long_leaf_fed_to_as_int_is_a_type_mismatch_not_a_parse_error() {
    let leaf = typed_leaf("id", "xsd:long", "42");
    let err = leaf.as_int().unwrap_err();
    assert_eq!(
        err,
        Error::ExpectedElementWithType {
            name: "id".to_string(),
            expected_type: "*:int".to_string(),
            given: Some("xsd:long".to_string()),
        }
    );
}

#[test]
fn boolean_is_lenient_anything_but_true_is_false() {
    let maybe = typed_leaf("flag", "xsd:boolean", "maybe");
    assert_eq!(maybe.as_boolean().unwrap(), false);
    let yes = typed_leaf("flag", "xsd:boolean", "true");
    assert_eq!(yes.as_boolean().unwrap(), true);
    let capital = typed_leaf("flag", "xsd:boolean", "True");
    assert_eq!(capital.as_boolean().unwrap(), false);
}

#[test]
fn missing_type_attribute_is_reported_with_none() {
    let leaf = XMLNode::Element(Element::node("id").with_text("42"));
    let err = leaf.as_long().unwrap_err();
    assert_eq!(
        err,
        Error::ExpectedElementWithType {
            name: "id".to_string(),
            expected_type: "*:long".to_string(),
            given: None,
        }
    );
}

#[test]
fn unparsable_number_is_a_parse_error_with_the_element_name() {
    let leaf = typed_leaf("id", "xsd:long", "4x2");
    let err = leaf.as_long().unwrap_err();
    assert_eq!(
        err,
        Error::ParseIntError { name: "id".to_string(), inner: NumError::InvalidDigit }
    );
}

#[test]
fn raw_text_node_is_refused_by_extractors() {
    let node = XMLNode::Text("loose".to_string());
    assert!(matches!(node.as_long(), Err(Error::ExpectedElement { .. })));
    assert!(matches!(node.as_string(), Err(Error::ExpectedElement { .. })));
}

#[test]
fn string_leaf_extracts_its_text() {
    let leaf = typed_leaf("title", "xsd:string", "Hi");
    assert_eq!(leaf.as_string().unwrap(), "Hi");
}

#[test]
fn datetime_leaf_matches_the_underlying_parser() {
    let text = "2015-09-10T16:34:00Z";
    let leaf = typed_leaf("created", "xsd:dateTime", text);
    let got = leaf.as_datetime().unwrap();
    let expected = chrono::DateTime::parse_from_rfc3339(text).unwrap();
    assert_eq!(got.seconds, expected.timestamp());
    assert_eq!(got.nanos, expected.timestamp_subsec_nanos());
}

#[test]
fn bad_datetime_is_a_datetime_parse_error() {
    let leaf = typed_leaf("created", "xsd:dateTime", "yesterday");
    assert!(matches!(
        leaf.as_datetime(),
        Err(Error::ParseDateTimeError { .. })
    ));
}

#[test]
fn parse_datetime_rejects_what_chrono_rejects() {
    assert!(parse_datetime("2015-09-10T16:34:00Z").is_ok());
    assert!(parse_datetime("not a date").is_err());
}

#[test]
fn decimal_parse_exact_values() {
    assert_eq!(parse_i64("42"), Ok(42));
    assert_eq!(parse_i64("-42"), Ok(-42));
    assert_eq!(parse_i64("+7"), Ok(7));
    assert_eq!(parse_i64("007"), Ok(7));
    assert_eq!(parse_i64("0"), Ok(0));
    assert_eq!(parse_i64("9223372036854775807"), Ok(i64::MAX));
    assert_eq!(parse_i64("-9223372036854775808"), Ok(i64::MIN));
}

#[test]
fn decimal_parse_error_variants() {
    assert_eq!(parse_i64(""), Err(NumError::Empty));
    assert_eq!(parse_i64("+"), Err(NumError::InvalidDigit));
    assert_eq!(parse_i64("-"), Err(NumError::InvalidDigit));
    assert_eq!(parse_i64("4x2"), Err(NumError::InvalidDigit));
    assert_eq!(parse_i64("9223372036854775808"), Err(NumError::Overflow));
    assert_eq!(parse_i64("-9223372036854775809"), Err(NumError::Overflow));
    assert_eq!(parse_i64("99999999999999999999999"), Err(NumError::Overflow));
    assert_eq!(parse_i32("2147483648"), Err(NumError::Overflow));
    assert_eq!(parse_i32("2147483647"), Ok(i32::MAX));
    assert_eq!(parse_i32("-2147483648"), Ok(i32::MIN));
}

#[test]
fn decimal_render_exact_values() {
    assert_eq!(i64_to_string(0), "0");
    assert_eq!(i64_to_string(42), "42");
    assert_eq!(i64_to_string(-42), "-42");
    assert_eq!(i64_to_string(i64::MAX), "9223372036854775807");
    assert_eq!(i64_to_string(i64::MIN), "-9223372036854775808");
    assert_eq!(i32_to_string(-7), "-7");
}

#[test]
fn decimal_round_trip() {
    for n in [0i64, 1, -1, 99, -100, 123456789, i64::MAX, i64::MIN] {
        assert_eq!(parse_i64(&i64_to_string(n)), Ok(n));
    }
}
