use agromate::attribute::{AttrValue, Field, Row, RowError};
use agromate::text::{joined, same_text};

fn s(text: &str) -> AttrValue {
    AttrValue::S(text.to_string())
}

fn n(text: &str) -> AttrValue {
    AttrValue::N(text.to_string())
}

#[test]
fn accessors_check_the_tag() {
    assert_eq!(s("a").as_s(), Ok("a"));
    assert_eq!(s("1").as_n(), Err(RowError::TypeMismatch));
    assert_eq!(s("true").as_bool(), Err(RowError::TypeMismatch));
    assert_eq!(n("1").as_n(), Ok("1"));
    assert_eq!(n("1").as_s(), Err(RowError::TypeMismatch));
    assert_eq!(n("1").as_bool(), Err(RowError::TypeMismatch));
    assert_eq!(AttrValue::Bool(true).as_bool(), Ok(true));
    assert_eq!(AttrValue::Bool(false).as_bool(), Ok(false));
    assert_eq!(AttrValue::Bool(true).as_s(), Err(RowError::TypeMismatch));
    assert_eq!(AttrValue::Bool(true).as_n(), Err(RowError::TypeMismatch));
    assert_eq!(AttrValue::Other.as_s(), Err(RowError::TypeMismatch));
    assert_eq!(AttrValue::Other.as_n(), Err(RowError::TypeMismatch));
    assert_eq!(AttrValue::Other.as_bool(), Err(RowError::TypeMismatch));
}

#[test]
fn values_are_compared_by_tag_and_content() {
    assert!(AttrValue::Bool(true).is_bool(true));
    assert!(!AttrValue::Bool(true).is_bool(false));
    assert!(AttrValue::Bool(false).is_bool(false));
    assert!(!s("true").is_bool(true));
    assert!(!AttrValue::Other.is_bool(false));
    assert!(n("3").is_number("3"));
    assert!(!n("3").is_number("03"));
    assert!(!s("3").is_number("3"));
    assert!(!AttrValue::Other.is_number(""));
    assert_eq!(s("x").clone(), s("x"));
    assert_eq!(AttrValue::Other.clone(), AttrValue::Other);
}

#[test]
fn rows_hold_each_name_once() {
    let row = Row::new().item("a", s("1")).item("b", n("2")).item("a", AttrValue::Bool(true));
    assert_eq!(row.len(), 2);
    assert_eq!(
        row.fields,
        vec![
            Field { name: "a".to_string(), value: AttrValue::Bool(true) },
            Field { name: "b".to_string(), value: n("2") },
        ]
    );
    assert_eq!(row.get("a"), Some(&AttrValue::Bool(true)));
    assert_eq!(row.get("b"), Some(&n("2")));
    assert_eq!(row.get("c"), None);
    assert_eq!(row.get(""), None);
    assert_eq!(Row::new().len(), 0);
    assert_eq!(Row::new().get("a"), None);
    assert_eq!(row.clone(), row);
}

#[test]
fn lookup_finds_the_first_field_of_a_name() {
    let row = Row {
        fields: vec![
            Field { name: "a".to_string(), value: s("first") },
            Field { name: "a".to_string(), value: s("second") },
        ],
    };
    assert_eq!(row.get("a"), Some(&s("first")));
    let row = row.item("a", s("third"));
    assert_eq!(row.fields[0].value, s("third"));
    assert_eq!(row.fields[1].value, s("second"));
}

#[test]
fn row_accessors_tell_missing_from_mismatched() {
    let row = Row::new().item("name", s("fern")).item("count", n("3")).item("on", AttrValue::Bool(true));
    assert_eq!(row.text("name"), Ok("fern"));
    assert_eq!(row.text("count"), Err(RowError::TypeMismatch));
    assert_eq!(row.text("none"), Err(RowError::MissingField));
    assert_eq!(row.number("count"), Ok("3"));
    assert_eq!(row.number("name"), Err(RowError::TypeMismatch));
    assert_eq!(row.number("none"), Err(RowError::MissingField));
    assert_eq!(row.flag("on"), Ok(true));
    assert_eq!(row.flag("name"), Err(RowError::TypeMismatch));
    assert_eq!(row.flag("none"), Err(RowError::MissingField));
}

#[test]
fn text_helpers() {
    assert_eq!(joined("sensor/", "a1"), "sensor/a1");
    assert_eq!(joined("", ""), "");
    assert!(same_text("GET", "GET"));
    assert!(!same_text("GET", "get"));
    assert!(!same_text("GET", "GET "));
    assert!(same_text("umidità", "umidità"));
}
