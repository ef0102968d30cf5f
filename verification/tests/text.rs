//! The text helpers behind names, docs and type matching.

use ix_schema::model::{FieldModel, Member};
use ix_schema::text::{decimal_string, parses_to_index};

#[test]
fn decimal_rendering_and_index_parsing() {
    assert_eq!(decimal_string(0), "0");
    assert_eq!(decimal_string(10), "10");
    assert_eq!(decimal_string(18446744073709551615), "18446744073709551615");
    assert!(parses_to_index("0", 0));
    assert!(parses_to_index("+12", 12));
    assert!(parses_to_index("007", 7));
    assert!(!parses_to_index("", 0));
    assert!(!parses_to_index("+", 0));
    assert!(!parses_to_index("-1", 1));
    assert!(!parses_to_index("12", 1));
    assert!(!parses_to_index("x", 0));
    assert!(!parses_to_index("99999999999999999999999", 3));
}

#[test]
fn tuple_positions_are_named_by_index() {
    let f = FieldModel {
        member: Member::Unnamed(12),
        doc: String::new(),
        ty: "u8".to_string(),
        since: 1,
        default: None,
        with: None,
        rename_from: None,
    };
    assert_eq!(f.name_string(), "12");
}
