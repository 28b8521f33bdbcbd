use raxtest::text::{decimal_text, join, signed_text};
use raxtest::{JsonNumber, JsonObject, JsonValue, RunError, Table};

#[test]
fn table_keeps_insertion_order_and_replaces_in_place() {
    let mut table: Table<u32> = Table::new();
    assert_eq!(table.len(), 0);
    assert_eq!(table.insert("b".to_string(), 1), None);
    assert_eq!(table.insert("a".to_string(), 2), None);
    assert_eq!(table.insert("b".to_string(), 3), Some(1));
    assert_eq!(table.len(), 2);
    assert_eq!(table.key_at(0), "b");
    assert_eq!(table.key_at(1), "a");
    assert_eq!(*table.value_at(0), 3);
    assert_eq!(*table.value_at(1), 2);
    assert_eq!(table.get("a"), Some(&2));
    assert_eq!(table.get("b"), Some(&3));
    assert_eq!(table.get("c"), None);
    assert_eq!(table.position("a"), Some(1));
    assert_eq!(table.position(""), None);
    assert!(table.contains_key("a"));
    assert!(!table.contains_key("A"));
}

#[test]
fn decimal_forms_are_canonical() {
    assert_eq!(decimal_text(0), "0");
    assert_eq!(decimal_text(7), "7");
    assert_eq!(decimal_text(10), "10");
    assert_eq!(decimal_text(1905), "1905");
    assert_eq!(decimal_text(u64::MAX), "18446744073709551615");
    assert_eq!(signed_text(0), "0");
    assert_eq!(signed_text(-1), "-1");
    assert_eq!(signed_text(i64::MAX), "9223372036854775807");
    assert_eq!(signed_text(i64::MIN), "-9223372036854775808");
    assert_eq!(join("ab", "cd"), "abcd");
}

#[test]
fn path_text_of_each_kind_of_value() {
    assert_eq!(JsonValue::Text("a b".to_string()).path_text(), "a b");
    assert_eq!(JsonValue::Number(JsonNumber::Unsigned(42)).path_text(), "42");
    assert_eq!(JsonValue::Number(JsonNumber::Signed(-42)).path_text(), "-42");
    assert_eq!(JsonValue::Number(JsonNumber::Real("2.5e3".to_string())).path_text(), "2.5e3");
    assert_eq!(JsonValue::Null.path_text(), "");
    assert_eq!(JsonValue::Bool(false).path_text(), "");
    assert_eq!(JsonValue::Array(vec![JsonValue::Null]).path_text(), "");
    assert_eq!(JsonValue::Object(Table::new()).path_text(), "");
}

#[test]
fn duplicate_copies_a_value_in_depth() {
    let mut inner: JsonObject = Table::new();
    inner.insert("k".to_string(), JsonValue::Text("v".to_string()));
    inner.insert("n".to_string(), JsonValue::Number(JsonNumber::Signed(-3)));
    let value = JsonValue::Array(vec![
        JsonValue::Object(inner),
        JsonValue::Bool(true),
        JsonValue::Array(vec![JsonValue::Null]),
    ]);
    let copy = value.duplicate();
    assert_eq!(format!("{:?}", copy), format!("{:?}", value));
    match copy {
        JsonValue::Array(items) => {
            assert_eq!(items.len(), 3);
            match &items[0] {
                JsonValue::Object(members) => {
                    assert_eq!(members.len(), 2);
                    assert_eq!(members.key_at(0), "k");
                    assert_eq!(members.key_at(1), "n");
                },
                other => panic!("unexpected: {:?}", other),
            }
        },
        other => panic!("unexpected: {:?}", other),
    }
}

#[test]
fn each_error_has_its_line() {
    assert_eq!(RunError::Config.message(), "Invalid data file path");
    assert_eq!(
        RunError::DataReference { key: "u1".to_string() }.message(),
        "Invalid data reference: u1"
    );
    assert_eq!(
        RunError::Template { token: "id".to_string() }.message(),
        "No query value for placeholder: id"
    );
    assert_eq!(RunError::Network.message(), "Request failed");
    assert_eq!(RunError::Auth { category: "users".to_string() }.message(), "Cookie Not found: users");
}
