use rudderanalytics::text::{decimal_string, str_eq};
use rudderanalytics::value::{Object, Value};

fn text(s: &str) -> Value {
    Value::String(s.to_string())
}

#[test]
fn new_object_is_empty() {
    let object = Object::new();
    assert_eq!(object.len(), 0);
    assert_eq!(object.entry(0), None);
    assert!(!object.contains_key("a"));
    assert_eq!(object.get("a"), None);
}

#[test]
fn insert_appends_a_new_key_and_replaces_an_old_one_in_place() {
    let mut object = Object::new();
    object.insert("a".to_string(), Value::Number(1));
    object.insert("b".to_string(), Value::Number(2));
    object.insert("c".to_string(), Value::Number(3));
    assert_eq!(object.len(), 3);
    object.insert("b".to_string(), text("two"));
    assert_eq!(object.len(), 3);
    assert_eq!(object.entry(0), Some((&"a".to_string(), &Value::Number(1))));
    assert_eq!(object.entry(1), Some((&"b".to_string(), &text("two"))));
    assert_eq!(object.entry(2), Some((&"c".to_string(), &Value::Number(3))));
    assert_eq!(object.entry(3), None);
    assert_eq!(object.get("b"), Some(&text("two")));
    assert_eq!(object.get("d"), None);
    assert!(object.contains_key("c"));
    assert!(!object.contains_key("C"));
    assert!(!object.contains_key(""));
}

#[test]
fn from_entries_keeps_the_first_place_and_the_last_value_of_a_key() {
    let object = Object::from_entries(vec![
        ("a".to_string(), Value::Number(1)),
        ("b".to_string(), Value::Number(2)),
        ("a".to_string(), Value::Number(3)),
        ("".to_string(), Value::Null),
    ]);
    assert_eq!(object.len(), 3);
    assert_eq!(object.entry(0), Some((&"a".to_string(), &Value::Number(3))));
    assert_eq!(object.entry(1), Some((&"b".to_string(), &Value::Number(2))));
    assert_eq!(object.entry(2), Some((&"".to_string(), &Value::Null)));
    assert_eq!(Object::from_entries(vec![]), Object::new());
}

#[test]
fn clone_copies_the_whole_tree() {
    let mut inner = Object::new();
    inner.insert("k".to_string(), Value::Array(vec![Value::Bool(true), Value::Null]));
    let mut outer = Object::new();
    outer.insert("inner".to_string(), Value::Object(inner));
    outer.insert("n".to_string(), Value::Number(i64::MIN));
    outer.insert("s".to_string(), text("héllo"));
    let value = Value::Array(vec![Value::Object(outer), Value::Number(i64::MAX)]);
    let copy = value.clone();
    assert_eq!(copy, value);
    if let Value::Array(items) = &copy {
        if let Value::Object(object) = &items[0] {
            assert_eq!(object.clone(), *object);
            assert_eq!(object.len(), 3);
        } else {
            panic!("an object was cloned into something else");
        }
    } else {
        panic!("an array was cloned into something else");
    }
}

#[test]
fn strings_are_equal_when_their_characters_are() {
    assert!(str_eq("", ""));
    assert!(str_eq("library", "library"));
    assert!(!str_eq("library", "librarY"));
    assert!(!str_eq("library", "librar"));
    assert!(!str_eq("a", ""));
    assert!(str_eq("né", "né"));
    assert!(!str_eq("né", "ne"));
}

#[test]
fn numbers_are_written_in_base_ten() {
    assert_eq!(decimal_string(0), "0");
    assert_eq!(decimal_string(7), "7");
    assert_eq!(decimal_string(10), "10");
    assert_eq!(decimal_string(200), "200");
    assert_eq!(decimal_string(404), "404");
    assert_eq!(decimal_string(1009), "1009");
    assert_eq!(decimal_string(65535), "65535");
}
