use user_crud::document::{str_eq, value_eq, Document, Value};
use user_crud::user_model::User;

#[test]
fn set_and_get_round_trip() {
    let mut d = Document::new();
    d.set("name", Value::Str("Ann".to_string()));
    d.set("age", Value::Int(3));
    match d.get("name") {
        Some(Value::Str(s)) => assert_eq!(s, "Ann"),
        other => panic!("unexpected field value {:?}", other),
    }
    match d.get("age") {
        Some(Value::Int(n)) => assert_eq!(*n, 3),
        other => panic!("unexpected field value {:?}", other),
    }
    assert!(d.get("missing").is_none());
    assert_eq!(d.len(), 2);
}

#[test]
fn set_replaces_an_existing_field() {
    let mut d = Document::new();
    d.set("k", Value::Int(1));
    d.set("k", Value::Int(2));
    assert_eq!(d.len(), 1);
    match d.get("k") {
        Some(Value::Int(n)) => assert_eq!(*n, 2),
        other => panic!("unexpected field value {:?}", other),
    }
}

#[test]
fn merge_prefers_patch_fields() {
    let mut d = Document::new();
    d.set("a", Value::Int(1));
    d.set("b", Value::Int(2));
    let mut patch = Document::new();
    patch.set("b", Value::Int(20));
    patch.set("c", Value::Int(30));
    d.merge(&patch);
    assert_eq!(d.len(), 3);
    assert!(matches!(d.get("a"), Some(Value::Int(1))));
    assert!(matches!(d.get("b"), Some(Value::Int(20))));
    assert!(matches!(d.get("c"), Some(Value::Int(30))));
}

#[test]
fn matches_checks_field_equality() {
    let mut d = Document::new();
    d.set("x", Value::Str("v".to_string()));
    d.set("y", Value::Bool(true));

    let empty = Document::new();
    assert!(d.matches(&empty));

    let mut good = Document::new();
    good.set("x", Value::Str("v".to_string()));
    assert!(d.matches(&good));

    let mut wrong_value = Document::new();
    wrong_value.set("x", Value::Str("w".to_string()));
    assert!(!d.matches(&wrong_value));

    let mut absent = Document::new();
    absent.set("z", Value::Null);
    assert!(!d.matches(&absent));
}

#[test]
fn value_and_string_equality() {
    assert!(value_eq(&Value::Null, &Value::Null));
    assert!(value_eq(&Value::Int(4), &Value::Int(4)));
    assert!(!value_eq(&Value::Int(4), &Value::Int(5)));
    assert!(!value_eq(&Value::Int(1), &Value::Bool(true)));
    assert!(value_eq(
        &Value::Str("ab".to_string()),
        &Value::Str("ab".to_string())
    ));
    assert!(!value_eq(
        &Value::Str("ab".to_string()),
        &Value::Str("ba".to_string())
    ));
    assert!(str_eq("abc", "abc"));
    assert!(!str_eq("abc", "abd"));
    assert!(!str_eq("abc", "ab"));
}

#[test]
fn user_document_codec_round_trips() {
    let user = User::new("Zoe".to_string(), "z@x.com".to_string(), Some(9), 77);
    let doc = user.to_document();
    let id = user_crud::object_id::ObjectId::parse_str("0000000000000000000000ff").unwrap();
    let decoded = user_crud::user_model::User::from_document(id, &doc).expect("should decode");
    assert_eq!(decoded.name, "Zoe");
    assert_eq!(decoded.email, "z@x.com");
    assert_eq!(decoded.age, Some(9));
    assert_eq!(decoded.created_at, 77);
    assert_eq!(decoded.updated_at, 77);
    assert_eq!(decoded.status, 1);
    assert_eq!(decoded.id, Some(id));
}

#[test]
fn malformed_user_document_fails_to_decode() {
    let mut doc = Document::new();
    doc.set("name", Value::Int(1));
    doc.set("email", Value::Str("e@x.com".to_string()));
    doc.set("created_at", Value::Int(0));
    doc.set("updated_at", Value::Int(0));
    let id = user_crud::object_id::ObjectId::parse_str("000000000000000000000001").unwrap();
    assert!(user_crud::user_model::User::from_document(id, &doc).is_err());
}
