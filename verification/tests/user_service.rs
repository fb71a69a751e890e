use user_crud::document::{Document, Value};
use user_crud::error::ServiceError;
use user_crud::user_service::UserService;

fn id_string(u: &user_crud::user_model::User) -> String {
    u.id.as_ref().expect("entity should carry an identifier").to_hex()
}

#[test]
fn scenario_create_find_update_delete() {
    let mut svc = UserService::new();
    let created = svc
        .create_user("Alice".to_string(), "a@x.com".to_string(), Some(30), 1_000)
        .expect("create should succeed");
    assert!(created.id.is_some());
    let hex = id_string(&created);
    assert!(!hex.is_empty());
    assert_eq!(created.age, Some(30));

    let by_email = svc
        .find_by_email("a@x.com")
        .expect("find_by_email should succeed")
        .expect("the created user should be found by email");
    assert_eq!(by_email, created);

    let updated = svc
        .update_user(&hex, None, None, Some(31), 2_000)
        .expect("update should succeed")
        .expect("the user should exist");
    assert_eq!(updated.age, Some(31));
    assert_eq!(updated.name, "Alice");
    assert_eq!(updated.email, "a@x.com");
    assert!(updated.updated_at > updated.created_at);

    assert!(svc.delete(&hex).expect("delete should succeed"));
    let gone = svc.find_by_id(&hex).expect("find_by_id should succeed");
    assert!(gone.is_none());
}

#[test]
fn round_trip_create_then_find() {
    let mut svc = UserService::new();
    let created = svc
        .create_user("Bob".to_string(), "bob@x.com".to_string(), None, 42)
        .expect("create should succeed");
    assert_eq!(created.created_at, created.updated_at);
    let found = svc
        .find_by_id(&id_string(&created))
        .expect("find_by_id should succeed")
        .expect("the created user should be found");
    assert_eq!(found, created);
}

#[test]
fn merge_patch_changes_only_supplied_fields() {
    let mut svc = UserService::new();
    let created = svc
        .create_user("Carol".to_string(), "carol@x.com".to_string(), Some(20), 10)
        .expect("create should succeed");
    let hex = id_string(&created);
    let updated = svc
        .update_user(&hex, Some("Carola".to_string()), None, None, 20)
        .expect("update should succeed")
        .expect("the user should exist");
    assert_eq!(updated.name, "Carola");
    assert_eq!(updated.email, "carol@x.com");
    assert_eq!(updated.age, Some(20));
    assert_eq!(updated.created_at, 10);
    assert_eq!(updated.updated_at, 20);
    assert_eq!(updated.status, created.status);
}

#[test]
fn idempotent_delete_returns_false_not_error() {
    let mut svc = UserService::new();
    // A well-formed identifier that was never assigned.
    let absent = "0123456789abcdef01234567";
    assert_eq!(svc.delete(absent).expect("delete should not error"), false);

    let created = svc
        .create_user("Dan".to_string(), "dan@x.com".to_string(), None, 5)
        .expect("create should succeed");
    let hex = id_string(&created);
    assert!(svc.delete(&hex).expect("first delete should succeed"));
    assert_eq!(svc.delete(&hex).expect("second delete should not error"), false);
}

#[test]
fn malformed_identifier_is_rejected_everywhere() {
    let mut svc = UserService::new();
    match svc.find_by_id("not-an-id") {
        Err(ServiceError::InvalidId(s)) => assert_eq!(s, "not-an-id"),
        other => panic!("expected InvalidId, got {:?}", other),
    }
    let empty_patch = Document::new();
    match svc.update("not-an-id", &empty_patch, 0) {
        Err(ServiceError::InvalidId(s)) => assert_eq!(s, "not-an-id"),
        other => panic!("expected InvalidId, got {:?}", other),
    }
    match svc.delete("not-an-id") {
        Err(ServiceError::InvalidId(s)) => assert_eq!(s, "not-an-id"),
        other => panic!("expected InvalidId, got {:?}", other),
    }
    // The store was never touched.
    assert_eq!(svc.count_all().expect("count should succeed"), 0);
}

#[test]
fn count_matches_unrestricted_find() {
    let mut svc = UserService::new();
    svc.create_user("Eve".to_string(), "eve@x.com".to_string(), Some(1), 0).unwrap();
    svc.create_user("Fay".to_string(), "fay@x.com".to_string(), Some(2), 0).unwrap();
    svc.create_user("Eve".to_string(), "eve2@x.com".to_string(), Some(3), 0).unwrap();

    let mut filter = Document::new();
    filter.set("name", Value::Str("Eve".to_string()));
    let count = svc.count(&filter).expect("count should succeed");
    let found = svc.find_many(&filter, None, None).expect("find_many should succeed");
    assert_eq!(count, found.len() as u64);
    assert_eq!(count, 2);
}

#[test]
fn find_many_applies_limit_and_skip() {
    let mut svc = UserService::new();
    for i in 0..5 {
        svc.create_user(format!("U{}", i), format!("u{}@x.com", i), Some(i), 0).unwrap();
    }
    let filter = Document::new();
    let all = svc.find_many(&filter, None, None).unwrap();
    assert_eq!(all.len(), 5);
    let limited = svc.find_many(&filter, Some(2), None).unwrap();
    assert_eq!(limited.len(), 2);
    assert_eq!(limited[0].name, "U0");
    let skipped = svc.find_many(&filter, None, Some(3)).unwrap();
    assert_eq!(skipped.len(), 2);
    assert_eq!(skipped[0].name, "U3");
    let windowed = svc.find_many(&filter, Some(2), Some(1)).unwrap();
    assert_eq!(windowed.len(), 2);
    assert_eq!(windowed[0].name, "U1");
    assert_eq!(windowed[1].name, "U2");
    let past_end = svc.find_many(&filter, Some(10), Some(10)).unwrap();
    assert!(past_end.is_empty());
}

#[test]
fn find_all_returns_everything_in_order() {
    let mut svc = UserService::new();
    svc.create_user("G".to_string(), "g@x.com".to_string(), None, 0).unwrap();
    svc.create_user("H".to_string(), "h@x.com".to_string(), None, 0).unwrap();
    let all = svc.find_all().expect("find_all should succeed");
    assert_eq!(all.len(), 2);
    assert_eq!(all[0].name, "G");
    assert_eq!(all[1].name, "H");
}

#[test]
fn find_by_email_misses_cleanly() {
    let mut svc = UserService::new();
    svc.create_user("I".to_string(), "i@x.com".to_string(), None, 0).unwrap();
    assert!(svc.find_by_email("nobody@x.com").expect("should succeed").is_none());
}

#[test]
fn validation_rejects_empty_email_and_negative_age() {
    let mut svc = UserService::new();
    match svc.create_user("J".to_string(), "".to_string(), None, 0) {
        Err(ServiceError::ValidationError(_)) => {}
        other => panic!("expected ValidationError, got {:?}", other),
    }
    match svc.create_user("J".to_string(), "j@x.com".to_string(), Some(-1), 0) {
        Err(ServiceError::ValidationError(_)) => {}
        other => panic!("expected ValidationError, got {:?}", other),
    }
    assert_eq!(svc.count_all().unwrap(), 0);

    let created = svc
        .create_user("J".to_string(), "j@x.com".to_string(), None, 0)
        .expect("valid create should succeed");
    let hex = id_string(&created);
    match svc.update_user(&hex, None, Some("".to_string()), None, 1) {
        Err(ServiceError::ValidationError(_)) => {}
        other => panic!("expected ValidationError, got {:?}", other),
    }
    match svc.update_user(&hex, None, None, Some(-3), 1) {
        Err(ServiceError::ValidationError(_)) => {}
        other => panic!("expected ValidationError, got {:?}", other),
    }
}

#[test]
fn update_on_absent_id_returns_empty() {
    let mut svc = UserService::new();
    let absent = "abcdefabcdefabcdefabcdef";
    let r = svc.update_user(absent, Some("X".to_string()), None, None, 0);
    assert!(r.expect("well-formed absent id should not error").is_none());
}

#[test]
fn decode_failure_surfaces_as_storage_error() {
    let mut svc = UserService::new();
    let created = svc
        .create_user("K".to_string(), "k@x.com".to_string(), None, 0)
        .expect("create should succeed");
    let hex = id_string(&created);
    // A document-level patch that breaks the entity's shape.
    let mut bad = Document::new();
    bad.set("name", Value::Int(5));
    match svc.update(&hex, &bad, 1) {
        Err(ServiceError::DatabaseError(_)) => {}
        other => panic!("expected DatabaseError, got {:?}", other),
    }
    match svc.find_by_id(&hex) {
        Err(ServiceError::DatabaseError(_)) => {}
        other => panic!("expected DatabaseError, got {:?}", other),
    }
    match svc.find_all() {
        Err(ServiceError::DatabaseError(_)) => {}
        other => panic!("expected DatabaseError, got {:?}", other),
    }
}

#[test]
fn delete_many_removes_matching_documents() {
    let mut svc = UserService::new();
    svc.create_user("L".to_string(), "l@x.com".to_string(), Some(1), 0).unwrap();
    svc.create_user("M".to_string(), "m@x.com".to_string(), Some(1), 0).unwrap();
    svc.create_user("N".to_string(), "n@x.com".to_string(), Some(2), 0).unwrap();
    let mut filter = Document::new();
    filter.set("age", Value::Int(1));
    assert_eq!(svc.delete_many(&filter).expect("delete_many should succeed"), 2);
    assert_eq!(svc.count_all().unwrap(), 1);

    // An unrestricted filter removes everything.
    let everything = Document::new();
    assert_eq!(svc.delete_many(&everything).unwrap(), 1);
    assert_eq!(svc.count_all().unwrap(), 0);
}

#[test]
fn empty_patch_touches_only_the_timestamp() {
    let mut svc = UserService::new();
    let created = svc
        .create_user("P".to_string(), "p@x.com".to_string(), Some(4), 100)
        .expect("create should succeed");
    let hex = id_string(&created);
    let updated = svc
        .update_user(&hex, None, None, None, 200)
        .expect("update should succeed")
        .expect("the user should exist");
    assert_eq!(updated.name, created.name);
    assert_eq!(updated.email, created.email);
    assert_eq!(updated.age, created.age);
    assert_eq!(updated.created_at, 100);
    assert_eq!(updated.updated_at, 200);
}

#[test]
fn document_level_update_applies_the_patch() {
    let mut svc = UserService::new();
    let created = svc
        .create_user("Q".to_string(), "q@x.com".to_string(), Some(4), 0)
        .expect("create should succeed");
    let hex = id_string(&created);
    let mut patch = Document::new();
    patch.set("age", Value::Int(40));
    let updated = svc
        .update(&hex, &patch, 7)
        .expect("update should succeed")
        .expect("the user should exist");
    assert_eq!(updated.age, Some(40));
    assert_eq!(updated.name, "Q");
    assert_eq!(updated.updated_at, 7);
}

#[test]
fn created_user_has_default_status_and_timestamps() {
    let mut svc = UserService::new();
    let created = svc
        .create_user("O".to_string(), "o@x.com".to_string(), Some(7), 99)
        .expect("create should succeed");
    assert_eq!(created.status, user_crud::user_model::default_status());
    assert_eq!(created.created_at, 99);
    assert_eq!(created.updated_at, 99);
}
