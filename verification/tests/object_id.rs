use user_crud::error::ServiceError;
use user_crud::object_id::ObjectId;

#[test]
fn parse_accepts_24_hex_characters() {
    let id = ObjectId::parse_str("0123456789abcdef01234567").expect("should parse");
    assert_eq!(id.to_hex(), "0123456789abcdef01234567");
}

#[test]
fn parse_accepts_uppercase_hex() {
    let lower = ObjectId::parse_str("0123456789abcdef01234567").unwrap();
    let upper = ObjectId::parse_str("0123456789ABCDEF01234567").unwrap();
    assert_eq!(lower, upper);
    assert_eq!(upper.to_hex(), "0123456789abcdef01234567");
}

#[test]
fn parse_rejects_wrong_length() {
    match ObjectId::parse_str("abc") {
        Err(ServiceError::InvalidId(s)) => assert_eq!(s, "abc"),
        other => panic!("expected InvalidId, got {:?}", other),
    }
    assert!(ObjectId::parse_str("").is_err());
    assert!(ObjectId::parse_str("0123456789abcdef012345678").is_err());
}

#[test]
fn parse_rejects_non_hex_characters() {
    match ObjectId::parse_str("0123456789abcdef0123456z") {
        Err(ServiceError::InvalidId(s)) => assert_eq!(s, "0123456789abcdef0123456z"),
        other => panic!("expected InvalidId, got {:?}", other),
    }
    assert!(ObjectId::parse_str("not-an-id-not-an-id-not-").is_err());
}

#[test]
fn hex_round_trip_preserves_value() {
    let id = ObjectId::parse_str("ffffffffffffffffffffffff").unwrap();
    let again = ObjectId::parse_str(&id.to_hex()).unwrap();
    assert_eq!(id, again);
    assert_eq!(id.value(), (1u128 << 96) - 1);
}

#[test]
fn hex_of_zero_is_all_zeros() {
    let id = ObjectId::parse_str("000000000000000000000000").unwrap();
    assert_eq!(id.value(), 0);
    assert_eq!(id.to_hex(), "000000000000000000000000");
}
