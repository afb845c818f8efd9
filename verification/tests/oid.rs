use cubos_sql::oid::{
    oid_from_stored, oid_or_zero, oids_from_stored, option_i32_from_stored, option_i32_neg_one,
    stored_oids, PgClassOid, PgTypeOid,
};

#[test]
fn new_rejects_zero() {
    assert!(PgTypeOid::new(0).is_none());
    assert_eq!(PgTypeOid::new(23).map(|o| o.get()), Some(23));
}

#[test]
fn serialize_transparent() {
    let v = PgTypeOid::from_raw(23);
    let json = serde_json::to_string(&v.get()).unwrap();
    assert_eq!(json, "23");
    let back = PgTypeOid::checked(serde_json::from_str::<u32>(&json).unwrap()).unwrap();
    assert_eq!(back, v);
}

#[test]
fn deserialize_rejects_zero() {
    assert!(PgTypeOid::checked(serde_json::from_str::<u32>("0").unwrap()).is_err());
}

#[test]
fn oid_or_zero_roundtrip() {
    let some: Option<PgTypeOid> = PgTypeOid::new(42);
    let json = format!("{{\"inner\":{}}}", oid_or_zero(some));
    assert_eq!(json, r#"{"inner":42}"#);
    let value: serde_json::Value = serde_json::from_str(&json).unwrap();
    let back: Option<PgTypeOid> = oid_from_stored(value["inner"].as_u64().unwrap() as u32);
    assert_eq!(back, some);

    let none: Option<PgTypeOid> = None;
    let json = format!("{{\"inner\":{}}}", oid_or_zero(none));
    assert_eq!(json, r#"{"inner":0}"#);
    let value: serde_json::Value = serde_json::from_str(&json).unwrap();
    let back: Option<PgTypeOid> = oid_from_stored(value["inner"].as_u64().unwrap() as u32);
    assert_eq!(back, none);
}

#[test]
fn lists_of_oids_keep_their_order() {
    let list = vec![PgClassOid::from_raw(7), PgClassOid::from_raw(3)];
    let stored = stored_oids(&list);
    assert_eq!(stored, vec![7, 3]);
    let back: Vec<PgClassOid> = oids_from_stored(&stored);
    assert_eq!(back, list);
    // A zero in an older list stands for no OID.
    let back: Vec<PgClassOid> = oids_from_stored(&vec![0, 7, 0, 3]);
    assert_eq!(back, list);
}

#[test]
fn missing_modifier_is_stored_as_minus_one() {
    assert_eq!(option_i32_neg_one(None), -1);
    assert_eq!(option_i32_neg_one(Some(12)), 12);
    assert_eq!(option_i32_from_stored(-1), None);
    assert_eq!(option_i32_from_stored(12), Some(12));
    assert_eq!(option_i32_from_stored(option_i32_neg_one(Some(-5))), Some(-5));
    assert_eq!(option_i32_from_stored(0), Some(0));
}
