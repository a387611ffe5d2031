use order_domain::identifier::{CategoryId, CustomerId, OrderId, ProductId};

const VALUE: u128 = 0xa1a2a3a4b1b2c1c2d1d2d3d4d5d6d7d8;
const TEXT: &str = "a1a2a3a4-b1b2-c1c2-d1d2-d3d4d5d6d7d8";

#[test]
fn order_id_text_round_trip() {
    let id = OrderId::from_uuid(VALUE);
    assert_eq!(id.to_string(), TEXT);
    assert_eq!(OrderId::from_str(&id.to_string()), Ok(id));
    assert_eq!(id.as_uuid(), VALUE);
}

#[test]
fn customer_id_text_round_trip() {
    let id = CustomerId::from_uuid(VALUE);
    assert_eq!(id.to_string(), TEXT);
    assert_eq!(CustomerId::from_str(&id.to_string()), Ok(id));
    assert_eq!(id.as_uuid(), VALUE);
}

#[test]
fn product_id_text_round_trip() {
    let id = ProductId::from_uuid(VALUE);
    assert_eq!(id.to_string(), TEXT);
    assert_eq!(ProductId::from_str(&id.to_string()), Ok(id));
    assert_eq!(id.as_uuid(), VALUE);
}

#[test]
fn category_id_text_round_trip() {
    let id = CategoryId::from_uuid(VALUE);
    assert_eq!(id.to_string(), TEXT);
    assert_eq!(CategoryId::from_str(&id.to_string()), Ok(id));
    assert_eq!(id.as_uuid(), VALUE);
}

#[test]
fn fresh_ids_round_trip_and_are_version_four() {
    for _ in 0..20 {
        let id = OrderId::new();
        assert_eq!(OrderId::from_str(&id.to_string()), Ok(id));
        assert_eq!((id.as_uuid() >> 76) & 0xf, 4);
        assert_eq!((id.as_uuid() >> 62) & 0x3, 2);
    }
    assert_ne!(CustomerId::new(), CustomerId::new());
}

#[test]
fn not_a_uuid_is_rejected_by_every_kind() {
    assert!(OrderId::from_str("not-a-uuid").is_err());
    assert!(CustomerId::from_str("not-a-uuid").is_err());
    assert!(ProductId::from_str("not-a-uuid").is_err());
    assert!(CategoryId::from_str("not-a-uuid").is_err());
}

#[test]
fn other_accepted_forms() {
    let id = ProductId::from_uuid(VALUE);
    assert_eq!(ProductId::from_str("A1A2A3A4-B1B2-C1C2-D1D2-D3D4D5D6D7D8"), Ok(id));
    assert_eq!(ProductId::from_str("a1a2a3a4b1b2c1c2d1d2d3d4d5d6d7d8"), Ok(id));
    assert_eq!(ProductId::from_str("{a1a2a3a4-b1b2-c1c2-d1d2-d3d4d5d6d7d8}"), Ok(id));
    assert_eq!(ProductId::from_str("URN:uuid:a1a2a3a4-b1b2-c1c2-d1d2-d3d4d5d6d7d8"), Ok(id));
}

#[test]
fn malformed_texts_are_rejected() {
    assert!(OrderId::from_str("").is_err());
    assert!(OrderId::from_str("a1a2a3a4-b1b2-c1c2-d1d2-d3d4d5d6d7dg").is_err());
    assert!(OrderId::from_str("a1a2a3a4b-1b2-c1c2-d1d2-d3d4d5d6d7d8").is_err());
    assert!(OrderId::from_str("urn:uuix:a1a2a3a4-b1b2-c1c2-d1d2-d3d4d5d6d7d8").is_err());
    assert!(OrderId::from_str("(a1a2a3a4-b1b2-c1c2-d1d2-d3d4d5d6d7d8)").is_err());
}

#[test]
fn default_id_is_zero() {
    assert_eq!(OrderId::default().as_uuid(), 0);
    assert_eq!(OrderId::default().to_string(), "00000000-0000-0000-0000-000000000000");
}

#[test]
fn small_values_keep_leading_zeros() {
    assert_eq!(CategoryId::from_uuid(0xff).to_string(), "00000000-0000-0000-0000-0000000000ff");
}

#[test]
fn default_ids_are_zero_and_never_fresh() {
    assert_eq!(CustomerId::default().as_uuid(), 0);
    assert_eq!(ProductId::default().as_uuid(), 0);
    assert_eq!(CategoryId::default().as_uuid(), 0);
    assert_eq!(OrderId::from_uuid(0), OrderId::default());
    assert_ne!(OrderId::new(), OrderId::default());
    assert_ne!(CustomerId::new(), CustomerId::default());
    assert_ne!(ProductId::new(), ProductId::default());
    assert_ne!(CategoryId::new(), CategoryId::default());
}

#[test]
fn ids_equal_exactly_when_values_are() {
    assert_eq!(ProductId::from_uuid(VALUE), ProductId::from_uuid(VALUE));
    assert_ne!(ProductId::from_uuid(VALUE), ProductId::from_uuid(VALUE + 1));
}
