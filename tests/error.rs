use order_domain::error::DomainError;

#[test]
fn not_found_names_the_identifier() {
    let e = DomainError::NotFound { id: 0xa1a2a3a4b1b2c1c2d1d2d3d4d5d6d7d8 };
    assert_eq!(e.message(), "item with id a1a2a3a4-b1b2-c1c2-d1d2-d3d4d5d6d7d8 not found");
}

#[test]
fn invalid_money_value_message() {
    assert_eq!(DomainError::InvalidMoneyValue.message(), "invalid money value");
}

#[test]
fn internal_error_message() {
    let e = DomainError::InternalError { message: "disk on fire".to_string() };
    assert_eq!(e.message(), "internal error");
}
