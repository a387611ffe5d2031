use order_domain::status::{OrderStatus, PaymentOrderStatus, PaymentStatus};

#[test]
fn order_status_starts_pending() {
    assert_eq!(OrderStatus::default(), OrderStatus::Pending);
}

#[test]
fn payment_order_status_starts_pending() {
    assert_eq!(PaymentOrderStatus::default(), PaymentOrderStatus::Pending);
}

#[test]
fn payment_status_starts_completed() {
    assert_eq!(PaymentStatus::default(), PaymentStatus::Completed);
}

#[test]
fn order_status_tags_are_distinct() {
    let all = [
        OrderStatus::Pending,
        OrderStatus::Paid,
        OrderStatus::Approved,
        OrderStatus::Cancelling,
        OrderStatus::Canceled,
    ];
    for (i, a) in all.iter().enumerate() {
        for (j, b) in all.iter().enumerate() {
            assert_eq!(i == j, a == b);
        }
    }
}
