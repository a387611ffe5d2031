//! Lifecycle status tags. Each set is closed and has one initial tag, which is
//! what `Default` yields; which transitions are legal is decided by the code
//! that owns the entities, not here.

use vstd::prelude::*;

verus! {

/// Lifecycle of an order.
#[derive(PartialEq, Eq, Structural, Debug, Clone, Copy)]
pub enum OrderStatus {
    Pending,
    Paid,
    Approved,
    Cancelling,
    Canceled,
}

impl Default for OrderStatus {
    /// A new order starts out pending.
    fn default() -> (r: Self)
        ensures
            r == OrderStatus::Pending,
    {
        OrderStatus::Pending
    }
}

/// Lifecycle of a payment order.
#[derive(PartialEq, Eq, Structural, Debug, Clone, Copy)]
pub enum PaymentOrderStatus {
    Pending,
    Cancelled,
}

impl Default for PaymentOrderStatus {
    /// A new payment order starts out pending.
    fn default() -> (r: Self)
        ensures
            r == PaymentOrderStatus::Pending,
    {
        PaymentOrderStatus::Pending
    }
}

/// Outcome of a payment.
#[derive(PartialEq, Eq, Structural, Debug, Clone, Copy)]
pub enum PaymentStatus {
    Completed,
    Cancelled,
    Failed,
}

impl Default for PaymentStatus {
    /// A payment is recorded as completed unless marked otherwise.
    fn default() -> (r: Self)
        ensures
            r == PaymentStatus::Completed,
    {
        PaymentStatus::Completed
    }
}

} // verus!
