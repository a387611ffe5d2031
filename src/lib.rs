//! Domain-model core of an order and payment system: typed entity
//! identifiers, an exact decimal money value, lifecycle status tags and the
//! shared domain error vocabulary.

pub mod error;
pub mod identifier;
pub mod money;
pub mod status;
