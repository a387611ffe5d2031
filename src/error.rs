//! The failure vocabulary shared by the domain types and the code around them.

use vstd::prelude::*;

use crate::identifier::{canonical_text, uuid_text};

verus! {

/// What can go wrong in the domain.
#[derive(Debug, Clone)]
pub enum DomainError {
    /// No entity has the identifier with this value.
    NotFound { id: u128 },
    /// A monetary input could not be represented as a decimal.
    InvalidMoneyValue,
    /// A condition that no other kind describes.
    InternalError { message: String },
}

/// Appending to a `String` puts the text after what was there.
pub assume_specification[ String::push_str ](s: &mut String, string: &str)
    ensures
        final(s)@ == old(s)@ + string@,
;

/// The message of each kind of error.
pub open spec fn message_text(e: DomainError) -> Seq<char> {
    match e {
        DomainError::NotFound { id } => "item with id "@ + canonical_text(id) + " not found"@,
        DomainError::InvalidMoneyValue => "invalid money value"@,
        DomainError::InternalError { .. } => "internal error"@,
    }
}

impl DomainError {
    /// A stable, readable message; the one of `NotFound` names the identifier.
    pub fn message(&self) -> (r: String)
        ensures
            r@ == message_text(*self),
    {
        match self {
            DomainError::NotFound { id } => {
                let mut m = "item with id ".to_owned();
                let t = uuid_text(*id);
                m.push_str(t.as_str());
                m.push_str(" not found");
                m
            },
            DomainError::InvalidMoneyValue => "invalid money value".to_owned(),
            DomainError::InternalError { .. } => "internal error".to_owned(),
        }
    }
}

} // verus!
