//! The shapes a refusal takes on the wire.

use vstd::prelude::*;

verus! {

/// One field's complaint.
#[derive(Debug, Clone, PartialEq, Eq)]
pub struct FieldError {
    /// Which field of the request.
    pub field: &'static str,
    /// What is wrong with it, in the caller's terms.
    pub message: String,
}

/// The `422` body: everything wrong with the request's shape, in the order
/// it was found.
#[derive(Debug, Clone, PartialEq, Eq)]
pub struct Invalidated {
    pub invalid: Vec<FieldError>,
}

} // verus!
