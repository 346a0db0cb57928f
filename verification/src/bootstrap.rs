//! Naming the first platform operator.

use vstd::prelude::*;

use crate::text::concat;

verus! {

/// Why the bootstrap did not happen.
#[derive(Debug, Clone, PartialEq, Eq)]
pub enum BootstrapError {
    /// No registration holds that address, or it has resolved to no person.
    NoSuchPerson(String),
    /// An operator already exists, or the database refused.
    Refused,
    /// The database could not be read.
    Store(String),
}

pub open spec fn bootstrap_message(e: BootstrapError) -> Seq<char> {
    match e {
        BootstrapError::NoSuchPerson(a) => "no person is registered at "@ + a@,
        BootstrapError::Refused => "the deployment already has a platform operator"@,
        BootstrapError::Store(m) => m@,
    }
}

impl BootstrapError {
    /// What the error says.
    pub fn message(&self) -> (r: String)
        ensures
            r@ == bootstrap_message(*self),
    {
        match self {
            BootstrapError::NoSuchPerson(a) => concat("no person is registered at ", a.as_str()),
            BootstrapError::Refused => String::from_str("the deployment already has a platform operator"),
            BootstrapError::Store(m) => m.clone(),
        }
    }
}

} // verus!
