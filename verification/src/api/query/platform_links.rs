//! Invitations, and the state a link is in — read off its columns and the
//! clock, because three of the four states are the passage of time and
//! nothing writes a row when a clock ticks.

use vstd::prelude::*;

verus! {

/// A link's state: claimed outranks everything, then suspended, then
/// expired once its expiry is not in the future, and otherwise open.
pub open spec fn state_of(claimed_at: Option<i64>, suspended_at: Option<i64>, expires_at: i64, now: i64) -> &'static str {
    if claimed_at is Some {
        "claimed"
    } else if suspended_at is Some {
        "suspended"
    } else if expires_at <= now {
        "expired"
    } else {
        "open"
    }
}

/// What state an invitation is in.
pub fn link_state(claimed_at: Option<i64>, suspended_at: Option<i64>, expires_at: i64, now: i64) -> (r: &'static str)
    ensures
        r == state_of(claimed_at, suspended_at, expires_at, now),
{
    if claimed_at.is_some() {
        "claimed"
    } else if suspended_at.is_some() {
        "suspended"
    } else if expires_at <= now {
        "expired"
    } else {
        "open"
    }
}

} // verus!
