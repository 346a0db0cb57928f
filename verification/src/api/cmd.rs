//! `POST /api/cmd/<name>`: the command names this build binds.

pub mod confirmed;

use vstd::prelude::*;

use crate::auth::session::{clear, clear_value, set_value};
use crate::config::Mode;

verus! {

/// Every command this build dispatches, by its route name.
pub const BOUND: [&'static str; 28] = [
    "register",
    "sign-in",
    "sign-out",
    "revoke-session",
    "act-as",
    "add-factor",
    "remove-factor",
    "verify-email",
    "create-organization",
    "create-group",
    "invite",
    "claim-link",
    "revoke-link",
    "set-role",
    "remove-member",
    "leave",
    "share",
    "revoke",
    "transfer",
    "create-document",
    "edit-document",
    "publish-document",
    "propose-match",
    "confirm-match",
    "rule-match",
    "split",
    "disable",
    "enable",
];


/// The `Set-Cookie` a command's reply carries: a command that minted a
/// session sets it for `ttl` seconds, one that ended the caller's session
/// clears it, and every other command leaves the cookie alone. `token` is
/// the freshly minted secret, present only on the call that minted it.
pub fn reply_cookie(token: Option<&str>, ended: bool, ttl: i64, mode: Mode) -> (r: Option<String>)
    ensures
        match token {
            Some(t) => r matches Some(c) && c@ == set_value(t@, ttl, mode),
            None => if ended {
                r matches Some(c) && c@ == clear_value(mode)
            } else {
                r is None
            },
        },
{
    match token {
        Some(t) => Some(crate::auth::session::set(t, ttl, mode)),
        None => if ended {
            Some(clear(mode))
        } else {
            None
        },
    }
}

} // verus!
