//! Who may write: the browser's own statement of where a request came from.
//!
//! `Sec-Fetch-Site` is set by the browser and cannot be set by script. A
//! mutating request is admitted when it says `same-origin` (the site's own
//! forms) or `none` (a typed URL); anything else, including its absence, is
//! refused.

use vstd::prelude::*;

use crate::text::same;

verus! {

/// The header the browser sets.
pub const HEADER: &'static str = "sec-fetch-site";

/// Proof that a request came from this site's own pages.
#[derive(Debug, Clone, Copy)]
pub struct SameOrigin;

/// Whether a `Sec-Fetch-Site` value admits a write. The value is compared
/// exactly: it is lowercase on the wire.
pub open spec fn admits(site: Option<Seq<char>>) -> bool {
    match site {
        Some(s) => s == "same-origin"@ || s == "none"@,
        None => false,
    }
}

/// Whether a request whose `Sec-Fetch-Site` reads `site` may write.
pub fn may_mutate(site: Option<&str>) -> (r: bool)
    ensures
        r == admits(match site { Some(s) => Some(s@), None => None }),
{
    match site {
        Some(s) => same(s, "same-origin") || same(s, "none"),
        None => false,
    }
}

} // verus!
