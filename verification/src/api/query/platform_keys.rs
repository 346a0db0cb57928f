//! The signing keys' page: ages the operator reads in days, and the JSON
//! list columns the page renders.

use vstd::prelude::*;

use crate::text::strs_view;

verus! {

/// A day, in seconds.
pub const DAY: i64 = 86_400;

/// How many whole days lie between `created_at` and `now`: floored, never
/// rounded up, and nought for a time that is not yet past.
pub open spec fn whole_days(created_at: int, now: int) -> int {
    if now - created_at <= 0 { 0 } else { (now - created_at) / (DAY as int) }
}

/// How old a key is, in whole days. A key minted this morning is nought days
/// old.
pub fn age_days(created_at: i64, now: i64) -> (r: i64)
    ensures
        r == whole_days(created_at as int, now as int),
{
    let d: i128 = (now as i128) - (created_at as i128);
    if d <= 0 {
        0
    } else {
        let days: i128 = d / 86_400;
        assert(days <= d);
        assert(d <= 0x1_0000_0000_0000_0000);
        assert(days < 0x8000_0000_0000_0000) by (nonlinear_arith)
            requires
                days == d / 86_400,
                0 < d <= 0x1_0000_0000_0000_0000,
        ;
        days as i64
    }
}


/// What `serde_json` reads a text as when asked for a list of strings: the
/// strings, or nothing when the text is not a JSON array of strings.
pub uninterp spec fn json_string_list(raw: Seq<char>) -> Option<Seq<Seq<char>>>;

pub open spec fn list_view(r: Option<Vec<String>>) -> Option<Seq<Seq<char>>> {
    match r {
        Some(v) => Some(strs_view(v@)),
        None => None,
    }
}

/// `serde_json::from_str::<Vec<String>>`, with its error dropped. The
/// contract names the result; JSON's grammar is the crate's.
#[verifier::external_body]
fn string_list(raw: &str) -> (r: Option<Vec<String>>)
    ensures
        list_view(r) == json_string_list(raw@),
{
    serde_json::from_str::<Vec<String>>(raw).ok()
}

/// A list column as the page shows it: its strings, or none at all when
/// the column is unreadable, so that one malformed registration does not
/// take the whole page down with it.
pub fn listed(parsed: Option<Vec<String>>) -> (r: Vec<String>)
    ensures
        strs_view(r@) == match list_view(parsed) {
            Some(v) => v,
            None => Seq::<Seq<char>>::empty(),
        },
{
    match parsed {
        Some(v) => v,
        None => Vec::new(),
    }
}

/// A JSON array column, as a list: [`listed`] on what it parses to.
pub fn words(raw: &str) -> (r: Vec<String>)
    ensures
        strs_view(r@) == match json_string_list(raw@) {
            Some(v) => v,
            None => Seq::<Seq<char>>::empty(),
        },
{
    listed(string_list(raw))
}

} // verus!
