//! One box, three exact seeks: which of the shapes a search string has
//! decides which index is worth asking.

use vstd::prelude::*;

use crate::text::{chars_of, has_char, is_digit, is_lower_alpha, split_once, split_once_at, contains_char};

verus! {

/// The longest handle.
pub const HANDLE_MAX: usize = 32;

/// The shortest handle.
pub const HANDLE_MIN: usize = 3;

pub open spec fn is_handle_char(c: char) -> bool {
    is_lower_alpha(c) || is_digit(c) || c == '-'
}

/// A handle: three to thirty-two characters of lowercase ASCII letters,
/// digits and `-`.
pub open spec fn handle_shaped(q: Seq<char>) -> bool {
    &&& HANDLE_MIN <= q.len() <= HANDLE_MAX
    &&& forall|i: int| 0 <= i < q.len() ==> is_handle_char(#[trigger] q[i])
}

/// An address, as far as asking is concerned: something before the first
/// `@`, and a `.` somewhere after it.
pub open spec fn address_shaped(q: Seq<char>) -> bool {
    match split_once(q, '@') {
        Some(parts) => parts.0.len() > 0 && has_char(parts.1, '.'),
        None => false,
    }
}

/// Whether this could be a handle at all.
pub fn is_handle(q: &str) -> (r: bool)
    ensures
        r == handle_shaped(q@),
{
    let c = chars_of(q);
    if c.len() < HANDLE_MIN || c.len() > HANDLE_MAX {
        return false;
    }
    let mut i: usize = 0;
    while i < c.len()
        invariant
            c@ == q@,
            i <= c@.len(),
            forall|j: int| 0 <= j < i ==> is_handle_char(#[trigger] c@[j]),
        decreases c@.len() - i,
    {
        let x = c[i];
        if !(('a' <= x && x <= 'z') || ('0' <= x && x <= '9') || x == '-') {
            assert(!is_handle_char(c@[i as int]));
            return false;
        }
        i = i + 1;
    }
    true
}

/// Whether this could be an address at all. Deliberately not a validator:
/// it only decides whether asking the factor index is worth a statement.
pub fn is_address(q: &str) -> (r: bool)
    ensures
        r == address_shaped(q@),
{
    let c = chars_of(q);
    match split_once_at(&c, '@') {
        Some((local, domain)) => local.len() > 0 && contains_char(&domain, '.'),
        None => false,
    }
}

} // verus!
