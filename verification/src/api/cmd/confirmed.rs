//! Read-your-writes across nodes: a caller that holds an offset may ask the
//! node it reaches to catch up to it before answering.
//!
//! The wait is bounded twice: by time, and by how far ahead of this node's
//! head an offset may claim to be. Replication lag is entries, not billions
//! of them, so an offset far beyond the head is a forged header and is not
//! waited for at all.

use vstd::prelude::*;

use crate::text::{chars_of, parse_u64, trim, trimmed, u64_of};

verus! {

/// The header a form post carries its offset in, having no envelope.
pub const AFTER_HEADER: &'static str = "x-rn-after";

/// The header every command reply carries the offset it landed at in.
pub const OFFSET_HEADER: &'static str = "x-rn-offset";

/// How long a node waits to catch up, in milliseconds.
pub const WAIT: u64 = 2_000;

/// How long between looks at the head, in milliseconds.
pub const POLL: u64 = 2;

/// How far ahead of this node's head an offset may be and still be waited
/// for.
pub const MAX_LEAD: u64 = 10_000;

/// How a wait ended, with how long it took in milliseconds.
#[derive(Debug, Clone, Copy, PartialEq, Eq, Structural)]
pub enum Caught {
    /// The node was already there.
    Already,
    /// It got there.
    Waited(u64),
    /// It did not, or could not tell.
    Gave(u64),
}

/// The offset a caller asked to be caught up to: the envelope's `after` when
/// the body has one, else the header's, and nothing for zero.
pub open spec fn asked_after(envelope: Option<u64>, header: Option<Seq<char>>) -> Option<u64> {
    let chosen = match envelope {
        Some(a) => Some(a),
        None => match header {
            Some(h) => u64_of(trim(h)),
            None => None,
        },
    };
    match chosen {
        Some(a) => if a > 0 { Some(a) } else { None },
        None => None,
    }
}

/// What a caller asked for. `envelope` is the `after` field of the command's
/// JSON envelope, if the body was one and carried it; `header` is the value
/// of [`AFTER_HEADER`].
pub fn requested(envelope: Option<u64>, header: Option<&str>) -> (r: Option<u64>)
    ensures
        r == asked_after(envelope, match header { Some(h) => Some(h@), None => None }),
{
    let chosen = match envelope {
        Some(a) => Some(a),
        None => match header {
            Some(h) => {
                let c = chars_of(h);
                let t = trimmed(&c);
                parse_u64(&t)
            },
            None => None,
        },
    };
    match chosen {
        Some(a) => if a > 0 { Some(a) } else { None },
        None => None,
    }
}

/// One look at the head, decided. `lead` is the first reading, `head` the
/// second (`None` where the feed could not answer); `first` says whether
/// this is the first look; `elapsed` is how long the wait has run. `None`
/// means look again after [`POLL`].
pub open spec fn step(after: u64, lead: Option<u64>, head: Option<u64>, first: bool, elapsed: u64) -> Option<Caught> {
    if lead matches Some(l) && after > l + MAX_LEAD {
        Some(Caught::Gave(elapsed))
    } else {
        match head {
            None => Some(Caught::Gave(elapsed)),
            Some(h) => if h >= after {
                if first { Some(Caught::Already) } else { Some(Caught::Waited(elapsed)) }
            } else if elapsed >= WAIT {
                Some(Caught::Gave(elapsed))
            } else {
                None
            },
        }
    }
}

/// One look at the head, decided: see [`step`].
pub fn catch_up_step(after: u64, lead: Option<u64>, head: Option<u64>, first: bool, elapsed: u64) -> (r: Option<Caught>)
    ensures
        r == step(after, lead, head, first, elapsed),
{
    if let Some(l) = lead {
        let bound = l.saturating_add(MAX_LEAD);
        if after > bound {
            return Some(Caught::Gave(elapsed));
        }
    }
    match head {
        None => Some(Caught::Gave(elapsed)),
        Some(h) => if h >= after {
            if first { Some(Caught::Already) } else { Some(Caught::Waited(elapsed)) }
        } else if elapsed >= WAIT {
            Some(Caught::Gave(elapsed))
        } else {
            None
        },
    }
}


/// A caller that says nothing asks for nothing, and asking for offset zero
/// is saying nothing.
pub proof fn lemma_nothing_asked(header: Option<Seq<char>>)
    ensures
        asked_after(None, None) is None,
        asked_after(Some(0), header) is None,
{
}

/// An offset further ahead of a readable head than [`MAX_LEAD`] is never
/// waited for, and a feed that cannot answer ends the wait: neither costs
/// the node a poll.
pub proof fn lemma_forged_or_blind_is_not_waited_for(after: u64, lead: Option<u64>, head: Option<u64>, first: bool, elapsed: u64)
    ensures
        lead matches Some(l) && after > l + MAX_LEAD ==> step(after, lead, head, first, elapsed) == Some(Caught::Gave(elapsed)),
        head is None ==> step(after, lead, head, first, elapsed) == Some(Caught::Gave(elapsed)),
        elapsed >= WAIT ==> step(after, lead, head, first, elapsed) is Some,
{
}

} // verus!
