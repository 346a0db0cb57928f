//! Who holds the data directory.
//!
//! hiqlite's own lock file carries no pid, and with `auto-heal` on a second
//! process opening a held directory deletes the state machine. So the serving
//! process writes its pid into `<data_dir>/rn-site.pid`, and the subcommand
//! refuses — naming the pid — when the process in that file is alive. A file
//! naming a pid that has exited is stale and ignored.

use vstd::prelude::*;

use super::AdminError;
use crate::text::{chars_of, trim, trimmed, parse_u32, u32_of};

verus! {

/// What the serving process writes and the subcommand reads.
pub const PID_FILENAME: &'static str = "rn-site.pid";

/// The pid a pid file names, if its contents are one.
pub fn pid_in(contents: &str) -> (r: Option<u32>)
    ensures
        r == u32_of(trim(contents@)),
{
    let c = chars_of(contents);
    let t = trimmed(&c);
    parse_u32(&t)
}

/// Refuse if a live process holds `dir`; `holder` is that process, if any.
pub fn refuse_if_held(holder: Option<u32>, dir: &str) -> (r: Result<(), AdminError>)
    ensures
        match holder {
            None => r is Ok,
            Some(pid) => r matches Err(AdminError::Locked { pid: p, dir: d }) && p == pid && d@ == dir@,
        },
{
    match holder {
        Some(pid) => Err(AdminError::Locked { pid, dir: String::from_str(dir) }),
        None => Ok(()),
    }
}

} // verus!
