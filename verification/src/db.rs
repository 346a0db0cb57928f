//! Database boot: the node topology, the migration history, and the rules
//! that decide whether a data directory may be used and whether the cluster
//! came up.

pub mod cluster;
pub mod migrations;

use vstd::prelude::*;

use crate::config::Mode;
use crate::text::{chars_of, concat, kept_nonblank, split, split_on, trimmed};
use migrations::{MigrateError, migrate_message};

verus! {

/// The cache index for the hot paths: the session lookup on every
/// authenticated request is the one that earns a raft group of its own.
#[derive(Debug, Clone, Copy, PartialEq, Eq, Structural)]
pub enum AppCache {
    Sessions,
}

/// How long to wait for both raft groups to elect a leader, in seconds.
pub const HEALTH_TIMEOUT: u64 = 30;

/// Raft timings only a throwaway single-node instance should touch.
#[derive(Debug, Clone, Copy, PartialEq, Eq, Structural)]
pub struct Tuning {
    /// `None` keeps hiqlite's 500 ms default.
    pub heartbeat_interval_ms: Option<u64>,
    /// `false` keeps cache WAL and snapshots in memory.
    pub cache_storage_disk: bool,
}

impl Tuning {
    /// For a single throwaway node that boots inside a test.
    pub fn fast_single_node() -> (r: Tuning)
        ensures
            r == (Tuning { heartbeat_interval_ms: Some(50), cache_storage_disk: false }),
    {
        Tuning { heartbeat_interval_ms: Some(50), cache_storage_disk: false }
    }

    /// The raft timings a tuned heartbeat implies: the heartbeat, and the
    /// election timeouts at three and six times it, hiqlite's own ratio, so a
    /// node never calls an election against itself between two beats. `None`
    /// keeps hiqlite's defaults for all three.
    pub fn raft_timings(&self) -> (r: Option<(u64, u64, u64)>)
        requires
            self.heartbeat_interval_ms matches Some(h) ==> h * 6 <= u64::MAX,
        ensures
            r == match self.heartbeat_interval_ms {
                Some(h) => Some((h, (h * 3) as u64, (h * 6) as u64)),
                None => None,
            },
    {
        match self.heartbeat_interval_ms {
            Some(h) => Some((h, h * 3, h * 6)),
            None => None,
        }
    }
}

impl Default for Tuning {
    /// hiqlite's own timings, with the cache on disk.
    fn default() -> (r: Tuning)
        ensures
            r == (Tuning { heartbeat_interval_ms: None, cache_storage_disk: true }),
    {
        Tuning { heartbeat_interval_ms: None, cache_storage_disk: true }
    }
}

/// Why the database did not come up.
#[derive(Debug, Clone, PartialEq, Eq)]
pub enum DbError {
    /// A file or directory could not be read or made, and what the system
    /// said about it.
    Io { path: String, source: String },
    /// The configuration or the environment is not admissible.
    Config(String),
    /// The raft groups did not elect a leader in time.
    Unhealthy(String),
    /// The migration history refused, or could not be applied.
    Migrate(MigrateError),
    /// hiqlite refused, with what it said.
    Hiqlite(String),
}

pub open spec fn db_message(e: DbError) -> Seq<char> {
    match e {
        DbError::Io { path, source } => "io error at "@ + path@ + ": "@ + source@,
        DbError::Config(m) => "config error: "@ + m@,
        DbError::Unhealthy(m) => "the cluster did not become healthy: "@ + m@,
        DbError::Migrate(m) => migrate_message(m),
        DbError::Hiqlite(m) => m@,
    }
}

impl DbError {
    /// What the error says.
    pub fn message(&self) -> (r: String)
        ensures
            r@ == db_message(*self),
    {
        match self {
            DbError::Io { path, source } => {
                let r = concat("io error at ", path.as_str());
                let r = concat(r.as_str(), ": ");
                concat(r.as_str(), source.as_str())
            },
            DbError::Config(m) => concat("config error: ", m.as_str()),
            DbError::Unhealthy(m) => concat("the cluster did not become healthy: ", m.as_str()),
            DbError::Migrate(m) => m.message(),
            DbError::Hiqlite(m) => m.clone(),
        }
    }
}

/// What boot does about the data directory.
#[derive(Debug, Clone, Copy, PartialEq, Eq, Structural)]
pub enum DirAction {
    /// It is there; nothing to do.
    Ready,
    /// Make it (dev only).
    Create,
}

pub open spec fn not_a_dir_message(dir: Seq<char>) -> Seq<char> {
    "the hiqlite data path is not a directory: "@ + dir
}

pub open spec fn unprovisioned_message(dir: Seq<char>) -> Seq<char> {
    "mode=prod requires a pre-provisioned writable hiqlite data directory at "@ + dir
}

/// The decision about the data directory `dir`, given whether it is a
/// directory and whether anything is there at all. Dev makes a missing one;
/// prod refuses, because a missing directory there means the persistent
/// volume did not mount. Something that is there and is not a directory is
/// refused in either mode.
pub open spec fn dir_decision(mode: Mode, dir: Seq<char>, is_dir: bool, exists: bool) -> Result<DirAction, Seq<char>> {
    if is_dir {
        Ok(DirAction::Ready)
    } else if exists {
        Err(not_a_dir_message(dir))
    } else {
        match mode {
            Mode::Dev => Ok(DirAction::Create),
            Mode::Prod => Err(unprovisioned_message(dir)),
        }
    }
}

/// hiqlite owns the state-machine file; the directory it lives in is the
/// deployment's. What to do about it, from what the filesystem says.
pub fn ensure_data_dir(mode: Mode, dir: &str, is_dir: bool, exists: bool) -> (r: Result<DirAction, DbError>)
    ensures
        match r {
            Ok(a) => dir_decision(mode, dir@, is_dir, exists) == Ok::<DirAction, Seq<char>>(a),
            Err(DbError::Config(m)) => dir_decision(mode, dir@, is_dir, exists) == Err::<DirAction, Seq<char>>(m@),
            Err(_) => false,
        },
{
    if is_dir {
        Ok(DirAction::Ready)
    } else if exists {
        Err(DbError::Config(concat("the hiqlite data path is not a directory: ", dir)))
    } else {
        match mode {
            Mode::Dev => Ok(DirAction::Create),
            Mode::Prod => Err(DbError::Config(concat(
                "mode=prod requires a pre-provisioned writable hiqlite data directory at ",
                dir,
            ))),
        }
    }
}

/// How many voters a peer map expects: its non-blank entries, or one for a
/// dev node with no map.
pub open spec fn voters(raw: Option<Seq<char>>) -> nat {
    match raw {
        Some(nodes) => {
            let n = kept_nonblank(split(nodes, ',')).len();
            if n > 0 { n } else { 1 }
        },
        None => 1,
    }
}

/// [`voters`], for the value of `RN_SITE_HQL_NODES` if it is set.
pub fn expected_voters(raw: Option<&str>) -> (r: usize)
    ensures
        r == voters(match raw { Some(s) => Some(s@), None => None }),
{
    match raw {
        None => 1,
        Some(s) => {
            let c = chars_of(s);
            let pieces = split_on(&c, ',');
            let ghost ps = split(s@, ',');
            let mut count: usize = 0;
            let mut i: usize = 0;
            assert(ps.take(0) =~= Seq::<Seq<char>>::empty());
            while i < pieces.len()
                invariant
                    i <= pieces@.len(),
                    ps == split(s@, ','),
                    pieces@.len() == ps.len(),
                    forall|k: int| 0 <= k < pieces@.len() ==> #[trigger] pieces@[k]@ == ps[k],
                    count == kept_nonblank(ps.take(i as int)).len(),
                    count <= i,
                decreases pieces@.len() - i,
            {
                assert(ps.take(i + 1).drop_last() =~= ps.take(i as int));
                assert(pieces@[i as int]@ == ps[i as int]);
                let t = trimmed(&pieces[i]);
                if t.len() > 0 {
                    count = count + 1;
                }
                i = i + 1;
            }
            assert(ps.take(ps.len() as int) =~= ps);
            if count > 0 { count } else { 1 }
        },
    }
}

/// One look at both raft groups: `db` and `cache` are their health checks
/// (the error text where one failed), `timed_out` whether the wait has run
/// out. Both healthy is success; out of time, the first failure is the
/// reason; otherwise look again.
pub open spec fn health(db: Result<(), Seq<char>>, cache: Result<(), Seq<char>>, timed_out: bool) -> Option<Result<(), Seq<char>>> {
    if db is Ok && cache is Ok {
        Some(Ok(()))
    } else if timed_out {
        match db {
            Err(e) => Some(Err("db raft unhealthy: "@ + e)),
            Ok(()) => match cache {
                Err(e) => Some(Err("cache raft unhealthy: "@ + e)),
                Ok(()) => None,
            },
        }
    } else {
        None
    }
}

pub open spec fn check_view(r: Result<(), String>) -> Result<(), Seq<char>> {
    match r {
        Ok(()) => Ok(()),
        Err(e) => Err(e@),
    }
}

/// [`health`], decided: `None` means look again.
pub fn health_verdict(db: &Result<(), String>, cache: &Result<(), String>, timed_out: bool) -> (r: Option<Result<(), DbError>>)
    ensures
        match r {
            None => health(check_view(*db), check_view(*cache), timed_out) is None,
            Some(Ok(())) => health(check_view(*db), check_view(*cache), timed_out) == Some(Ok::<(), Seq<char>>(())),
            Some(Err(DbError::Unhealthy(m))) => health(check_view(*db), check_view(*cache), timed_out) == Some(Err::<(), Seq<char>>(m@)),
            Some(Err(_)) => false,
        },
{
    if db.is_ok() && cache.is_ok() {
        return Some(Ok(()));
    }
    if !timed_out {
        return None;
    }
    match db {
        Err(e) => Some(Err(DbError::Unhealthy(concat("db raft unhealthy: ", e.as_str())))),
        Ok(()) => match cache {
            Err(e) => Some(Err(DbError::Unhealthy(concat("cache raft unhealthy: ", e.as_str())))),
            Ok(()) => None,
        },
    }
}

} // verus!
