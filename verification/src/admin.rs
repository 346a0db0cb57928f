//! The operator's way in that does not depend on the web tier.
//!
//! Both front doors — the `rn-site admin` subcommand and the loopback
//! listener — turn their input into an [`Action`]. Whether an action writes
//! decides whether it needs somebody to be accountable for it (`--as`).

pub mod backup;
pub mod cli;
pub mod lock;
pub mod read;
pub mod restore;
pub mod route;

use vstd::prelude::*;

use crate::text::{chars_of, concat, decimal, same, string_of, trim, trimmed, with_number};

verus! {

/// One thing an operator can ask for, from either front door.
#[allow(inconsistent_fields)]
#[derive(Debug, Clone, PartialEq, Eq)]
pub enum Action {
    /// Who operates this deployment.
    Operators,
    /// Delegate operator authority to an address or a person's public id.
    GrantOperator { person: String, reason: String },
    /// Take it back.
    RevokeOperator { person: String, reason: String },
    /// Live sessions, all of them or one person's.
    Sessions { person: Option<String> },
    /// End one session, by its public id.
    RevokeSession { session: String },
    /// Which products this deployment serves.
    Products,
    /// Turn one product on or off at runtime.
    SetProduct { slug: String, enabled: bool },
    /// The newest `tail` audit rows.
    Audit { tail: usize },
}

/// An [`Action`], as the specifications speak of it.
#[allow(inconsistent_fields)]
pub enum ActionSpec {
    Operators,
    GrantOperator { person: Seq<char>, reason: Seq<char> },
    RevokeOperator { person: Seq<char>, reason: Seq<char> },
    Sessions { person: Option<Seq<char>> },
    RevokeSession { session: Seq<char> },
    Products,
    SetProduct { slug: Seq<char>, enabled: bool },
    Audit { tail: usize },
}

pub open spec fn opt_view(o: Option<String>) -> Option<Seq<char>> {
    match o {
        Some(s) => Some(s@),
        None => None,
    }
}

impl View for Action {
    type V = ActionSpec;

    open spec fn view(&self) -> ActionSpec {
        match self {
            Action::Operators => ActionSpec::Operators,
            Action::GrantOperator { person, reason } => ActionSpec::GrantOperator { person: person@, reason: reason@ },
            Action::RevokeOperator { person, reason } => ActionSpec::RevokeOperator { person: person@, reason: reason@ },
            Action::Sessions { person } => ActionSpec::Sessions { person: opt_view(*person) },
            Action::RevokeSession { session } => ActionSpec::RevokeSession { session: session@ },
            Action::Products => ActionSpec::Products,
            Action::SetProduct { slug, enabled } => ActionSpec::SetProduct { slug: slug@, enabled: *enabled },
            Action::Audit { tail } => ActionSpec::Audit { tail: *tail },
        }
    }
}

/// The actions that write: the two delegations, ending a session and
/// switching a product. Everything else only reads.
pub open spec fn is_write(a: ActionSpec) -> bool {
    match a {
        ActionSpec::GrantOperator { .. } => true,
        ActionSpec::RevokeOperator { .. } => true,
        ActionSpec::RevokeSession { .. } => true,
        ActionSpec::SetProduct { .. } => true,
        _ => false,
    }
}

impl Action {
    /// Whether this action writes. Reads need no `--as`, because there is no
    /// row for an actor to appear on.
    pub fn writes(&self) -> (r: bool)
        ensures
            r == is_write(self@),
    {
        match self {
            Action::GrantOperator { .. } | Action::RevokeOperator { .. } | Action::RevokeSession { .. }
            | Action::SetProduct { .. } => true,
            _ => false,
        }
    }
}

/// Why an action did not happen. These are loud: the audience is an operator
/// at a terminal who has already proved they are on the host.
#[derive(Debug, Clone, PartialEq, Eq)]
pub enum AdminError {
    /// The argument vector did not make sense.
    Usage(String),
    /// A running node holds the data directory.
    Locked { pid: u32, dir: String },
    /// No person is registered at that address, and it is no public id.
    NoSuchPerson(String),
    /// The identity behind `--as` cannot hold a session.
    NoActor(String),
    /// The kernel refused, or could not be reached.
    Command(String),
    /// The database could not be read or written.
    Store(String),
    /// The action is real and this build cannot do it yet.
    NotYet(String),
    /// The action would have done something this deployment forbids.
    Refused(String),
}

pub open spec fn locked_message(pid: u32, dir: Seq<char>) -> Seq<char> {
    "this node is running as pid "@ + decimal(pid as nat)
        + " and hiqlite holds an exclusive lock on "@ + dir
        + ". Stop it first, or use the loopback admin listener (RN_SITE__ADMIN_ADDR)"@
}

pub open spec fn no_such_person_message(needle: Seq<char>) -> Seq<char> {
    "no person is registered at "@ + needle + ", and it is not a person's public id"@
}

/// What an [`AdminError`] says to the operator.
pub open spec fn admin_message(e: AdminError) -> Seq<char> {
    match e {
        AdminError::Usage(m) => m@,
        AdminError::Locked { pid, dir } => locked_message(pid, dir@),
        AdminError::NoSuchPerson(n) => no_such_person_message(n@),
        AdminError::NoActor(m) => m@,
        AdminError::Command(m) => m@,
        AdminError::Store(m) => m@,
        AdminError::NotYet(m) => m@,
        AdminError::Refused(m) => m@,
    }
}

impl AdminError {
    /// A database failure, carrying what the database said.
    pub fn store(error: &str) -> (r: AdminError)
        ensures
            r matches AdminError::Store(m) && m@ == error@,
    {
        AdminError::Store(String::from_str(error))
    }

    /// The error as the operator reads it.
    pub fn message(&self) -> (r: String)
        ensures
            r@ == admin_message(*self),
    {
        match self {
            AdminError::Usage(m) | AdminError::NoActor(m) | AdminError::Command(m) | AdminError::Store(m)
            | AdminError::NotYet(m) | AdminError::Refused(m) => m.clone(),
            AdminError::Locked { pid, dir } => {
                let head = with_number(
                    "this node is running as pid ",
                    *pid as u64,
                    " and hiqlite holds an exclusive lock on ",
                );
                let r = concat(head.as_str(), dir.as_str());
                concat(r.as_str(), ". Stop it first, or use the loopback admin listener (RN_SITE__ADMIN_ADDR)")
            },
            AdminError::NoSuchPerson(n) => {
                let r = concat("no person is registered at ", n.as_str());
                concat(r.as_str(), ", and it is not a person's public id")
            },
        }
    }
}


pub const NEEDS_ACTOR: &'static str = "this action writes, so it needs --as <email>: the audit row has to name somebody";

/// Who an action runs as: a read runs as nobody, since there is no row for
/// an actor to appear on; a write runs as the `--as` address, and without
/// one it is refused, because a write with no actor is a row nobody can
/// account for.
pub fn actor_for(action: &Action, who: Option<&str>) -> (r: Result<Option<String>, AdminError>)
    ensures
        !is_write(action@) ==> r matches Ok(None),
        is_write(action@) ==> match who {
            Some(w) => r matches Ok(Some(a)) && a@ == w@,
            None => r matches Err(AdminError::Usage(m)) && m@ == NEEDS_ACTOR@,
        },
{
    if !action.writes() {
        return Ok(None);
    }
    match who {
        Some(w) => Ok(Some(String::from_str(w))),
        None => Err(AdminError::Usage(String::from_str(NEEDS_ACTOR))),
    }
}

/// The registration an `--as` address or public id was found to be: its
/// identity, its status, and the person it has resolved to, if any.
#[derive(Debug, Clone, PartialEq, Eq)]
pub struct IdentityFound {
    pub identity: i64,
    pub status: String,
    pub person: Option<i64>,
}

pub open spec fn inactive_message(who: Seq<char>, status: Seq<char>) -> Seq<char> {
    "the registration at "@ + who + " is "@ + status + ", so it cannot act"@
}

pub open spec fn unresolved_message(who: Seq<char>) -> Seq<char> {
    who + " has registered but has not resolved to a person yet, and authority is the person's"@
}

/// Who may act for an `--as` value, given what it was found to be, with
/// the value trimmed: nothing registered is no such person; a registration
/// that is not active, or that has resolved to no person, cannot act;
/// otherwise its identity acts as its person.
pub fn acting(who: &str, found: Option<IdentityFound>) -> (r: Result<(i64, i64), AdminError>)
    ensures
        match found {
            None => r matches Err(AdminError::NoSuchPerson(n)) && n@ == trim(who@),
            Some(f) => if f.status@ != "active"@ {
                r matches Err(AdminError::NoActor(m)) && m@ == inactive_message(trim(who@), f.status@)
            } else {
                match f.person {
                    None => r matches Err(AdminError::NoActor(m)) && m@ == unresolved_message(trim(who@)),
                    Some(p) => r == Ok::<(i64, i64), AdminError>((f.identity, p)),
                }
            },
        },
{
    let c = chars_of(who);
    let t = trimmed(&c);
    let w = string_of(&t, 0, t.len());
    assert(t@.subrange(0, t@.len() as int) =~= t@);
    let f = match found {
        None => return Err(AdminError::NoSuchPerson(w)),
        Some(f) => f,
    };
    if !same(f.status.as_str(), "active") {
        let mut m = concat("the registration at ", w.as_str());
        m.append(" is ");
        m.append(f.status.as_str());
        m.append(", so it cannot act");
        return Err(AdminError::NoActor(m));
    }
    match f.person {
        None => Err(AdminError::NoActor(concat(
            w.as_str(),
            " has registered but has not resolved to a person yet, and authority is the person's",
        ))),
        Some(p) => Ok((f.identity, p)),
    }
}

/// A session minted for the actor, or the refusal when the mint wrote no
/// row: the registration or the person it names was disabled meanwhile.
pub fn minted(who: &str, written: u64) -> (r: Result<(), AdminError>)
    ensures
        written > 0 ==> r is Ok,
        written == 0 ==> (r matches Err(AdminError::NoActor(m)) && m@ == trim(who@)
            + " cannot hold a session: the registration or the person it names is disabled"@),
{
    if written > 0 {
        return Ok(());
    }
    let c = chars_of(who);
    let t = trimmed(&c);
    let w = string_of(&t, 0, t.len());
    assert(t@.subrange(0, t@.len() as int) =~= t@);
    Err(AdminError::NoActor(concat(
        w.as_str(),
        " cannot hold a session: the registration or the person it names is disabled",
    )))
}

} // verus!
