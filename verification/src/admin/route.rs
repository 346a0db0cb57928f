//! The loopback admin listener's requests: query parameters read into the
//! same [`Action`] the command line builds, and the status each refusal is
//! answered with.

use vstd::prelude::*;

use super::{Action, ActionSpec, AdminError, opt_view};
use crate::text::{chars_of, concat, string_of, trim, trimmed};

verus! {

/// What every action takes: who is accountable, and the action's own fields.
#[derive(Debug, Clone, PartialEq, Eq)]
pub struct AdminParams {
    /// `--as`, spelled `?as=` on a query string.
    pub who: Option<String>,
    /// An address or a public id, for the actions that name a person.
    pub person: Option<String>,
    /// A session's public id.
    pub session: Option<String>,
    /// A product slug.
    pub slug: Option<String>,
    /// Why, for the two delegations.
    pub reason: Option<String>,
    /// How many audit rows.
    pub tail: Option<usize>,
}

/// A parameter's trimmed value, when it has one that is not blank.
pub open spec fn present(value: Option<Seq<char>>) -> Option<Seq<char>> {
    match value {
        Some(v) => if trim(v).len() > 0 { Some(trim(v)) } else { None },
        None => None,
    }
}

/// A parameter this action cannot run without, or the name it is missing.
pub fn required(value: &Option<String>, name: &'static str) -> (r: Result<String, &'static str>)
    ensures
        match present(opt_view(*value)) {
            Some(v) => r matches Ok(s) && s@ == v,
            None => r == Err::<String, &'static str>(name),
        },
{
    if let Some(v) = value {
        let c = chars_of(v.as_str());
        let t = trimmed(&c);
        if t.len() > 0 {
            let s = string_of(&t, 0, t.len());
            assert(t@.subrange(0, t@.len() as int) =~= t@);
            return Ok(s);
        }
    }
    Err(name)
}

/// The audit action: `?tail=`, or a screenful.
pub fn audit(params: &AdminParams) -> (r: Action)
    ensures
        r@ == (ActionSpec::Audit { tail: match params.tail { Some(t) => t, None => 20 } }),
{
    Action::Audit { tail: match params.tail { Some(t) => t, None => 20 } }
}

/// A delegation, granting or revoking: it wants `?person=` and then
/// `?reason=`, and names the first one missing.
pub fn delegate(params: &AdminParams, grant: bool) -> (r: Result<Action, &'static str>)
    ensures
        match (present(opt_view(params.person)), present(opt_view(params.reason))) {
            (Some(p), Some(why)) => r matches Ok(a) && a@ == if grant {
                ActionSpec::GrantOperator { person: p, reason: why }
            } else {
                ActionSpec::RevokeOperator { person: p, reason: why }
            },
            (None, _) => r == Err::<Action, &'static str>("person"),
            (Some(_), None) => r == Err::<Action, &'static str>("reason"),
        },
{
    let person = required(&params.person, "person");
    let reason = required(&params.reason, "reason");
    match (person, reason) {
        (Ok(person), Ok(reason)) => Ok(if grant {
            Action::GrantOperator { person, reason }
        } else {
            Action::RevokeOperator { person, reason }
        }),
        (Err(missing), _) => Err(missing),
        (_, Err(missing)) => Err(missing),
    }
}

/// Switching a product: it wants `?slug=`.
pub fn product(params: &AdminParams, enabled: bool) -> (r: Result<Action, &'static str>)
    ensures
        match present(opt_view(params.slug)) {
            Some(s) => r matches Ok(a) && a@ == (ActionSpec::SetProduct { slug: s, enabled }),
            None => r == Err::<Action, &'static str>("slug"),
        },
{
    let slug = required(&params.slug, "slug")?;
    Ok(Action::SetProduct { slug, enabled })
}

/// Ending a session: it wants `?session=`.
pub fn revoke_session(params: &AdminParams) -> (r: Result<Action, &'static str>)
    ensures
        match present(opt_view(params.session)) {
            Some(s) => r matches Ok(a) && a@ == (ActionSpec::RevokeSession { session: s }),
            None => r == Err::<Action, &'static str>("session"),
        },
{
    let session = required(&params.session, "session")?;
    Ok(Action::RevokeSession { session })
}

/// The HTTP status a refusal is answered with. These are named, unlike
/// everything on the public surface: there is no stranger on this socket.
pub open spec fn status_of(e: AdminError) -> u16 {
    match e {
        AdminError::Usage(_) => 400,
        AdminError::NoSuchPerson(_) => 404,
        AdminError::NotYet(_) => 501,
        AdminError::Command(_) | AdminError::NoActor(_) | AdminError::Refused(_) => 403,
        AdminError::Locked { .. } | AdminError::Store(_) => 500,
    }
}

/// [`status_of`].
pub fn status(error: &AdminError) -> (r: u16)
    ensures
        r == status_of(*error),
{
    match error {
        AdminError::Usage(_) => 400,
        AdminError::NoSuchPerson(_) => 404,
        AdminError::NotYet(_) => 501,
        AdminError::Command(_) | AdminError::NoActor(_) | AdminError::Refused(_) => 403,
        AdminError::Locked { .. } | AdminError::Store(_) => 500,
    }
}


/// What a request that left a parameter out is told: the parameter, spelled
/// as the query string wants it.
pub fn wanted(name: &str) -> (r: String)
    ensures
        r@ == "this action wants ?"@ + name@ + "="@,
{
    let mut r = concat("this action wants ?", name);
    r.append("=");
    r
}

} // verus!
