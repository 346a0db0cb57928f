//! `GET /api/q/<name>`: which names the read side serves, and what a query
//! was asked for.

pub mod delta;
pub mod platform;
pub mod platform_filters;
pub mod platform_find;
pub mod platform_keys;
pub mod platform_links;
pub mod platform_nodes;
pub mod platform_statements;

use vstd::prelude::*;

use crate::text::{chars_of, parse_u64, parse_usize, same, u64_of, usize_of};

verus! {

/// Rows per audit page when the caller names no limit.
pub const AUDIT_PAGE: usize = 100;

/// The most audit rows one page may hold.
pub const AUDIT_MAX: usize = 500;

/// What a member can ask the read side for.
#[derive(Debug, Clone, Copy, PartialEq, Eq, Structural)]
pub enum Named {
    /// The caller's own devices.
    Sessions,
    /// Registrations resolved onto the caller, with their factors.
    Identities,
    /// The caller's own history, paged forward by offset.
    Audit,
    /// Groups the caller is in.
    Groups,
    /// The people in those groups.
    GroupMembers,
    /// Invitations the caller sent.
    Invitations,
    /// Documents the caller can reach.
    Documents,
    /// One document, whole; the one query that names a row.
    Document,
    /// Grants on the caller's documents.
    Shares,
    /// Pairings proposed on the caller's registrations.
    Matches,
}

/// How a live subscription follows a query.
#[derive(Debug, Clone, Copy, PartialEq, Eq, Structural)]
pub enum Scope {
    /// The event names the keys that moved.
    Identity,
    /// A set others share: re-read whole and compared with what was sent.
    Shared,
    /// Takes a row, so nothing subscribes to it.
    Once,
}

/// All of them, for tests that walk the vocabulary.
pub const ALL: [Named; 10] = [
    Named::Audit, Named::Document, Named::Documents, Named::GroupMembers,
    Named::Groups, Named::Identities, Named::Invitations, Named::Matches,
    Named::Sessions, Named::Shares,
];

pub open spec fn named_str(q: Named) -> &'static str {
    if q == Named::Sessions { "sessions" }
    else if q == Named::Identities { "identities" }
    else if q == Named::Audit { "audit" }
    else if q == Named::Groups { "groups" }
    else if q == Named::GroupMembers { "group-members" }
    else if q == Named::Invitations { "invitations" }
    else if q == Named::Documents { "documents" }
    else if q == Named::Document { "document" }
    else if q == Named::Shares { "shares" }
    else { "matches" }
}

pub open spec fn named_scope(q: Named) -> Scope {
    match q {
        Named::Sessions | Named::Identities | Named::Audit => Scope::Identity,
        Named::Document => Scope::Once,
        _ => Scope::Shared,
    }
}

/// The query a name names, if this build serves one by that name. The
/// document list is not served by name: `documents` is refused like any
/// other name this build does not serve.
pub open spec fn named_of(raw: Seq<char>) -> Option<Named> {
    if raw == "sessions"@ { Some(Named::Sessions) }
    else if raw == "identities"@ { Some(Named::Identities) }
    else if raw == "audit"@ { Some(Named::Audit) }
    else if raw == "groups"@ { Some(Named::Groups) }
    else if raw == "group-members"@ { Some(Named::GroupMembers) }
    else if raw == "invitations"@ { Some(Named::Invitations) }
    else if raw == "document"@ { Some(Named::Document) }
    else if raw == "shares"@ { Some(Named::Shares) }
    else if raw == "matches"@ { Some(Named::Matches) }
    else { None }
}

impl Named {
    /// The `<name>` in `/api/q/<name>`.
    pub fn as_str(self) -> (r: &'static str)
        ensures
            r == named_str(self),
    {
        if self == Named::Sessions { "sessions" }
        else if self == Named::Identities { "identities" }
        else if self == Named::Audit { "audit" }
        else if self == Named::Groups { "groups" }
        else if self == Named::GroupMembers { "group-members" }
        else if self == Named::Invitations { "invitations" }
        else if self == Named::Documents { "documents" }
        else if self == Named::Document { "document" }
        else if self == Named::Shares { "shares" }
        else { "matches" }
    }

    /// How a subscription keeps this query up to date.
    pub fn scope(self) -> (r: Scope)
        ensures
            r == named_scope(self),
    {
        match self {
            Named::Sessions | Named::Identities | Named::Audit => Scope::Identity,
            Named::Document => Scope::Once,
            _ => Scope::Shared,
        }
    }

    /// Read a name, refusing anything not served.
    pub fn parse(raw: &str) -> (r: Option<Named>)
        ensures
            r == named_of(raw@),
    {
        if same(raw, "sessions") { Some(Named::Sessions) }
        else if same(raw, "identities") { Some(Named::Identities) }
        else if same(raw, "audit") { Some(Named::Audit) }
        else if same(raw, "groups") { Some(Named::Groups) }
        else if same(raw, "group-members") { Some(Named::GroupMembers) }
        else if same(raw, "invitations") { Some(Named::Invitations) }
        else if same(raw, "document") { Some(Named::Document) }
        else if same(raw, "shares") { Some(Named::Shares) }
        else if same(raw, "matches") { Some(Named::Matches) }
        else { None }
    }
}

/// Every served name reads back as the query that spells it, so no name is
/// served twice and each spells itself the same way every time; the
/// document list's name is the one name that is not served.
pub proof fn lemma_named_round_trip(q: Named)
    ensures
        q != Named::Documents ==> named_of(named_str(q)@) == Some(q),
        q == Named::Documents ==> named_of(named_str(q)@) is None,
{
    reveal_strlit("sessions");
    reveal_strlit("identities");
    reveal_strlit("audit");
    reveal_strlit("groups");
    reveal_strlit("group-members");
    reveal_strlit("invitations");
    reveal_strlit("documents");
    reveal_strlit("document");
    reveal_strlit("shares");
    reveal_strlit("matches");
    match q {
        Named::Sessions => {  },
        Named::Identities => { assert("sessions"@.len() != "identities"@.len()); },
        Named::Audit => { assert("sessions"@.len() != "audit"@.len()); assert("identities"@.len() != "audit"@.len()); },
        Named::Groups => { assert("sessions"@.len() != "groups"@.len()); assert("identities"@.len() != "groups"@.len()); assert("audit"@.len() != "groups"@.len()); },
        Named::GroupMembers => { assert("sessions"@.len() != "group-members"@.len()); assert("identities"@.len() != "group-members"@.len()); assert("audit"@.len() != "group-members"@.len()); assert("groups"@.len() != "group-members"@.len()); },
        Named::Invitations => { assert("sessions"@.len() != "invitations"@.len()); assert("identities"@.len() != "invitations"@.len()); assert("audit"@.len() != "invitations"@.len()); assert("groups"@.len() != "invitations"@.len()); assert("group-members"@.len() != "invitations"@.len()); },
        Named::Documents => { assert("sessions"@.len() != "documents"@.len()); assert("identities"@.len() != "documents"@.len()); assert("audit"@.len() != "documents"@.len()); assert("groups"@.len() != "documents"@.len()); assert("group-members"@.len() != "documents"@.len()); assert("invitations"@.len() != "documents"@.len()); },
        Named::Document => { assert("sessions"@[0] != "document"@[0]); assert("identities"@.len() != "document"@.len()); assert("audit"@.len() != "document"@.len()); assert("groups"@.len() != "document"@.len()); assert("group-members"@.len() != "document"@.len()); assert("invitations"@.len() != "document"@.len()); assert("documents"@.len() != "document"@.len()); },
        Named::Shares => { assert("sessions"@.len() != "shares"@.len()); assert("identities"@.len() != "shares"@.len()); assert("audit"@.len() != "shares"@.len()); assert("groups"@[0] != "shares"@[0]); assert("group-members"@.len() != "shares"@.len()); assert("invitations"@.len() != "shares"@.len()); assert("documents"@.len() != "shares"@.len()); assert("document"@.len() != "shares"@.len()); },
        Named::Matches => { assert("sessions"@.len() != "matches"@.len()); assert("identities"@.len() != "matches"@.len()); assert("audit"@.len() != "matches"@.len()); assert("groups"@.len() != "matches"@.len()); assert("group-members"@.len() != "matches"@.len()); assert("invitations"@.len() != "matches"@.len()); assert("documents"@.len() != "matches"@.len()); assert("document"@.len() != "matches"@.len()); assert("shares"@.len() != "matches"@.len()); },
    }
}

/// The parameters a member query reads.
#[derive(Debug, Clone, PartialEq, Eq)]
pub struct Params {
    /// `audit`: the offset already seen.
    pub after: u64,
    /// `audit`: how many rows to return.
    pub limit: Option<usize>,
    /// `document`: which row, as a public id, validated where it is decoded.
    pub id: Option<String>,
}

/// The longest `id` value worth carrying, in bytes: a public id is a short
/// prefix and 24 base64url characters.
pub const ID_MAX: usize = 32;

/// Parameters as the specifications speak of them.
pub struct ParamsSpec {
    pub after: u64,
    pub limit: Option<usize>,
    pub id: Option<Seq<char>>,
}

pub open spec fn params_view(p: Params) -> ParamsSpec {
    ParamsSpec {
        after: p.after,
        limit: p.limit,
        id: match p.id { Some(s) => Some(s@), None => None },
    }
}

/// One pair applied to what was read so far. An `after` that is not a
/// number is zero, a `limit` that is not one is absent, and an `id` longer
/// than [`ID_MAX`] bytes is ignored, as is every other name.
pub open spec fn applied(p: ParamsSpec, name: Seq<char>, value: &str) -> ParamsSpec {
    if name == "after"@ {
        ParamsSpec { after: match u64_of(value@) { Some(v) => v, None => 0 }, ..p }
    } else if name == "limit"@ {
        ParamsSpec { limit: usize_of(value@), ..p }
    } else if name == "id"@ && value.len() <= ID_MAX {
        ParamsSpec { id: Some(value@), ..p }
    } else {
        p
    }
}

/// The pairs read left to right from the defaults; a later pair overrides an
/// earlier one of the same name.
pub open spec fn read_pairs(pairs: Seq<(&str, &str)>) -> ParamsSpec
    decreases pairs.len(),
{
    if pairs.len() == 0 {
        ParamsSpec { after: 0, limit: None, id: None }
    } else {
        applied(read_pairs(pairs.drop_last()), pairs.last().0@, pairs.last().1)
    }
}

/// `limit`, defaulted to a page and held to `1..=max`.
pub open spec fn bounded(limit: Option<usize>, default: int, max: int) -> int {
    let asked = match limit { Some(l) => l as int, None => default };
    if asked < 1 { 1 } else if asked > max { max } else { asked }
}

impl Params {
    /// No parameters at all.
    pub fn new() -> (r: Params)
        ensures
            params_view(r) == (ParamsSpec { after: 0, limit: None, id: None }),
    {
        Params { after: 0, limit: None, id: None }
    }

    /// Read the parameters out of a query string's pairs.
    pub fn from_pairs(pairs: &[(&str, &str)]) -> (r: Params)
        ensures
            params_view(r) == read_pairs(pairs@),
    {
        let mut params = Params::new();
        let mut i: usize = 0;
        assert(pairs@.take(0) =~= Seq::<(&str, &str)>::empty());
        while i < pairs.len()
            invariant
                i <= pairs@.len(),
                params_view(params) == read_pairs(pairs@.take(i as int)),
            decreases pairs@.len() - i,
        {
            let (name, value) = pairs[i];
            assert(pairs@.take(i + 1).drop_last() =~= pairs@.take(i as int));
            assert(pairs@.take(i + 1).last() == pairs@[i as int]);
            if same(name, "after") {
                let digits = chars_of(value);
                params.after = match parse_u64(&digits) {
                    Some(v) => v,
                    None => 0,
                };
            } else if same(name, "limit") {
                let digits = chars_of(value);
                params.limit = parse_usize(&digits);
            } else if same(name, "id") && value.len() <= ID_MAX {
                params.id = Some(value.to_owned());
            }
            i = i + 1;
        }
        assert(pairs@.take(pairs@.len() as int) =~= pairs@);
        params
    }

    /// How many audit rows to return, bounded however it was asked for.
    pub fn page(&self) -> (r: i64)
        ensures
            r == bounded(self.limit, AUDIT_PAGE as int, AUDIT_MAX as int),
    {
        let asked = match self.limit {
            Some(l) => l,
            None => AUDIT_PAGE,
        };
        let clamped = if asked < 1 { 1 } else if asked > AUDIT_MAX { AUDIT_MAX } else { asked };
        clamped as i64
    }
}

impl Default for Params {
    fn default() -> (r: Params)
        ensures
            params_view(r) == (ParamsSpec { after: 0, limit: None, id: None }),
    {
        Params::new()
    }
}


/// However a page was asked for, it is at least one row and at most the
/// largest page, for the member audit and for the platform lists alike.
pub proof fn lemma_pages_bounded(limit: Option<usize>)
    ensures
        1 <= bounded(limit, AUDIT_PAGE as int, AUDIT_MAX as int) <= AUDIT_MAX,
        1 <= bounded(limit, platform::PAGE as int, platform::MAX as int) <= platform::MAX,
{
}

} // verus!
