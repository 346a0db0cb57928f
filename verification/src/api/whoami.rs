//! What the whoami surface calls somebody, and which tiers of the chrome
//! they reach. A tier comes from a relation, never from a column: every
//! session is a member; administering an organization opens its tier; and
//! the platform tier is the operator relation, on its own.

use vstd::prelude::*;

use crate::text::same;

pub mod name;

verus! {

/// A membership role, as the wire names it.
#[derive(Debug, Clone, Copy, PartialEq, Eq, Structural)]
pub enum MemberRole {
    Member,
    Admin,
    Owner,
}

/// A tier of the chrome, in the order the shell draws them.
#[derive(Debug, Clone, Copy, PartialEq, Eq, Structural)]
pub enum Tier {
    Member,
    Org,
    Platform,
}

/// One organization the principal belongs to, as the chrome lists it.
#[derive(Debug, Clone, PartialEq, Eq)]
pub struct OrganizationRef {
    pub public_id: String,
    pub display: String,
    pub role: MemberRole,
}

/// The role a wire name spells; a name this build does not know spells none,
/// rather than being rounded down to one it does.
pub open spec fn role_named(raw: Seq<char>) -> Option<MemberRole> {
    if raw == "member"@ {
        Some(MemberRole::Member)
    } else if raw == "admin"@ {
        Some(MemberRole::Admin)
    } else if raw == "owner"@ {
        Some(MemberRole::Owner)
    } else {
        None
    }
}

/// [`role_named`].
pub fn role(raw: &str) -> (r: Option<MemberRole>)
    ensures
        r == role_named(raw@),
{
    if same(raw, "member") {
        Some(MemberRole::Member)
    } else if same(raw, "admin") {
        Some(MemberRole::Admin)
    } else if same(raw, "owner") {
        Some(MemberRole::Owner)
    } else {
        None
    }
}

/// Whether a role administers its organization.
pub open spec fn operates(role: MemberRole) -> bool {
    role is Admin || role is Owner
}

/// The tiers a principal holds: member always, then org when it operates
/// at least one organization, then platform when it holds the operator
/// relation.
pub open spec fn tiers_of(organizations: Seq<OrganizationRef>, platform: bool) -> Seq<Tier> {
    let org = exists|i: int| 0 <= i < organizations.len() && operates(#[trigger] organizations[i].role);
    seq![Tier::Member] + (if org { seq![Tier::Org] } else { Seq::empty() })
        + (if platform { seq![Tier::Platform] } else { Seq::empty() })
}

/// [`tiers_of`], in shell order.
pub fn tiers(organizations: &[OrganizationRef], platform: bool) -> (r: Vec<Tier>)
    ensures
        r@ == tiers_of(organizations@, platform),
{
    let mut operating = false;
    let mut i: usize = 0;
    while i < organizations.len()
        invariant
            i <= organizations@.len(),
            operating == exists|j: int| 0 <= j < i && operates(#[trigger] organizations@[j].role),
        decreases organizations@.len() - i,
    {
        let held = match organizations[i].role {
            MemberRole::Admin | MemberRole::Owner => true,
            MemberRole::Member => false,
        };
        operating = operating || held;
        i = i + 1;
    }
    let mut out = vec![Tier::Member];
    if operating {
        out.push(Tier::Org);
    }
    if platform {
        out.push(Tier::Platform);
    }
    assert(out@ =~= tiers_of(organizations@, platform));
    out
}

/// Every session reaches the member tier and reaches it first; the org tier
/// needs an organization the principal administers, and membership alone
/// never opens it; the platform tier needs the operator relation and
/// nothing else.
pub proof fn lemma_tiers_come_from_relations(organizations: Seq<OrganizationRef>, platform: bool)
    ensures
        tiers_of(organizations, platform)[0] == Tier::Member,
        tiers_of(organizations, platform).contains(Tier::Platform) <==> platform,
        (forall|i: int| 0 <= i < organizations.len() ==> #[trigger] organizations[i].role == MemberRole::Member)
            ==> !tiers_of(organizations, platform).contains(Tier::Org),
{
    let t = tiers_of(organizations, platform);
    let org = exists|i: int| 0 <= i < organizations.len() && operates(#[trigger] organizations[i].role);
    if platform {
        assert(t[t.len() - 1] == Tier::Platform);
    }
    if !platform {
        assert forall|i: int| 0 <= i < t.len() implies t[i] != Tier::Platform by {
            if org && i == 1 {
                assert(t[1] == Tier::Org);
            }
        }
    }
    if forall|i: int| 0 <= i < organizations.len() ==> #[trigger] organizations[i].role == MemberRole::Member {
        assert(!org);
        assert forall|i: int| 0 <= i < t.len() implies t[i] != Tier::Org by {}
    }
}

} // verus!
