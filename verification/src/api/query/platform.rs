//! Names and page bounds of the operator console's queries, which read the
//! whole deployment rather than one member's share of it.

use vstd::prelude::*;

use super::{Params, bounded};
use crate::text::{
    all_digits, decimal, digits_value, is_digit, is_prefix, lemma_decimal_digits, lemma_lex_is_numeric,
    lemma_zeros_then, lex_lt, pow10, push_zero_padded, repeat, same, u64_of, unsigned_of, zero_padded,
};

verus! {

/// Rows per console list when no limit is given.
pub const PAGE: usize = 200;

/// The most rows one console list may hold.
pub const MAX: usize = 1_000;

/// What the operator console can ask for.
#[derive(Debug, Clone, Copy, PartialEq, Eq, Structural)]
pub enum Platform {
    /// The change feed, latest entries first.
    Audit,
    /// What disabling a party would end.
    Cascade,
    /// Relying parties with their consents and last issuance.
    Clients,
    /// Consents granted.
    Consents,
    /// The feed's head and today's command count.
    Feed,
    /// The search box.
    Find,
    /// The registration list.
    Identities,
    /// A single registration drilled into.
    Identity,
    /// Signing keys and their ages.
    Keys,
    /// Invitations not yet used.
    Links,
    /// A single candidate drilled into.
    Match,
    /// Candidates waiting for a ruling.
    Matches,
    /// Per-node reports and the rollout verdict.
    Nodes,
    /// Relying parties the provider knows.
    OidcClients,
    /// Tokens under one session, drilled into by subject.
    OidcTokens,
    /// Holders of the operator relation.
    Operators,
    /// The party list.
    Parties,
    /// A single party drilled into.
    Party,
    /// A single resource drilled into.
    Resource,
    /// Registered resources.
    Resources,
    /// Sessions that have not expired.
    Sessions,
}

/// All of them.
pub const ALL: [Platform; 21] = [
    Platform::Audit, Platform::Cascade, Platform::Clients, Platform::Consents,
    Platform::Feed, Platform::Find, Platform::Identities, Platform::Identity,
    Platform::Keys, Platform::Links, Platform::Match, Platform::Matches,
    Platform::Nodes, Platform::OidcClients, Platform::OidcTokens, Platform::Operators,
    Platform::Parties, Platform::Party, Platform::Resource, Platform::Resources,
    Platform::Sessions,
];

pub open spec fn named_str_p(q: Platform) -> &'static str {
    if q == Platform::OidcClients { "oidc-clients" }
    else if q == Platform::OidcTokens { "oidc-tokens" }
    else if q == Platform::Audit { "platform-audit" }
    else if q == Platform::Cascade { "platform-cascade" }
    else if q == Platform::Clients { "platform-clients" }
    else if q == Platform::Consents { "platform-consents" }
    else if q == Platform::Feed { "platform-feed" }
    else if q == Platform::Find { "platform-find" }
    else if q == Platform::Identities { "platform-identities" }
    else if q == Platform::Identity { "platform-identity" }
    else if q == Platform::Keys { "platform-keys" }
    else if q == Platform::Links { "platform-links" }
    else if q == Platform::Match { "platform-match" }
    else if q == Platform::Matches { "platform-matches" }
    else if q == Platform::Nodes { "platform-nodes" }
    else if q == Platform::Operators { "platform-operators" }
    else if q == Platform::Parties { "platform-parties" }
    else if q == Platform::Party { "platform-party" }
    else if q == Platform::Resource { "platform-resource" }
    else if q == Platform::Resources { "platform-resources" }
    else { "platform-sessions" }
}

/// The platform query a name names, if this build serves one by that name.
pub open spec fn platform_of(raw: Seq<char>) -> Option<Platform> {
    if raw == "oidc-clients"@ { Some(Platform::OidcClients) }
    else if raw == "oidc-tokens"@ { Some(Platform::OidcTokens) }
    else if raw == "platform-audit"@ { Some(Platform::Audit) }
    else if raw == "platform-cascade"@ { Some(Platform::Cascade) }
    else if raw == "platform-clients"@ { Some(Platform::Clients) }
    else if raw == "platform-consents"@ { Some(Platform::Consents) }
    else if raw == "platform-feed"@ { Some(Platform::Feed) }
    else if raw == "platform-find"@ { Some(Platform::Find) }
    else if raw == "platform-identities"@ { Some(Platform::Identities) }
    else if raw == "platform-identity"@ { Some(Platform::Identity) }
    else if raw == "platform-keys"@ { Some(Platform::Keys) }
    else if raw == "platform-links"@ { Some(Platform::Links) }
    else if raw == "platform-match"@ { Some(Platform::Match) }
    else if raw == "platform-matches"@ { Some(Platform::Matches) }
    else if raw == "platform-nodes"@ { Some(Platform::Nodes) }
    else if raw == "platform-operators"@ { Some(Platform::Operators) }
    else if raw == "platform-parties"@ { Some(Platform::Parties) }
    else if raw == "platform-party"@ { Some(Platform::Party) }
    else if raw == "platform-resource"@ { Some(Platform::Resource) }
    else if raw == "platform-resources"@ { Some(Platform::Resources) }
    else if raw == "platform-sessions"@ { Some(Platform::Sessions) }
    else { None }
}

impl Platform {
    /// The route segment that names this query.
    pub fn as_str(self) -> (r: &'static str)
        ensures
            r == named_str_p(self),
    {
        if self == Platform::OidcClients { "oidc-clients" }
        else if self == Platform::OidcTokens { "oidc-tokens" }
        else if self == Platform::Audit { "platform-audit" }
        else if self == Platform::Cascade { "platform-cascade" }
        else if self == Platform::Clients { "platform-clients" }
        else if self == Platform::Consents { "platform-consents" }
        else if self == Platform::Feed { "platform-feed" }
        else if self == Platform::Find { "platform-find" }
        else if self == Platform::Identities { "platform-identities" }
        else if self == Platform::Identity { "platform-identity" }
        else if self == Platform::Keys { "platform-keys" }
        else if self == Platform::Links { "platform-links" }
        else if self == Platform::Match { "platform-match" }
        else if self == Platform::Matches { "platform-matches" }
        else if self == Platform::Nodes { "platform-nodes" }
        else if self == Platform::Operators { "platform-operators" }
        else if self == Platform::Parties { "platform-parties" }
        else if self == Platform::Party { "platform-party" }
        else if self == Platform::Resource { "platform-resource" }
        else if self == Platform::Resources { "platform-resources" }
        else { "platform-sessions" }
    }

    /// The query a route segment names, if any.
    pub fn parse(raw: &str) -> (r: Option<Platform>)
        ensures
            r == platform_of(raw@),
    {
        if same(raw, "oidc-clients") { Some(Platform::OidcClients) }
        else if same(raw, "oidc-tokens") { Some(Platform::OidcTokens) }
        else if same(raw, "platform-audit") { Some(Platform::Audit) }
        else if same(raw, "platform-cascade") { Some(Platform::Cascade) }
        else if same(raw, "platform-clients") { Some(Platform::Clients) }
        else if same(raw, "platform-consents") { Some(Platform::Consents) }
        else if same(raw, "platform-feed") { Some(Platform::Feed) }
        else if same(raw, "platform-find") { Some(Platform::Find) }
        else if same(raw, "platform-identities") { Some(Platform::Identities) }
        else if same(raw, "platform-identity") { Some(Platform::Identity) }
        else if same(raw, "platform-keys") { Some(Platform::Keys) }
        else if same(raw, "platform-links") { Some(Platform::Links) }
        else if same(raw, "platform-match") { Some(Platform::Match) }
        else if same(raw, "platform-matches") { Some(Platform::Matches) }
        else if same(raw, "platform-nodes") { Some(Platform::Nodes) }
        else if same(raw, "platform-operators") { Some(Platform::Operators) }
        else if same(raw, "platform-parties") { Some(Platform::Parties) }
        else if same(raw, "platform-party") { Some(Platform::Party) }
        else if same(raw, "platform-resource") { Some(Platform::Resource) }
        else if same(raw, "platform-resources") { Some(Platform::Resources) }
        else if same(raw, "platform-sessions") { Some(Platform::Sessions) }
        else { None }
    }
}

/// Every platform name reads back as the query that spells it, and each is
/// under the `platform-` prefix or, for the OpenID Provider's two lists, the
/// `oidc-` one.
pub proof fn lemma_platform_names(q: Platform)
    ensures
        platform_of(named_str_p(q)@) == Some(q),
        is_prefix("platform-"@, named_str_p(q)@) || is_prefix("oidc-"@, named_str_p(q)@),
{
    reveal_strlit("oidc-clients");
    reveal_strlit("oidc-tokens");
    reveal_strlit("platform-audit");
    reveal_strlit("platform-cascade");
    reveal_strlit("platform-clients");
    reveal_strlit("platform-consents");
    reveal_strlit("platform-feed");
    reveal_strlit("platform-find");
    reveal_strlit("platform-identities");
    reveal_strlit("platform-identity");
    reveal_strlit("platform-keys");
    reveal_strlit("platform-links");
    reveal_strlit("platform-match");
    reveal_strlit("platform-matches");
    reveal_strlit("platform-nodes");
    reveal_strlit("platform-operators");
    reveal_strlit("platform-parties");
    reveal_strlit("platform-party");
    reveal_strlit("platform-resource");
    reveal_strlit("platform-resources");
    reveal_strlit("platform-sessions");
    reveal_strlit("platform-");
    reveal_strlit("oidc-");
    match q {
        Platform::OidcClients => {  },
        Platform::OidcTokens => { assert("oidc-clients"@.len() != "oidc-tokens"@.len()); },
        Platform::Audit => { assert("oidc-clients"@.len() != "platform-audit"@.len()); assert("oidc-tokens"@.len() != "platform-audit"@.len()); },
        Platform::Cascade => { assert("oidc-clients"@.len() != "platform-cascade"@.len()); assert("oidc-tokens"@.len() != "platform-cascade"@.len()); assert("platform-audit"@.len() != "platform-cascade"@.len()); },
        Platform::Clients => { assert("oidc-clients"@.len() != "platform-clients"@.len()); assert("oidc-tokens"@.len() != "platform-clients"@.len()); assert("platform-audit"@.len() != "platform-clients"@.len()); assert("platform-cascade"@[10] != "platform-clients"@[10]); },
        Platform::Consents => { assert("oidc-clients"@.len() != "platform-consents"@.len()); assert("oidc-tokens"@.len() != "platform-consents"@.len()); assert("platform-audit"@.len() != "platform-consents"@.len()); assert("platform-cascade"@.len() != "platform-consents"@.len()); assert("platform-clients"@.len() != "platform-consents"@.len()); },
        Platform::Feed => { assert("oidc-clients"@.len() != "platform-feed"@.len()); assert("oidc-tokens"@.len() != "platform-feed"@.len()); assert("platform-audit"@.len() != "platform-feed"@.len()); assert("platform-cascade"@.len() != "platform-feed"@.len()); assert("platform-clients"@.len() != "platform-feed"@.len()); assert("platform-consents"@.len() != "platform-feed"@.len()); },
        Platform::Find => { assert("oidc-clients"@.len() != "platform-find"@.len()); assert("oidc-tokens"@.len() != "platform-find"@.len()); assert("platform-audit"@.len() != "platform-find"@.len()); assert("platform-cascade"@.len() != "platform-find"@.len()); assert("platform-clients"@.len() != "platform-find"@.len()); assert("platform-consents"@.len() != "platform-find"@.len()); assert("platform-feed"@[10] != "platform-find"@[10]); },
        Platform::Identities => { assert("oidc-clients"@.len() != "platform-identities"@.len()); assert("oidc-tokens"@.len() != "platform-identities"@.len()); assert("platform-audit"@.len() != "platform-identities"@.len()); assert("platform-cascade"@.len() != "platform-identities"@.len()); assert("platform-clients"@.len() != "platform-identities"@.len()); assert("platform-consents"@.len() != "platform-identities"@.len()); assert("platform-feed"@.len() != "platform-identities"@.len()); assert("platform-find"@.len() != "platform-identities"@.len()); },
        Platform::Identity => { assert("oidc-clients"@.len() != "platform-identity"@.len()); assert("oidc-tokens"@.len() != "platform-identity"@.len()); assert("platform-audit"@.len() != "platform-identity"@.len()); assert("platform-cascade"@.len() != "platform-identity"@.len()); assert("platform-clients"@.len() != "platform-identity"@.len()); assert("platform-consents"@[9] != "platform-identity"@[9]); assert("platform-feed"@.len() != "platform-identity"@.len()); assert("platform-find"@.len() != "platform-identity"@.len()); assert("platform-identities"@.len() != "platform-identity"@.len()); },
        Platform::Keys => { assert("oidc-clients"@.len() != "platform-keys"@.len()); assert("oidc-tokens"@.len() != "platform-keys"@.len()); assert("platform-audit"@.len() != "platform-keys"@.len()); assert("platform-cascade"@.len() != "platform-keys"@.len()); assert("platform-clients"@.len() != "platform-keys"@.len()); assert("platform-consents"@.len() != "platform-keys"@.len()); assert("platform-feed"@[9] != "platform-keys"@[9]); assert("platform-find"@[9] != "platform-keys"@[9]); assert("platform-identities"@.len() != "platform-keys"@.len()); assert("platform-identity"@.len() != "platform-keys"@.len()); },
        Platform::Links => { assert("oidc-clients"@.len() != "platform-links"@.len()); assert("oidc-tokens"@.len() != "platform-links"@.len()); assert("platform-audit"@[9] != "platform-links"@[9]); assert("platform-cascade"@.len() != "platform-links"@.len()); assert("platform-clients"@.len() != "platform-links"@.len()); assert("platform-consents"@.len() != "platform-links"@.len()); assert("platform-feed"@.len() != "platform-links"@.len()); assert("platform-find"@.len() != "platform-links"@.len()); assert("platform-identities"@.len() != "platform-links"@.len()); assert("platform-identity"@.len() != "platform-links"@.len()); assert("platform-keys"@.len() != "platform-links"@.len()); },
        Platform::Match => { assert("oidc-clients"@.len() != "platform-match"@.len()); assert("oidc-tokens"@.len() != "platform-match"@.len()); assert("platform-audit"@[9] != "platform-match"@[9]); assert("platform-cascade"@.len() != "platform-match"@.len()); assert("platform-clients"@.len() != "platform-match"@.len()); assert("platform-consents"@.len() != "platform-match"@.len()); assert("platform-feed"@.len() != "platform-match"@.len()); assert("platform-find"@.len() != "platform-match"@.len()); assert("platform-identities"@.len() != "platform-match"@.len()); assert("platform-identity"@.len() != "platform-match"@.len()); assert("platform-keys"@.len() != "platform-match"@.len()); assert("platform-links"@[9] != "platform-match"@[9]); },
        Platform::Matches => { assert("oidc-clients"@.len() != "platform-matches"@.len()); assert("oidc-tokens"@.len() != "platform-matches"@.len()); assert("platform-audit"@.len() != "platform-matches"@.len()); assert("platform-cascade"@[9] != "platform-matches"@[9]); assert("platform-clients"@[9] != "platform-matches"@[9]); assert("platform-consents"@.len() != "platform-matches"@.len()); assert("platform-feed"@.len() != "platform-matches"@.len()); assert("platform-find"@.len() != "platform-matches"@.len()); assert("platform-identities"@.len() != "platform-matches"@.len()); assert("platform-identity"@.len() != "platform-matches"@.len()); assert("platform-keys"@.len() != "platform-matches"@.len()); assert("platform-links"@.len() != "platform-matches"@.len()); assert("platform-match"@.len() != "platform-matches"@.len()); },
        Platform::Nodes => { assert("oidc-clients"@.len() != "platform-nodes"@.len()); assert("oidc-tokens"@.len() != "platform-nodes"@.len()); assert("platform-audit"@[9] != "platform-nodes"@[9]); assert("platform-cascade"@.len() != "platform-nodes"@.len()); assert("platform-clients"@.len() != "platform-nodes"@.len()); assert("platform-consents"@.len() != "platform-nodes"@.len()); assert("platform-feed"@.len() != "platform-nodes"@.len()); assert("platform-find"@.len() != "platform-nodes"@.len()); assert("platform-identities"@.len() != "platform-nodes"@.len()); assert("platform-identity"@.len() != "platform-nodes"@.len()); assert("platform-keys"@.len() != "platform-nodes"@.len()); assert("platform-links"@[9] != "platform-nodes"@[9]); assert("platform-match"@[9] != "platform-nodes"@[9]); assert("platform-matches"@.len() != "platform-nodes"@.len()); },
        Platform::Operators => { assert("oidc-clients"@.len() != "platform-operators"@.len()); assert("oidc-tokens"@.len() != "platform-operators"@.len()); assert("platform-audit"@.len() != "platform-operators"@.len()); assert("platform-cascade"@.len() != "platform-operators"@.len()); assert("platform-clients"@.len() != "platform-operators"@.len()); assert("platform-consents"@.len() != "platform-operators"@.len()); assert("platform-feed"@.len() != "platform-operators"@.len()); assert("platform-find"@.len() != "platform-operators"@.len()); assert("platform-identities"@.len() != "platform-operators"@.len()); assert("platform-identity"@.len() != "platform-operators"@.len()); assert("platform-keys"@.len() != "platform-operators"@.len()); assert("platform-links"@.len() != "platform-operators"@.len()); assert("platform-match"@.len() != "platform-operators"@.len()); assert("platform-matches"@.len() != "platform-operators"@.len()); assert("platform-nodes"@.len() != "platform-operators"@.len()); },
        Platform::Parties => { assert("oidc-clients"@.len() != "platform-parties"@.len()); assert("oidc-tokens"@.len() != "platform-parties"@.len()); assert("platform-audit"@.len() != "platform-parties"@.len()); assert("platform-cascade"@[9] != "platform-parties"@[9]); assert("platform-clients"@[9] != "platform-parties"@[9]); assert("platform-consents"@.len() != "platform-parties"@.len()); assert("platform-feed"@.len() != "platform-parties"@.len()); assert("platform-find"@.len() != "platform-parties"@.len()); assert("platform-identities"@.len() != "platform-parties"@.len()); assert("platform-identity"@.len() != "platform-parties"@.len()); assert("platform-keys"@.len() != "platform-parties"@.len()); assert("platform-links"@.len() != "platform-parties"@.len()); assert("platform-match"@.len() != "platform-parties"@.len()); assert("platform-matches"@[9] != "platform-parties"@[9]); assert("platform-nodes"@.len() != "platform-parties"@.len()); assert("platform-operators"@.len() != "platform-parties"@.len()); },
        Platform::Party => { assert("oidc-clients"@.len() != "platform-party"@.len()); assert("oidc-tokens"@.len() != "platform-party"@.len()); assert("platform-audit"@[9] != "platform-party"@[9]); assert("platform-cascade"@.len() != "platform-party"@.len()); assert("platform-clients"@.len() != "platform-party"@.len()); assert("platform-consents"@.len() != "platform-party"@.len()); assert("platform-feed"@.len() != "platform-party"@.len()); assert("platform-find"@.len() != "platform-party"@.len()); assert("platform-identities"@.len() != "platform-party"@.len()); assert("platform-identity"@.len() != "platform-party"@.len()); assert("platform-keys"@.len() != "platform-party"@.len()); assert("platform-links"@[9] != "platform-party"@[9]); assert("platform-match"@[9] != "platform-party"@[9]); assert("platform-matches"@.len() != "platform-party"@.len()); assert("platform-nodes"@[9] != "platform-party"@[9]); assert("platform-operators"@.len() != "platform-party"@.len()); assert("platform-parties"@.len() != "platform-party"@.len()); },
        Platform::Resource => { assert("oidc-clients"@.len() != "platform-resource"@.len()); assert("oidc-tokens"@.len() != "platform-resource"@.len()); assert("platform-audit"@.len() != "platform-resource"@.len()); assert("platform-cascade"@.len() != "platform-resource"@.len()); assert("platform-clients"@.len() != "platform-resource"@.len()); assert("platform-consents"@[9] != "platform-resource"@[9]); assert("platform-feed"@.len() != "platform-resource"@.len()); assert("platform-find"@.len() != "platform-resource"@.len()); assert("platform-identities"@.len() != "platform-resource"@.len()); assert("platform-identity"@[9] != "platform-resource"@[9]); assert("platform-keys"@.len() != "platform-resource"@.len()); assert("platform-links"@.len() != "platform-resource"@.len()); assert("platform-match"@.len() != "platform-resource"@.len()); assert("platform-matches"@.len() != "platform-resource"@.len()); assert("platform-nodes"@.len() != "platform-resource"@.len()); assert("platform-operators"@.len() != "platform-resource"@.len()); assert("platform-parties"@.len() != "platform-resource"@.len()); assert("platform-party"@.len() != "platform-resource"@.len()); },
        Platform::Resources => { assert("oidc-clients"@.len() != "platform-resources"@.len()); assert("oidc-tokens"@.len() != "platform-resources"@.len()); assert("platform-audit"@.len() != "platform-resources"@.len()); assert("platform-cascade"@.len() != "platform-resources"@.len()); assert("platform-clients"@.len() != "platform-resources"@.len()); assert("platform-consents"@.len() != "platform-resources"@.len()); assert("platform-feed"@.len() != "platform-resources"@.len()); assert("platform-find"@.len() != "platform-resources"@.len()); assert("platform-identities"@.len() != "platform-resources"@.len()); assert("platform-identity"@.len() != "platform-resources"@.len()); assert("platform-keys"@.len() != "platform-resources"@.len()); assert("platform-links"@.len() != "platform-resources"@.len()); assert("platform-match"@.len() != "platform-resources"@.len()); assert("platform-matches"@.len() != "platform-resources"@.len()); assert("platform-nodes"@.len() != "platform-resources"@.len()); assert("platform-operators"@[9] != "platform-resources"@[9]); assert("platform-parties"@.len() != "platform-resources"@.len()); assert("platform-party"@.len() != "platform-resources"@.len()); assert("platform-resource"@.len() != "platform-resources"@.len()); },
        Platform::Sessions => { assert("oidc-clients"@.len() != "platform-sessions"@.len()); assert("oidc-tokens"@.len() != "platform-sessions"@.len()); assert("platform-audit"@.len() != "platform-sessions"@.len()); assert("platform-cascade"@.len() != "platform-sessions"@.len()); assert("platform-clients"@.len() != "platform-sessions"@.len()); assert("platform-consents"@[9] != "platform-sessions"@[9]); assert("platform-feed"@.len() != "platform-sessions"@.len()); assert("platform-find"@.len() != "platform-sessions"@.len()); assert("platform-identities"@.len() != "platform-sessions"@.len()); assert("platform-identity"@[9] != "platform-sessions"@[9]); assert("platform-keys"@.len() != "platform-sessions"@.len()); assert("platform-links"@.len() != "platform-sessions"@.len()); assert("platform-match"@.len() != "platform-sessions"@.len()); assert("platform-matches"@.len() != "platform-sessions"@.len()); assert("platform-nodes"@.len() != "platform-sessions"@.len()); assert("platform-operators"@.len() != "platform-sessions"@.len()); assert("platform-parties"@.len() != "platform-sessions"@.len()); assert("platform-party"@.len() != "platform-sessions"@.len()); assert("platform-resource"@[9] != "platform-sessions"@[9]); assert("platform-resources"@.len() != "platform-sessions"@.len()); },
    }
    match q {
        Platform::OidcClients => { assert(named_str_p(q)@.subrange(0, 5) =~= "oidc-"@); },
        Platform::OidcTokens => { assert(named_str_p(q)@.subrange(0, 5) =~= "oidc-"@); },
        Platform::Audit => { assert(named_str_p(q)@.subrange(0, 9) =~= "platform-"@); },
        Platform::Cascade => { assert(named_str_p(q)@.subrange(0, 9) =~= "platform-"@); },
        Platform::Clients => { assert(named_str_p(q)@.subrange(0, 9) =~= "platform-"@); },
        Platform::Consents => { assert(named_str_p(q)@.subrange(0, 9) =~= "platform-"@); },
        Platform::Feed => { assert(named_str_p(q)@.subrange(0, 9) =~= "platform-"@); },
        Platform::Find => { assert(named_str_p(q)@.subrange(0, 9) =~= "platform-"@); },
        Platform::Identities => { assert(named_str_p(q)@.subrange(0, 9) =~= "platform-"@); },
        Platform::Identity => { assert(named_str_p(q)@.subrange(0, 9) =~= "platform-"@); },
        Platform::Keys => { assert(named_str_p(q)@.subrange(0, 9) =~= "platform-"@); },
        Platform::Links => { assert(named_str_p(q)@.subrange(0, 9) =~= "platform-"@); },
        Platform::Match => { assert(named_str_p(q)@.subrange(0, 9) =~= "platform-"@); },
        Platform::Matches => { assert(named_str_p(q)@.subrange(0, 9) =~= "platform-"@); },
        Platform::Nodes => { assert(named_str_p(q)@.subrange(0, 9) =~= "platform-"@); },
        Platform::Operators => { assert(named_str_p(q)@.subrange(0, 9) =~= "platform-"@); },
        Platform::Parties => { assert(named_str_p(q)@.subrange(0, 9) =~= "platform-"@); },
        Platform::Party => { assert(named_str_p(q)@.subrange(0, 9) =~= "platform-"@); },
        Platform::Resource => { assert(named_str_p(q)@.subrange(0, 9) =~= "platform-"@); },
        Platform::Resources => { assert(named_str_p(q)@.subrange(0, 9) =~= "platform-"@); },
        Platform::Sessions => { assert(named_str_p(q)@.subrange(0, 9) =~= "platform-"@); },
    }
}

/// An audit row's key: zero-padded to twenty digits, so a key-ordered map
/// reads chronologically.
pub fn offset_key(offset: u64) -> (r: String)
    ensures
        r@ == zero_padded(offset as nat, 20),
{
    let mut r = String::new();
    push_zero_padded(&mut r, offset, 20);
    assert(r@ =~= zero_padded(offset as nat, 20));
    r
}

/// A console list's row count: the asked limit, or the default, held to `1..=MAX`.
pub fn page(params: &Params) -> (r: i64)
    ensures
        r == bounded(params.limit, PAGE as int, MAX as int),
{
    let asked = match params.limit {
        Some(l) => l,
        None => PAGE,
    };
    let clamped = if asked < 1 { 1 } else if asked > MAX { MAX } else { asked };
    clamped as i64
}


proof fn lemma_offset_key_shape(n: u64)
    ensures
        zero_padded(n as nat, 20).len() == 20,
        all_digits(zero_padded(n as nat, 20)),
        digits_value(zero_padded(n as nat, 20)) == n,
{
    reveal_with_fuel(pow10, 21);
    assert(pow10(20) == 100000000000000000000nat);
    lemma_decimal_digits(n as nat, 20);
    let d = decimal(n as nat);
    if d.len() < 20 {
        let z = (20 - d.len()) as nat;
        lemma_zeros_then(z, d);
        let zp = repeat('0', z) + d;
        assert(all_digits(zp)) by {
            assert forall|i: int| 0 <= i < zp.len() implies is_digit(#[trigger] zp[i]) by {
                if i >= z { assert(zp[i] == d[i - z]); }
            }
        }
    }
}

/// Audit keys order as their offsets and read back as them: every key is
/// twenty digits, one key sorts before another exactly when its offset is
/// smaller, and parsing a key gives its offset back.
pub proof fn lemma_offset_keys_order_as_offsets(a: u64, b: u64)
    ensures
        zero_padded(a as nat, 20).len() == 20,
        lex_lt(zero_padded(a as nat, 20), zero_padded(b as nat, 20)) <==> a < b,
        u64_of(zero_padded(a as nat, 20)) == Some(a),
{
    lemma_offset_key_shape(a);
    lemma_offset_key_shape(b);
    let ka = zero_padded(a as nat, 20);
    lemma_lex_is_numeric(ka, zero_padded(b as nat, 20));
    assert(is_digit(ka[0]));
    assert(unsigned_of(ka, u64::MAX as int) == Some(a as int));
}
} // verus!
