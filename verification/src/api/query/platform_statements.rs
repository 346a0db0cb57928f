//! Every statement the console's queries run, each with its name and with
//! parameters shaped like the ones a request supplies, so that a test that
//! asks the database how it would run each one can reach all of them: one
//! statement per list, and every statement a drill-in reads.

use vstd::prelude::*;

use super::platform::PAGE;
use super::platform_filters::{BY_ACTOR, BY_COMMAND, BY_HAT, BY_OBJECT, BY_TIME, TAIL, Value, ValueSpec, values_view};

verus! {

/// The statement behind `parties.list`.
pub const PARTIES_PARTIES: &'static str = "SELECT id, kind, display_name, handle, status, created_at \
                        FROM party ORDER BY id DESC LIMIT $1";

/// The statement behind `parties.one`.
pub const PARTIES_ONE: &'static str = "SELECT id, kind, display_name, handle, status, created_at FROM party WHERE id = $1";

/// The statement behind `parties.identities`.
pub const PARTIES_IDENTITIES: &'static str = "SELECT id, source, home_zone, status, created_at FROM identity \
                          WHERE person_id = $1 ORDER BY id";

/// The statement behind `parties.memberships`.
pub const PARTIES_MEMBERSHIPS: &'static str = "SELECT m.group_id, m.role, m.at, p.kind, p.display_name \
                           FROM membership m JOIN party p ON p.id = m.group_id \
                           WHERE m.party_id = $1 ORDER BY p.display_name";

/// The statement behind `parties.owned`.
pub const PARTIES_OWNED: &'static str = "SELECT id, kind, status, created_at FROM resource \
                     WHERE owner_party_id = $1 ORDER BY id DESC LIMIT $2";

/// The statement behind `parties.as_subject`.
pub const PARTIES_AS_SUBJECT: &'static str = "SELECT object_kind, object_id, relation, at FROM relation \
                          WHERE subject_key = $1 ORDER BY id";

/// The statement behind `identities.list`.
pub const IDENTITIES_IDENTITIES: &'static str = "SELECT i.id, i.source, i.home_zone, i.person_id, i.status, \
                                 i.created_at, p.display_name AS person_display \
                          FROM identity i LEFT JOIN party p ON p.id = i.person_id \
                          ORDER BY i.id DESC LIMIT $1";

/// The statement behind `identities.one`.
pub const IDENTITIES_ONE: &'static str = "SELECT i.id, i.source, i.home_zone, i.person_id, i.status, \
                          i.created_at, p.display_name AS person_display \
                   FROM identity i LEFT JOIN party p ON p.id = i.person_id WHERE i.id = $1";

/// The statement behind `identities.factors_of_page`.
pub const IDENTITIES_FACTORS_OF_PAGE: &'static str = "SELECT f.identity_id, f.id, f.kind, f.verified_at, f.value FROM factor f \
     WHERE f.identity_id IN (SELECT id FROM identity ORDER BY id DESC LIMIT $1)";

/// The statement behind `identities.factors_of_one`.
pub const IDENTITIES_FACTORS_OF_ONE: &'static str = "SELECT f.identity_id, f.id, f.kind, f.verified_at, f.value \
                              FROM factor f WHERE f.identity_id = $1 ORDER BY f.id";

/// The statement behind `identities.sessions`.
pub const IDENTITIES_SESSIONS: &'static str = "SELECT s.id, s.acting_as, s.created_at, s.last_seen_at, s.expires_at, \
                               a.kind AS acting_kind, a.display_name AS acting_display \
                        FROM session s JOIN party a ON a.id = s.acting_as \
                        WHERE s.identity_id = $1 ORDER BY s.id DESC";

/// The statement behind `identities.candidates`.
pub const IDENTITIES_CANDIDATES: &'static str = "SELECT id, identity_a, identity_b, signal, score, status, created_at \
                          FROM match_candidate \
                          WHERE identity_a = $1 OR identity_b = $1 ORDER BY id DESC";

/// The statement behind `sessions.list`.
pub const SESSIONS_SESSIONS: &'static str = "SELECT s.id, s.identity_id, s.acting_as, s.created_at, s.last_seen_at, \
                               s.expires_at, a.kind AS acting_kind, \
                               a.display_name AS acting_display, \
                               p.display_name AS person_display \
                        FROM session s \
                        JOIN party a ON a.id = s.acting_as \
                        JOIN identity i ON i.id = s.identity_id \
                        LEFT JOIN party p ON p.id = i.person_id \
                        ORDER BY s.id DESC LIMIT $1";

/// The statement behind `matches.list`.
pub const MATCHES_QUEUE: &'static str = "SELECT c.id, c.identity_a, c.identity_b, c.signal, c.score, c.status, \
                            c.created_at \
                     FROM match_candidate c ORDER BY c.id DESC LIMIT $1";

/// The statement behind `matches.one`.
pub const MATCHES_ONE: &'static str = "SELECT id, identity_a, identity_b, signal, score, status, created_at \
                   FROM match_candidate WHERE id = $1";

/// The statement behind `matches.person_of`.
pub const MATCHES_PERSON_OF: &'static str = "SELECT i.id, i.person_id, p.display_name \
                         FROM identity i LEFT JOIN party p ON p.id = i.person_id \
                         WHERE i.id = $1";

/// The statement behind `matches.links`.
pub const MATCHES_LINKS: &'static str = "SELECT l.identity_id, l.person_id, l.method, l.evidence, l.asserted_by, \
                            l.from_person_id, l.at \
                     FROM person_link l WHERE l.identity_id IN ($1, $2) ORDER BY l.id";

/// The statement behind `matches.alias`.
pub const MATCHES_ALIAS: &'static str = "SELECT old_person_id, person_id, at FROM person_alias \
                     WHERE old_person_id IN ($1, $2) OR person_id IN ($1, $2) \
                     ORDER BY old_person_id";

/// The statement behind `resources.list`.
pub const RESOURCES_RESOURCES: &'static str = "SELECT r.id, r.kind, r.owner_party_id, r.home_zone, r.status, \
                                r.created_at, o.kind AS owner_kind, \
                                o.display_name AS owner_display \
                         FROM resource r JOIN party o ON o.id = r.owner_party_id \
                         ORDER BY r.id DESC LIMIT $1";

/// The statement behind `resources.one`.
pub const RESOURCES_ONE: &'static str = "SELECT r.id, r.kind, r.owner_party_id, r.home_zone, r.status, r.created_at, \
                          o.kind AS owner_kind, o.display_name AS owner_display \
                   FROM resource r JOIN party o ON o.id = r.owner_party_id WHERE r.id = $1";

/// The statement behind `resources.party_of`.
pub const RESOURCES_PARTY_OF: &'static str = "SELECT party_id AS n FROM party_resource WHERE resource_id = $1";

/// The statement behind `resources.as_object`.
pub const RESOURCES_AS_OBJECT: &'static str = "SELECT relation, subject_kind, subject_id, at FROM relation \
                         WHERE object_kind = $1 AND object_id = $2 ORDER BY id";

/// The statement behind `find.by_handle`.
pub const FIND_BY_HANDLE: &'static str = "SELECT id, kind, display_name, status, handle, created_at FROM party WHERE handle = $1";

/// The statement behind `find.by_email`.
pub const FIND_BY_EMAIL: &'static str = "SELECT p.id, p.kind, p.display_name, p.status, p.handle, \
       p.created_at \
     FROM factor f JOIN identity i ON i.id = f.identity_id \
     JOIN party p ON p.id = i.person_id \
     WHERE f.kind = 'email' AND f.value = $1";

/// The statement behind `find.by_id`.
pub const FIND_BY_ID: &'static str = "SELECT id, kind, display_name, status, handle, created_at FROM party WHERE id = $1";

/// The statement behind `find.person_of_identity`.
pub const FIND_PERSON_OF_IDENTITY: &'static str = "SELECT p.id, p.kind, p.display_name, p.status, \
       p.handle, p.created_at \
     FROM identity i JOIN party p ON p.id = i.person_id WHERE i.id = $1";

/// The statement behind `keys.list`.
pub const KEYS_KEYS: &'static str = "SELECT id, kid, status, created_at, retired_at FROM oidc_key ORDER BY id DESC LIMIT $1";

/// The statement behind `clients.list`.
pub const KEYS_CLIENTS: &'static str = "SELECT c.id, c.owner_party_id, c.client_name, c.client_uri, \
       c.redirect_uris, c.token_endpoint_auth_method, c.scopes, c.trusted, c.members_only, \
       c.created_at, c.rotated_at, c.deleted_at, o.display_name AS owner_display, \
       (SELECT count(*) FROM oidc_consent k WHERE k.client_id = c.id) AS consents, \
       (SELECT max(t.created_at) FROM oidc_token t WHERE t.client_id = c.id) AS last_issued, \
       (SELECT count(*) FROM oidc_token t WHERE t.client_id = c.id \
          AND t.expires_at > $1 AND t.revoked_at IS NULL) AS live_tokens \
     FROM oidc_client c LEFT JOIN party o ON o.id = c.owner_party_id \
     ORDER BY c.id DESC LIMIT $2";

/// The statement behind `links.list`.
pub const LINKS_LINKS: &'static str = "SELECT l.id, l.expires_at, l.claimed_at, l.suspended_at, \
       l.created_at, r.object_kind, r.object_id, r.relation, \
       container.display_name AS container_display, \
       minter.display_name AS minted_display, \
       claimer.display_name AS claimed_display \
     FROM link l \
     JOIN relation r ON r.id = (SELECT id FROM relation \
         WHERE subject_kind = 'link' AND subject_id = l.id LIMIT 1) \
     LEFT JOIN party container ON container.id = r.object_id \
     LEFT JOIN identity minted_by ON minted_by.id = r.granted_by \
     LEFT JOIN party minter ON minter.id = minted_by.person_id \
     LEFT JOIN identity claimed_by ON claimed_by.id = l.claimed_by_identity_id \
     LEFT JOIN party claimer ON claimer.id = claimed_by.person_id \
     WHERE l.verifies_factor_id IS NULL \
     ORDER BY l.id DESC LIMIT $1";

/// The statement behind `consents.list`.
pub const LINKS_CONSENTS: &'static str = "SELECT k.client_id, k.person_id, k.scopes, k.at, \
       c.client_name, p.display_name AS person_display, p.handle \
     FROM oidc_consent k \
     JOIN oidc_client c ON c.id = k.client_id \
     JOIN party p ON p.id = k.person_id \
     ORDER BY k.client_id, k.person_id LIMIT $1";

/// The statement behind `consents.of_client`.
pub const LINKS_CONSENTS_OF_CLIENT: &'static str = "SELECT k.client_id, k.person_id, k.scopes, k.at, \
       c.client_name, p.display_name AS person_display, p.handle \
     FROM oidc_consent k \
     JOIN oidc_client c ON c.id = k.client_id \
     JOIN party p ON p.id = k.person_id \
     WHERE k.client_id = $1 ORDER BY k.person_id LIMIT $2";

/// The statement behind `cascade.sessions`.
pub const LINKS_CASCADE_SESSIONS: &'static str = "SELECT count(*) AS n FROM session s \
     JOIN identity i ON i.id = s.identity_id WHERE i.person_id = $1";

/// The statement behind `cascade.tokens`.
pub const LINKS_CASCADE_TOKENS: &'static str = "SELECT count(*) AS n FROM oidc_token \
     WHERE person_id = $1 AND expires_at > $2 AND revoked_at IS NULL";

/// The statement behind `cascade.links`.
pub const LINKS_CASCADE_LINKS: &'static str = "SELECT count(*) AS n FROM link l \
     JOIN relation r ON r.subject_kind = 'link' AND r.subject_id = l.id \
     JOIN identity i ON i.id = r.granted_by \
     WHERE i.person_id = $1 AND l.claimed_at IS NULL AND l.suspended_at IS NULL";

/// The statement behind `cascade.consents`.
pub const LINKS_CASCADE_CONSENTS: &'static str = "SELECT count(*) AS n FROM oidc_consent WHERE person_id = $1";

/// The statement behind `nodes.list`.
pub const NODES_NODES: &'static str = "SELECT node_id, node, version, raft_role, feed_head, reported_at \
     FROM node_report ORDER BY node_id";

/// The statement behind `feed.head`.
pub const NODES_HEAD: &'static str = "SELECT max(id) AS n FROM audit";

/// The statement behind `feed.today`.
pub const NODES_TODAY: &'static str = "SELECT count(*) AS n FROM audit WHERE at > $1";

/// The statement behind `operators.list`.
pub const OPERATORS_OPERATORS: &'static str = "SELECT r.subject_id, r.at, r.granted_by, \
       p.kind, p.display_name, p.handle, p.status, \
       g.display_name AS granted_display \
     FROM relation r \
     JOIN party p ON p.id = r.subject_id \
     LEFT JOIN identity gi ON gi.id = r.granted_by \
     LEFT JOIN party g ON g.id = gi.person_id \
     WHERE r.object_kind = 'platform' AND r.object_id = 0 \
       AND r.relation = 'operator' AND r.subject_kind = 'person' \
     ORDER BY r.id";

/// The statement behind `person.factors`.
pub const PERSON_FACTORS: &'static str = "SELECT f.identity_id, f.id, f.kind, f.verified_at, f.value \
     FROM identity i JOIN factor f ON f.identity_id = i.id \
     WHERE i.person_id = $1 ORDER BY f.id";

/// The statement behind `person.sessions`.
pub const PERSON_SESSIONS: &'static str = "SELECT s.id, s.identity_id, s.acting_as, s.created_at, \
       s.last_seen_at, s.expires_at, s.impersonated_by_identity_id, \
       a.kind AS acting_kind, a.display_name AS acting_display \
     FROM identity i JOIN session s ON s.identity_id = i.id \
     JOIN party a ON a.id = s.acting_as \
     WHERE i.person_id = $1 ORDER BY s.id DESC";

/// The statement behind `person.consents`.
pub const PERSON_CONSENTS: &'static str = "SELECT k.client_id, k.scopes, k.at, c.client_name \
     FROM oidc_consent k JOIN oidc_client c ON c.id = k.client_id \
     WHERE k.person_id = $1 ORDER BY k.client_id";

/// The statement behind `person.merges`.
pub const PERSON_MERGES: &'static str = "SELECT l.identity_id, l.method, l.evidence, l.asserted_by, l.at, \
       p.display_name AS asserted_display \
     FROM person_link l \
     LEFT JOIN identity ai ON ai.id = l.asserted_by \
     LEFT JOIN party p ON p.id = ai.person_id \
     WHERE l.person_id = $1 ORDER BY l.at DESC, l.id DESC";

/// The statement behind `person.aliases`.
pub const PERSON_ALIASES: &'static str = "SELECT old_person_id, at FROM person_alias WHERE person_id = $1 ORDER BY at DESC";

/// The statement behind `person.handle_aliases`.
pub const PERSON_HANDLE_ALIASES: &'static str = "SELECT handle, at FROM party_handle_alias WHERE person_id = $1 ORDER BY at DESC";

/// The statement behind `products.list`.
pub const PRODUCTS_PRODUCTS: &'static str = "SELECT p.slug, p.enabled, p.changed_at, \
                                   b.display_name AS changed_display \
                            FROM product p \
                            LEFT JOIN party b ON b.id = p.changed_by";

/// A statement's name, its text, and parameters shaped like a request's.
pub open spec fn listed_statements() -> Seq<(&'static str, &'static str, Seq<ValueSpec>)> {
    seq![
        ("parties.list", PARTIES_PARTIES, seq![ValueSpec::Int(PAGE as i64)]),
        ("parties.one", PARTIES_ONE, seq![ValueSpec::Int(1)]),
        ("parties.identities", PARTIES_IDENTITIES, seq![ValueSpec::Int(1)]),
        ("parties.memberships", PARTIES_MEMBERSHIPS, seq![ValueSpec::Int(1)]),
        ("parties.owned", PARTIES_OWNED, seq![ValueSpec::Int(1), ValueSpec::Int(PAGE as i64)]),
        ("parties.as_subject", PARTIES_AS_SUBJECT, seq![ValueSpec::Text("person:1"@)]),
        ("identities.list", IDENTITIES_IDENTITIES, seq![ValueSpec::Int(PAGE as i64)]),
        ("identities.one", IDENTITIES_ONE, seq![ValueSpec::Int(1)]),
        ("identities.factors_of_page", IDENTITIES_FACTORS_OF_PAGE, seq![ValueSpec::Int(PAGE as i64)]),
        ("identities.factors_of_one", IDENTITIES_FACTORS_OF_ONE, seq![ValueSpec::Int(1)]),
        ("identities.sessions", IDENTITIES_SESSIONS, seq![ValueSpec::Int(1)]),
        ("identities.candidates", IDENTITIES_CANDIDATES, seq![ValueSpec::Int(1)]),
        ("sessions.list", SESSIONS_SESSIONS, seq![ValueSpec::Int(PAGE as i64)]),
        ("audit.tail", TAIL, seq![ValueSpec::Int(i64::MAX), ValueSpec::Int(PAGE as i64)]),
        ("audit.by_actor", BY_ACTOR, seq![ValueSpec::Int(1), ValueSpec::Int(i64::MAX), ValueSpec::Null, ValueSpec::Null, ValueSpec::Null, ValueSpec::Null, ValueSpec::Int(PAGE as i64)]),
        ("audit.by_hat", BY_HAT, seq![ValueSpec::Int(1), ValueSpec::Int(i64::MAX), ValueSpec::Null, ValueSpec::Null, ValueSpec::Null, ValueSpec::Null, ValueSpec::Int(PAGE as i64)]),
        ("audit.by_command", BY_COMMAND, seq![ValueSpec::Text("share"@), ValueSpec::Int(i64::MAX), ValueSpec::Null, ValueSpec::Null, ValueSpec::Null, ValueSpec::Null, ValueSpec::Int(PAGE as i64)]),
        ("audit.by_time", BY_TIME, seq![ValueSpec::Int(0), ValueSpec::Int(i64::MAX), ValueSpec::Int(i64::MAX), ValueSpec::Null, ValueSpec::Null, ValueSpec::Null, ValueSpec::Int(PAGE as i64)]),
        ("audit.by_object", BY_OBJECT, seq![ValueSpec::Text("party"@), ValueSpec::Int(1), ValueSpec::Int(i64::MAX), ValueSpec::Null, ValueSpec::Null, ValueSpec::Null, ValueSpec::Null, ValueSpec::Null, ValueSpec::Int(PAGE as i64)]),
        ("matches.list", MATCHES_QUEUE, seq![ValueSpec::Int(PAGE as i64)]),
        ("matches.one", MATCHES_ONE, seq![ValueSpec::Int(1)]),
        ("matches.person_of", MATCHES_PERSON_OF, seq![ValueSpec::Int(1)]),
        ("matches.links", MATCHES_LINKS, seq![ValueSpec::Int(1), ValueSpec::Int(2)]),
        ("matches.alias", MATCHES_ALIAS, seq![ValueSpec::Int(1), ValueSpec::Int(2)]),
        ("resources.list", RESOURCES_RESOURCES, seq![ValueSpec::Int(PAGE as i64)]),
        ("resources.one", RESOURCES_ONE, seq![ValueSpec::Int(1)]),
        ("resources.party_of", RESOURCES_PARTY_OF, seq![ValueSpec::Int(1)]),
        ("resources.as_object", RESOURCES_AS_OBJECT, seq![ValueSpec::Text("document"@), ValueSpec::Int(1)]),
        ("find.by_handle", FIND_BY_HANDLE, seq![ValueSpec::Text("bea"@)]),
        ("find.by_email", FIND_BY_EMAIL, seq![ValueSpec::Text("bea@example.invalid"@)]),
        ("find.by_id", FIND_BY_ID, seq![ValueSpec::Int(1)]),
        ("find.person_of_identity", FIND_PERSON_OF_IDENTITY, seq![ValueSpec::Int(1)]),
        ("keys.list", KEYS_KEYS, seq![ValueSpec::Int(PAGE as i64)]),
        ("clients.list", KEYS_CLIENTS, seq![ValueSpec::Int(0), ValueSpec::Int(PAGE as i64)]),
        ("links.list", LINKS_LINKS, seq![ValueSpec::Int(PAGE as i64)]),
        ("consents.list", LINKS_CONSENTS, seq![ValueSpec::Int(PAGE as i64)]),
        ("consents.of_client", LINKS_CONSENTS_OF_CLIENT, seq![ValueSpec::Int(1), ValueSpec::Int(PAGE as i64)]),
        ("cascade.sessions", LINKS_CASCADE_SESSIONS, seq![ValueSpec::Int(1)]),
        ("cascade.tokens", LINKS_CASCADE_TOKENS, seq![ValueSpec::Int(1), ValueSpec::Int(0)]),
        ("cascade.links", LINKS_CASCADE_LINKS, seq![ValueSpec::Int(1)]),
        ("cascade.consents", LINKS_CASCADE_CONSENTS, seq![ValueSpec::Int(1)]),
        ("nodes.list", NODES_NODES, seq![]),
        ("feed.head", NODES_HEAD, seq![]),
        ("feed.today", NODES_TODAY, seq![ValueSpec::Int(0)]),
        ("operators.list", OPERATORS_OPERATORS, seq![]),
        ("person.factors", PERSON_FACTORS, seq![ValueSpec::Int(1)]),
        ("person.sessions", PERSON_SESSIONS, seq![ValueSpec::Int(1)]),
        ("person.consents", PERSON_CONSENTS, seq![ValueSpec::Int(1)]),
        ("person.merges", PERSON_MERGES, seq![ValueSpec::Int(1)]),
        ("person.aliases", PERSON_ALIASES, seq![ValueSpec::Int(1)]),
        ("person.handle_aliases", PERSON_HANDLE_ALIASES, seq![ValueSpec::Int(1)]),
        ("products.list", PRODUCTS_PRODUCTS, seq![]),
    ]
}

pub open spec fn statements_view(v: Seq<(&'static str, &'static str, Vec<Value>)>) -> Seq<(&'static str, &'static str, Seq<ValueSpec>)> {
    v.map_values(|e: (&'static str, &'static str, Vec<Value>)| (e.0, e.1, values_view(e.2@)))
}

/// [`listed_statements`].
pub fn statements() -> (r: Vec<(&'static str, &'static str, Vec<Value>)>)
    ensures
        statements_view(r@) == listed_statements(),
{
    let r = vec![
        ("parties.list", PARTIES_PARTIES, vec![Value::Int(PAGE as i64)]),
        ("parties.one", PARTIES_ONE, vec![Value::Int(1)]),
        ("parties.identities", PARTIES_IDENTITIES, vec![Value::Int(1)]),
        ("parties.memberships", PARTIES_MEMBERSHIPS, vec![Value::Int(1)]),
        ("parties.owned", PARTIES_OWNED, vec![Value::Int(1), Value::Int(PAGE as i64)]),
        ("parties.as_subject", PARTIES_AS_SUBJECT, vec![Value::Text(String::from_str("person:1"))]),
        ("identities.list", IDENTITIES_IDENTITIES, vec![Value::Int(PAGE as i64)]),
        ("identities.one", IDENTITIES_ONE, vec![Value::Int(1)]),
        ("identities.factors_of_page", IDENTITIES_FACTORS_OF_PAGE, vec![Value::Int(PAGE as i64)]),
        ("identities.factors_of_one", IDENTITIES_FACTORS_OF_ONE, vec![Value::Int(1)]),
        ("identities.sessions", IDENTITIES_SESSIONS, vec![Value::Int(1)]),
        ("identities.candidates", IDENTITIES_CANDIDATES, vec![Value::Int(1)]),
        ("sessions.list", SESSIONS_SESSIONS, vec![Value::Int(PAGE as i64)]),
        ("audit.tail", TAIL, vec![Value::Int(i64::MAX), Value::Int(PAGE as i64)]),
        ("audit.by_actor", BY_ACTOR, vec![Value::Int(1), Value::Int(i64::MAX), Value::Null, Value::Null, Value::Null, Value::Null, Value::Int(PAGE as i64)]),
        ("audit.by_hat", BY_HAT, vec![Value::Int(1), Value::Int(i64::MAX), Value::Null, Value::Null, Value::Null, Value::Null, Value::Int(PAGE as i64)]),
        ("audit.by_command", BY_COMMAND, vec![Value::Text(String::from_str("share")), Value::Int(i64::MAX), Value::Null, Value::Null, Value::Null, Value::Null, Value::Int(PAGE as i64)]),
        ("audit.by_time", BY_TIME, vec![Value::Int(0), Value::Int(i64::MAX), Value::Int(i64::MAX), Value::Null, Value::Null, Value::Null, Value::Int(PAGE as i64)]),
        ("audit.by_object", BY_OBJECT, vec![Value::Text(String::from_str("party")), Value::Int(1), Value::Int(i64::MAX), Value::Null, Value::Null, Value::Null, Value::Null, Value::Null, Value::Int(PAGE as i64)]),
        ("matches.list", MATCHES_QUEUE, vec![Value::Int(PAGE as i64)]),
        ("matches.one", MATCHES_ONE, vec![Value::Int(1)]),
        ("matches.person_of", MATCHES_PERSON_OF, vec![Value::Int(1)]),
        ("matches.links", MATCHES_LINKS, vec![Value::Int(1), Value::Int(2)]),
        ("matches.alias", MATCHES_ALIAS, vec![Value::Int(1), Value::Int(2)]),
        ("resources.list", RESOURCES_RESOURCES, vec![Value::Int(PAGE as i64)]),
        ("resources.one", RESOURCES_ONE, vec![Value::Int(1)]),
        ("resources.party_of", RESOURCES_PARTY_OF, vec![Value::Int(1)]),
        ("resources.as_object", RESOURCES_AS_OBJECT, vec![Value::Text(String::from_str("document")), Value::Int(1)]),
        ("find.by_handle", FIND_BY_HANDLE, vec![Value::Text(String::from_str("bea"))]),
        ("find.by_email", FIND_BY_EMAIL, vec![Value::Text(String::from_str("bea@example.invalid"))]),
        ("find.by_id", FIND_BY_ID, vec![Value::Int(1)]),
        ("find.person_of_identity", FIND_PERSON_OF_IDENTITY, vec![Value::Int(1)]),
        ("keys.list", KEYS_KEYS, vec![Value::Int(PAGE as i64)]),
        ("clients.list", KEYS_CLIENTS, vec![Value::Int(0), Value::Int(PAGE as i64)]),
        ("links.list", LINKS_LINKS, vec![Value::Int(PAGE as i64)]),
        ("consents.list", LINKS_CONSENTS, vec![Value::Int(PAGE as i64)]),
        ("consents.of_client", LINKS_CONSENTS_OF_CLIENT, vec![Value::Int(1), Value::Int(PAGE as i64)]),
        ("cascade.sessions", LINKS_CASCADE_SESSIONS, vec![Value::Int(1)]),
        ("cascade.tokens", LINKS_CASCADE_TOKENS, vec![Value::Int(1), Value::Int(0)]),
        ("cascade.links", LINKS_CASCADE_LINKS, vec![Value::Int(1)]),
        ("cascade.consents", LINKS_CASCADE_CONSENTS, vec![Value::Int(1)]),
        ("nodes.list", NODES_NODES, vec![]),
        ("feed.head", NODES_HEAD, vec![]),
        ("feed.today", NODES_TODAY, vec![Value::Int(0)]),
        ("operators.list", OPERATORS_OPERATORS, vec![]),
        ("person.factors", PERSON_FACTORS, vec![Value::Int(1)]),
        ("person.sessions", PERSON_SESSIONS, vec![Value::Int(1)]),
        ("person.consents", PERSON_CONSENTS, vec![Value::Int(1)]),
        ("person.merges", PERSON_MERGES, vec![Value::Int(1)]),
        ("person.aliases", PERSON_ALIASES, vec![Value::Int(1)]),
        ("person.handle_aliases", PERSON_HANDLE_ALIASES, vec![Value::Int(1)]),
        ("products.list", PRODUCTS_PRODUCTS, vec![]),
    ];
    assert(statements_view(r@) =~~= listed_statements());
    r
}

} // verus!
