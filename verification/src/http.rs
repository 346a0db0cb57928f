//! Browser-freshness headers and request deadlines, decided per path.
//!
//! Documents are `no-store`: they carry session-shaped state. API responses
//! are `private, no-store`: the same, plus the word that tells a shared cache
//! these bytes belong to one reader. Assets are `no-cache, must-revalidate`:
//! their URLs are stable across releases, so the browser asks every time.
//! The OpenID Provider's two public documents are the only responses a shared
//! cache may hold, for five minutes.
//!
//! A write on a cluster with no quorum does not fail, it waits; the deadline
//! turns that wait into a refusal.

use vstd::prelude::*;

use crate::text::{chars_of, is_prefix, same, starts_with};

verus! {

/// How long a write may take before this node refuses it, in seconds.
pub const COMMAND_DEADLINE: u64 = 5;

/// How long a read may take, in seconds.
pub const QUERY_DEADLINE: u64 = 2;

/// The header every response carries the build's version in.
pub const VERSION_HEADER: &'static str = "x-rn-app-version";

/// The route prefixes served as assets.
pub open spec fn is_asset(p: Seq<char>) -> bool {
    ||| is_prefix("/static/"@, p)
    ||| is_prefix("/tokens.css"@, p)
    ||| is_prefix("/pkg/"@, p)
    ||| is_prefix("/app/pkg/"@, p)
    ||| is_prefix("/org/pkg/"@, p)
    ||| is_prefix("/platform/pkg/"@, p)
    ||| is_prefix("/favicon.ico"@, p)
}

/// The OpenID Provider's public documents.
pub open spec fn is_public(p: Seq<char>) -> bool {
    ||| p == "/.well-known/openid-configuration"@
    ||| p == "/.well-known/oauth-authorization-server"@
    ||| p == "/oidc/jwks"@
}

/// The `Cache-Control` value a path is answered with.
pub open spec fn policy(p: Seq<char>) -> &'static str {
    if is_public(p) {
        "public, max-age=300"
    } else if is_asset(p) {
        "no-cache, must-revalidate"
    } else if is_prefix("/api/"@, p) {
        "private, no-store"
    } else {
        "no-store"
    }
}

/// The `Cache-Control` value for a path. Asset prefixes are listed rather
/// than inferred from an extension: a route is an asset because it is served
/// as one.
pub fn cache_policy(path: &str) -> (r: &'static str)
    ensures
        r == policy(path@),
{
    if same(path, "/.well-known/openid-configuration") || same(path, "/.well-known/oauth-authorization-server")
        || same(path, "/oidc/jwks") {
        return "public, max-age=300";
    }
    let c = chars_of(path);
    if starts_with(&c, "/static/") || starts_with(&c, "/tokens.css") || starts_with(&c, "/pkg/")
        || starts_with(&c, "/app/pkg/") || starts_with(&c, "/org/pkg/") || starts_with(&c, "/platform/pkg/")
        || starts_with(&c, "/favicon.ico") {
        "no-cache, must-revalidate"
    } else if starts_with(&c, "/api/") {
        "private, no-store"
    } else {
        "no-store"
    }
}

/// The methods that read.
pub open spec fn is_read_method(m: Seq<char>) -> bool {
    m == "GET"@ || m == "HEAD"@ || m == "OPTIONS"@
}

/// How long a request gets, in seconds: none for the subscription socket,
/// the write budget for anything that is not a read, the read budget for the
/// rest of `/api/`, and none for documents and assets.
pub open spec fn deadline(method: Seq<char>, p: Seq<char>) -> Option<u64> {
    if p == "/api/sub"@ {
        None
    } else if !is_read_method(method) {
        Some(COMMAND_DEADLINE)
    } else if is_prefix("/api/"@, p) {
        Some(QUERY_DEADLINE)
    } else {
        None
    }
}

/// How long this request gets, or `None` for a route that is not on a
/// clock. `method` is the request method's name as HTTP spells it.
pub fn deadline_for(method: &str, path: &str) -> (r: Option<u64>)
    ensures
        r == deadline(method@, path@),
{
    if same(path, "/api/sub") {
        return None;
    }
    if !(same(method, "GET") || same(method, "HEAD") || same(method, "OPTIONS")) {
        return Some(COMMAND_DEADLINE);
    }
    let c = chars_of(path);
    if starts_with(&c, "/api/") {
        Some(QUERY_DEADLINE)
    } else {
        None
    }
}


/// An API response is never one a shared cache may hold: whatever follows
/// `/api/`, the answer is `private, no-store`.
pub proof fn lemma_api_is_never_shared(p: Seq<char>)
    requires
        is_prefix("/api/"@, p),
    ensures
        policy(p) == "private, no-store",
{
    reveal_strlit("/api/");
    reveal_strlit("/static/");
    reveal_strlit("/tokens.css");
    reveal_strlit("/pkg/");
    reveal_strlit("/app/pkg/");
    reveal_strlit("/org/pkg/");
    reveal_strlit("/platform/pkg/");
    reveal_strlit("/favicon.ico");
    reveal_strlit("/.well-known/openid-configuration");
    reveal_strlit("/.well-known/oauth-authorization-server");
    reveal_strlit("/oidc/jwks");
    assert(p.take(5) == "/api/"@);
    assert(p[1] == p.take(5)[1]);
    assert(p[3] == p.take(5)[3]);
    assert(p[1] == 'a' && p[3] == 'i');
    assert(!is_prefix("/static/"@, p)) by { if p.len() >= 8 { assert(p.take(8)[1] == p[1]); } }
    assert(!is_prefix("/tokens.css"@, p)) by { if p.len() >= 11 { assert(p.take(11)[1] == p[1]); } }
    assert(!is_prefix("/pkg/"@, p)) by { assert(p.take(5)[1] == p[1]); }
    assert(!is_prefix("/app/pkg/"@, p)) by { if p.len() >= 9 { assert(p.take(9)[3] == p[3]); } }
    assert(!is_prefix("/org/pkg/"@, p)) by { if p.len() >= 9 { assert(p.take(9)[1] == p[1]); } }
    assert(!is_prefix("/platform/pkg/"@, p)) by { if p.len() >= 14 { assert(p.take(14)[1] == p[1]); } }
    assert(!is_prefix("/favicon.ico"@, p)) by { if p.len() >= 12 { assert(p.take(12)[1] == p[1]); } }
    assert(p != "/.well-known/openid-configuration"@) by { assert("/.well-known/openid-configuration"@[1] != p[1]); }
    assert(p != "/.well-known/oauth-authorization-server"@) by { assert("/.well-known/oauth-authorization-server"@[1] != p[1]); }
    assert(p != "/oidc/jwks"@) by { assert("/oidc/jwks"@[1] != p[1]); }
}

} // verus!
