use rn_site::http::{cache_policy, deadline_for, COMMAND_DEADLINE, QUERY_DEADLINE, VERSION_HEADER};

#[test]
fn a_command_gets_the_write_budget_and_a_query_the_read_one() {
    assert_eq!(
        deadline_for("POST", "/api/cmd/edit-document"),
        Some(COMMAND_DEADLINE)
    );
    assert_eq!(deadline_for("POST", "/auth"), Some(COMMAND_DEADLINE));
    assert_eq!(
        deadline_for("GET", "/api/q/documents"),
        Some(QUERY_DEADLINE)
    );
    assert_eq!(
        deadline_for("GET", "/api/whoami"),
        Some(QUERY_DEADLINE)
    );
}

#[test]
fn a_subscription_is_not_on_a_clock_and_neither_is_an_asset() {
    assert_eq!(deadline_for("GET", "/api/sub"), None);
    assert_eq!(deadline_for("GET", "/static/stars/bright.bin"), None);
    assert_eq!(deadline_for("GET", "/app"), None);
    assert_eq!(deadline_for("GET", "/"), None);
}

#[test]
fn the_budgets_are_five_and_two_seconds() {
    assert_eq!(COMMAND_DEADLINE, 5);
    assert_eq!(QUERY_DEADLINE, 2);
    assert_eq!(deadline_for("HEAD", "/api/q/x"), Some(QUERY_DEADLINE));
    assert_eq!(deadline_for("OPTIONS", "/api/cmd/x"), Some(QUERY_DEADLINE));
    assert_eq!(deadline_for("DELETE", "/static/x"), Some(COMMAND_DEADLINE));
    assert_eq!(deadline_for("POST", "/api/sub"), None);
    assert_eq!(VERSION_HEADER, "x-rn-app-version");
}

#[test]
fn assets_revalidate_and_everything_else_refuses_to_be_stored() {
    for asset in [
        "/static/stars/bright.bin",
        "/tokens.css",
        "/pkg/starscape/rn-starscape.js",
        "/app/pkg/rn-app_bg.wasm",
        "/platform/pkg/rn-platform.js",
        "/favicon.ico",
    ] {
        assert_eq!(cache_policy(asset), "no-cache, must-revalidate", "{asset}");
    }
    for public in [
        "/.well-known/openid-configuration",
        "/.well-known/oauth-authorization-server",
        "/oidc/jwks",
    ] {
        assert_eq!(cache_policy(public), "public, max-age=300", "{public}");
    }
    for document in [
        "/",
        "/healthz",
        "/readyz",
        "/version",
        "/auth",
        "/app",
        "/links/x",
        "/oidc/authorize",
        "/oidc/token",
        "/oidc/userinfo",
        "/oidc/end_session",
    ] {
        assert_eq!(cache_policy(document), "no-store", "{document}");
    }
    for private in [
        "/api/whoami",
        "/api/q/sessions",
        "/api/cmd/sign-out",
        "/api/sub",
    ] {
        assert_eq!(cache_policy(private), "private, no-store", "{private}");
    }
}

#[test]
fn a_public_document_is_public_only_by_its_exact_path() {
    assert_eq!(cache_policy("/oidc/jwks/extra"), "no-store");
    assert_eq!(cache_policy("/org/pkg/rn-org.js"), "no-cache, must-revalidate");
}
