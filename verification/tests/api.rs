use rn_site::api::query::delta::{diff, ops, remember, DiffOp, Row};
use rn_site::api::query::platform_statements::{statements, PARTIES_PARTIES, PRODUCTS_PRODUCTS};
use rn_site::api::cmd::confirmed::{catch_up_step, requested, Caught, MAX_LEAD, WAIT};
use rn_site::api::cmd::{reply_cookie, BOUND};
use rn_site::api::origin::may_mutate;
use rn_site::api::pairs;
use rn_site::api::query::platform::{offset_key, page, Platform, ALL as PLATFORM_ALL, MAX, PAGE};
use rn_site::api::query::platform_filters::{Filter, Value, BY_ACTOR, BY_COMMAND, BY_HAT, BY_OBJECT, BY_TIME, FOREVER, TAIL};
use rn_site::api::query::platform_find::{is_address, is_handle};
use rn_site::api::query::platform_keys::{age_days, listed, words};
use rn_site::api::query::platform_links::link_state;
use rn_site::api::query::platform_nodes::{reporting, rollout, versions, NodeReport, STALE_AFTER};
use rn_site::api::query::{Named, Params, Scope, ALL, AUDIT_MAX, AUDIT_PAGE};
use rn_site::api::whoami::name::masked;
use rn_site::api::whoami::{role, tiers, MemberRole, OrganizationRef, Tier};

fn owned(pairs: &[(&str, &str)]) -> Vec<(String, String)> {
    pairs.iter().map(|(a, b)| (a.to_string(), b.to_string())).collect()
}

#[test]
fn a_query_string_reads_as_pairs_and_an_absent_one_reads_as_none() {
    assert_eq!(
        pairs(Some("after=40&limit=10")),
        owned(&[("after", "40"), ("limit", "10")])
    );
    assert_eq!(pairs(Some("flag")), owned(&[("flag", "")]));
    assert!(pairs(None).is_empty());
    assert!(pairs(Some("")).is_empty());
}

#[test]
fn a_pair_splits_at_its_first_equals_and_empty_pieces_vanish() {
    assert_eq!(pairs(Some("a=b=c&&=x&")), owned(&[("a", "b=c"), ("", "x")]));
}

#[test]
fn the_audit_page_is_bounded_however_it_is_asked_for() {
    assert_eq!(Params::default().page(), AUDIT_PAGE as i64);
    assert_eq!(
        Params {
            limit: Some(0),
            ..Params::default()
        }
        .page(),
        1
    );
    assert_eq!(
        Params {
            limit: Some(100_000),
            ..Params::default()
        }
        .page(),
        AUDIT_MAX as i64
    );
}

#[test]
fn parameters_survive_junk_without_becoming_it() {
    let params = Params::from_pairs(&[("after", "40"), ("limit", "banana"), ("owner", "p_x")]);
    assert_eq!(params.after, 40);
    assert_eq!(params.limit, None);
}

#[test]
fn an_overlong_id_and_a_junk_offset_are_dropped() {
    let long = "p".repeat(33);
    let params = Params::from_pairs(&[("after", "x"), ("id", long.as_str()), ("limit", "7")]);
    assert_eq!(params.after, 0);
    assert_eq!(params.id, None);
    assert_eq!(params.limit, Some(7));
    let params = Params::from_pairs(&[("id", "p_AAAAAAAAAAAAAAAAAAAAAA"), ("after", "3"), ("after", "5")]);
    assert_eq!(params.id.as_deref(), Some("p_AAAAAAAAAAAAAAAAAAAAAA"));
    assert_eq!(params.after, 5, "a later pair wins");
}

#[test]
fn every_name_is_served_once_and_spells_itself_the_same_way_twice() {
    let mut names: Vec<&str> = ALL.iter().map(|q| q.as_str()).collect();
    for q in ALL {
        if q == Named::Documents {
            assert_eq!(Named::parse(q.as_str()), None, "the document list is not served by name");
        } else {
            assert_eq!(Named::parse(q.as_str()), Some(q));
        }
    }
    let count = names.len();
    names.sort_unstable();
    names.dedup();
    assert_eq!(names.len(), count);
}

#[test]
fn a_query_name_the_build_does_not_serve_is_none() {
    assert_eq!(Named::parse("sessions"), Some(Named::Sessions));
    assert_eq!(Named::parse("group-members"), Some(Named::GroupMembers));
    assert_eq!(Named::parse(""), None);
    assert_eq!(Named::parse("../whoami"), None);
    assert_eq!(Named::Sessions.scope(), Scope::Identity);
    assert_eq!(Named::Shares.scope(), Scope::Shared);
    assert_eq!(Named::Document.scope(), Scope::Once);
}

#[test]
fn every_platform_name_is_prefixed_and_unique() {
    let mut names: Vec<&str> = PLATFORM_ALL.iter().map(|q| q.as_str()).collect();
    for name in &names {
        assert!(
            name.starts_with("platform-") || name.starts_with("oidc-"),
            "{name}"
        );
        assert_eq!(Platform::parse(name), Platform::parse(name));
    }
    let count = names.len();
    names.sort_unstable();
    names.dedup();
    assert_eq!(names.len(), count, "a platform query name is served twice");
    assert_eq!(Platform::parse("sessions"), None);
    assert_eq!(Platform::parse("platform-"), None);
}

#[test]
fn a_platform_page_is_bounded_however_it_is_asked_for() {
    assert_eq!(page(&Params::default()), PAGE as i64);
    assert_eq!(
        page(&Params {
            limit: Some(0),
            ..Params::default()
        }),
        1
    );
    assert_eq!(
        page(&Params {
            limit: Some(1_000_000),
            ..Params::default()
        }),
        MAX as i64
    );
}

#[test]
fn the_audit_key_is_the_offset_zero_padded() {
    assert_eq!(offset_key(12), "00000000000000000012");
    assert_eq!(offset_key(u64::MAX), "18446744073709551615");
}

#[test]
fn no_filter_walks_the_primary_key_backwards() {
    let filter = Filter::default();
    assert!(filter.is_empty());
    let (sql, args) = filter.plan(i64::MAX, 100);
    assert_eq!(sql, TAIL);
    assert_eq!(args.len(), 7);
    assert_eq!(args[1], Value::Null, "an absent actor is bound as NULL");
}

#[test]
fn the_lead_is_the_most_selective_control_that_is_set() {
    let by_command = Filter { command: Some("revoke-session".to_owned()), ..Filter::default() };
    assert_eq!(by_command.plan(1, 1).0, BY_COMMAND);
    let by_hat = Filter { hat: Some(3), ..by_command.clone() };
    assert_eq!(by_hat.plan(1, 1).0, BY_HAT, "a hat outranks a command");
    let by_actor = Filter { actor: Some(4), ..by_hat.clone() };
    assert_eq!(by_actor.plan(1, 1).0, BY_ACTOR, "an actor outranks a hat");
    let by_object = Filter { object: Some(("party", 3)), ..by_actor.clone() };
    let (sql, args) = by_object.plan(9, 50);
    assert_eq!(sql, BY_OBJECT, "an object outranks everything");
    assert_eq!(
        args,
        vec![
            Value::Text("party".to_owned()),
            Value::Int(3),
            Value::Int(9),
            Value::Int(4),
            Value::Int(3),
            Value::Text("revoke-session".to_owned()),
            Value::Null,
            Value::Null,
            Value::Int(50),
        ]
    );
    let by_time = Filter { from: Some(1_800_000_000), ..Filter::default() };
    let (sql, args) = by_time.plan(1, 1);
    assert_eq!(sql, BY_TIME);
    assert_eq!(args[1], Value::Int(FOREVER), "an open end is the end of time");
    assert_eq!(FOREVER, i64::MAX);
}

#[test]
fn only_a_handle_shaped_string_asks_the_handle_index() {
    assert!(is_handle("bea"));
    assert!(is_handle("ronit-nath"));
    assert!(is_handle("a1b2c3"));
    assert!(!is_handle("ab"));
    assert!(!is_handle(&"a".repeat(33)));
    assert!(!is_handle("Bea"));
    assert!(!is_handle("bea okafor"));
    assert!(!is_handle("bea@example.test"));
}

#[test]
fn only_an_address_shaped_string_asks_the_factor_index() {
    assert!(is_address("ronit@isoastra.com"));
    assert!(!is_address("ronit"));
    assert!(!is_address("@isoastra.com"));
    assert!(!is_address("ronit@localhost"));
}

#[test]
fn forty_characters_of_junk_is_neither_a_handle_nor_an_address() {
    let junk = "9x_".repeat(14);
    assert_eq!(junk.chars().count(), 42);
    assert!(!is_handle(&junk));
    assert!(!is_address(&junk));
}

#[test]
fn the_verdict_is_counted_from_the_versions_and_never_guessed() {
    assert_eq!(rollout(&[]), "settled");
    assert_eq!(rollout(&["a".to_owned()]), "settled");
    assert_eq!(rollout(&["a".to_owned(), "b".to_owned()]), "in progress");
    assert_eq!(
        rollout(&["a".to_owned(), "b".to_owned(), "c".to_owned()]),
        "divergent"
    );
}

#[test]
fn a_row_older_than_three_intervals_has_stopped_reporting() {
    let now = 1_800_000_000;
    assert!(reporting(now, now));
    assert!(reporting(now - STALE_AFTER, now));
    assert!(!reporting(now - STALE_AFTER - 1, now));
}

fn report(version: &str, reported_at: i64) -> NodeReport {
    NodeReport {
        node_id: 1,
        node: "local".to_owned(),
        version: version.to_owned(),
        raft_role: "leader".to_owned(),
        feed_head: 40,
        reported_at,
    }
}

#[test]
fn a_node_that_stopped_reporting_does_not_hold_the_rollout_open() {
    let now = 1_800_000_000;
    let rows = vec![
        report("9f21ac3", now),
        report("9f21ac3", now - 2),
        report("8b0e114", now - 600),
    ];
    let settled = versions(&rows, now);
    assert_eq!(settled, vec!["9f21ac3".to_owned()]);
    assert_eq!(rollout(&settled), "settled");

    let rows = vec![report("9f21ac3", now), report("8b0e114", now - 2)];
    let both = versions(&rows, now);
    assert_eq!(both, vec!["8b0e114".to_owned(), "9f21ac3".to_owned()]);
    assert_eq!(rollout(&both), "in progress");
}

#[test]
fn versions_sort_as_strings_sort() {
    let now = 100;
    let rows = vec![report("b", now), report("ab", now), report("a", now), report("é", now), report("b", now)];
    assert_eq!(versions(&rows, now), vec!["a".to_owned(), "ab".to_owned(), "b".to_owned(), "é".to_owned()]);
    assert!(versions(&[], now).is_empty());
}

#[test]
fn an_age_is_whole_days_and_is_never_rounded_up() {
    let now = 1_800_000_000;
    assert_eq!(age_days(now, now), 0);
    assert_eq!(age_days(now - 86_399, now), 0);
    assert_eq!(age_days(now - 86_400, now), 1);
    assert_eq!(age_days(now + 50, now), 0, "a key from the future is nought days old");
    assert_eq!(age_days(i64::MIN, i64::MAX), 213_503_982_334_601, "the whole range, without overflow");
}

#[test]
fn a_links_state_is_read_off_its_columns_and_the_clock() {
    let now = 1_800_000_000;
    assert_eq!(link_state(None, None, now + 60, now), "open");
    assert_eq!(link_state(None, None, now, now), "expired");
    assert_eq!(link_state(None, Some(now), now + 60, now), "suspended");
    assert_eq!(link_state(Some(now), Some(now), now - 1, now), "claimed");
}

#[test]
fn an_unresolved_identity_is_named_by_a_mask_and_never_by_an_address() {
    assert_eq!(masked(Some("ronit@isoastra.com")), "r…t@");
    assert_eq!(masked(Some("a.very.long.local.part@example.test")), "a…t@");
    assert_eq!(masked(Some("ab@example.test")), "…@");
    assert_eq!(masked(Some("r@example.test")), "…@");
    assert_eq!(masked(Some("@example.test")), "…@");
    assert_eq!(masked(None), "…");

    for address in ["ronit@isoastra.com", "ab@example.test"] {
        let shown = masked(Some(address));
        let domain = address.split_once('@').expect("an address").1;
        assert!(!shown.contains(domain), "{shown} carried the domain");
        assert!(
            shown.matches('@').count() == 1 && shown.ends_with('@'),
            "{shown} is not a masked local part"
        );
    }
}

#[test]
fn the_lead_bound_is_generous_about_lag_and_not_about_a_forged_header() {
    assert!(
        MAX_LEAD >= 1_000,
        "a batch of entries must still be waited for"
    );
    assert!(u64::from(u32::MAX) > MAX_LEAD, "and a forged one must not");
}

#[test]
fn the_envelope_wins_and_zero_asks_for_nothing() {
    assert_eq!(requested(Some(42), None), Some(42));
    assert_eq!(requested(None, None), None);
    assert_eq!(requested(Some(0), Some("17")), None);
    assert_eq!(requested(None, Some(" 17 ")), Some(17));
    assert_eq!(requested(Some(9), Some("17")), Some(9), "the envelope is the contract");
    assert_eq!(requested(None, Some("soon")), None);
}

#[test]
fn a_wait_ends_on_arrival_on_a_forged_lead_or_on_the_clock() {
    assert_eq!(catch_up_step(5, Some(5), Some(5), true, 0), Some(Caught::Already));
    assert_eq!(catch_up_step(5, Some(3), Some(5), false, 7), Some(Caught::Waited(7)));
    assert_eq!(catch_up_step(5, Some(3), Some(4), false, 7), None);
    assert_eq!(catch_up_step(5, Some(3), Some(4), false, WAIT), Some(Caught::Gave(WAIT)));
    assert_eq!(catch_up_step(10_001, Some(0), Some(0), true, 0), Some(Caught::Gave(0)));
    assert_eq!(catch_up_step(10_000, Some(0), Some(0), true, 0), None);
    assert_eq!(catch_up_step(5, None, None, true, 1), Some(Caught::Gave(1)));
    assert_eq!(catch_up_step(u64::MAX, Some(u64::MAX - 1), Some(u64::MAX - 1), true, 0), None, "the bound saturates");
}

#[test]
fn no_name_is_bound_twice() {
    let mut names = BOUND.to_vec();
    let count = names.len();
    names.sort_unstable();
    names.dedup();
    assert_eq!(names.len(), count);
}

#[test]
fn the_sites_own_forms_and_a_typed_url_may_write() {
    assert!(may_mutate(Some("same-origin")));
    assert!(may_mutate(Some("none")));
}

#[test]
fn a_sibling_subdomain_and_a_stranger_may_not() {
    assert!(!may_mutate(Some("same-site")));
    assert!(!may_mutate(Some("cross-site")));
}

#[test]
fn a_request_that_will_not_say_where_it_came_from_may_not() {
    assert!(!may_mutate(None));
    assert!(!may_mutate(Some("")));
    assert!(!may_mutate(Some("SAME-ORIGIN")), "the value is lowercase");
}

#[test]
fn every_control_a_filter_sets_is_bound_whatever_leads() {
    let filter = Filter {
        actor: Some(4),
        hat: Some(3),
        object: None,
        command: Some("revoke-session".to_owned()),
        from: Some(10),
        to: Some(20),
    };
    let (sql, params) = filter.plan(99, 50);
    assert_eq!(sql, BY_ACTOR);
    for wanted in [
        Value::Int(4),
        Value::Int(3),
        Value::Text("revoke-session".to_owned()),
        Value::Int(10),
        Value::Int(20),
        Value::Int(99),
    ] {
        assert!(params.contains(&wanted), "{wanted:?}");
    }
    assert_eq!(params.last(), Some(&Value::Int(50)));
}

#[test]
fn the_envelope_field_is_read_beside_a_commands_own_arguments() {
    // `{"key":"x","after":42,"document":"r_A","expected_rev":3}`: the
    // envelope's `after` is 42 whatever else the body carries.
    assert_eq!(requested(Some(42), None), Some(42));
}

#[test]
fn a_caller_that_says_nothing_asks_for_nothing() {
    // A body with no `after`, and a body that is not JSON, carry no envelope.
    assert_eq!(requested(None, None), None);
    // `{"after":0}` asks for nothing either.
    assert_eq!(requested(Some(0), None), None);
}

#[test]
fn a_form_post_carries_the_offset_in_a_header_because_it_has_no_envelope() {
    assert_eq!(requested(None, Some("17")), Some(17));
    // The envelope wins where both are present: it is the contract.
    assert_eq!(requested(Some(9), Some("17")), Some(9));
}

fn org(role: MemberRole) -> OrganizationRef {
    OrganizationRef {
        public_id: "o_AAAAAAAAAAAAAAAAAAAAAA".to_string(),
        display: "Isoastra".to_string(),
        role,
    }
}

#[test]
fn a_session_is_always_a_member_and_nothing_more_by_default() {
    assert_eq!(tiers(&[], false), vec![Tier::Member]);
}

#[test]
fn belonging_to_an_organization_is_not_operating_one() {
    assert_eq!(tiers(&[org(MemberRole::Member)], false), vec![Tier::Member]);
    assert_eq!(tiers(&[org(MemberRole::Admin)], false), vec![Tier::Member, Tier::Org]);
    assert_eq!(tiers(&[org(MemberRole::Owner)], false), vec![Tier::Member, Tier::Org]);
}

#[test]
fn the_platform_tier_comes_from_the_relation_and_stands_alone() {
    assert_eq!(tiers(&[], true), vec![Tier::Member, Tier::Platform]);
    assert_eq!(tiers(&[org(MemberRole::Owner)], true), vec![Tier::Member, Tier::Org, Tier::Platform]);
}

#[test]
fn a_role_this_build_does_not_know_is_dropped_rather_than_rounded_down() {
    assert_eq!(role("member"), Some(MemberRole::Member));
    assert_eq!(role("owner"), Some(MemberRole::Owner));
    assert_eq!(role("superuser"), None);
    assert_eq!(role(""), None);
}

#[test]
fn one_administered_organization_among_several_opens_the_org_tier_once() {
    let orgs = [org(MemberRole::Member), org(MemberRole::Admin), org(MemberRole::Owner)];
    assert_eq!(tiers(&orgs, false), vec![Tier::Member, Tier::Org]);
    assert_eq!(role("admin"), Some(MemberRole::Admin));
}

#[test]
fn a_reply_sets_the_cookie_it_minted_clears_the_one_it_ended_and_else_leaves_it() {
    assert_eq!(
        reply_cookie(Some("tok"), false, 60, rn_site::config::Mode::Dev),
        Some("rn_session=tok; Path=/; HttpOnly; SameSite=Lax; Max-Age=60".to_string())
    );
    assert_eq!(
        reply_cookie(None, true, 60, rn_site::config::Mode::Prod),
        Some("rn_session=; Path=/; HttpOnly; SameSite=Lax; Max-Age=0; Secure".to_string())
    );
    assert_eq!(reply_cookie(None, false, 60, rn_site::config::Mode::Prod), None);
}

#[test]
fn mod_a_name_the_build_does_not_serve_is_refused_rather_than_guessed() {
    assert_eq!(Named::parse("sessions"), Some(Named::Sessions));
    assert_eq!(Named::parse("audit"), Some(Named::Audit));
    assert_eq!(Named::parse("documents"), None);
    assert_eq!(Named::parse(""), None);
    assert_eq!(Named::parse("../whoami"), None);
}

#[test]
fn a_malformed_json_column_renders_as_nothing_rather_than_failing_the_page() {
    assert_eq!(words(r#"["https://a.test/cb"]"#), vec!["https://a.test/cb"]);
    assert!(words("not json").is_empty());
}

#[test]
fn a_list_column_keeps_its_order_and_an_unreadable_one_is_empty() {
    assert_eq!(words(r#"["openid", "profile"]"#), vec!["openid", "profile"]);
    assert!(words(r#"[1, 2]"#).is_empty());
    assert!(words(r#"{"a": "b"}"#).is_empty());
    assert_eq!(listed(Some(vec!["x".to_string()])), vec!["x"]);
    assert!(listed(None).is_empty());
}

#[test]
fn audit_keys_sort_as_their_offsets_and_read_back_as_them() {
    assert_eq!(offset_key(12), "00000000000000000012");
    assert_eq!(offset_key(u64::MAX).len(), 20);
    for (a, b) in [(0u64, 1u64), (9, 10), (99, 100), (12, 1_000_000_000_000), (u64::MAX - 1, u64::MAX)] {
        assert!(offset_key(a) < offset_key(b), "{a} {b}");
        assert_eq!(offset_key(b).parse::<u64>(), Ok(b));
    }
}

#[test]
fn every_platform_statement_is_planned() {
    let listed = statements();
    let mut names: Vec<&str> = listed.iter().map(|(name, ..)| *name).collect();
    let count = names.len();
    names.sort_unstable();
    names.dedup();
    assert_eq!(names.len(), count, "a statement is listed twice");
    // One list statement per list query, plus every drill-in's own reads.
    assert_eq!(count, 52, "a statement was added to a platform query and not to `statements()`");
}

#[test]
fn each_listed_statement_carries_its_own_parameters() {
    let listed = statements();
    assert_eq!(listed[0], ("parties.list", PARTIES_PARTIES, vec![Value::Int(200)]));
    assert_eq!(listed.last(), Some(&("products.list", PRODUCTS_PRODUCTS, vec![])));
    assert!(listed.iter().any(|(name, sql, _)| *name == "audit.tail" && *sql == TAIL));
    assert!(listed.iter().any(|(name, sql, args)| *name == "audit.by_object" && *sql == BY_OBJECT && args.len() == 9));
    assert!(listed.iter().any(|(name, _, args)| *name == "resources.as_object"
        && *args == vec![Value::Text("document".to_owned()), Value::Int(1)]));
}

fn row(key: &str, value: &str) -> Row {
    Row { key: key.to_owned(), value: value.to_owned() }
}

#[test]
fn a_key_the_reread_lost_becomes_a_deletion() {
    let keys = vec!["a".to_owned(), "b".to_owned()];
    let ops = ops(&keys, vec![row("a", r#"{"n":1}"#)]);
    assert_eq!(
        ops,
        vec![
            DiffOp::Put { key: "a".to_owned(), row: r#"{"n":1}"#.to_owned() },
            DiffOp::Del { key: "b".to_owned() },
        ]
    );
}

#[test]
fn a_reread_sends_what_moved_and_what_went_and_nothing_else() {
    let before = remember(&[row("c", "1"), row("a", "1"), row("b", "1"), row("d", "1")]);
    let after = [row("a", "1"), row("b", "2"), row("e", "1")];
    assert_eq!(
        diff(&before, &after),
        vec![
            DiffOp::Put { key: "b".to_owned(), row: "2".to_owned() },
            DiffOp::Put { key: "e".to_owned(), row: "1".to_owned() },
            DiffOp::Del { key: "c".to_owned() },
            DiffOp::Del { key: "d".to_owned() },
        ]
    );
    let same = [row("a", "1"), row("b", "2")];
    assert!(diff(&remember(&same), &same).is_empty());
    let twice = remember(&[row("a", "1"), row("a", "2")]);
    assert!(diff(&twice, &[row("a", "2")]).is_empty(), "the last row read for a key stands for it");
    assert_eq!(diff(&twice, &[]), vec![DiffOp::Del { key: "a".to_owned() }], "a key goes once");
}
