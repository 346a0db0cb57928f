use rn_site::admin::backup::{owned, refuse_existing_backup};
use rn_site::admin::restore::restore_gate;
use rn_site::admin::{actor_for, NEEDS_ACTOR};
use rn_site::admin::{acting, minted, IdentityFound};
use rn_site::admin::read::{audit_limit, audit_report, operators_report, sessions_report, AuditLine, OperatorLine, SessionLine};
use rn_site::admin::backup::{backup_report, blob_member, column_of, columns_found, identifier, walk_order, wipe_report, Column, Kind, TableEntry, NOT_OURS};
use rn_site::admin::restore::{
    consistent, counted, insert_statement, param, refuse_occupied, restorable, restore_report, row_params,
    stored_blob, Cell, Shape, Stored, FORMAT,
};
use rn_site::admin::cli::{exit_code, parse, wipe_refused, Request, SUBCOMMAND, WIPE_REFUSAL};
use rn_site::config::Mode;
use rn_site::admin::lock::{pid_in, refuse_if_held, PID_FILENAME};
use rn_site::admin::route::{audit, delegate, product, required, revoke_session, status, wanted, AdminParams};
use rn_site::admin::{Action, AdminError};

fn parsed(line: &str) -> Result<Request, String> {
    let argv: Vec<String> = line.split_whitespace().map(str::to_owned).collect();
    parse(&argv)
}

#[test]
fn declared_types_map_to_storage_classes_the_way_sqlite_does() {
    assert_eq!(Kind::of("INTEGER"), Some(Kind::Int));
    assert_eq!(Kind::of("INT"), Some(Kind::Int));
    assert_eq!(Kind::of("TEXT"), Some(Kind::Text));
    assert_eq!(Kind::of("VARCHAR(40)"), Some(Kind::Text));
    assert_eq!(Kind::of("BLOB"), Some(Kind::Blob));
    assert_eq!(Kind::of("REAL"), Some(Kind::Real));
    assert_eq!(Kind::of("DOUBLE"), Some(Kind::Real));
    assert_eq!(Kind::of(""), None, "an undeclared column is not guessed at");
}

#[test]
fn only_a_plain_identifier_reaches_a_statement() {
    for good in ["party", "_migrations", "audit_object", "a1"] {
        identifier(good).unwrap_or_else(|error| panic!("{good}: {}", error.message()));
    }
    for bad in ["", "1table", "drop table party", "party;--", "pärty", "a-b"] {
        assert!(identifier(bad).is_err(), "{bad} was let through");
    }
}

#[test]
fn the_subcommand_list_is_the_one_the_requirement_names() {
    assert!(matches!(
        parsed("operators"),
        Ok(Request::Act {
            action: Action::Operators,
            who: None
        })
    ));
    assert!(matches!(
        parsed("sessions"),
        Ok(Request::Act {
            action: Action::Sessions { person: None },
            ..
        })
    ));
    assert!(matches!(parsed("products"), Ok(Request::Act { .. })));
    assert!(matches!(parsed("wipe"), Ok(Request::Wipe)));
    assert!(matches!(parsed("backup /tmp/x"), Ok(Request::Backup(_))));
    assert!(matches!(parsed("restore /tmp/x"), Ok(Request::Restore(_))));

    match parsed("audit --tail 5") {
        Ok(Request::Act {
            action: Action::Audit { tail },
            ..
        }) => assert_eq!(tail, 5),
        other => panic!("{other:?}"),
    }
    match parsed("audit") {
        Ok(Request::Act {
            action: Action::Audit { tail },
            ..
        }) => assert_eq!(tail, 20, "a tail with no number is a screenful"),
        other => panic!("{other:?}"),
    }
}

#[test]
fn who_is_accountable_is_a_flag_and_the_reason_is_mandatory() {
    match parsed("grant-operator her@example.invalid --reason because --as me@example.invalid") {
        Ok(Request::Act {
            action: Action::GrantOperator { person, reason },
            who,
        }) => {
            assert_eq!(person, "her@example.invalid");
            assert_eq!(reason, "because");
            assert_eq!(who.as_deref(), Some("me@example.invalid"));
        }
        other => panic!("{other:?}"),
    }
    let refused = parsed("grant-operator her@example.invalid").expect_err("no reason");
    assert!(refused.contains("--reason"), "{refused}");
    assert!(parsed("revoke-operator her@example.invalid").is_err());
}

#[test]
fn every_usage_refusal_names_the_part_that_was_wrong() {
    for (line, expected) in [
        ("", "name a command"),
        ("nonsense", "not a command"),
        ("operators extra", "takes no arguments"),
        ("revoke-session", "wants"),
        ("backup", "wants"),
        ("audit --tail lots", "--tail wants a number"),
        ("operators --as", "--as wants a value"),
        ("operators --nope", "unknown option"),
    ] {
        let refused = parsed(line).expect_err(line);
        assert!(
            refused.contains(expected),
            "{line:?} refused with {refused:?}, which does not mention {expected:?}"
        );
    }
}

#[test]
fn reads_need_no_actor_and_writes_do() {
    let writes = [
        "grant-operator x@y.invalid --reason r",
        "revoke-operator x@y.invalid --reason r",
        "revoke-session s_AAAAAAAAAAAAAAAAAAAAAA",
        "enable documents",
        "disable documents",
    ];
    for line in writes {
        match parsed(line).expect(line) {
            Request::Act { action, .. } => assert!(action.writes(), "{line}"),
            other => panic!("{line}: {other:?}"),
        }
    }
    for line in ["operators", "sessions", "products", "audit"] {
        match parsed(line).expect(line) {
            Request::Act { action, .. } => assert!(!action.writes(), "{line}"),
            other => panic!("{line}: {other:?}"),
        }
    }
}

#[test]
fn usage_refusals_quote_and_count_exactly() {
    assert_eq!(parsed("audit --tail lots").unwrap_err(), "--tail wants a number, not \"lots\"");
    assert_eq!(parsed("backup a b").unwrap_err(), "backup wants one a directory, not 2");
    assert_eq!(parsed("revoke-session").unwrap_err(), "revoke-session wants a session's public id");
    assert_eq!(parsed("wipe now").unwrap_err(), "wipe takes no arguments");
    assert_eq!(parsed("frobnicate").unwrap_err(), "frobnicate is not a command");
    assert_eq!(parsed("--help").unwrap_err(), "here is what it does");
    assert_eq!(parsed("-h operators").unwrap_err(), "here is what it does");
    assert_eq!(parsed("sessions --person").unwrap_err(), "--person wants a value");
}

#[test]
fn flags_may_stand_anywhere_on_the_line() {
    let early = parsed("--as me@x.invalid --reason why revoke-operator her@x.invalid").unwrap();
    let late = parsed("revoke-operator her@x.invalid --reason why --as me@x.invalid").unwrap();
    assert_eq!(early, late);
    assert_eq!(
        parsed("sessions --person p_1").unwrap(),
        Request::Act {
            action: Action::Sessions { person: Some("p_1".to_owned()) },
            who: None
        }
    );
    assert_eq!(
        parsed("disable documents --as me@x.invalid").unwrap(),
        Request::Act {
            action: Action::SetProduct { slug: "documents".to_owned(), enabled: false },
            who: Some("me@x.invalid".to_owned())
        }
    );
    assert_eq!(parsed("audit --tail +7").unwrap(), Request::Act { action: Action::Audit { tail: 7 }, who: None });
    assert_eq!(SUBCOMMAND, "admin");
}

#[test]
fn a_later_flag_overrides_an_earlier_one() {
    match parsed("audit --tail 5 --tail 9").unwrap() {
        Request::Act { action: Action::Audit { tail }, .. } => assert_eq!(tail, 9),
        other => panic!("{other:?}"),
    }
}

#[test]
fn a_pid_file_names_a_pid_once_trimmed() {
    assert_eq!(pid_in("4242\n"), Some(4242));
    assert_eq!(pid_in("  17 "), Some(17));
    assert_eq!(pid_in("4294967294"), Some(4_294_967_294));
    assert_eq!(pid_in("4294967296"), None, "past u32 is no pid");
    assert_eq!(pid_in("not a pid"), None);
    assert_eq!(pid_in(""), None);
    assert_eq!(PID_FILENAME, "rn-site.pid");
}

#[test]
fn a_held_directory_is_refused_naming_the_pid() {
    assert_eq!(refuse_if_held(None, "data"), Ok(()));
    let refused = refuse_if_held(Some(31337), "data").unwrap_err();
    assert_eq!(refused, AdminError::Locked { pid: 31337, dir: "data".to_owned() });
    assert_eq!(
        refused.message(),
        "this node is running as pid 31337 and hiqlite holds an exclusive lock on data. Stop it first, \
         or use the loopback admin listener (RN_SITE__ADMIN_ADDR)"
    );
}

#[test]
fn an_error_reads_as_the_operator_is_told_it() {
    assert_eq!(
        AdminError::NoSuchPerson("x@y.invalid".to_owned()).message(),
        "no person is registered at x@y.invalid, and it is not a person's public id"
    );
    assert_eq!(AdminError::store("disk full"), AdminError::Store("disk full".to_owned()));
    assert_eq!(AdminError::Refused("no".to_owned()).message(), "no");
}

#[test]
fn a_refused_identifier_is_quoted_in_the_refusal() {
    assert_eq!(
        identifier("a-b").unwrap_err(),
        AdminError::Refused("\"a-b\" is not a name this walk will put into a statement".to_owned())
    );
    assert_eq!(identifier("party").unwrap(), "party");
}

#[test]
fn storage_classes_follow_sqlite_precedence_and_ignore_case() {
    assert_eq!(Kind::of("bigint"), Some(Kind::Int));
    assert_eq!(Kind::of("CHARINT"), Some(Kind::Int), "INT is tested first");
    assert_eq!(Kind::of("clob"), Some(Kind::Text));
    assert_eq!(Kind::of("Floating"), Some(Kind::Real));
    assert_eq!(Kind::of("NUMERIC"), None);
    assert_eq!(NOT_OURS, ["_migrations", "_metadata"]);
}

fn params() -> AdminParams {
    AdminParams { who: None, person: None, session: None, slug: None, reason: None, tail: None }
}

#[test]
fn the_listener_builds_the_same_actions_and_names_what_is_missing() {
    assert_eq!(audit(&params()), Action::Audit { tail: 20 });
    assert_eq!(audit(&AdminParams { tail: Some(3), ..params() }), Action::Audit { tail: 3 });
    assert_eq!(delegate(&params(), true), Err("person"));
    assert_eq!(
        delegate(&AdminParams { person: Some(" her@x.invalid ".to_owned()), ..params() }, true),
        Err("reason")
    );
    assert_eq!(
        delegate(
            &AdminParams {
                person: Some("her@x.invalid".to_owned()),
                reason: Some("why".to_owned()),
                ..params()
            },
            false
        ),
        Ok(Action::RevokeOperator { person: "her@x.invalid".to_owned(), reason: "why".to_owned() })
    );
    assert_eq!(product(&AdminParams { slug: Some("  ".to_owned()), ..params() }, true), Err("slug"));
    assert_eq!(
        product(&AdminParams { slug: Some("docs".to_owned()), ..params() }, true),
        Ok(Action::SetProduct { slug: "docs".to_owned(), enabled: true })
    );
    assert_eq!(revoke_session(&params()), Err("session"));
    assert_eq!(required(&Some(" x ".to_owned()), "x"), Ok("x".to_owned()));
}

#[test]
fn each_refusal_has_its_status() {
    assert_eq!(status(&AdminError::Usage(String::new())), 400);
    assert_eq!(status(&AdminError::NoSuchPerson(String::new())), 404);
    assert_eq!(status(&AdminError::NotYet(String::new())), 501);
    assert_eq!(status(&AdminError::Command(String::new())), 403);
    assert_eq!(status(&AdminError::Locked { pid: 1, dir: String::new() }), 500);
}

fn names(v: &[&str]) -> Vec<String> {
    v.iter().map(|s| s.to_string()).collect()
}

fn keys(v: &[(&str, &str)]) -> Vec<(String, String)> {
    v.iter().map(|(a, b)| (a.to_string(), b.to_string())).collect()
}

#[test]
fn the_walk_puts_every_parent_before_its_children_in_name_order_by_layer() {
    let order = walk_order(
        &names(&["session", "party", "identity", "audit", "factor"]),
        &keys(&[
            ("identity", "party"),
            ("session", "identity"),
            ("factor", "identity"),
            ("party", "party"),
            ("audit", "nowhere"),
        ]),
    );
    assert_eq!(order, names(&["audit", "party", "identity", "factor", "session"]));
}

#[test]
fn a_cycle_is_appended_in_name_order_rather_than_refused() {
    let order = walk_order(
        &names(&["b", "a", "c", "d"]),
        &keys(&[("a", "b"), ("b", "a"), ("d", "c")]),
    );
    assert_eq!(order, names(&["c", "d", "a", "b"]));
    assert!(walk_order(&[], &[]).is_empty());
}

#[test]
fn a_restore_is_refused_for_format_key_and_schema_in_that_order() {
    assert_eq!(restorable(FORMAT, "k", "k", "s", "s"), Ok(()));
    assert_eq!(
        restorable(2, "k", "other", "s", "t"),
        Err(AdminError::Refused("this backup is format 2 and this build writes and reads format 1".to_owned()))
    );
    match restorable(1, "k1", "k2", "s", "t") {
        Err(AdminError::Refused(m)) => assert!(m.starts_with("this backup was taken under id key k1 and this deployment's is k2."), "{m}"),
        other => panic!("{other:?}"),
    }
    assert_eq!(
        restorable(1, "k", "k", "s1", "s2"),
        Err(AdminError::Refused("this backup came out of schema s1 and this deployment is on s2. A restore is not a migration".to_owned()))
    );
}

#[test]
fn a_restore_lands_only_on_empty_tables_and_must_come_back_whole() {
    assert_eq!(refuse_occupied("party", 0), Ok(()));
    match refuse_occupied("party", 3) {
        Err(AdminError::Refused(m)) => assert!(m.starts_with("this database is not empty — party already holds 3 row(s)."), "{m}"),
        other => panic!("{other:?}"),
    }
    assert_eq!(counted("party", 4, 4), Ok(4));
    assert_eq!(
        counted("party", 4, 3),
        Err(AdminError::Store("party: the manifest counted 4 rows and 3 went back".to_owned()))
    );
    assert_eq!(consistent(9, 9), Ok(9));
    match consistent(9, 10) {
        Err(AdminError::Refused(m)) => assert!(m.starts_with("the feed head moved from 9 to 10 while the walk ran"), "{m}"),
        other => panic!("{other:?}"),
    }
}

#[test]
fn only_production_refuses_a_wipe_and_usage_exits_two() {
    assert!(wipe_refused(&Request::Wipe, Mode::Prod));
    assert!(!wipe_refused(&Request::Wipe, Mode::Dev));
    assert!(!wipe_refused(&Request::Backup("x".to_owned()), Mode::Prod));
    assert!(WIPE_REFUSAL.contains("mode=prod"));
    assert_eq!(exit_code(&AdminError::Usage(String::new())), 2);
    assert_eq!(exit_code(&AdminError::Store(String::new())), 1);
}

#[test]
fn who_answers_may_be_named_at_either_end_of_the_line() {
    let front = parsed("--as me@example.invalid grant-operator her@example.invalid --reason because");
    let back = parsed("grant-operator her@example.invalid --reason because --as me@example.invalid");
    assert_eq!(front, back);
    assert_eq!(
        back,
        Ok(Request::Act {
            action: Action::GrantOperator {
                person: "her@example.invalid".to_string(),
                reason: "because".to_string()
            },
            who: Some("me@example.invalid".to_string()),
        })
    );
}

#[test]
fn a_missing_parameter_is_named_as_the_query_string_spells_it() {
    assert_eq!(wanted("person"), "this action wants ?person=");
}

fn cell(shape: Shape, json: &str) -> Cell {
    Cell { shape, json: json.to_string() }
}

#[test]
fn values_come_back_as_the_class_their_column_declares() {
    assert_eq!(param(&cell(Shape::Number(Some(7)), "7"), Kind::Int), Ok(Stored::Integer(7)));
    assert_eq!(param(&cell(Shape::Null, "null"), Kind::Int), Ok(Stored::Null));
    assert_eq!(param(&cell(Shape::Null, "null"), Kind::Blob), Ok(Stored::Null));
    assert!(matches!(param(&cell(Shape::Text("x".to_string()), "\"x\""), Kind::Text), Ok(Stored::Text(_))));
    assert_eq!(param(&cell(Shape::Number(None), "1.5"), Kind::Real), Ok(Stored::Real));

    let bytes = vec![0u8, 255, 128, 7];
    let encoded = base64::Engine::encode(&base64::engine::general_purpose::STANDARD, &bytes);
    let json = format!("{{\"b64\":\"{encoded}\"}}");
    match param(&cell(Shape::Object(Some(encoded)), &json), Kind::Blob) {
        Ok(Stored::Blob(back)) => assert_eq!(back, bytes),
        other => panic!("{other:?}"),
    }
}

#[test]
fn a_value_of_the_wrong_shape_is_refused() {
    assert!(param(&cell(Shape::Text("7".to_string()), "\"7\""), Kind::Int).is_err());
    assert!(param(&cell(Shape::Number(Some(7)), "7"), Kind::Text).is_err());
    assert!(param(&cell(Shape::Text("not-an-object".to_string()), "\"not-an-object\""), Kind::Blob).is_err());
    assert!(param(&cell(Shape::Object(Some("not base64!!".to_string())), "{\"b64\":\"not base64!!\"}"), Kind::Blob).is_err());
}

#[test]
fn a_refused_value_says_what_it_was_and_what_the_column_wanted() {
    assert_eq!(param(&cell(Shape::Number(None), "1.5"), Kind::Int), Err("1.5 is not an integer".to_string()));
    assert_eq!(param(&cell(Shape::Other, "true"), Kind::Real), Err("true is not a number".to_string()));
    assert_eq!(param(&cell(Shape::Number(Some(7)), "7"), Kind::Text), Err("7 is not text".to_string()));
    assert_eq!(
        param(&cell(Shape::Object(None), "{}"), Kind::Blob),
        Err("{} is not a {\"b64\": …} blob".to_string())
    );
    let refused = param(&cell(Shape::Object(Some("@@@@".to_string())), "{\"b64\":\"@@@@\"}"), Kind::Blob)
        .expect_err("not base64");
    assert!(refused.starts_with("the blob does not decode: "), "{refused}");
    assert_eq!(stored_blob(Ok(vec![1, 2])), Ok(Stored::Blob(vec![1, 2])));
    assert_eq!(stored_blob(Err("bad".to_string())), Err("the blob does not decode: bad".to_string()));
}

fn columns() -> Vec<Column> {
    vec![
        Column { name: "id".to_string(), kind: Kind::Int },
        Column { name: "name".to_string(), kind: Kind::Text },
    ]
}

#[test]
fn a_row_goes_back_with_one_parameter_per_column() {
    assert_eq!(
        insert_statement("party", &columns()),
        "INSERT INTO \"party\" (\"id\", \"name\") VALUES ($1, $2)"
    );
    assert_eq!(insert_statement("t", &columns()[..1]), "INSERT INTO \"t\" (\"id\") VALUES ($1)");
    let row = [cell(Shape::Number(Some(3)), "3"), cell(Shape::Text("Ada".to_string()), "\"Ada\"")];
    assert_eq!(
        row_params("b/tables/party.jsonl", 4, &columns(), &row),
        Ok(vec![Stored::Integer(3), Stored::Text("Ada".to_string())])
    );
    assert_eq!(
        row_params("b/tables/party.jsonl", 4, &columns(), &row[..1]),
        Err(AdminError::Usage("b/tables/party.jsonl:4: 1 values for 2 columns".to_string()))
    );
    let wrong = [cell(Shape::Number(Some(3)), "3"), cell(Shape::Number(Some(9)), "9")];
    assert_eq!(
        row_params("b/tables/party.jsonl", 5, &columns(), &wrong),
        Err(AdminError::Usage("b/tables/party.jsonl:5: name: 9 is not text".to_string()))
    );
}

#[test]
fn the_reports_count_rows_and_list_only_the_tables_that_had_any() {
    let tables = vec![
        TableEntry { name: "party".to_string(), columns: columns(), rows: 3 },
        TableEntry { name: "session".to_string(), columns: columns(), rows: 0 },
        TableEntry { name: "audit".to_string(), columns: columns(), rows: 12 },
    ];
    assert_eq!(
        backup_report(40, &tables, "/tmp/b"),
        format!("backup at offset 40 — 15 rows over 3 tables, into /tmp/b\n  {:<20} 3\n  {:<20} 12\n", "party", "audit")
    );
    let removed = vec![("audit".to_string(), 12u64), ("session".to_string(), 0), ("a_table_with_a_long_name".to_string(), 1)];
    assert_eq!(
        wipe_report(&removed),
        "wiped 13 rows over 3 tables. This deployment now has no operator: the configured bootstrap address takes it on the next registration, or the dev sign-in invents one.\n  audit                12\n  a_table_with_a_long_name 1\n"
    );
    assert_eq!(
        restore_report(15, 3, "/tmp/b", 40, 40),
        "restored 15 rows over 3 tables from /tmp/b\nthe feed head is 40; the manifest was consistent at 40\n"
    );
    assert!(restore_report(15, 3, "/tmp/b", 39, 40).ends_with("read it before trusting this instance\n"));
}

#[test]
fn a_blob_is_written_as_base64_and_reads_back_as_the_same_bytes() {
    let bytes = [0u8, 255, 128, 7];
    let member = blob_member(&bytes);
    assert_eq!(member, "AP+ABw==");
    let json = format!("{{\"b64\":\"{member}\"}}");
    assert_eq!(
        param(&cell(Shape::Object(Some(member)), &json), Kind::Blob),
        Ok(Stored::Blob(bytes.to_vec()))
    );
    assert_eq!(blob_member(&[]), "");
}

#[test]
fn a_column_is_read_by_its_declared_class_and_an_unknown_type_is_refused() {
    assert_eq!(
        column_of("party", "display_name", "VARCHAR(40)"),
        Ok(Column { name: "display_name".to_string(), kind: Kind::Text })
    );
    assert_eq!(
        column_of("party", "weight", "NUMERIC"),
        Err(AdminError::Refused(
            "party.weight declares the type \"NUMERIC\", which is not one of SQLite's five storage classes. The walk will not guess at how to read it"
                .to_string()
        ))
    );
    assert!(matches!(column_of("party", "bad name", "TEXT"), Err(AdminError::Refused(_))));
    assert_eq!(columns_found("party", columns()), Ok(columns()));
    assert_eq!(columns_found("empty", Vec::new()), Err(AdminError::Refused("empty has no columns".to_string())));
}

#[test]
fn a_flag_and_its_value_may_stand_anywhere_between_words() {
    let at_end = parsed("grant-operator her@example.invalid --as me@example.invalid --reason because");
    for line in [
        "--reason because grant-operator her@example.invalid --as me@example.invalid",
        "grant-operator --reason because her@example.invalid --as me@example.invalid",
        "grant-operator her@example.invalid --reason because --as me@example.invalid",
    ] {
        assert_eq!(parsed(line), at_end, "{line}");
    }
    assert_eq!(parsed("audit --tail 5"), parsed("--tail 5 audit"));
}

#[test]
fn a_write_needs_someone_to_answer_for_it_and_a_read_needs_nobody() {
    assert_eq!(actor_for(&Action::Operators, Some("me@example.invalid")), Ok(None));
    assert_eq!(actor_for(&Action::Audit { tail: 5 }, None), Ok(None));
    let grant = Action::GrantOperator { person: "her@example.invalid".to_string(), reason: "r".to_string() };
    assert_eq!(actor_for(&grant, Some("me@example.invalid")), Ok(Some("me@example.invalid".to_string())));
    assert_eq!(actor_for(&grant, None), Err(AdminError::Usage(NEEDS_ACTOR.to_string())));
}

#[test]
fn only_an_active_resolved_registration_may_act() {
    assert_eq!(acting(" nobody@example.invalid ", None), Err(AdminError::NoSuchPerson("nobody@example.invalid".to_string())));
    let found = |status: &str, person| IdentityFound { identity: 4, status: status.to_string(), person };
    assert_eq!(
        acting("me@example.invalid", Some(found("disabled", Some(3)))),
        Err(AdminError::NoActor("the registration at me@example.invalid is disabled, so it cannot act".to_string()))
    );
    assert_eq!(
        acting("me@example.invalid", Some(found("active", None))),
        Err(AdminError::NoActor(
            "me@example.invalid has registered but has not resolved to a person yet, and authority is the person's".to_string()
        ))
    );
    assert_eq!(acting("me@example.invalid", Some(found("active", Some(3)))), Ok((4, 3)));
    assert_eq!(minted("me@example.invalid", 1), Ok(()));
    assert_eq!(
        minted(" me@example.invalid", 0),
        Err(AdminError::NoActor(
            "me@example.invalid cannot hold a session: the registration or the person it names is disabled".to_string()
        ))
    );
}

#[test]
fn the_read_actions_print_one_row_a_line_in_columns() {
    assert_eq!(audit_limit(0), 1);
    assert_eq!(audit_limit(20), 20);
    assert_eq!(audit_limit(5000), 1000);
    assert_eq!(
        operators_report(&[]),
        "no operators — this deployment has nobody who can grant one\n"
    );
    let ops = [
        OperatorLine { id: "p_A".to_string(), who: "Ada".to_string(), at: 100, bootstrap: true },
        OperatorLine { id: "p_B".to_string(), who: "Bea".to_string(), at: 200, bootstrap: false },
    ];
    assert_eq!(
        operators_report(&ops),
        format!("p_A  {:<24} since 100  (bootstrap)\np_B  {:<24} since 200\n", "Ada", "Bea")
    );
    assert_eq!(sessions_report(&[]), "no live sessions\n");
    let live = [SessionLine { id: "s_A".to_string(), who: None, expires_at: -5, impersonated: true }];
    assert_eq!(sessions_report(&live), format!("s_A  {:<24} expires -5  impersonated\n", "(unresolved)"));
    let rows = [
        AuditLine { id: 12, command: "share".to_string(), actor: Some(4), at: 1700, payload: "{}".to_string() },
        AuditLine { id: 11, command: "register".to_string(), actor: None, at: 1600, payload: "{\"a\":1}".to_string() },
    ];
    assert_eq!(
        audit_report(&rows),
        format!(
            "{:>8}  {:<22} actor {:<6} at {}  {}\n{:>8}  {:<22} actor {:<6} at {}  {}\n",
            11, "register", "-", 1600, "{\"a\":1}", 12, "share", "4", 1700, "{}"
        )
    );
}

#[test]
fn only_the_deployments_own_tables_are_walked() {
    assert!(owned("party"));
    assert!(owned("audit"));
    assert!(!owned("sqlite_sequence"));
    assert!(!owned("_migrations"));
    assert!(!owned("_metadata"));
    assert!(owned("_metadata_extra"));
}

#[test]
fn a_backup_never_lands_on_another_backup() {
    assert_eq!(refuse_existing_backup("/tmp/b", false), Ok(()));
    assert_eq!(
        refuse_existing_backup("/tmp/b", true),
        Err(AdminError::Usage("/tmp/b already holds a backup; name a directory that does not".to_string()))
    );
}

#[test]
fn a_restore_is_refused_before_any_row_when_anything_disagrees() {
    assert_eq!(restore_gate(FORMAT, "k", "k", "s", "s", None), Ok(()));
    assert_eq!(restore_gate(FORMAT, "k", "k", "s", "s", Some(("party", 0))), Ok(()));
    assert!(matches!(restore_gate(2, "k", "k", "s", "s", None), Err(AdminError::Refused(_))));
    assert!(matches!(restore_gate(FORMAT, "k", "j", "s", "s", None), Err(AdminError::Refused(_))));
    assert_eq!(
        restore_gate(FORMAT, "k", "k", "s", "s", Some(("party", 3))),
        refuse_occupied("party", 3)
    );
    assert_eq!(
        restore_gate(FORMAT, "k", "j", "s", "s", Some(("party", 3))),
        restorable(FORMAT, "k", "j", "s", "s"),
        "the key is asked before the rows"
    );
}
