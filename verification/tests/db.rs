use rn_site::config::Mode;
use rn_site::db::cluster::{
    flag, from_env, listen_addrs, parse_nodes, parse_nodes_allowing, required, secret,
    secret_file_path, Environment, FileRead, NodeAddr, DEFAULT_ADDR_API, DEFAULT_ADDR_RAFT,
    DEV_SECRET_API, DEV_SECRET_RAFT,
};
use rn_site::db::migrations::{
    check, forming, hex, AppliedMigration, IntegrityError, MigrateError, Migration, Migrations,
    SqlFile,
};
use rn_site::db::{ensure_data_dir, expected_voters, health_verdict, DbError, DirAction, Tuning};

const THREE: &str = "1@10.0.0.1:8100@10.0.0.1:8200,\
                     2@10.0.0.2:8100@10.0.0.2:8200,\
                     3@10.0.0.3:8100@10.0.0.3:8200";

#[test]
fn a_well_formed_odd_peer_map_containing_this_node_parses() {
    let nodes = parse_nodes(THREE, 2).expect("three mesh voters");
    assert_eq!(nodes.len(), 3);
    assert_eq!(nodes[1].id, 2);
    assert_eq!(nodes[1].addr_api, "10.0.0.2:8200");
}

#[test]
fn a_node_absent_from_its_own_peer_map_is_refused() {
    assert!(parse_nodes(THREE, 4).is_err());
}

#[test]
fn an_even_or_undersized_cluster_is_refused() {
    assert!(parse_nodes("1@10.0.0.1:8100@10.0.0.1:8200", 1).is_err());
    assert!(
        parse_nodes(
            "1@10.0.0.1:8100@10.0.0.1:8200,2@10.0.0.2:8100@10.0.0.2:8200",
            1
        )
        .is_err()
    );
}

#[test]
fn a_loopback_peer_address_is_refused_because_no_peer_could_reach_it() {
    let local = THREE.replacen("10.0.0.1:8100", "127.0.0.1:8100", 1);
    assert!(parse_nodes(&local, 1).is_err());
    assert!(parse_nodes(&THREE.replacen("10.0.0.2", "0.0.0.0", 1), 1).is_err());
}

#[test]
fn a_malformed_entry_is_refused_rather_than_silently_dropped() {
    for bad in [
        "1@10.0.0.1:8100,2@10.0.0.2:8100@10.0.0.2:8200,3@10.0.0.3:8100@10.0.0.3:8200",
        "x@10.0.0.1:8100@10.0.0.1:8200,2@10.0.0.2:8100@10.0.0.2:8200,3@a:1@b:2",
        "1@10.0.0.1:8100@10.0.0.1:8200@extra,2@10.0.0.2:8100@10.0.0.2:8200,3@10.0.0.3:8100@10.0.0.3:8200",
    ] {
        assert!(parse_nodes(bad, 1).is_err(), "{bad} should not parse");
    }
}

#[test]
fn a_single_host_cluster_is_admissible_only_when_it_says_so() {
    let local = "1@127.0.0.1:8101@127.0.0.1:8201,\
                 2@127.0.0.1:8102@127.0.0.1:8202,\
                 3@127.0.0.1:8103@127.0.0.1:8203";
    assert!(parse_nodes(local, 2).is_err());
    let nodes = parse_nodes_allowing(local, 2, true).expect("a declared local cluster");
    assert_eq!(nodes.len(), 3);
    assert_eq!(nodes[1].addr_raft, "127.0.0.1:8102");
    assert!(parse_nodes_allowing(local, 4, true).is_err());
    assert!(parse_nodes_allowing("1@127.0.0.1:8101@127.0.0.1:8201", 1, true).is_err());
}

#[test]
fn a_duplicated_node_id_is_refused() {
    let duplicate = "1@10.0.0.1:8100@10.0.0.1:8200,\
                     1@10.0.0.2:8100@10.0.0.2:8200,\
                     3@10.0.0.3:8100@10.0.0.3:8200";
    assert!(parse_nodes(duplicate, 1).is_err());
}

#[test]
fn each_peer_map_refusal_names_what_broke() {
    assert_eq!(
        parse_nodes("1@a:1", 1),
        Err(DbError::Config("invalid RN_SITE_HQL_NODES entry `1@a:1`; expected id@raft@api".to_owned()))
    );
    assert_eq!(
        parse_nodes("1@a:1@b:1,1@c:1@d:1", 1),
        Err(DbError::Config("RN_SITE_HQL_NODES contains duplicate node id 1".to_owned()))
    );
    assert_eq!(
        parse_nodes("1@localhost:1@b:1", 1),
        Err(DbError::Config("a production peer address must be mesh-reachable, not `localhost:1`".to_owned()))
    );
    assert_eq!(
        parse_nodes(" , 1@a:1@b:1 ,, ", 1),
        Err(DbError::Config("RN_SITE_HQL_NODES must describe an odd cluster of at least 3 nodes; found 1".to_owned()))
    );
    assert_eq!(
        parse_nodes(THREE, 9),
        Err(DbError::Config("RN_SITE_HQL_NODE_ID 9 is absent from RN_SITE_HQL_NODES".to_owned()))
    );
}

fn embedded(steps: &[(u32, &str, &str)]) -> Vec<Migration> {
    steps
        .iter()
        .map(|(id, name, hash)| Migration {
            id: *id,
            name: (*name).to_string(),
            hash: (*hash).to_string(),
            sql: String::new(),
        })
        .collect()
}

fn applied(steps: &[(u32, &str, &str)]) -> Vec<AppliedMigration> {
    steps
        .iter()
        .map(|(id, name, hash)| AppliedMigration {
            id: *id,
            name: (*name).to_string(),
            ts: 0,
            hash: (*hash).to_string(),
        })
        .collect()
}

#[test]
fn an_appended_migration_is_the_normal_case_and_is_accepted() {
    let known = embedded(&[(1, "kernel", "aaa"), (2, "documents", "bbb")]);
    assert_eq!(check(&known, &applied(&[(1, "kernel", "aaa")])), Ok(()));
}

#[test]
fn editing_an_already_applied_migration_refuses_the_boot() {
    let error = check(
        &embedded(&[(1, "kernel", "new")]),
        &applied(&[(1, "kernel", "old")]),
    )
    .unwrap_err();
    assert_eq!(error.field, "hash");
    assert_eq!(error.actual, "old");
}

#[test]
fn renaming_an_already_applied_migration_refuses_the_boot() {
    let error = check(
        &embedded(&[(1, "parties", "aaa")]),
        &applied(&[(1, "kernel", "aaa")]),
    )
    .unwrap_err();
    assert_eq!(error.field, "name");
}

#[test]
fn a_database_ahead_of_the_binary_refuses_the_boot() {
    let error = check(
        &embedded(&[(1, "kernel", "aaa")]),
        &applied(&[(1, "kernel", "aaa"), (2, "documents", "bbb")]),
    )
    .unwrap_err();
    assert_eq!(error.migration_id, 2);
    assert_eq!(error.actual, "missing");
}

#[test]
fn a_gap_on_either_side_refuses_the_boot() {
    let gapped = vec![
        Migration {
            id: 1,
            name: "a".into(),
            hash: "x".into(),
            sql: String::new(),
        },
        Migration {
            id: 3,
            name: "c".into(),
            hash: "z".into(),
            sql: String::new(),
        },
    ];
    assert_eq!(
        Migrations::sequenced(gapped, "embedded sequence")
            .unwrap_err()
            .migration_id,
        2
    );
    let error = check(
        &embedded(&[(1, "a", "x"), (2, "b", "y"), (3, "c", "z")]),
        &applied(&[(1, "a", "x"), (3, "c", "z")]),
    )
    .unwrap_err();
    assert_eq!(error.field, "applied sequence");
}

#[test]
fn the_seam_starts_empty_so_boot_applies_nothing_until_the_kernel_lands() {
    assert!(Migrations::default().is_empty());
    assert_eq!(check(&[], &[]), Ok(()));
}

#[test]
fn hex_is_lowercase_and_zero_padded() {
    assert_eq!(hex(&[0x00, 0x0f, 0xff]), "000fff");
}

#[test]
fn a_refusal_reads_as_one_sentence() {
    let error = check(&embedded(&[(1, "kernel", "new")]), &applied(&[(1, "kernel", "old")])).unwrap_err();
    assert_eq!(error.message(), "migration 1: hash should be new, database has old");
    let missing = check(&[], &applied(&[(1, "kernel", "aaa")])).unwrap_err();
    assert_eq!(missing, IntegrityError {
        migration_id: 1,
        field: "filename",
        expected: "1_kernel".to_owned(),
        actual: "missing".to_owned(),
    });
    assert_eq!(
        DbError::Migrate(MigrateError::Integrity(missing)).message(),
        "migration 1: filename should be 1_kernel, database has missing"
    );
}

fn file(name: &str, sql: Option<&str>) -> SqlFile {
    SqlFile { filename: name.to_owned(), sha256: vec![0xab, 0x01], sql: sql.map(str::to_owned) }
}

#[test]
fn the_embedded_folder_is_read_in_id_order_and_must_have_no_gap() {
    let history = Migrations::embedded(&[
        file("2_documents.sql", Some("create table d")),
        file("1_kernel.sql", Some("create table k")),
    ])
    .expect("a gap-free folder");
    assert_eq!(history.len(), 2);
    assert_eq!(history.steps()[0].name, "kernel");
    assert_eq!(history.steps()[1].id, 2);
    assert_eq!(history.steps()[1].hash, "ab01");
    assert_eq!(history.steps()[0].sql, "create table k");

    let gapped = Migrations::embedded(&[file("3_c.sql", Some("")), file("1_a.sql", Some(""))]).unwrap_err();
    assert_eq!((gapped.migration_id, gapped.field, gapped.expected.as_str(), gapped.actual.as_str()), (2, "embedded sequence", "2", "3"));
    let twice = Migrations::embedded(&[file("1_a.sql", Some("")), file("1_b.sql", Some(""))]).unwrap_err();
    assert_eq!((twice.migration_id, twice.actual.as_str()), (2, "1"));
    assert!(Migrations::embedded(&[]).expect("nothing to apply").is_empty());
}

#[test]
fn a_misnamed_or_unreadable_file_is_refused_by_name() {
    let e = Migrations::embedded(&[file("kernel.sql", Some(""))]).unwrap_err();
    assert_eq!((e.migration_id, e.expected.as_str(), e.actual.as_str()), (0, "<integer>_<name>.sql", "kernel.sql"));
    let e = Migrations::embedded(&[file("one_kernel.sql", Some(""))]).unwrap_err();
    assert_eq!((e.expected.as_str(), e.actual.as_str()), ("a positive integer", "one"));
    let e = Migrations::embedded(&[file("1_kernel.txt", Some(""))]).unwrap_err();
    assert_eq!((e.migration_id, e.expected.as_str()), (1, "a .sql suffix"));
    let e = Migrations::embedded(&[file("1_kernel.sql", None)]).unwrap_err();
    assert_eq!((e.migration_id, e.expected.as_str(), e.actual.as_str()), (1, "utf-8 sql", "invalid utf-8"));
}

#[test]
fn a_cluster_that_is_still_forming_is_waited_for_and_nothing_else_is() {
    assert!(forming("ClientWriteError: has to forward request to: None, None"));
    assert!(forming("no such table: _migrations"));
    assert!(forming("the raft group has no leader"));
    assert!(forming("Leader vote is in progress"));
    assert!(!forming("UNIQUE constraint failed"));
    assert!(!forming(""));
}

#[test]
fn the_tunings_are_the_documented_ones() {
    assert_eq!(Tuning::default(), Tuning { heartbeat_interval_ms: None, cache_storage_disk: true });
    assert_eq!(Tuning::fast_single_node(), Tuning { heartbeat_interval_ms: Some(50), cache_storage_disk: false });
}

#[test]
fn a_tuned_heartbeat_keeps_elections_at_three_and_six_beats() {
    assert_eq!(Tuning::fast_single_node().raft_timings(), Some((50, 150, 300)));
    assert_eq!(Tuning::default().raft_timings(), None);
}

#[test]
fn the_data_directory_rule_is_refuse_in_prod_and_make_in_dev() {
    assert_eq!(ensure_data_dir(Mode::Dev, "data", true, true), Ok(DirAction::Ready));
    assert_eq!(ensure_data_dir(Mode::Dev, "data", false, false), Ok(DirAction::Create));
    assert_eq!(
        ensure_data_dir(Mode::Prod, "data", false, false),
        Err(DbError::Config("mode=prod requires a pre-provisioned writable hiqlite data directory at data".to_owned()))
    );
    for mode in [Mode::Dev, Mode::Prod] {
        assert_eq!(
            ensure_data_dir(mode, "occupied", false, true),
            Err(DbError::Config("the hiqlite data path is not a directory: occupied".to_owned()))
        );
    }
}

#[test]
fn the_voter_count_is_the_peer_map_or_one() {
    assert_eq!(expected_voters(None), 1);
    assert_eq!(expected_voters(Some("")), 1);
    assert_eq!(expected_voters(Some(THREE)), 3);
    assert_eq!(expected_voters(Some("a, ,b,")), 2);
}

#[test]
fn health_is_both_groups_or_the_first_failure_once_out_of_time() {
    assert_eq!(health_verdict(&Ok(()), &Ok(()), false), Some(Ok(())));
    assert_eq!(health_verdict(&Err("x".to_owned()), &Ok(()), false), None);
    assert_eq!(
        health_verdict(&Err("x".to_owned()), &Err("y".to_owned()), true),
        Some(Err(DbError::Unhealthy("db raft unhealthy: x".to_owned())))
    );
    assert_eq!(
        health_verdict(&Ok(()), &Err("y".to_owned()), true),
        Some(Err(DbError::Unhealthy("cache raft unhealthy: y".to_owned())))
    );
    assert_eq!(
        DbError::Unhealthy("db raft unhealthy: x".to_owned()).message(),
        "the cluster did not become healthy: db raft unhealthy: x"
    );
    assert_eq!(DbError::Io { path: "p".to_owned(), source: "gone".to_owned() }.message(), "io error at p: gone");
}

#[test]
fn the_listen_addresses_default_to_loopback() {
    assert_eq!(listen_addrs(None, Some("  ")), (DEFAULT_ADDR_RAFT.to_owned(), DEFAULT_ADDR_API.to_owned()));
    assert_eq!(listen_addrs(Some(" 0.0.0.0:8100 "), None).0, "0.0.0.0:8100");
}

#[test]
fn switches_and_required_variables_read_strictly() {
    assert_eq!(flag("F", None), Ok(false));
    assert_eq!(flag("F", Some(" 0 ")), Ok(false));
    assert_eq!(flag("F", Some("")), Ok(false));
    assert_eq!(flag("F", Some("true")), Ok(true));
    assert_eq!(flag("F", Some("yes")), Err(DbError::Config("F must be true/false or 1/0".to_owned())));
    assert_eq!(required("V", Some(" v ")), Ok("v".to_owned()));
    assert_eq!(required("V", Some("  ")), Err(DbError::Config("mode=prod requires V".to_owned())));
    assert_eq!(secret_file_path(Some(" /run/s ")), Some("/run/s".to_owned()));
    assert_eq!(secret_file_path(Some(" ")), None);
}

#[test]
fn a_secret_file_wins_and_a_short_secret_is_refused() {
    let file = Some(FileRead { path: "/run/s".to_owned(), contents: Ok(" 0123456789abcdef\n".to_owned()) });
    assert_eq!(secret("S", Some("ignored-because-the-file-wins"), &file), Ok("0123456789abcdef".to_owned()));
    assert_eq!(
        secret("S", Some("short"), &None),
        Err(DbError::Config("S must contain at least 16 characters".to_owned()))
    );
    assert_eq!(secret("S", Some("ééééééééé"), &None), Ok("ééééééééé".to_owned()), "bytes, not characters");
    let broken = Some(FileRead { path: "/run/s".to_owned(), contents: Err("permission denied".to_owned()) });
    assert_eq!(
        secret("S", None, &broken),
        Err(DbError::Io { path: "/run/s".to_owned(), source: "permission denied".to_owned() })
    );
}

fn env() -> Environment {
    Environment {
        node_id: Some("2".to_owned()),
        nodes: Some(THREE.to_owned()),
        local_cluster: None,
        learner_only: Some("1".to_owned()),
        secret_raft: Some("raft-secret-0123456".to_owned()),
        secret_raft_file: None,
        secret_api: Some("api-secret-01234567".to_owned()),
        secret_api_file: None,
    }
}

#[test]
fn a_prod_node_reads_its_whole_topology_and_dev_needs_none() {
    let t = from_env(Mode::Prod, "ignored", "ignored", &env()).expect("a complete environment");
    assert_eq!(t.node_id, 2);
    assert_eq!(t.nodes.len(), 3);
    assert_eq!(t.secret_raft, "raft-secret-0123456");
    assert!(t.learner_only);

    let dev = from_env(Mode::Dev, "127.0.0.1:1", "127.0.0.1:2", &env()).unwrap();
    assert_eq!(dev.nodes, vec![NodeAddr { id: 1, addr_raft: "127.0.0.1:1".to_owned(), addr_api: "127.0.0.1:2".to_owned() }]);
    assert_eq!(dev.secret_raft, DEV_SECRET_RAFT);
    assert_eq!(dev.secret_api, DEV_SECRET_API);

    let mut no_id = env();
    no_id.node_id = Some("two".to_owned());
    assert_eq!(
        from_env(Mode::Prod, "", "", &no_id),
        Err(DbError::Config("RN_SITE_HQL_NODE_ID must be an integer".to_owned()))
    );
    let mut missing = env();
    missing.nodes = None;
    assert_eq!(
        from_env(Mode::Prod, "", "", &missing),
        Err(DbError::Config("mode=prod requires RN_SITE_HQL_NODES".to_owned()))
    );
}

#[test]
fn dev_creates_the_directory_and_leaves_the_database_file_to_hiqlite() {
    // `nested/` does not exist yet: dev makes it, and makes nothing else.
    assert_eq!(ensure_data_dir(Mode::Dev, "root/nested", false, false), Ok(DirAction::Create));
}

#[test]
fn prod_refuses_an_unprovisioned_data_directory() {
    assert!(matches!(ensure_data_dir(Mode::Prod, "root/missing", false, false), Err(DbError::Config(_))));
}

#[test]
fn a_data_path_whose_parent_is_a_file_is_refused_in_either_mode() {
    for mode in [Mode::Dev, Mode::Prod] {
        assert!(matches!(ensure_data_dir(mode, "root/occupied", false, true), Err(DbError::Config(_))));
    }
}
