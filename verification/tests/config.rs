use rn_site::config::id_key_of;
use rn_site::bootstrap::BootstrapError;
use rn_site::config::{dir_of, filename_of, generated_id_key, is_id_key, AppConfig, ConfigError, Mode};

fn cfg(mode: Mode, id_key: Option<&str>) -> AppConfig {
    AppConfig {
        mode,
        db_path: "data/db.sqlite".to_owned(),
        addr: "127.0.0.1:3004".to_owned(),
        static_dir: "static".to_owned(),
        id_key: id_key.map(str::to_string),
    }
}

#[test]
fn the_checked_in_defaults_are_the_ones_a_bare_cargo_run_gets() {
    let cfg = cfg(Mode::Dev, None);
    assert_eq!(cfg.db_dir(), "data");
    assert_eq!(cfg.db_filename(), "db.sqlite");
    assert_eq!(cfg.mode.as_str(), "dev");
}

#[test]
fn production_refuses_to_boot_without_an_id_key() {
    assert!(cfg(Mode::Prod, None).validate().is_err());
    assert!(cfg(Mode::Prod, Some(&"a".repeat(32))).validate().is_ok());
}

#[test]
fn a_malformed_id_key_is_refused_in_either_mode() {
    for mode in [Mode::Dev, Mode::Prod] {
        assert!(cfg(mode, Some("too-short")).validate().is_err());
        assert!(cfg(mode, Some(&"A".repeat(32))).validate().is_err());
        assert!(cfg(mode, Some(&"z".repeat(32))).validate().is_err());
    }
}

#[test]
fn dev_mints_a_well_formed_ephemeral_key_when_none_is_configured() {
    let key = cfg(Mode::Dev, None).require_id_key();
    assert!(is_id_key(&key), "{key}");
    assert_ne!(key, cfg(Mode::Dev, None).require_id_key());
}

#[test]
fn a_bare_filename_keeps_its_database_in_the_working_directory() {
    let mut cfg = cfg(Mode::Dev, None);
    cfg.db_path = "db.sqlite".to_owned();
    assert_eq!(cfg.db_dir(), ".");
}

#[test]
fn a_configured_key_is_the_key() {
    let key = "0123456789abcdef0123456789abcdef";
    assert_eq!(cfg(Mode::Prod, Some(key)).require_id_key(), key);
    assert!(is_id_key(&generated_id_key()));
    assert!(!is_id_key("0123456789abcdef0123456789abcdeé"));
    assert!(!is_id_key(""));
}

#[test]
fn each_refusal_says_why() {
    assert_eq!(
        cfg(Mode::Prod, None).validate(),
        Err(ConfigError::Invalid(
            "mode=prod requires RN_SITE__ID_KEY: public ids are derived from it, so a generated one would rename every object on restart".to_owned()
        ))
    );
    assert_eq!(
        cfg(Mode::Dev, Some("x")).validate().unwrap_err().message(),
        "id_key must be 32 lowercase hex characters (an AES-128 key)"
    );
    assert_eq!(Mode::Prod.as_str(), "prod");
}

#[test]
fn the_directory_and_file_come_from_the_path() {
    let mut c = cfg(Mode::Dev, None);
    c.db_path = "/var/lib/rn/db.sqlite".to_owned();
    assert_eq!(c.db_dir(), "/var/lib/rn");
    assert_eq!(c.db_filename(), "db.sqlite");
    c.db_path = "/".to_owned();
    assert_eq!(c.db_dir(), ".");
    assert_eq!(c.db_filename(), "db.sqlite");
    assert_eq!(dir_of(Some("")), ".");
    assert_eq!(dir_of(None), ".");
    assert_eq!(dir_of(Some("data")), "data");
    assert_eq!(filename_of(None), "db.sqlite");
    assert_eq!(filename_of(Some("x.db")), "x.db");
}

#[test]
fn a_bootstrap_refusal_names_its_reason() {
    assert_eq!(
        BootstrapError::NoSuchPerson("a@b.invalid".to_owned()).message(),
        "no person is registered at a@b.invalid"
    );
    assert_eq!(BootstrapError::Refused.message(), "the deployment already has a platform operator");
    assert_eq!(BootstrapError::Store("down".to_owned()).message(), "down");
}

#[test]
fn a_key_is_its_two_words_in_hex_first_word_first() {
    assert_eq!(id_key_of(0x0123_4567_89ab_cdef, 255), "0123456789abcdef00000000000000ff");
    assert_eq!(id_key_of(0, 0), "0".repeat(32));
    assert!(is_id_key(&id_key_of(u64::MAX, 1)));
    let a = generated_id_key();
    let b = generated_id_key();
    assert!(is_id_key(&a) && is_id_key(&b));
    assert_ne!(a[..16], a[16..], "the two halves come from two different words");
}
