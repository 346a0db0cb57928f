//! Process configuration, and the rules a configuration must keep before the
//! process may open a socket or a database.
//!
//! Loading — defaults, then `config.toml`, then the `RN_SITE__*` environment —
//! happens at the edge; what is here is what the loaded values must satisfy,
//! and what is derived from them.

use vstd::prelude::*;
use std::hash::BuildHasher;
use std::hash::RandomState;

use crate::text::{chars_of, hex_fixed, push_hex};

verus! {

/// Runtime mode. `dev` is the checked-in default so a bare `cargo run` works.
#[derive(Debug, Clone, Copy, PartialEq, Eq, Structural)]
pub enum Mode {
    Dev,
    Prod,
}

pub open spec fn mode_str(m: Mode) -> &'static str {
    match m {
        Mode::Dev => "dev",
        Mode::Prod => "prod",
    }
}

impl Mode {
    /// The mode's name, as the configuration spells it.
    pub fn as_str(self) -> (r: &'static str)
        ensures
            r == mode_str(self),
    {
        match self {
            Mode::Dev => "dev",
            Mode::Prod => "prod",
        }
    }
}

/// Everything the process needs before it can open a socket or a database.
#[derive(Debug, Clone, PartialEq, Eq)]
pub struct AppConfig {
    pub mode: Mode,
    /// Logical SQLite filename whose parent is hiqlite's whole data directory.
    pub db_path: String,
    /// Listener for the HTTP surface, `host:port`.
    pub addr: String,
    /// Root of the as-is asset tree, used when assets are served from disk.
    pub static_dir: String,
    /// AES-128 key for public-id derivation, 32 lowercase hex characters.
    /// Required in prod; minted per boot in dev.
    pub id_key: Option<String>,
}

/// Everything that can go wrong turning the environment into a configuration.
#[derive(Debug, Clone, PartialEq, Eq)]
pub enum ConfigError {
    /// The configuration sources could not be read, with what they said.
    Source(String),
    /// The configuration was read and is not admissible.
    Invalid(String),
}

impl ConfigError {
    /// What the error says.
    pub fn message(&self) -> (r: String)
        ensures
            r@ == match *self { ConfigError::Source(m) => m@, ConfigError::Invalid(m) => m@ },
    {
        match self {
            ConfigError::Source(m) => m.clone(),
            ConfigError::Invalid(m) => m.clone(),
        }
    }
}

pub open spec fn is_lower_hex(c: char) -> bool {
    ('0' <= c && c <= '9') || ('a' <= c && c <= 'f')
}

/// An id key: exactly 32 characters, each a lowercase hex digit.
pub open spec fn id_key_shaped(key: Seq<char>) -> bool {
    key.len() == 32 && forall|i: int| 0 <= i < key.len() ==> is_lower_hex(#[trigger] key[i])
}

/// Whether a string is an AES-128 key in the form the configuration takes.
pub fn is_id_key(key: &str) -> (r: bool)
    ensures
        r == id_key_shaped(key@),
{
    let c = chars_of(key);
    if c.len() != 32 {
        return false;
    }
    let mut i: usize = 0;
    while i < c.len()
        invariant
            c@ == key@,
            i <= c@.len(),
            forall|j: int| 0 <= j < i ==> is_lower_hex(#[trigger] c@[j]),
        decreases c@.len() - i,
    {
        let x = c[i];
        if !(('0' <= x && x <= '9') || ('a' <= x && x <= 'f')) {
            assert(!is_lower_hex(c@[i as int]));
            return false;
        }
        i = i + 1;
    }
    true
}

pub open spec fn malformed_key_message() -> Seq<char> {
    "id_key must be 32 lowercase hex characters (an AES-128 key)"@
}

pub open spec fn missing_key_message() -> Seq<char> {
    "mode=prod requires RN_SITE__ID_KEY: public ids are derived from it, so a generated one would rename every object on restart"@
}

/// Whether a configuration may boot, and if not, why: a malformed key is
/// refused in either mode, and a missing one in production.
pub open spec fn admissible(mode: Mode, id_key: Option<Seq<char>>) -> Result<(), Seq<char>> {
    match id_key {
        Some(k) => if id_key_shaped(k) { Ok(()) } else { Err(malformed_key_message()) },
        None => if mode == Mode::Prod { Err(missing_key_message()) } else { Ok(()) },
    }
}

pub open spec fn key_view(k: Option<String>) -> Option<Seq<char>> {
    match k {
        Some(s) => Some(s@),
        None => None,
    }
}

/// The parent directory a path names, as `Path::parent` reads it (`None`
/// for a root or an empty path, the empty path for a bare filename).
pub uninterp spec fn path_parent(path: Seq<char>) -> Option<Seq<char>>;

/// The last component of a path, as `Path::file_name` reads it (`None` when
/// the path ends in `..` or is a root).
pub uninterp spec fn path_file_name(path: Seq<char>) -> Option<Seq<char>>;

/// `Path::new(path).parent()`, as a string.
#[verifier::external_body]
fn parent_of(path: &str) -> (r: Option<String>)
    ensures
        key_view(r) == path_parent(path@),
{
    std::path::Path::new(path).parent().map(|p| p.to_string_lossy().into_owned())
}

/// `Path::new(path).file_name()`, as a string.
#[verifier::external_body]
fn file_name_of(path: &str) -> (r: Option<String>)
    ensures
        key_view(r) == path_file_name(path@),
{
    std::path::Path::new(path).file_name().map(|name| name.to_string_lossy().into_owned())
}

/// The directory hiqlite is given: the parent, or the working directory for
/// a bare filename.
pub open spec fn dir_from(parent: Option<Seq<char>>) -> Seq<char> {
    match parent {
        Some(p) => if p.len() > 0 { p } else { "."@ },
        None => "."@,
    }
}

/// The SQLite filename: the path's last component, or `db.sqlite`.
pub open spec fn filename_from(name: Option<Seq<char>>) -> Seq<char> {
    match name {
        Some(n) => n,
        None => "db.sqlite"@,
    }
}

/// [`dir_from`], on the parent `Path::parent` gave.
pub fn dir_of(parent: Option<&str>) -> (r: String)
    ensures
        r@ == dir_from(match parent { Some(p) => Some(p@), None => None }),
{
    match parent {
        Some(p) => if p.unicode_len() > 0 { String::from_str(p) } else { String::from_str(".") },
        None => String::from_str("."),
    }
}

/// [`filename_from`], on the name `Path::file_name` gave.
pub fn filename_of(name: Option<&str>) -> (r: String)
    ensures
        r@ == filename_from(match name { Some(n) => Some(n@), None => None }),
{
    match name {
        Some(n) => String::from_str(n),
        None => String::from_str("db.sqlite"),
    }
}

/// A fresh, randomly seeded hasher (`RandomState::new`).
#[verifier::external_body]
fn fresh_seed() -> RandomState {
    RandomState::new()
}

/// `BuildHasher::hash_one`: one word out of a seeded hasher.
#[verifier::external_body]
fn hash_word(seed: &RandomState, salt: u64) -> u64 {
    seed.hash_one(salt)
}

/// The key two hashed words make: each written as sixteen lowercase hex
/// digits, the first word first.
pub open spec fn key_of_words(first: u64, second: u64) -> Seq<char> {
    hex_fixed(first as nat, 16) + hex_fixed(second as nat, 16)
}

/// [`key_of_words`]. The result is always a well-formed id key.
pub fn id_key_of(first: u64, second: u64) -> (r: String)
    ensures
        r@ == key_of_words(first, second),
        id_key_shaped(r@),
{
    let mut out = String::new();
    push_hex(&mut out, first, 16);
    push_hex(&mut out, second, 16);
    proof {
        lemma_hex_fixed_shaped(first as nat, 16);
        lemma_hex_fixed_shaped(second as nat, 16);
        assert(out@ =~= hex_fixed(first as nat, 16) + hex_fixed(second as nat, 16));
    }
    out
}

/// A process-lifetime key with no dependency on a CSPRNG crate: two words
/// out of a randomly seeded hasher, each written as sixteen hex digits.
/// Which two words they are is the seed's, so the contract says the key is
/// made of two such words and nothing of their values.
pub fn generated_id_key() -> (r: String)
    ensures
        exists|first: u64, second: u64| r@ == key_of_words(first, second),
        id_key_shaped(r@),
{
    let seed = fresh_seed();
    let first = hash_word(&seed, 0 ^ 0x9e37_79b9_7f4a_7c15);
    let second = hash_word(&seed, 1 ^ 0x9e37_79b9_7f4a_7c15);
    let r = id_key_of(first, second);
    assert(r@ == key_of_words(first, second));
    r
}

/// Hex digits are lowercase hex digits.
pub proof fn lemma_hex_fixed_shaped(n: nat, width: nat)
    ensures
        hex_fixed(n, width).len() == width,
        forall|i: int| 0 <= i < width ==> is_lower_hex(#[trigger] hex_fixed(n, width)[i]),
    decreases width,
{
    if width > 0 {
        lemma_hex_fixed_shaped(n / 16, (width - 1) as nat);
    }
}

impl AppConfig {
    /// Refuse a configuration that may not boot.
    pub fn validate(&self) -> (r: Result<(), ConfigError>)
        ensures
            match r {
                Ok(()) => admissible(self.mode, key_view(self.id_key)) is Ok,
                Err(ConfigError::Invalid(m)) => admissible(self.mode, key_view(self.id_key)) == Err::<(), Seq<char>>(m@),
                Err(ConfigError::Source(_)) => false,
            },
    {
        match &self.id_key {
            Some(key) => if is_id_key(key.as_str()) {
                Ok(())
            } else {
                Err(ConfigError::Invalid(String::from_str("id_key must be 32 lowercase hex characters (an AES-128 key)")))
            },
            None => match self.mode {
                Mode::Prod => Err(ConfigError::Invalid(String::from_str(
                    "mode=prod requires RN_SITE__ID_KEY: public ids are derived from it, so a generated one would rename every object on restart",
                ))),
                Mode::Dev => Ok(()),
            },
        }
    }

    /// The configured key, or a fresh one minted for this process. Ids are
    /// then stable for the life of the process and not across restarts.
    pub fn require_id_key(&self) -> (r: String)
        ensures
            self.id_key matches Some(k) ==> r@ == k@,
            self.id_key is None ==> id_key_shaped(r@),
    {
        match &self.id_key {
            Some(key) => key.clone(),
            None => generated_id_key(),
        }
    }

    /// Directory that must exist for hiqlite (`data` for the default path).
    pub fn db_dir(&self) -> (r: String)
        ensures
            r@ == dir_from(path_parent(self.db_path@)),
    {
        let parent = parent_of(self.db_path.as_str());
        match parent {
            Some(p) => dir_of(Some(p.as_str())),
            None => dir_of(None),
        }
    }

    /// SQLite filename inside [`Self::db_dir`] (`db.sqlite` by default).
    pub fn db_filename(&self) -> (r: String)
        ensures
            r@ == filename_from(path_file_name(self.db_path@)),
    {
        let name = file_name_of(self.db_path.as_str());
        match name {
            Some(n) => filename_of(Some(n.as_str())),
            None => filename_of(None),
        }
    }
}

/// A configuration that validates has an id key whenever it runs in
/// production, and any key it has is well formed.
pub proof fn lemma_validated_key(mode: Mode, id_key: Option<Seq<char>>)
    requires
        admissible(mode, id_key) is Ok,
    ensures
        mode == Mode::Prod ==> id_key is Some,
        id_key matches Some(k) ==> id_key_shaped(k),
{
}

} // verus!
