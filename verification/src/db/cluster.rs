//! The cluster topology a node is configured with.
//!
//! `RN_SITE_HQL_NODES` is a comma-separated peer map of
//! `id@raft-address@api-address` entries. The rules here are ours rather than
//! raft's: at least three voters and an odd number of them, no id twice, this
//! node among them, and — unless the map declares itself a single-host
//! cluster — no address that only this host could reach.

use vstd::prelude::*;

use super::DbError;
use crate::config::Mode;
use crate::text::{concat, same, utf8_len, utf8_shorter_than, 
    chars_of, decimal, is_digit, is_prefix, is_white, joined, parse_u64, split, split_on,
    lemma_split_joined, lemma_split_nonempty, lemma_split_whole, lemma_trim_unchanged,
    lemma_u64_decimal, starts_with, string_of, trim, trimmed, u64_of, with_number,
};

verus! {

/// Where a single dev node listens for raft.
pub const DEFAULT_ADDR_RAFT: &'static str = "127.0.0.1:8100";

/// Where a single dev node listens for the hiqlite API.
pub const DEFAULT_ADDR_API: &'static str = "127.0.0.1:8200";

/// The raft secret a dev node uses. Not a secret, and not meant to be one.
pub const DEV_SECRET_RAFT: &'static str = "rn-site-dev-raft-secret";

/// The API secret a dev node uses.
pub const DEV_SECRET_API: &'static str = "rn-site-dev-api-secret";

/// One peer of the cluster.
#[derive(Debug, Clone, PartialEq, Eq)]
pub struct NodeAddr {
    pub id: u64,
    pub addr_raft: String,
    pub addr_api: String,
}

/// A peer, as the specifications speak of it.
pub struct NodeSpec {
    pub id: u64,
    pub addr_raft: Seq<char>,
    pub addr_api: Seq<char>,
}

impl View for NodeAddr {
    type V = NodeSpec;

    open spec fn view(&self) -> NodeSpec {
        NodeSpec { id: self.id, addr_raft: self.addr_raft@, addr_api: self.addr_api@ }
    }
}

/// The parts of a node's configuration that come from the environment.
#[derive(Debug, Clone, PartialEq, Eq)]
pub struct Topology {
    pub node_id: u64,
    pub nodes: Vec<NodeAddr>,
    pub secret_raft: String,
    pub secret_api: String,
    pub learner_only: bool,
}

pub open spec fn nodes_view(nodes: Seq<NodeAddr>) -> Seq<NodeSpec> {
    nodes.map_values(|n: NodeAddr| n@)
}

pub open spec fn shape_message(entry: Seq<char>) -> Seq<char> {
    "invalid RN_SITE_HQL_NODES entry `"@ + entry + "`; expected id@raft@api"@
}

pub open spec fn duplicate_message(id: u64) -> Seq<char> {
    "RN_SITE_HQL_NODES contains duplicate node id "@ + decimal(id as nat) + ""@
}

pub open spec fn unreachable_message(address: Seq<char>) -> Seq<char> {
    "a production peer address must be mesh-reachable, not `"@ + address + "`"@
}

pub open spec fn size_message(found: nat) -> Seq<char> {
    "RN_SITE_HQL_NODES must describe an odd cluster of at least 3 nodes; found "@ + decimal(found)
        + ""@
}

pub open spec fn absent_message(local: u64) -> Seq<char> {
    "RN_SITE_HQL_NODE_ID "@ + decimal(local as nat) + " is absent from RN_SITE_HQL_NODES"@
}

/// An address no other host could reach.
pub open spec fn is_loopback(address: Seq<char>) -> bool {
    is_prefix("127."@, address) || is_prefix("0.0.0.0"@, address) || is_prefix("localhost"@, address)
}

pub open spec fn has_id(nodes: Seq<NodeSpec>, id: u64) -> bool {
    exists|k: int| 0 <= k < nodes.len() && nodes[k].id == id
}

/// One non-empty entry, read against the peers already accepted.
pub open spec fn entry(e: Seq<char>, seen: Seq<NodeSpec>, allow_loopback: bool) -> Result<NodeSpec, Seq<char>> {
    let fields = split(e, '@');
    match u64_of(fields[0]) {
        None => Err(shape_message(e)),
        Some(id) => if fields.len() < 2 || fields[1].len() == 0 || fields.len() < 3
            || fields[2].len() == 0 || fields.len() > 3 {
            Err(shape_message(e))
        } else if has_id(seen, id) {
            Err(duplicate_message(id))
        } else if !allow_loopback && is_loopback(fields[1]) {
            Err(unreachable_message(fields[1]))
        } else if !allow_loopback && is_loopback(fields[2]) {
            Err(unreachable_message(fields[2]))
        } else {
            Ok(NodeSpec { id, addr_raft: fields[1], addr_api: fields[2] })
        },
    }
}

/// The comma-separated pieces from `i` on, read left to right; an empty
/// piece is skipped and the first refusal ends the reading.
pub open spec fn scan(pieces: Seq<Seq<char>>, i: int, seen: Seq<NodeSpec>, allow_loopback: bool) -> Result<Seq<NodeSpec>, Seq<char>>
    decreases pieces.len() - i,
{
    if i >= pieces.len() {
        Ok(seen)
    } else {
        let e = trim(pieces[i]);
        if e.len() == 0 {
            scan(pieces, i + 1, seen, allow_loopback)
        } else {
            match entry(e, seen, allow_loopback) {
                Err(m) => Err(m),
                Ok(n) => scan(pieces, i + 1, seen.push(n), allow_loopback),
            }
        }
    }
}

/// The peer map `value` describes for the node `local`, or the refusal.
pub open spec fn peer_map(value: Seq<char>, local: u64, allow_loopback: bool) -> Result<Seq<NodeSpec>, Seq<char>> {
    match scan(split(value, ','), 0, Seq::empty(), allow_loopback) {
        Err(m) => Err(m),
        Ok(nodes) => if nodes.len() < 3 || nodes.len() % 2 == 0 {
            Err(size_message(nodes.len()))
        } else if !has_id(nodes, local) {
            Err(absent_message(local))
        } else {
            Ok(nodes)
        },
    }
}

/// A parse's result, as the specifications speak of it. Only a
/// configuration refusal carries a message a peer map can produce.
pub open spec fn outcome(r: Result<Vec<NodeAddr>, DbError>) -> Result<Seq<NodeSpec>, Seq<char>> {
    match r {
        Ok(v) => Ok(nodes_view(v@)),
        Err(DbError::Config(m)) => Err(m@),
        Err(_) => Err(Seq::<char>::empty()),
    }
}

/// Whether an address only this host could reach.
fn loopback(address: &[char]) -> (r: bool)
    ensures
        r == is_loopback(address@),
{
    starts_with(address, "127.") || starts_with(address, "0.0.0.0") || starts_with(address, "localhost")
}

/// Whether an accepted peer already carries `id`.
fn carries(nodes: &Vec<NodeAddr>, id: u64) -> (r: bool)
    ensures
        r == has_id(nodes_view(nodes@), id),
{
    let mut k: usize = 0;
    while k < nodes.len()
        invariant
            k <= nodes@.len(),
            forall|j: int| 0 <= j < k ==> nodes@[j].id != id,
        decreases nodes@.len() - k,
    {
        if nodes[k].id == id {
            assert(nodes_view(nodes@)[k as int].id == id);
            return true;
        }
        k = k + 1;
    }
    assert forall|j: int| 0 <= j < nodes_view(nodes@).len() implies nodes_view(nodes@)[j].id != id by {
        assert(nodes_view(nodes@)[j].id == nodes@[j].id);
    }
    false
}

/// One non-empty entry.
fn read_entry(e: &Vec<char>, seen: &Vec<NodeAddr>, allow_loopback: bool) -> (r: Result<NodeAddr, DbError>)
    ensures
        match r {
            Ok(n) => entry(e@, nodes_view(seen@), allow_loopback) == Ok::<NodeSpec, Seq<char>>(n@),
            Err(DbError::Config(m)) => entry(e@, nodes_view(seen@), allow_loopback) == Err::<NodeSpec, Seq<char>>(m@),
            Err(_) => false,
        },
{
    let fields = split_on(e, '@');
    proof { lemma_split_nonempty(e@, '@'); }
    let ghost f = split(e@, '@');
    let shape = joined("invalid RN_SITE_HQL_NODES entry `", e, "`; expected id@raft@api");
    let id = match parse_u64(&fields[0]) {
        None => return Err(DbError::Config(shape)),
        Some(id) => id,
    };
    if fields.len() < 2 || fields[1].len() == 0 || fields.len() < 3 || fields[2].len() == 0
        || fields.len() > 3 {
        return Err(DbError::Config(shape));
    }
    if carries(seen, id) {
        return Err(DbError::Config(with_number("RN_SITE_HQL_NODES contains duplicate node id ", id, "")));
    }
    if !allow_loopback && loopback(&fields[1]) {
        return Err(DbError::Config(joined("a production peer address must be mesh-reachable, not `", &fields[1], "`")));
    }
    if !allow_loopback && loopback(&fields[2]) {
        return Err(DbError::Config(joined("a production peer address must be mesh-reachable, not `", &fields[2], "`")));
    }
    let raft = string_of(&fields[1], 0, fields[1].len());
    let api = string_of(&fields[2], 0, fields[2].len());
    assert(fields@[1]@.subrange(0, fields@[1]@.len() as int) =~= fields@[1]@);
    assert(fields@[2]@.subrange(0, fields@[2]@.len() as int) =~= fields@[2]@);
    Ok(NodeAddr { id, addr_raft: raft, addr_api: api })
}

/// Parse `id@raft-address@api-address` entries separated by commas,
/// refusing loopback addresses.
pub fn parse_nodes(value: &str, local_id: u64) -> (r: Result<Vec<NodeAddr>, DbError>)
    ensures
        outcome(r) == peer_map(value@, local_id, false),
        r matches Err(e) ==> e is Config,
{
    parse_nodes_allowing(value, local_id, false)
}

/// [`parse_nodes`], with the loopback refusal lifted when the peer map
/// declares itself a single-host cluster.
pub fn parse_nodes_allowing(value: &str, local_id: u64, allow_loopback: bool) -> (r: Result<Vec<NodeAddr>, DbError>)
    ensures
        outcome(r) == peer_map(value@, local_id, allow_loopback),
        r matches Err(e) ==> e is Config,
        r matches Ok(nodes) ==> {
            &&& nodes@.len() >= 3
            &&& nodes@.len() % 2 == 1
            &&& has_id(nodes_view(nodes@), local_id)
        },
{
    let v = chars_of(value);
    let pieces = split_on(&v, ',');
    let ghost ps = split(value@, ',');
    let mut nodes: Vec<NodeAddr> = Vec::new();
    let mut i: usize = 0;
    assert(nodes_view(nodes@) =~= Seq::<NodeSpec>::empty());
    while i < pieces.len()
        invariant
            i <= pieces@.len(),
            ps == split(value@, ','),
            pieces@.len() == ps.len(),
            forall|k: int| 0 <= k < pieces@.len() ==> #[trigger] pieces@[k]@ == ps[k],
            scan(ps, 0, Seq::empty(), allow_loopback) == scan(ps, i as int, nodes_view(nodes@), allow_loopback),
        decreases pieces@.len() - i,
    {
        let e = trimmed(&pieces[i]);
        assert(pieces@[i as int]@ == ps[i as int]);
        assert(e@ == trim(ps[i as int]));
        if e.len() > 0 {
            match read_entry(&e, &nodes, allow_loopback) {
                Err(error) => {
                    assert(scan(ps, i as int, nodes_view(nodes@), allow_loopback) == outcome(Err(error)));
                    return Err(error);
                },
                Ok(n) => {
                    let ghost before = nodes_view(nodes@);
                    nodes.push(n);
                    assert(nodes_view(nodes@) =~= before.push(n@));
                },
            }
        }
        i = i + 1;
    }
    let count = nodes.len();
    if count < 3 || count % 2 == 0 {
        return Err(DbError::Config(with_number(
            "RN_SITE_HQL_NODES must describe an odd cluster of at least 3 nodes; found ",
            count as u64,
            "",
        )));
    }
    if !carries(&nodes, local_id) {
        return Err(DbError::Config(with_number("RN_SITE_HQL_NODE_ID ", local_id, " is absent from RN_SITE_HQL_NODES")));
    }
    Ok(nodes)
}

/// The value of an optional setting: trimmed, and absent when blank.
pub open spec fn setting(raw: Option<Seq<char>>) -> Option<Seq<char>> {
    match raw {
        Some(v) => if trim(v).len() > 0 { Some(trim(v)) } else { None },
        None => None,
    }
}

pub open spec fn str_view(o: Option<&str>) -> Option<Seq<char>> {
    match o {
        Some(s) => Some(s@),
        None => None,
    }
}

/// A listen address: the variable's trimmed value, or the fallback.
pub fn env_or(raw: Option<&str>, fallback: &str) -> (r: String)
    ensures
        r@ == match setting(str_view(raw)) { Some(v) => v, None => fallback@ },
{
    if let Some(v) = raw {
        let c = chars_of(v);
        let t = trimmed(&c);
        if t.len() > 0 {
            let r = string_of(&t, 0, t.len());
            assert(t@.subrange(0, t@.len() as int) =~= t@);
            return r;
        }
    }
    String::from_str(fallback)
}

/// The listen addresses, from `RN_SITE_HQL_ADDR_RAFT` and
/// `RN_SITE_HQL_ADDR_API`, defaulted for a bare `cargo run`.
pub fn listen_addrs(raft: Option<&str>, api: Option<&str>) -> (r: (String, String))
    ensures
        r.0@ == match setting(str_view(raft)) { Some(v) => v, None => DEFAULT_ADDR_RAFT@ },
        r.1@ == match setting(str_view(api)) { Some(v) => v, None => DEFAULT_ADDR_API@ },
{
    (env_or(raft, DEFAULT_ADDR_RAFT), env_or(api, DEFAULT_ADDR_API))
}

/// A refusal while reading the environment, as the specifications speak of
/// it.
pub enum BootFault {
    Io { path: Seq<char>, source: Seq<char> },
    Config(Seq<char>),
}

pub open spec fn fault_of(e: DbError) -> BootFault {
    match e {
        DbError::Io { path, source } => BootFault::Io { path: path@, source: source@ },
        DbError::Config(m) => BootFault::Config(m@),
        _ => BootFault::Config(Seq::<char>::empty()),
    }
}

pub open spec fn required_message(name: Seq<char>) -> Seq<char> {
    "mode=prod requires "@ + name
}

/// A variable production cannot do without.
pub open spec fn required_of(name: Seq<char>, raw: Option<Seq<char>>) -> Result<Seq<char>, BootFault> {
    match setting(raw) {
        Some(v) => Ok(v),
        None => Err(BootFault::Config(required_message(name))),
    }
}

pub open spec fn res_view(r: Result<String, DbError>) -> Result<Seq<char>, BootFault> {
    match r {
        Ok(v) => Ok(v@),
        Err(e) => Err(fault_of(e)),
    }
}

/// [`required_of`]: the trimmed value, or the refusal that names `name`.
pub fn required(name: &str, raw: Option<&str>) -> (r: Result<String, DbError>)
    ensures
        res_view(r) == required_of(name@, str_view(raw)),
        r matches Err(e) ==> e is Config,
{
    if let Some(v) = raw {
        let c = chars_of(v);
        let t = trimmed(&c);
        if t.len() > 0 {
            let r = string_of(&t, 0, t.len());
            assert(t@.subrange(0, t@.len() as int) =~= t@);
            return Ok(r);
        }
    }
    Err(DbError::Config(concat("mode=prod requires ", name)))
}

pub open spec fn flag_message(name: Seq<char>) -> Seq<char> {
    name + " must be true/false or 1/0"@
}

/// A boolean switch: unset, blank, `false` and `0` are off; `true` and `1`
/// are on; anything else is refused.
pub open spec fn flag_of(name: Seq<char>, raw: Option<Seq<char>>) -> Result<bool, BootFault> {
    match raw {
        None => Ok(false),
        Some(v) => {
            let t = trim(v);
            if t.len() == 0 || t == "false"@ || t == "0"@ {
                Ok(false)
            } else if t == "true"@ || t == "1"@ {
                Ok(true)
            } else {
                Err(BootFault::Config(flag_message(name)))
            }
        },
    }
}

/// [`flag_of`], on the variable's value.
pub fn flag(name: &str, raw: Option<&str>) -> (r: Result<bool, DbError>)
    ensures
        match r {
            Ok(b) => flag_of(name@, str_view(raw)) == Ok::<bool, BootFault>(b),
            Err(e) => flag_of(name@, str_view(raw)) == Err::<bool, BootFault>(fault_of(e)) && e is Config,
        },
{
    match raw {
        None => Ok(false),
        Some(v) => {
            let c = chars_of(v);
            let t = trimmed(&c);
            let s = string_of(&t, 0, t.len());
            assert(t@.subrange(0, t@.len() as int) =~= t@);
            let s = s.as_str();
            if t.len() == 0 || same(s, "false") || same(s, "0") {
                Ok(false)
            } else if same(s, "true") || same(s, "1") {
                Ok(true)
            } else {
                Err(DbError::Config(concat(name, " must be true/false or 1/0")))
            }
        },
    }
}

/// A secret file, as the edge read it: the trimmed path, and the file's
/// contents or what the system said when it would not read.
#[derive(Debug, PartialEq, Eq)]
pub struct FileRead {
    pub path: String,
    pub contents: Result<String, String>,
}

/// Where a secret's file is, if its `_FILE` variable names one.
pub fn secret_file_path(raw: Option<&str>) -> (r: Option<String>)
    ensures
        crate::admin::opt_view(r) == setting(str_view(raw)),
{
    if let Some(v) = raw {
        let c = chars_of(v);
        let t = trimmed(&c);
        if t.len() > 0 {
            let r = string_of(&t, 0, t.len());
            assert(t@.subrange(0, t@.len() as int) =~= t@);
            return Some(r);
        }
    }
    None
}

/// The shortest secret accepted, in bytes.
pub const SECRET_MIN: u64 = 16;

pub open spec fn short_secret_message(name: Seq<char>) -> Seq<char> {
    name + " must contain at least 16 characters"@
}

pub open spec fn read_view(f: Option<FileRead>) -> Option<(Seq<char>, Result<Seq<char>, Seq<char>>)> {
    match f {
        Some(r) => Some((r.path@, match r.contents { Ok(c) => Ok(c@), Err(e) => Err(e@) })),
        None => None,
    }
}

/// A secret: a mounted file wins over the variable, so the secret never
/// appears in an environment dump. Either way it is trimmed, and one shorter
/// than [`SECRET_MIN`] bytes is refused.
pub open spec fn secret_of(name: Seq<char>, value: Option<Seq<char>>, file: Option<(Seq<char>, Result<Seq<char>, Seq<char>>)>) -> Result<Seq<char>, BootFault> {
    let found = match file {
        Some(f) => match f.1 {
            Ok(c) => Ok(trim(c)),
            Err(e) => Err(BootFault::Io { path: f.0, source: e }),
        },
        None => required_of(name, value),
    };
    match found {
        Err(e) => Err(e),
        Ok(s) => if utf8_len(s) < SECRET_MIN { Err(BootFault::Config(short_secret_message(name))) } else { Ok(s) },
    }
}

/// [`secret_of`]: `value` is the variable named `name`, `file` what was read
/// from the file its `_FILE` twin names, if it names one.
pub fn secret(name: &str, value: Option<&str>, file: &Option<FileRead>) -> (r: Result<String, DbError>)
    ensures
        res_view(r) == secret_of(name@, str_view(value), read_view(*file)),
        r matches Err(e) ==> (e is Config || e is Io),
{
    let found = match file {
        Some(f) => match &f.contents {
            Ok(c) => {
                let cs = chars_of(c.as_str());
                let t = trimmed(&cs);
                assert(t@.subrange(0, t@.len() as int) =~= t@);
                string_of(&t, 0, t.len())
            },
            Err(e) => return Err(DbError::Io { path: f.path.clone(), source: e.clone() }),
        },
        None => required(name, value)?,
    };
    let fc = chars_of(found.as_str());
    if utf8_shorter_than(&fc, SECRET_MIN) {
        return Err(DbError::Config(concat(name, " must contain at least 16 characters")));
    }
    Ok(found)
}

/// The `RN_SITE_HQL_*` values a production node is configured from, as the
/// process environment and the mounted secret files hold them.
#[derive(Debug, PartialEq, Eq)]
pub struct Environment {
    pub node_id: Option<String>,
    pub nodes: Option<String>,
    pub local_cluster: Option<String>,
    pub learner_only: Option<String>,
    pub secret_raft: Option<String>,
    pub secret_raft_file: Option<FileRead>,
    pub secret_api: Option<String>,
    pub secret_api_file: Option<FileRead>,
}

pub open spec fn opt_string(o: Option<String>) -> Option<Seq<char>> {
    match o {
        Some(s) => Some(s@),
        None => None,
    }
}

/// A topology, as the specifications speak of it.
pub struct TopologySpec {
    pub node_id: u64,
    pub nodes: Seq<NodeSpec>,
    pub secret_raft: Seq<char>,
    pub secret_api: Seq<char>,
    pub learner_only: bool,
}

pub open spec fn topology_view(t: Topology) -> TopologySpec {
    TopologySpec {
        node_id: t.node_id,
        nodes: nodes_view(t.nodes@),
        secret_raft: t.secret_raft@,
        secret_api: t.secret_api@,
        learner_only: t.learner_only,
    }
}

pub open spec fn node_id_message() -> Seq<char> {
    "RN_SITE_HQL_NODE_ID must be an integer"@
}

/// A production topology: the node id, then the peer map (and whether it is
/// a declared single-host cluster), then both secrets, then the learner
/// switch; the first refusal wins.
pub open spec fn prod_topology(env: Environment) -> Result<TopologySpec, BootFault> {
    match required_of("RN_SITE_HQL_NODE_ID"@, opt_string(env.node_id)) {
        Err(e) => Err(e),
        Ok(raw_id) => match u64_of(raw_id) {
            None => Err(BootFault::Config(node_id_message())),
            Some(node_id) => match required_of("RN_SITE_HQL_NODES"@, opt_string(env.nodes)) {
                Err(e) => Err(e),
                Ok(map) => match flag_of("RN_SITE_HQL_LOCAL_CLUSTER"@, opt_string(env.local_cluster)) {
                    Err(e) => Err(e),
                    Ok(local) => match peer_map(map, node_id, local) {
                        Err(m) => Err(BootFault::Config(m)),
                        Ok(nodes) => match secret_of("RN_SITE_HQL_SECRET_RAFT"@, opt_string(env.secret_raft), read_view(env.secret_raft_file)) {
                            Err(e) => Err(e),
                            Ok(raft) => match secret_of("RN_SITE_HQL_SECRET_API"@, opt_string(env.secret_api), read_view(env.secret_api_file)) {
                                Err(e) => Err(e),
                                Ok(api) => match flag_of("RN_SITE_HQL_LEARNER_ONLY"@, opt_string(env.learner_only)) {
                                    Err(e) => Err(e),
                                    Ok(learner) => Ok(TopologySpec {
                                        node_id,
                                        nodes,
                                        secret_raft: raft,
                                        secret_api: api,
                                        learner_only: learner,
                                    }),
                                },
                            },
                        },
                    },
                },
            },
        },
    }
}

/// The single loopback node a dev process runs, with the built-in secrets.
pub open spec fn dev_topology(addr_raft: Seq<char>, addr_api: Seq<char>) -> TopologySpec {
    TopologySpec {
        node_id: 1,
        nodes: seq![NodeSpec { id: 1, addr_raft, addr_api }],
        secret_raft: DEV_SECRET_RAFT@,
        secret_api: DEV_SECRET_API@,
        learner_only: false,
    }
}

pub open spec fn topology_outcome(r: Result<Topology, DbError>) -> Result<TopologySpec, BootFault> {
    match r {
        Ok(t) => Ok(topology_view(t)),
        Err(e) => Err(fault_of(e)),
    }
}

/// The topology for `mode`: dev needs none of the environment; prod reads it
/// all and refuses at the first thing wrong.
pub fn from_env(mode: Mode, addr_raft: &str, addr_api: &str, env: &Environment) -> (r: Result<Topology, DbError>)
    ensures
        topology_outcome(r) == match mode {
            Mode::Dev => Ok::<TopologySpec, BootFault>(dev_topology(addr_raft@, addr_api@)),
            Mode::Prod => prod_topology(*env),
        },
        r matches Err(e) ==> (e is Config || e is Io),
{
    match mode {
        Mode::Dev => {
            let nodes = vec![NodeAddr { id: 1, addr_raft: String::from_str(addr_raft), addr_api: String::from_str(addr_api) }];
            let t = Topology {
                node_id: 1,
                nodes,
                secret_raft: String::from_str(DEV_SECRET_RAFT),
                secret_api: String::from_str(DEV_SECRET_API),
                learner_only: false,
            };
            assert(nodes_view(t.nodes@) =~= seq![NodeSpec { id: 1, addr_raft: addr_raft@, addr_api: addr_api@ }]);
            Ok(t)
        },
        Mode::Prod => {
            let raw_id = required("RN_SITE_HQL_NODE_ID", opt_str(&env.node_id))?;
            let digits = chars_of(raw_id.as_str());
            let node_id = match parse_u64(&digits) {
                Some(id) => id,
                None => return Err(DbError::Config(String::from_str("RN_SITE_HQL_NODE_ID must be an integer"))),
            };
            let map = required("RN_SITE_HQL_NODES", opt_str(&env.nodes))?;
            let local = flag("RN_SITE_HQL_LOCAL_CLUSTER", opt_str(&env.local_cluster))?;
            let nodes = parse_nodes_allowing(map.as_str(), node_id, local)?;
            let secret_raft = secret("RN_SITE_HQL_SECRET_RAFT", opt_str(&env.secret_raft), &env.secret_raft_file)?;
            let secret_api = secret("RN_SITE_HQL_SECRET_API", opt_str(&env.secret_api), &env.secret_api_file)?;
            let learner_only = flag("RN_SITE_HQL_LEARNER_ONLY", opt_str(&env.learner_only))?;
            Ok(Topology { node_id, nodes, secret_raft, secret_api, learner_only })
        },
    }
}

fn opt_str(o: &Option<String>) -> (r: Option<&str>)
    ensures
        str_view(r) == opt_string(*o),
{
    match o {
        Some(s) => Some(s.as_str()),
        None => None,
    }
}

/// No two peers share an id.
pub open spec fn distinct_ids(nodes: Seq<NodeSpec>) -> bool {
    forall|i: int, j: int| 0 <= i < j < nodes.len() ==> nodes[i].id != nodes[j].id
}

/// No peer has an address only this host could reach.
pub open spec fn all_reachable(nodes: Seq<NodeSpec>) -> bool {
    forall|i: int| 0 <= i < nodes.len() ==> !is_loopback(#[trigger] nodes[i].addr_raft) && !is_loopback(nodes[i].addr_api)
}

proof fn lemma_scan_keeps(pieces: Seq<Seq<char>>, i: int, seen: Seq<NodeSpec>, allow_loopback: bool)
    requires
        distinct_ids(seen),
        !allow_loopback ==> all_reachable(seen),
    ensures
        scan(pieces, i, seen, allow_loopback) matches Ok(nodes) ==> distinct_ids(nodes)
            && (!allow_loopback ==> all_reachable(nodes)),
    decreases pieces.len() - i,
{
    if i < pieces.len() {
        let e = trim(pieces[i]);
        if e.len() == 0 {
            lemma_scan_keeps(pieces, i + 1, seen, allow_loopback);
        } else {
            match entry(e, seen, allow_loopback) {
                Err(_) => {},
                Ok(n) => {
                    assert(!has_id(seen, n.id));
                    let next = seen.push(n);
                    assert forall|a: int, b: int| 0 <= a < b < next.len() implies next[a].id != next[b].id by {
                        if b == seen.len() {
                            if next[a].id == n.id {
                                assert(seen[a].id == n.id);
                            }
                        }
                    }
                    lemma_scan_keeps(pieces, i + 1, next, allow_loopback);
                },
            }
        }
    }
}

proof fn lemma_scan_lifts(pieces: Seq<Seq<char>>, i: int, seen: Seq<NodeSpec>)
    ensures
        scan(pieces, i, seen, false) matches Ok(nodes) ==> scan(pieces, i, seen, true) == Ok::<Seq<NodeSpec>, Seq<char>>(nodes),
    decreases pieces.len() - i,
{
    if i < pieces.len() {
        let e = trim(pieces[i]);
        if e.len() == 0 {
            lemma_scan_lifts(pieces, i + 1, seen);
        } else {
            match entry(e, seen, false) {
                Err(_) => {},
                Ok(n) => {
                    assert(entry(e, seen, true) == Ok::<NodeSpec, Seq<char>>(n));
                    lemma_scan_lifts(pieces, i + 1, seen.push(n));
                },
            }
        }
    }
}

/// A peer map that parses names every voter once, and — unless it declared
/// itself a single-host cluster — only addresses another host can reach.
pub proof fn lemma_peer_map_sound(value: Seq<char>, local: u64, allow_loopback: bool)
    ensures
        peer_map(value, local, allow_loopback) matches Ok(nodes) ==> {
            &&& distinct_ids(nodes)
            &&& nodes.len() >= 3 && nodes.len() % 2 == 1
            &&& has_id(nodes, local)
            &&& !allow_loopback ==> all_reachable(nodes)
        },
{
    lemma_scan_keeps(split(value, ','), 0, Seq::empty(), allow_loopback);
}

/// Declaring a single-host cluster lifts the reachability refusal and
/// nothing else: a map that parses without the declaration parses to the
/// same peers with it.
pub proof fn lemma_declaring_local_only_widens(value: Seq<char>, local: u64)
    ensures
        peer_map(value, local, false) matches Ok(nodes) ==> peer_map(value, local, true) == Ok::<Seq<NodeSpec>, Seq<char>>(nodes),
{
    lemma_scan_lifts(split(value, ','), 0, Seq::empty());
}

/// How a peer is written in a peer map: `id@raft-address@api-address`.
pub open spec fn entry_text(n: NodeSpec) -> Seq<char> {
    decimal(n.id as nat) + "@"@ + n.addr_raft + "@"@ + n.addr_api
}

/// Peers written one after another, separated by commas.
pub open spec fn map_text(nodes: Seq<NodeSpec>) -> Seq<char>
    decreases nodes.len(),
{
    if nodes.len() == 0 {
        Seq::empty()
    } else if nodes.len() == 1 {
        entry_text(nodes[0])
    } else {
        map_text(nodes.drop_last()) + ","@ + entry_text(nodes.last())
    }
}

/// An address as a peer map can carry it: not empty, without `@` or `,`,
/// and without white space at either end.
pub open spec fn plain_address(a: Seq<char>) -> bool {
    &&& a.len() > 0
    &&& forall|i: int| 0 <= i < a.len() ==> #[trigger] a[i] != '@' && a[i] != ','
    &&& !is_white(a[0]) && !is_white(a.last())
}

/// A written peer splits at its two `@`s into its id, then its addresses.
proof fn lemma_entry_fields(n: NodeSpec)
    requires
        plain_address(n.addr_raft),
        plain_address(n.addr_api),
    ensures
        split(entry_text(n), '@') == seq![decimal(n.id as nat), n.addr_raft, n.addr_api],
        trim(entry_text(n)) == entry_text(n),
        forall|i: int| 0 <= i < entry_text(n).len() ==> #[trigger] entry_text(n)[i] != ',',
{
    reveal_strlit("@");
    let d = decimal(n.id as nat);
    lemma_u64_decimal(n.id);
    assert forall|i: int| 0 <= i < d.len() implies d[i] != '@' && d[i] != ',' by {
        assert(is_digit(d[i]));
    }
    lemma_split_whole(d, '@');
    lemma_split_whole(n.addr_raft, '@');
    lemma_split_whole(n.addr_api, '@');
    let front = d + seq!['@'] + n.addr_raft;
    lemma_split_joined(d, n.addr_raft, '@');
    lemma_split_joined(front, n.addr_api, '@');
    let t = entry_text(n);
    assert(t =~= front + seq!['@'] + n.addr_api);
    assert(is_digit(d[0]));
    assert(t[0] == d[0]);
    assert(t.last() == n.addr_api.last());
    lemma_trim_unchanged(t);
    assert forall|i: int| 0 <= i < t.len() implies #[trigger] t[i] != ',' by {
        if i < d.len() {
            assert(t[i] == d[i]);
        } else if d.len() < i < d.len() + 1 + n.addr_raft.len() {
            assert(t[i] == n.addr_raft[i - d.len() - 1]);
        } else if i > d.len() + 1 + n.addr_raft.len() {
            assert(t[i] == n.addr_api[i - d.len() - 2 - n.addr_raft.len()]);
        }
    }
}

/// Written peers split at their commas into one piece each.
proof fn lemma_map_pieces(nodes: Seq<NodeSpec>)
    requires
        nodes.len() >= 1,
        forall|k: int| 0 <= k < nodes.len() ==> plain_address(#[trigger] nodes[k].addr_raft)
            && plain_address(nodes[k].addr_api),
    ensures
        split(map_text(nodes), ',') == Seq::new(nodes.len(), |k: int| entry_text(nodes[k])),
    decreases nodes.len(),
{
    reveal_strlit(",");
    let last = nodes[nodes.len() - 1];
    assert(plain_address(last.addr_raft) && plain_address(last.addr_api));
    lemma_entry_fields(last);
    lemma_split_whole(entry_text(last), ',');
    if nodes.len() == 1 {
        assert(Seq::new(1, |k: int| entry_text(nodes[k])) =~= seq![entry_text(nodes[0])]);
    } else {
        let rest = nodes.drop_last();
        assert forall|k: int| 0 <= k < rest.len() implies plain_address(#[trigger] rest[k].addr_raft)
            && plain_address(rest[k].addr_api) by {
            assert(rest[k] == nodes[k]);
        }
        lemma_map_pieces(rest);
        lemma_split_joined(map_text(rest), entry_text(last), ',');
        assert(map_text(nodes) =~= map_text(rest) + seq![','] + entry_text(last));
        assert(Seq::new(rest.len(), |k: int| entry_text(rest[k])) + seq![entry_text(last)]
            =~= Seq::new(nodes.len(), |k: int| entry_text(nodes[k])));
    }
}

/// Reading the written peers from `i` on, after the ones before `i`, gives
/// every peer back.
proof fn lemma_scan_written(nodes: Seq<NodeSpec>, i: int, allow_loopback: bool)
    requires
        0 <= i <= nodes.len(),
        distinct_ids(nodes),
        forall|k: int| 0 <= k < nodes.len() ==> plain_address(#[trigger] nodes[k].addr_raft)
            && plain_address(nodes[k].addr_api),
        allow_loopback || all_reachable(nodes),
    ensures
        scan(Seq::new(nodes.len(), |k: int| entry_text(nodes[k])), i, nodes.take(i), allow_loopback)
            == Ok::<Seq<NodeSpec>, Seq<char>>(nodes),
    decreases nodes.len() - i,
{
    let pieces = Seq::new(nodes.len(), |k: int| entry_text(nodes[k]));
    if i == nodes.len() {
        assert(nodes.take(i) =~= nodes);
    } else {
        let n = nodes[i];
        assert(plain_address(n.addr_raft) && plain_address(n.addr_api));
        lemma_entry_fields(n);
        lemma_u64_decimal(n.id);
        let t = entry_text(n);
        assert(pieces[i] == t);
        assert(t.len() > 0);
        let seen = nodes.take(i);
        assert(!has_id(seen, n.id)) by {
            if has_id(seen, n.id) {
                let k = choose|k: int| 0 <= k < seen.len() && seen[k].id == n.id;
                assert(nodes[k].id == nodes[i].id);
            }
        }
        if !allow_loopback {
            assert(!is_loopback(nodes[i].addr_raft) && !is_loopback(nodes[i].addr_api));
        }
        assert(entry(t, seen, allow_loopback) == Ok::<NodeSpec, Seq<char>>(n));
        assert(seen.push(n) =~= nodes.take(i + 1));
        lemma_scan_written(nodes, i + 1, allow_loopback);
    }
}

/// Every well-formed peer map is accepted as written: peers with distinct
/// ids and plain addresses — reachable from other hosts, unless the map is
/// a declared single-host cluster — an odd number of them and at least
/// three, this node among them, read back as exactly those peers, in order.
/// So growing a cluster of three to five by listing both new peers is read
/// as five voters.
pub proof fn lemma_written_map_accepted(nodes: Seq<NodeSpec>, local: u64, allow_loopback: bool)
    requires
        nodes.len() >= 3,
        nodes.len() % 2 == 1,
        distinct_ids(nodes),
        exists|k: int| 0 <= k < nodes.len() && nodes[k].id == local,
        forall|k: int| 0 <= k < nodes.len() ==> plain_address(#[trigger] nodes[k].addr_raft)
            && plain_address(nodes[k].addr_api),
        allow_loopback || all_reachable(nodes),
    ensures
        peer_map(map_text(nodes), local, allow_loopback) == Ok::<Seq<NodeSpec>, Seq<char>>(nodes),
{
    lemma_map_pieces(nodes);
    assert(nodes.take(0) =~= Seq::<NodeSpec>::empty());
    lemma_scan_written(nodes, 0, allow_loopback);
}

} // verus!
