//! What every node says about itself, and the rollout verdict counted from
//! those rows. A node that stopped reporting is named as such rather than
//! counted.

use vstd::prelude::*;

use crate::text::{chars_of, lemma_lex_irreflexive, lemma_lex_transitive, lemma_lex_trichotomy, lex_less, lex_lt, same};

verus! {

/// How long after its last reading a node reads as not reporting: three
/// report intervals, so one missed tick is not an outage.
pub const STALE_AFTER: i64 = 45;

/// A day, for the second of the two feed readings.
pub const DAY: i64 = 86_400;

/// The verdict for a set of distinct versions: one is settled, two is a
/// rollout in progress, and more is divergence.
pub open spec fn verdict(count: nat) -> &'static str {
    if count <= 1 { "settled" } else if count == 2 { "in progress" } else { "divergent" }
}

/// The deployment's verdict, counted from the distinct versions the
/// reporting nodes run.
pub fn rollout(versions: &[String]) -> (r: &'static str)
    ensures
        r == verdict(versions@.len()),
{
    let n = versions.len();
    if n <= 1 {
        "settled"
    } else if n == 2 {
        "in progress"
    } else {
        "divergent"
    }
}

/// Whether a reading taken at `reported_at` is fresh at `now`.
pub open spec fn is_reporting(reported_at: i64, now: i64) -> bool {
    now - reported_at <= STALE_AFTER
}

/// Whether a reading is fresh enough to be this node's current state.
pub fn reporting(reported_at: i64, now: i64) -> (r: bool)
    ensures
        r == is_reporting(reported_at, now),
{
    (now as i128) - (reported_at as i128) <= STALE_AFTER as i128
}

/// One node's report of itself.
#[derive(Debug, Clone, PartialEq, Eq)]
pub struct NodeReport {
    pub node_id: i64,
    pub node: String,
    pub version: String,
    pub raft_role: String,
    pub feed_head: i64,
    pub reported_at: i64,
}

/// Strictly increasing, so every version appears once.
pub open spec fn strictly_sorted(s: Seq<Seq<char>>) -> bool {
    forall|i: int, j: int| 0 <= i < j < s.len() ==> lex_lt(#[trigger] s[i], #[trigger] s[j])
}

/// The version a reporting row carries.
pub open spec fn reports_version(rows: Seq<NodeReport>, now: i64, v: Seq<char>) -> bool {
    exists|i: int| 0 <= i < rows.len() && is_reporting(rows[i].reported_at, now) && #[trigger] rows[i].version@ == v
}

pub open spec fn strings(v: Seq<String>) -> Seq<Seq<char>> {
    v.map_values(|s: String| s@)
}

/// Add `v` to a strictly sorted list unless it is there already.
fn insert_version(out: &mut Vec<String>, v: &String)
    requires
        strictly_sorted(strings(old(out)@)),
    ensures
        strictly_sorted(strings(final(out)@)),
        forall|x: Seq<char>| strings(final(out)@).contains(x) <==> (strings(old(out)@).contains(x) || x == v@),
{
    let vc = chars_of(v.as_str());
    let mut k: usize = 0;
    while k < out.len()
        invariant
            k <= out@.len(),
            out@ == old(out)@,
            vc@ == v@,
            strictly_sorted(strings(out@)),
            forall|j: int| 0 <= j < k ==> lex_lt(#[trigger] strings(out@)[j], v@),
        ensures
            k <= out@.len(),
            out@ == old(out)@,
            strictly_sorted(strings(out@)),
            forall|j: int| 0 <= j < k ==> lex_lt(#[trigger] strings(out@)[j], v@),
            k < out@.len() ==> !lex_lt(strings(out@)[k as int], v@),
        decreases out@.len() - k,
    {
        let oc = chars_of(out[k].as_str());
        assert(strings(out@)[k as int] == oc@);
        if !lex_less(&oc, &vc) {
            break;
        }
        k = k + 1;
    }
    let ghost before = strings(out@);
    assert(before == strings(old(out)@));
    if k < out.len() && same(out[k].as_str(), v.as_str()) {
        assert(before[k as int] == v@);
        assert(before.contains(v@));
        return;
    }
    proof {
        if k < before.len() {
            lemma_lex_trichotomy(before[k as int], v@);
        }
    }
    out.insert(k, v.clone());
    assert(strings(out@) =~= before.insert(k as int, v@));
    assert forall|i: int, j: int| 0 <= i < j < strings(out@).len() implies lex_lt(#[trigger] strings(out@)[i], #[trigger] strings(out@)[j]) by {
        let s = strings(out@);
        if j == k {
            assert(s[i] == before[i]);
        } else if i == k {
            assert(s[j] == before[j - 1]);
            if j - 1 > k {
                assert(lex_lt(before[k as int], before[j - 1]));
                lemma_lex_transitive(v@, before[k as int], before[j - 1]);
            }
        } else if i < k && j > k {
            assert(lex_lt(before[i], v@));
            assert(s[j] == before[j - 1]);
        } else if j < k {
        } else {
            assert(s[i] == before[i - 1]);
            assert(s[j] == before[j - 1]);
        }
    }
    assert forall|x: Seq<char>| strings(out@).contains(x) <==> (before.contains(x) || x == v@) by {
        let s = strings(out@);
        if s.contains(x) {
            let i = choose|i: int| 0 <= i < s.len() && s[i] == x;
            if i < k {
                assert(before[i] == x);
            } else if i > k {
                assert(before[i - 1] == x);
            }
        }
        if before.contains(x) {
            let i = choose|i: int| 0 <= i < before.len() && before[i] == x;
            if i < k {
                assert(s[i] == x);
            } else {
                assert(s[i + 1] == x);
            }
        }
        if x == v@ {
            assert(s[k as int] == x);
        }
    }
    assert(forall|x: Seq<char>| strings(out@).contains(x) <==> (strings(old(out)@).contains(x) || x == v@));
}

/// The distinct versions the reporting rows carry, in order. A node that is
/// not reporting is left out: counting it would make a stopped node hold the
/// deployment in "rollout in progress" forever.
pub fn versions(rows: &[NodeReport], now: i64) -> (r: Vec<String>)
    ensures
        strictly_sorted(strings(r@)),
        forall|v: Seq<char>| strings(r@).contains(v) <==> reports_version(rows@, now, v),
{
    let mut out: Vec<String> = Vec::new();
    let mut i: usize = 0;
    while i < rows.len()
        invariant
            i <= rows@.len(),
            strictly_sorted(strings(out@)),
            forall|v: Seq<char>| strings(out@).contains(v) <==> reports_version(rows@.take(i as int), now, v),
        decreases rows@.len() - i,
    {
        let row = &rows[i];
        let ghost prior = strings(out@);
        if reporting(row.reported_at, now) {
            insert_version(&mut out, &row.version);
        }
        assert forall|v: Seq<char>| strings(out@).contains(v) <==> reports_version(rows@.take(i + 1), now, v) by {
            let t = rows@.take(i + 1);
            if reports_version(t, now, v) {
                let j = choose|j: int| 0 <= j < t.len() && is_reporting(t[j].reported_at, now) && #[trigger] t[j].version@ == v;
                if j < i {
                    assert(rows@.take(i as int)[j] == t[j]);
                    assert(reports_version(rows@.take(i as int), now, v));
                }
            }
            if reports_version(rows@.take(i as int), now, v) {
                let j = choose|j: int| 0 <= j < i && is_reporting(rows@.take(i as int)[j].reported_at, now) && #[trigger] rows@.take(i as int)[j].version@ == v;
                assert(t[j] == rows@.take(i as int)[j]);
            }
            if is_reporting(row.reported_at, now) && v == row.version@ {
                assert(t[i as int] == *row);
            }
        }
        i = i + 1;
    }
    assert(rows@.take(rows@.len() as int) =~= rows@);
    out
}


/// The versions a rollout is counted from are distinct, so the verdict
/// counts versions and not nodes.
pub proof fn lemma_sorted_versions_distinct(s: Seq<Seq<char>>)
    requires
        strictly_sorted(s),
    ensures
        forall|i: int, j: int| 0 <= i < j < s.len() ==> s[i] != s[j],
{
    assert forall|i: int, j: int| 0 <= i < j < s.len() implies s[i] != s[j] by {
        assert(lex_lt(s[i], s[j]));
        lemma_lex_irreflexive(s[i]);
    }
}

} // verus!
