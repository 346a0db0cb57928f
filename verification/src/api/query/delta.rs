//! What a subscription is sent when a result set moves: a `put` for a row
//! that is new or changed, a `del` for a key that is gone, and nothing for a
//! row that did not move.

use vstd::prelude::*;

use crate::text::{lemma_lex_le_total, lex_le, same, sort_strings, strs_view};

verus! {

/// One row of a result set: its key within the set, and the row as the JSON
/// text the serializer writes for it, so that the same row always reads as
/// the same text.
#[derive(Debug, Clone, PartialEq, Eq)]
pub struct Row {
    pub key: String,
    pub value: String,
}

/// One change a subscription is sent.
#[derive(Debug, Clone, PartialEq, Eq)]
pub enum DiffOp {
    /// This key's row is now this.
    Put { key: String, row: String },
    /// This key is no longer in the set.
    Del { key: String },
}

/// A [`DiffOp`], as the specifications speak of it.
pub enum OpView {
    Put(Seq<char>, Seq<char>),
    Del(Seq<char>),
}

impl View for DiffOp {
    type V = OpView;

    open spec fn view(&self) -> OpView {
        match self {
            DiffOp::Put { key, row } => OpView::Put(key@, row@),
            DiffOp::Del { key } => OpView::Del(key@),
        }
    }
}

pub open spec fn ops_view(v: Seq<DiffOp>) -> Seq<OpView> {
    v.map_values(|o: DiffOp| o@)
}

/// Rows as key and value.
pub open spec fn pairs_of(rows: Seq<Row>) -> Seq<(Seq<char>, Seq<char>)> {
    rows.map_values(|r: Row| (r.key@, r.value@))
}

/// What a set of rows says a key's row is: the last row with that key.
pub open spec fn lookup(pairs: Seq<(Seq<char>, Seq<char>)>, key: Seq<char>) -> Option<Seq<char>>
    decreases pairs.len(),
{
    if pairs.len() == 0 {
        None
    } else if pairs.last().0 == key {
        Some(pairs.last().1)
    } else {
        lookup(pairs.drop_last(), key)
    }
}

/// A result set as a subscription remembers it: by key, the last row read
/// for a key standing for it.
#[derive(Debug, Clone, PartialEq, Eq)]
pub struct Remembered {
    rows: Vec<Row>,
}

impl View for Remembered {
    type V = Seq<(Seq<char>, Seq<char>)>;

    closed spec fn view(&self) -> Seq<(Seq<char>, Seq<char>)> {
        pairs_of(self.rows@)
    }
}

/// Remember a result set.
pub fn remember(rows: &[Row]) -> (r: Remembered)
    ensures
        r@ == pairs_of(rows@),
{
    let mut kept: Vec<Row> = Vec::new();
    let mut i: usize = 0;
    while i < rows.len()
        invariant
            i <= rows@.len(),
            pairs_of(kept@) == pairs_of(rows@.take(i as int)),
        decreases rows@.len() - i,
    {
        let row = Row { key: rows[i].key.clone(), value: rows[i].value.clone() };
        let ghost before = pairs_of(kept@);
        kept.push(row);
        assert(pairs_of(kept@) =~= before.push((rows@[i as int].key@, rows@[i as int].value@)));
        assert(pairs_of(rows@.take(i + 1)) =~= pairs_of(rows@.take(i as int)).push((rows@[i as int].key@, rows@[i as int].value@)));
        i = i + 1;
    }
    assert(rows@.take(rows@.len() as int) =~= rows@);
    Remembered { rows: kept }
}

/// Whether any of `pairs` has this key.
pub open spec fn has_key(pairs: Seq<(Seq<char>, Seq<char>)>, key: Seq<char>) -> bool {
    exists|i: int| 0 <= i < pairs.len() && #[trigger] pairs[i].0 == key
}

/// The rows of a re-read that moved against what was remembered, in the
/// order read: new keys and changed rows.
pub open spec fn puts(previous: Seq<(Seq<char>, Seq<char>)>, rows: Seq<(Seq<char>, Seq<char>)>) -> Seq<OpView>
    decreases rows.len(),
{
    if rows.len() == 0 {
        Seq::<OpView>::empty()
    } else {
        let r = rows.last();
        puts(previous, rows.drop_last()) + if lookup(previous, r.0) == Some(r.1) {
            Seq::<OpView>::empty()
        } else {
            seq![OpView::Put(r.0, r.1)]
        }
    }
}

/// The remembered keys a re-read no longer has, as remembered (repeats and
/// all).
pub open spec fn lost(previous: Seq<(Seq<char>, Seq<char>)>, rows: Seq<(Seq<char>, Seq<char>)>) -> Seq<Seq<char>>
    decreases previous.len(),
{
    if previous.len() == 0 {
        Seq::<Seq<char>>::empty()
    } else {
        let k = previous.last().0;
        lost(previous.drop_last(), rows) + if has_key(rows, k) { Seq::<Seq<char>>::empty() } else { seq![k] }
    }
}

/// A sorted sequence with each run of equal items kept once.
pub open spec fn runs_once(s: Seq<Seq<char>>) -> Seq<Seq<char>>
    decreases s.len(),
{
    if s.len() <= 1 {
        s
    } else if s.last() == s[s.len() - 2] {
        runs_once(s.drop_last())
    } else {
        runs_once(s.drop_last()).push(s.last())
    }
}

/// The keys a re-read lost, each once, in key order.
pub open spec fn dels(previous: Seq<(Seq<char>, Seq<char>)>, rows: Seq<(Seq<char>, Seq<char>)>) -> Seq<OpView> {
    runs_once(lost(previous, rows).sort_by(lex_le())).map_values(|k: Seq<char>| OpView::Del(k))
}

/// The whole delta: what moved, in the order read, then what is gone, in
/// key order.
pub open spec fn delta(previous: Seq<(Seq<char>, Seq<char>)>, rows: Seq<(Seq<char>, Seq<char>)>) -> Seq<OpView> {
    puts(previous, rows) + dels(previous, rows)
}

fn lookup_in(pairs: &Vec<Row>, key: &str) -> (r: Option<String>)
    ensures
        match r {
            Some(v) => lookup(pairs_of(pairs@), key@) == Some(v@),
            None => lookup(pairs_of(pairs@), key@) is None,
        },
{
    let ghost all = pairs_of(pairs@);
    let mut i: usize = pairs.len();
    assert(pairs_of(pairs@).take(pairs@.len() as int) =~= all);
    while i > 0
        invariant
            i <= pairs@.len(),
            all == pairs_of(pairs@),
            lookup(all, key@) == lookup(all.take(i as int), key@),
        decreases i,
    {
        assert(all.take(i as int).drop_last() =~= all.take(i - 1));
        assert(all.take(i as int).last() == all[i - 1]);
        if same(pairs[i - 1].key.as_str(), key) {
            return Some(pairs[i - 1].value.clone());
        }
        i = i - 1;
    }
    assert(all.take(0).len() == 0);
    None
}

fn has_key_in(rows: &[Row], key: &str) -> (r: bool)
    ensures
        r == has_key(pairs_of(rows@), key@),
{
    let ghost all = pairs_of(rows@);
    let mut i: usize = 0;
    while i < rows.len()
        invariant
            i <= rows@.len(),
            all == pairs_of(rows@),
            forall|j: int| 0 <= j < i ==> all[j].0 != key@,
        decreases rows@.len() - i,
    {
        if same(rows[i].key.as_str(), key) {
            assert(all[i as int].0 == key@);
            return true;
        }
        i = i + 1;
    }
    false
}

fn dedup_sorted(s: &Vec<String>) -> (r: Vec<String>)
    ensures
        strs_view(r@) == runs_once(strs_view(s@)),
{
    let ghost v = strs_view(s@);
    let mut out: Vec<String> = Vec::new();
    let mut i: usize = 0;
    while i < s.len()
        invariant
            i <= s@.len(),
            v == strs_view(s@),
            strs_view(out@) == runs_once(v.take(i as int)),
            i > 0 ==> out@.len() > 0 && out@.last()@ == v[i - 1],
        decreases s@.len() - i,
    {
        let ghost t = v.take(i + 1);
        assert(t.drop_last() =~= v.take(i as int));
        assert(t.last() == v[i as int]);
        let ghost before = strs_view(out@);
        if i == 0 {
            out.push(s[i].clone());
            assert(strs_view(out@) =~= seq![v[0]]);
            assert(t =~= seq![v[0]]);
        } else if same(s[i].as_str(), out[out.len() - 1].as_str()) {
            assert(t[t.len() - 2] == v[i - 1]);
        } else {
            assert(t[t.len() - 2] == v[i - 1]);
            out.push(s[i].clone());
            assert(strs_view(out@) =~= before.push(v[i as int]));
        }
        i = i + 1;
    }
    assert(v.take(s@.len() as int) =~= v);
    out
}

/// Turn a whole re-read into the changes since what a subscription last
/// sent: a row whose key is new or whose row changed is a `put`, in the
/// order read; a remembered key the re-read no longer has is a `del`, once,
/// in key order; a row that did not move sends nothing.
pub fn diff(previous: &Remembered, rows: &[Row]) -> (r: Vec<DiffOp>)
    ensures
        ops_view(r@) == delta(previous@, pairs_of(rows@)),
{
    let ghost prev = previous@;
    let ghost now = pairs_of(rows@);
    let mut out: Vec<DiffOp> = Vec::new();
    let mut i: usize = 0;
    assert(now.take(0) =~= Seq::<(Seq<char>, Seq<char>)>::empty());
    while i < rows.len()
        invariant
            i <= rows@.len(),
            prev == previous@,
            prev == pairs_of(previous.rows@),
            now == pairs_of(rows@),
            ops_view(out@) == puts(prev, now.take(i as int)),
        decreases rows@.len() - i,
    {
        assert(now.take(i + 1).drop_last() =~= now.take(i as int));
        assert(now.take(i + 1).last() == now[i as int]);
        let ghost before = ops_view(out@);
        let found = lookup_in(&previous.rows, rows[i].key.as_str());
        let unchanged = match &found {
            Some(v) => same(v.as_str(), rows[i].value.as_str()),
            None => false,
        };
        if !unchanged {
            out.push(DiffOp::Put { key: rows[i].key.clone(), row: rows[i].value.clone() });
            assert(ops_view(out@) =~= before + seq![OpView::Put(now[i as int].0, now[i as int].1)]);
        } else {
            assert(ops_view(out@) =~= before + Seq::<OpView>::empty());
        }
        i = i + 1;
    }
    assert(now.take(rows@.len() as int) =~= now);
    let mut gone: Vec<String> = Vec::new();
    let mut j: usize = 0;
    assert(prev.take(0) =~= Seq::<(Seq<char>, Seq<char>)>::empty());
    while j < previous.rows.len()
        invariant
            j <= previous.rows@.len(),
            prev == pairs_of(previous.rows@),
            now == pairs_of(rows@),
            strs_view(gone@) == lost(prev.take(j as int), now),
        decreases previous.rows@.len() - j,
    {
        assert(prev.take(j + 1).drop_last() =~= prev.take(j as int));
        assert(prev.take(j + 1).last() == prev[j as int]);
        let ghost before = strs_view(gone@);
        if !has_key_in(rows, previous.rows[j].key.as_str()) {
            gone.push(previous.rows[j].key.clone());
            assert(strs_view(gone@) =~= before + seq![prev[j as int].0]);
        } else {
            assert(strs_view(gone@) =~= before + Seq::<Seq<char>>::empty());
        }
        j = j + 1;
    }
    assert(prev.take(previous.rows@.len() as int) =~= prev);
    let sorted = sort_strings(&gone);
    let keys = dedup_sorted(&sorted);
    let ghost puts_part = ops_view(out@);
    let mut k: usize = 0;
    while k < keys.len()
        invariant
            k <= keys@.len(),
            ops_view(out@) == puts_part + strs_view(keys@).take(k as int).map_values(|x: Seq<char>| OpView::Del(x)),
        decreases keys@.len() - k,
    {
        let ghost before = ops_view(out@);
        out.push(DiffOp::Del { key: keys[k].clone() });
        assert(strs_view(keys@).take(k + 1).map_values(|x: Seq<char>| OpView::Del(x))
            =~= strs_view(keys@).take(k as int).map_values(|x: Seq<char>| OpView::Del(x)).push(OpView::Del(keys@[k as int]@)));
        assert(ops_view(out@) =~= before.push(OpView::Del(keys@[k as int]@)));
        k = k + 1;
    }
    assert(strs_view(keys@).take(keys@.len() as int) =~= strs_view(keys@));
    out
}

/// The changes for exactly the keys an event named, in that order: a key
/// the re-read found is a `put` of its row, one it did not is a `del`.
pub open spec fn named_ops(keys: Seq<Seq<char>>, rows: Seq<(Seq<char>, Seq<char>)>) -> Seq<OpView> {
    keys.map_values(|k: Seq<char>| match lookup(rows, k) {
        Some(v) => OpView::Put(k, v),
        None => OpView::Del(k),
    })
}

/// [`named_ops`].
pub fn ops(keys: &[String], rows: Vec<Row>) -> (r: Vec<DiffOp>)
    ensures
        ops_view(r@) == named_ops(strs_view(keys@), pairs_of(rows@)),
{
    let mut out: Vec<DiffOp> = Vec::new();
    let mut i: usize = 0;
    while i < keys.len()
        invariant
            i <= keys@.len(),
            ops_view(out@) == named_ops(strs_view(keys@).take(i as int), pairs_of(rows@)),
        decreases keys@.len() - i,
    {
        let ghost before = ops_view(out@);
        let op = match lookup_in(&rows, keys[i].as_str()) {
            Some(v) => DiffOp::Put { key: keys[i].clone(), row: v },
            None => DiffOp::Del { key: keys[i].clone() },
        };
        out.push(op);
        assert(named_ops(strs_view(keys@).take(i + 1), pairs_of(rows@))
            =~= named_ops(strs_view(keys@).take(i as int), pairs_of(rows@)).push(out@[i as int]@));
        assert(ops_view(out@) =~= before.push(out@[i as int]@));
        i = i + 1;
    }
    assert(strs_view(keys@).take(keys@.len() as int) =~= strs_view(keys@));
    out
}


/// Keys that occur once each.
pub open spec fn distinct_keys(pairs: Seq<(Seq<char>, Seq<char>)>) -> bool {
    forall|i: int, j: int| 0 <= i < j < pairs.len() ==> #[trigger] pairs[i].0 != #[trigger] pairs[j].0
}

proof fn lemma_lookup_finds(pairs: Seq<(Seq<char>, Seq<char>)>, i: int)
    requires
        distinct_keys(pairs),
        0 <= i < pairs.len(),
    ensures
        lookup(pairs, pairs[i].0) == Some(pairs[i].1),
    decreases pairs.len(),
{
    if i < pairs.len() - 1 {
        assert(pairs[i].0 != pairs[pairs.len() - 1].0);
        let d = pairs.drop_last();
        assert(distinct_keys(d)) by {
            assert forall|a: int, b: int| 0 <= a < b < d.len() implies #[trigger] d[a].0 != #[trigger] d[b].0 by {
                assert(d[a] == pairs[a] && d[b] == pairs[b]);
            }
        }
        assert(d[i] == pairs[i]);
        lemma_lookup_finds(d, i);
    }
}

proof fn lemma_nothing_moved(pairs: Seq<(Seq<char>, Seq<char>)>, n: int)
    requires
        distinct_keys(pairs),
        0 <= n <= pairs.len(),
    ensures
        puts(pairs, pairs.take(n)) == Seq::<OpView>::empty(),
    decreases n,
{
    if n > 0 {
        let t = pairs.take(n);
        assert(t.drop_last() =~= pairs.take(n - 1));
        assert(t.last() == pairs[n - 1]);
        lemma_lookup_finds(pairs, n - 1);
        lemma_nothing_moved(pairs, n - 1);
        assert(puts(pairs, t) =~= Seq::<OpView>::empty());
    } else {
        assert(pairs.take(0).len() == 0);
    }
}

proof fn lemma_nothing_lost(pairs: Seq<(Seq<char>, Seq<char>)>, n: int)
    requires
        0 <= n <= pairs.len(),
    ensures
        lost(pairs.take(n), pairs) == Seq::<Seq<char>>::empty(),
    decreases n,
{
    if n > 0 {
        let t = pairs.take(n);
        assert(t.drop_last() =~= pairs.take(n - 1));
        assert(t.last() == pairs[n - 1]);
        assert(has_key(pairs, pairs[n - 1].0));
        lemma_nothing_lost(pairs, n - 1);
        assert(lost(t, pairs) =~= Seq::<Seq<char>>::empty());
    } else {
        assert(pairs.take(0).len() == 0);
    }
}

/// A re-read that finds exactly what was remembered, each key once, sends
/// nothing at all.
pub proof fn lemma_unchanged_sends_nothing(rows: Seq<(Seq<char>, Seq<char>)>)
    requires
        distinct_keys(rows),
    ensures
        delta(rows, rows) == Seq::<OpView>::empty(),
{
    lemma_nothing_moved(rows, rows.len() as int);
    lemma_nothing_lost(rows, rows.len() as int);
    assert(rows.take(rows.len() as int) =~= rows);
    let e = Seq::<Seq<char>>::empty();
    lemma_lex_le_total();
    e.lemma_sort_by_ensures(lex_le());
    vstd::seq_lib::to_multiset_len(e);
    vstd::seq_lib::to_multiset_len(e.sort_by(lex_le()));
    assert(e.sort_by(lex_le()).len() == 0);
    assert(e.sort_by(lex_le()) =~= e);
    assert(runs_once(e) == e);
    assert(dels(rows, rows) =~= Seq::<OpView>::empty());
}

} // verus!
