//! The logical backup's own rules: which names may be put into a statement,
//! which storage class a declared column type is, the order tables are
//! walked in, and what the walk reports.

use vstd::prelude::*;
use vstd::multiset::Multiset;

use super::AdminError;
use super::restore::{base64_decoded, stored_of, Cell, Shape, StoredView};
use crate::text::{
    chars_of, concat, debug_quote, debug_quoted, decimal, is_digit, is_lower_alpha, is_upper_alpha,
    is_prefix, lex_le, push_char, push_decimal, same, sort_strings, starts_with, strs_view,
};

verus! {

/// The tables hiqlite owns. They describe the state machine, not the
/// deployment, and a restore onto a fresh formation has its own.
pub const NOT_OURS: [&'static str; 2] = ["_migrations", "_metadata"];

/// What a column holds, which is what says how to encode it as JSON.
#[derive(Debug, Clone, Copy, PartialEq, Eq, Structural)]
pub enum Kind {
    /// `INTEGER` — every id, every unix second, every boolean.
    Int,
    /// `REAL`.
    Real,
    /// `TEXT`.
    Text,
    /// `BLOB`, written as `{"b64": "…"}` because JSON has no bytes.
    Blob,
}

pub open spec fn is_ascii_alpha(c: char) -> bool {
    is_lower_alpha(c) || is_upper_alpha(c)
}

pub open spec fn is_word_char(c: char) -> bool {
    is_ascii_alpha(c) || is_digit(c) || c == '_'
}

/// A plain SQL identifier: a letter or `_`, then letters, digits and `_`.
pub open spec fn is_identifier(s: Seq<char>) -> bool {
    &&& s.len() > 0
    &&& is_ascii_alpha(s[0]) || s[0] == '_'
    &&& forall|i: int| 0 <= i < s.len() ==> is_word_char(#[trigger] s[i])
}

/// What the walk interpolates can never close the quotes it stands in nor
/// end the statement: an identifier it admits holds no quote of either
/// kind, no `;`, no white space and no `-`.
pub proof fn lemma_identifier_cannot_escape(s: Seq<char>, i: int)
    requires
        is_identifier(s),
        0 <= i < s.len(),
    ensures
        s[i] != '"' && s[i] != '\'' && s[i] != ';' && s[i] != ' ' && s[i] != '-',
{
    assert(is_word_char(s[i]));
}

pub open spec fn refused_name(name: Seq<char>) -> Seq<char> {
    debug_quote(name) + " is not a name this walk will put into a statement"@
}

/// A name out of the schema, checked before it is interpolated into SQL.
pub fn identifier(name: &str) -> (r: Result<String, AdminError>)
    ensures
        is_identifier(name@) ==> (r matches Ok(v) && v@ == name@),
        !is_identifier(name@) ==> (r matches Err(AdminError::Refused(m)) && m@ == refused_name(name@)),
{
    let c = chars_of(name);
    let mut ok = c.len() > 0 && (('a' <= c[0] && c[0] <= 'z') || ('A' <= c[0] && c[0] <= 'Z') || c[0] == '_');
    let mut i: usize = 0;
    while i < c.len()
        invariant
            c@ == name@,
            i <= c@.len(),
            ok == (c@.len() > 0 && (is_ascii_alpha(c@[0]) || c@[0] == '_')
                && forall|j: int| 0 <= j < i ==> is_word_char(#[trigger] c@[j])),
        decreases c@.len() - i,
    {
        let x = c[i];
        let word = ('a' <= x && x <= 'z') || ('A' <= x && x <= 'Z') || ('0' <= x && x <= '9') || x == '_';
        ok = ok && word;
        i = i + 1;
    }
    if ok {
        Ok(String::from_str(name))
    } else {
        let q = debug_quoted(name);
        Err(AdminError::Refused(concat(q.as_str(), " is not a name this walk will put into a statement")))
    }
}

/// `char::to_ascii_uppercase`.
pub open spec fn upper(c: char) -> char {
    if is_lower_alpha(c) { ((c as u32) - 32) as char } else { c }
}

/// `p` occurs in `s` at `i`, once `s` is uppercased.
pub open spec fn occurs_at(s: Seq<char>, p: Seq<char>, i: int) -> bool {
    &&& 0 <= i
    &&& i + p.len() <= s.len()
    &&& forall|j: int| 0 <= j < p.len() ==> upper(#[trigger] s[i + j]) == p[j]
}

/// `s.to_ascii_uppercase().contains(p)`.
pub open spec fn contains_upper(s: Seq<char>, p: Seq<char>) -> bool {
    exists|i: int| occurs_at(s, p, i)
}

/// SQLite's declared-type rules, which are substring rules and not a
/// vocabulary, in SQLite's own order of precedence.
pub open spec fn kind_of(declared: Seq<char>) -> Option<Kind> {
    if contains_upper(declared, "INT"@) {
        Some(Kind::Int)
    } else if contains_upper(declared, "CHAR"@) || contains_upper(declared, "CLOB"@)
        || contains_upper(declared, "TEXT"@) {
        Some(Kind::Text)
    } else if contains_upper(declared, "BLOB"@) {
        Some(Kind::Blob)
    } else if contains_upper(declared, "REAL"@) || contains_upper(declared, "FLOA"@)
        || contains_upper(declared, "DOUB"@) {
        Some(Kind::Real)
    } else {
        None
    }
}

fn upper_is(c: char, p: char) -> (r: bool)
    ensures
        r == (upper(c) == p),
{
    if 'a' <= c && c <= 'z' {
        let u = (c as u32) - 32;
        assert(upper(c) == u as char);
        (p as u32) == u
    } else {
        c == p
    }
}

/// Whether `p` occurs in `s`, once `s` is uppercased.
fn has_upper(s: &[char], p: &str) -> (r: bool)
    ensures
        r == contains_upper(s@, p@),
{
    let pc = chars_of(p);
    let n = s.len();
    let m = pc.len();
    if m > n {
        assert forall|i: int| !occurs_at(s@, p@, i) by {}
        return false;
    }
    let mut i: usize = 0;
    while i <= n - m
        invariant
            pc@ == p@,
            m == pc@.len(),
            n == s@.len(),
            m <= n,
            i <= n - m + 1,
            forall|k: int| 0 <= k < i ==> !occurs_at(s@, p@, k),
        decreases n - i,
    {
        let mut j: usize = 0;
        let mut all = true;
        while j < m
            invariant
                pc@ == p@,
                m == pc@.len(),
                n == s@.len(),
                i + m <= n,
                j <= m,
                all == forall|k: int| 0 <= k < j ==> upper(#[trigger] s@[i + k]) == p@[k],
            decreases m - j,
        {
            let hit = upper_is(s[i + j], pc[j]);
            proof {
                if all && hit {
                    assert forall|k: int| 0 <= k < j + 1 implies upper(#[trigger] s@[i + k]) == p@[k] by {
                        if k == j {
                        }
                    }
                }
            }
            all = all && hit;
            j = j + 1;
        }
        if all {
            assert(occurs_at(s@, p@, i as int));
            return true;
        }
        i = i + 1;
    }
    assert forall|k: int| !occurs_at(s@, p@, k) by {
        if 0 <= k && k + m <= n {
            assert(k < i);
        }
    }
    false
}

impl Kind {
    /// The storage class a declared column type names, or `None` for one
    /// this walk does not guess at.
    pub fn of(declared: &str) -> (r: Option<Kind>)
        ensures
            r == kind_of(declared@),
    {
        let d = chars_of(declared);
        if has_upper(&d, "INT") {
            Some(Kind::Int)
        } else if has_upper(&d, "CHAR") || has_upper(&d, "CLOB") || has_upper(&d, "TEXT") {
            Some(Kind::Text)
        } else if has_upper(&d, "BLOB") {
            Some(Kind::Blob)
        } else if has_upper(&d, "REAL") || has_upper(&d, "FLOA") || has_upper(&d, "DOUB") {
            Some(Kind::Real)
        } else {
            None
        }
    }
}

/// A foreign key: the table that holds it, and the table it points at.
pub open spec fn edges_view(v: Seq<(String, String)>) -> Seq<(Seq<char>, Seq<char>)> {
    v.map_values(|e: (String, String)| (e.0@, e.1@))
}

/// The tables `child` depends on, in the order its keys were listed: a key
/// to itself is not a dependency, nor is one to a table the walk does not
/// own.
pub open spec fn parents_in(edges: Seq<(Seq<char>, Seq<char>)>, names: Seq<Seq<char>>, child: Seq<char>) -> Seq<Seq<char>>
    decreases edges.len(),
{
    if edges.len() == 0 {
        Seq::<Seq<char>>::empty()
    } else {
        let r = parents_in(edges.drop_last(), names, child);
        let e = edges.last();
        if e.0 == child && e.1 != child && names.contains(e.1) { r.push(e.1) } else { r }
    }
}

/// A table not yet walked whose parents all have been.
pub open spec fn is_ready(edges: Seq<(Seq<char>, Seq<char>)>, names: Seq<Seq<char>>, order: Seq<Seq<char>>, n: Seq<char>) -> bool {
    &&& !order.contains(n)
    &&& forall|k: int| 0 <= k < parents_in(edges, names, n).len() ==> order.contains(#[trigger] parents_in(edges, names, n)[k])
}

/// The tables of `ns` that are ready, in order.
pub open spec fn ready_of(edges: Seq<(Seq<char>, Seq<char>)>, names: Seq<Seq<char>>, order: Seq<Seq<char>>, ns: Seq<Seq<char>>) -> Seq<Seq<char>>
    decreases ns.len(),
{
    if ns.len() == 0 {
        Seq::<Seq<char>>::empty()
    } else {
        let r = ready_of(edges, names, order, ns.drop_last());
        if is_ready(edges, names, order, ns.last()) { r.push(ns.last()) } else { r }
    }
}

/// The tables of `ns` not yet walked, in order.
pub open spec fn unwalked(order: Seq<Seq<char>>, ns: Seq<Seq<char>>) -> Seq<Seq<char>>
    decreases ns.len(),
{
    if ns.len() == 0 {
        Seq::<Seq<char>>::empty()
    } else {
        let r = unwalked(order, ns.drop_last());
        if !order.contains(ns.last()) { r.push(ns.last()) } else { r }
    }
}

pub proof fn lemma_ready_members(edges: Seq<(Seq<char>, Seq<char>)>, names: Seq<Seq<char>>, order: Seq<Seq<char>>, ns: Seq<Seq<char>>)
    ensures
        forall|i: int| 0 <= i < ready_of(edges, names, order, ns).len() ==> {
            &&& ns.contains(#[trigger] ready_of(edges, names, order, ns)[i])
            &&& !order.contains(ready_of(edges, names, order, ns)[i])
        },
    decreases ns.len(),
{
    if ns.len() > 0 {
        lemma_ready_members(edges, names, order, ns.drop_last());
        let r = ready_of(edges, names, order, ns.drop_last());
        assert forall|i: int| 0 <= i < ready_of(edges, names, order, ns).len() implies {
            &&& ns.contains(#[trigger] ready_of(edges, names, order, ns)[i])
            &&& !order.contains(ready_of(edges, names, order, ns)[i])
        } by {
            if i < r.len() {
                let x = r[i];
                assert(ns.drop_last().contains(x));
                let j = choose|j: int| 0 <= j < ns.drop_last().len() && ns.drop_last()[j] == x;
                assert(ns[j] == x);
            } else {
                assert(ns[ns.len() - 1] == ns.last());
            }
        }
    }
}

pub proof fn lemma_unwalked_shrinks(order: Seq<Seq<char>>, wider: Seq<Seq<char>>, ns: Seq<Seq<char>>, w: Seq<char>)
    requires
        forall|x: Seq<char>| order.contains(x) ==> wider.contains(x),
    ensures
        unwalked(wider, ns).len() <= unwalked(order, ns).len(),
        ns.contains(w) && wider.contains(w) && !order.contains(w) ==> unwalked(wider, ns).len() < unwalked(order, ns).len(),
    decreases ns.len(),
{
    if ns.len() > 0 {
        lemma_unwalked_shrinks(order, wider, ns.drop_last(), w);
        if ns.contains(w) && ns.last() != w {
            let j = choose|j: int| 0 <= j < ns.len() && ns[j] == w;
            assert(ns.drop_last()[j] == w);
        }
    }
}

/// The order the walk takes, from `order` on: each round appends every
/// table whose parents have all been walked, in name order; a round that
/// finds none is a cycle, and the rest follow in name order.
pub open spec fn walk(edges: Seq<(Seq<char>, Seq<char>)>, names: Seq<Seq<char>>, order: Seq<Seq<char>>) -> Seq<Seq<char>>
    decreases unwalked(order, names).len(),
{
    let rest = unwalked(order, names);
    if rest.len() == 0 {
        order
    } else {
        let r = ready_of(edges, names, order, names);
        if r.len() == 0 {
            order + rest
        } else {
            proof {
                lemma_ready_members(edges, names, order, names);
                assert(r.contains(r[0]));
                assert((order + r).contains(r[0])) by {
                    assert((order + r)[order.len() as int] == r[0]);
                }
                assert forall|x: Seq<char>| order.contains(x) implies (order + r).contains(x) by {
                    let j = choose|j: int| 0 <= j < order.len() && order[j] == x;
                    assert((order + r)[j] == x);
                }
                lemma_unwalked_shrinks(order, order + r, names, r[0]);
            }
            walk(edges, names, order + r)
        }
    }
}

/// Whether `v` holds `s`.
fn holds(v: &Vec<String>, s: &String) -> (r: bool)
    ensures
        r == strs_view(v@).contains(s@),
{
    let mut i: usize = 0;
    while i < v.len()
        invariant
            i <= v@.len(),
            forall|j: int| 0 <= j < i ==> strs_view(v@)[j] != s@,
        decreases v@.len() - i,
    {
        if same(v[i].as_str(), s.as_str()) {
            assert(strs_view(v@)[i as int] == s@);
            return true;
        }
        i = i + 1;
    }
    false
}

fn parents_of(names: &Vec<String>, references: &[(String, String)], child: &String) -> (r: Vec<String>)
    ensures
        strs_view(r@) == parents_in(edges_view(references@), strs_view(names@), child@),
{
    let ghost e = edges_view(references@);
    let mut out: Vec<String> = Vec::new();
    let mut k: usize = 0;
    assert(e.take(0) =~= Seq::<(Seq<char>, Seq<char>)>::empty());
    assert(strs_view(out@) =~= Seq::<Seq<char>>::empty());
    while k < references.len()
        invariant
            k <= references@.len(),
            e == edges_view(references@),
            strs_view(out@) == parents_in(e.take(k as int), strs_view(names@), child@),
        decreases references@.len() - k,
    {
        let (c, p) = &references[k];
        assert(e.take(k + 1).drop_last() =~= e.take(k as int));
        assert(e.take(k + 1).last() == (c@, p@));
        if same(c.as_str(), child.as_str()) && !same(p.as_str(), child.as_str()) && holds(names, p) {
            let ghost before = strs_view(out@);
            out.push(p.clone());
            assert(strs_view(out@) =~= before.push(p@));
        }
        k = k + 1;
    }
    assert(e.take(references@.len() as int) =~= e);
    out
}

/// Every table this deployment owns, in an order that inserts cleanly:
/// layer by layer over the foreign-key graph, name order inside a layer, and
/// the members of a cycle appended in name order rather than refused.
/// `tables` are the table names; `references` the foreign keys, each as the
/// table that holds it and the table it points at.
pub fn walk_order(tables: &[String], references: &[(String, String)]) -> (r: Vec<String>)
    ensures
        strs_view(r@) == walk(edges_view(references@), strs_view(tables@).sort_by(lex_le()), Seq::empty()),
{
    let names = sort_strings(tables);
    let ghost n = strs_view(names@);
    let ghost e = edges_view(references@);
    let mut parents: Vec<Vec<String>> = Vec::new();
    let mut i: usize = 0;
    while i < names.len()
        invariant
            i <= names@.len(),
            n == strs_view(names@),
            e == edges_view(references@),
            parents@.len() == i,
            forall|j: int| 0 <= j < i ==> #[trigger] strs_view(parents@[j]@) == parents_in(e, n, n[j]),
        decreases names@.len() - i,
    {
        let p = parents_of(&names, references, &names[i]);
        parents.push(p);
        i = i + 1;
    }
    let mut order: Vec<String> = Vec::new();
    assert(strs_view(order@) =~= Seq::<Seq<char>>::empty());
    loop
        invariant_except_break
            walk(e, n, Seq::empty()) == walk(e, n, strs_view(order@)),
        invariant
            n == strs_view(names@),
            e == edges_view(references@),
            parents@.len() == names@.len(),
            forall|j: int| 0 <= j < names@.len() ==> #[trigger] strs_view(parents@[j]@) == parents_in(e, n, n[j]),
        ensures
            strs_view(order@) == walk(e, n, Seq::empty()),
        decreases unwalked(strs_view(order@), n).len(),
    {
        let ghost o = strs_view(order@);
        let mut rest: Vec<String> = Vec::new();
        let mut ready: Vec<String> = Vec::new();
        let mut k: usize = 0;
        assert(n.take(0) =~= Seq::<Seq<char>>::empty());
        assert(strs_view(rest@) =~= Seq::<Seq<char>>::empty());
        assert(strs_view(ready@) =~= Seq::<Seq<char>>::empty());
        while k < names.len()
            invariant
                k <= names@.len(),
                n == strs_view(names@),
                o == strs_view(order@),
                parents@.len() == names@.len(),
                forall|j: int| 0 <= j < names@.len() ==> #[trigger] strs_view(parents@[j]@) == parents_in(e, n, n[j]),
                strs_view(rest@) == unwalked(o, n.take(k as int)),
                strs_view(ready@) == ready_of(e, n, o, n.take(k as int)),
            decreases names@.len() - k,
        {
            let name = &names[k];
            assert(n.take(k + 1).drop_last() =~= n.take(k as int));
            assert(n.take(k + 1).last() == name@);
            if !holds(&order, name) {
                let ghost before_rest = strs_view(rest@);
                rest.push(name.clone());
                assert(strs_view(rest@) =~= before_rest.push(name@));
                let ps = &parents[k];
                assert(strs_view(ps@) == parents_in(e, n, name@));
                let mut all = true;
                let mut q: usize = 0;
                while q < ps.len()
                    invariant
                        q <= ps@.len(),
                        o == strs_view(order@),
                        all == forall|m: int| 0 <= m < q ==> o.contains(#[trigger] strs_view(ps@)[m]),
                    decreases ps@.len() - q,
                {
                    let hit = holds(&order, &ps[q]);
                    proof {
                        assert(strs_view(ps@)[q as int] == ps@[q as int]@);
                    }
                    all = all && hit;
                    q = q + 1;
                }
                if all {
                    let ghost before_ready = strs_view(ready@);
                    ready.push(name.clone());
                    assert(strs_view(ready@) =~= before_ready.push(name@));
                }
            }
            k = k + 1;
        }
        assert(n.take(names@.len() as int) =~= n);
        if rest.len() == 0 {
            assert(walk(e, n, o) == o);
            break;
        }
        if ready.len() == 0 {
            let ghost before = strs_view(order@);
            let mut j: usize = 0;
            while j < rest.len()
                invariant
                    j <= rest@.len(),
                    strs_view(order@) == before + strs_view(rest@).take(j as int),
                decreases rest@.len() - j,
            {
                let ghost prior = strs_view(order@);
                let item = rest[j].clone();
                order.push(item);
                assert(strs_view(order@) =~= prior.push(rest@[j as int]@));
                assert(strs_view(rest@).take(j + 1) =~= strs_view(rest@).take(j as int).push(rest@[j as int]@));
                j = j + 1;
            }
            assert(strs_view(rest@).take(rest@.len() as int) =~= strs_view(rest@));
            assert(walk(e, n, o) == o + unwalked(o, n));
            break;
        }
        let ghost before = strs_view(order@);
        let mut j: usize = 0;
        while j < ready.len()
            invariant
                j <= ready@.len(),
                strs_view(order@) == before + strs_view(ready@).take(j as int),
            decreases ready@.len() - j,
        {
            let ghost prior = strs_view(order@);
            let item = ready[j].clone();
            order.push(item);
            assert(strs_view(order@) =~= prior.push(ready@[j as int]@));
            assert(strs_view(ready@).take(j + 1) =~= strs_view(ready@).take(j as int).push(ready@[j as int]@));
            j = j + 1;
        }
        assert(strs_view(ready@).take(ready@.len() as int) =~= strs_view(ready@));
        proof {
            let r = ready_of(e, n, o, n);
            assert(walk(e, n, o) == walk(e, n, o + r));
            lemma_ready_members(e, n, o, n);
            assert(r.contains(r[0]));
            assert((o + r)[o.len() as int] == r[0]);
            assert forall|x: Seq<char>| o.contains(x) implies (o + r).contains(x) by {
                let j = choose|j: int| 0 <= j < o.len() && o[j] == x;
                assert((o + r)[j] == x);
            }
            lemma_unwalked_shrinks(o, o + r, n, r[0]);
        }
    }
    order
}

pub proof fn lemma_ready_is_ready(edges: Seq<(Seq<char>, Seq<char>)>, names: Seq<Seq<char>>, order: Seq<Seq<char>>, ns: Seq<Seq<char>>)
    ensures
        forall|i: int| 0 <= i < ready_of(edges, names, order, ns).len() ==> is_ready(edges, names, order, #[trigger] ready_of(edges, names, order, ns)[i]),
        forall|x: Seq<char>| ready_of(edges, names, order, ns).contains(x) ==> is_ready(edges, names, order, x),
    decreases ns.len(),
{
    if ns.len() > 0 {
        lemma_ready_is_ready(edges, names, order, ns.drop_last());
    }
    assert forall|x: Seq<char>| ready_of(edges, names, order, ns).contains(x) implies is_ready(edges, names, order, x) by {
        let i = choose|i: int| 0 <= i < ready_of(edges, names, order, ns).len() && ready_of(edges, names, order, ns)[i] == x;
    }
}

proof fn lemma_ready_contains(edges: Seq<(Seq<char>, Seq<char>)>, names: Seq<Seq<char>>, order: Seq<Seq<char>>, ns: Seq<Seq<char>>, x: Seq<char>)
    requires
        ns.contains(x),
        is_ready(edges, names, order, x),
    ensures
        ready_of(edges, names, order, ns).contains(x),
    decreases ns.len(),
{
    if ns.last() == x {
        let r = ready_of(edges, names, order, ns);
        assert(r[r.len() - 1] == x);
    } else {
        let j = choose|j: int| 0 <= j < ns.len() && ns[j] == x;
        assert(ns.drop_last()[j] == x);
        lemma_ready_contains(edges, names, order, ns.drop_last(), x);
        let r0 = ready_of(edges, names, order, ns.drop_last());
        let k = choose|k: int| 0 <= k < r0.len() && r0[k] == x;
        let r = ready_of(edges, names, order, ns);
        assert(r[k] == x);
    }
}

/// Splitting the unwalked tables of a round into the ones it walks and the
/// ones it leaves.
proof fn lemma_round_split(edges: Seq<(Seq<char>, Seq<char>)>, names: Seq<Seq<char>>, order: Seq<Seq<char>>, ns: Seq<Seq<char>>)
    requires
        forall|x: Seq<char>| ns.contains(x) ==> names.contains(x),
    ensures
        unwalked(order, ns).to_multiset() == ready_of(edges, names, order, ns).to_multiset().add(
            unwalked(order + ready_of(edges, names, order, names), ns).to_multiset()),
    decreases ns.len(),
{
    broadcast use vstd::seq_lib::group_to_multiset_ensures;
    let r = ready_of(edges, names, order, names);
    if ns.len() == 0 {
        assert(unwalked(order, ns).to_multiset() =~= Multiset::empty());
    } else {
        let init = ns.drop_last();
        let x = ns.last();
        assert forall|y: Seq<char>| init.contains(y) implies names.contains(y) by {
            let j = choose|j: int| 0 <= j < init.len() && init[j] == y;
            assert(ns[j] == y);
        }
        lemma_round_split(edges, names, order, init);
        assert(ns.contains(x)) by { assert(ns[ns.len() - 1] == x); }
        lemma_ready_is_ready(edges, names, order, names);
        let grown = order + r;
        if order.contains(x) {
            assert(grown.contains(x)) by {
                let j = choose|j: int| 0 <= j < order.len() && order[j] == x;
                assert(grown[j] == x);
            }
        } else if is_ready(edges, names, order, x) {
            lemma_ready_contains(edges, names, order, names, x);
            assert(grown.contains(x)) by {
                let k = choose|k: int| 0 <= k < r.len() && r[k] == x;
                assert(grown[order.len() + k] == x);
            }
        } else {
            assert(!grown.contains(x)) by {
                if grown.contains(x) {
                    let j = choose|j: int| 0 <= j < grown.len() && grown[j] == x;
                    if j < order.len() {
                        assert(order[j] == x);
                    } else {
                        assert(r[j - order.len()] == x);
                        assert(r.contains(x));
                    }
                }
            }
        }
        assert(unwalked(order, ns).to_multiset() =~= ready_of(edges, names, order, ns).to_multiset().add(
            unwalked(grown, ns).to_multiset()));
    }
}

proof fn lemma_walk_multiset(edges: Seq<(Seq<char>, Seq<char>)>, names: Seq<Seq<char>>, order: Seq<Seq<char>>)
    ensures
        walk(edges, names, order).to_multiset() == order.to_multiset().add(unwalked(order, names).to_multiset()),
    decreases unwalked(order, names).len(),
{
    broadcast use vstd::seq_lib::group_to_multiset_ensures;
    let rest = unwalked(order, names);
    if rest.len() == 0 {
        assert(rest.to_multiset() =~= Multiset::empty());
        assert(order.to_multiset().add(Multiset::empty()) =~= order.to_multiset());
    } else {
        let r = ready_of(edges, names, order, names);
        if r.len() == 0 {
            vstd::seq_lib::lemma_multiset_commutative(order, rest);
        } else {
            lemma_ready_members(edges, names, order, names);
            assert((order + r)[order.len() as int] == r[0]);
            assert forall|x: Seq<char>| order.contains(x) implies (order + r).contains(x) by {
                let j = choose|j: int| 0 <= j < order.len() && order[j] == x;
                assert((order + r)[j] == x);
            }
            lemma_unwalked_shrinks(order, order + r, names, r[0]);
            lemma_walk_multiset(edges, names, order + r);
            vstd::seq_lib::lemma_multiset_commutative(order, r);
            assert forall|x: Seq<char>| names.contains(x) implies names.contains(x) by {}
            lemma_round_split(edges, names, order, names);
            assert(order.to_multiset().add(r.to_multiset()).add(unwalked(order + r, names).to_multiset())
                =~= order.to_multiset().add(rest.to_multiset()));
        }
    }
}

proof fn lemma_unwalked_from_nothing(ns: Seq<Seq<char>>)
    ensures
        unwalked(Seq::empty(), ns) == ns,
    decreases ns.len(),
{
    if ns.len() > 0 {
        lemma_unwalked_from_nothing(ns.drop_last());
        assert(ns.drop_last().push(ns.last()) =~= ns);
    }
}

/// The walk takes every table, each exactly as often as the schema lists it:
/// a cycle is appended, never dropped.
pub proof fn lemma_walk_takes_every_table(tables: Seq<Seq<char>>, references: Seq<(Seq<char>, Seq<char>)>)
    ensures
        walk(references, tables.sort_by(lex_le()), Seq::empty()).to_multiset() == tables.to_multiset(),
{
    broadcast use vstd::seq_lib::group_to_multiset_ensures;
    crate::text::lemma_lex_le_total();
    tables.lemma_sort_by_ensures(lex_le());
    let n = tables.sort_by(lex_le());
    lemma_walk_multiset(references, n, Seq::empty());
    lemma_unwalked_from_nothing(n);
    assert(Seq::<Seq<char>>::empty().to_multiset() =~= Multiset::empty());
    assert(Multiset::<Seq<char>>::empty().add(n.to_multiset()) =~= n.to_multiset());
}

/// Every table in `order` comes after each of its parents.
pub open spec fn parents_first(edges: Seq<(Seq<char>, Seq<char>)>, names: Seq<Seq<char>>, order: Seq<Seq<char>>) -> bool {
    forall|i: int, k: int| 0 <= i < order.len() && 0 <= k < parents_in(edges, names, order[i]).len()
        ==> #[trigger] order.take(i).contains(#[trigger] parents_in(edges, names, order[i])[k])
}

/// The walk from `order` never meets a round in which nothing is ready.
pub open spec fn acyclic_from(edges: Seq<(Seq<char>, Seq<char>)>, names: Seq<Seq<char>>, order: Seq<Seq<char>>) -> bool
    decreases unwalked(order, names).len(),
{
    let rest = unwalked(order, names);
    if rest.len() == 0 {
        true
    } else {
        let r = ready_of(edges, names, order, names);
        if r.len() == 0 {
            false
        } else {
            proof {
                lemma_ready_members(edges, names, order, names);
                assert((order + r)[order.len() as int] == r[0]);
                assert forall|x: Seq<char>| order.contains(x) implies (order + r).contains(x) by {
                    let j = choose|j: int| 0 <= j < order.len() && order[j] == x;
                    assert((order + r)[j] == x);
                }
                lemma_unwalked_shrinks(order, order + r, names, r[0]);
            }
            acyclic_from(edges, names, order + r)
        }
    }
}

proof fn lemma_walk_parents_first(edges: Seq<(Seq<char>, Seq<char>)>, names: Seq<Seq<char>>, order: Seq<Seq<char>>)
    requires
        parents_first(edges, names, order),
        acyclic_from(edges, names, order),
    ensures
        parents_first(edges, names, walk(edges, names, order)),
    decreases unwalked(order, names).len(),
{
    let rest = unwalked(order, names);
    if rest.len() > 0 {
        let r = ready_of(edges, names, order, names);
        lemma_ready_members(edges, names, order, names);
        lemma_ready_is_ready(edges, names, order, names);
        let grown = order + r;
        assert(grown[order.len() as int] == r[0]);
        assert forall|x: Seq<char>| order.contains(x) implies grown.contains(x) by {
            let j = choose|j: int| 0 <= j < order.len() && order[j] == x;
            assert(grown[j] == x);
        }
        lemma_unwalked_shrinks(order, grown, names, r[0]);
        assert forall|i: int, k: int| 0 <= i < grown.len() && 0 <= k < parents_in(edges, names, grown[i]).len()
            implies #[trigger] grown.take(i).contains(#[trigger] parents_in(edges, names, grown[i])[k]) by {
            let p = parents_in(edges, names, grown[i])[k];
            if i < order.len() {
                assert(grown[i] == order[i]);
                assert(order.take(i).contains(p));
                let j = choose|j: int| 0 <= j < order.take(i).len() && order.take(i)[j] == p;
                assert(grown.take(i)[j] == p);
            } else {
                assert(grown[i] == r[i - order.len()]);
                assert(is_ready(edges, names, order, r[i - order.len()]));
                assert(order.contains(p));
                let j = choose|j: int| 0 <= j < order.len() && order[j] == p;
                assert(grown.take(i)[j] == p);
            }
        }
        lemma_walk_parents_first(edges, names, grown);
    }
}

/// Where the foreign keys have no cycle, every table is walked after every
/// table it points at, so the rows insert in walk order.
pub proof fn lemma_walk_inserts_cleanly(tables: Seq<Seq<char>>, references: Seq<(Seq<char>, Seq<char>)>)
    requires
        acyclic_from(references, tables.sort_by(lex_le()), Seq::empty()),
    ensures
        parents_first(references, tables.sort_by(lex_le()), walk(references, tables.sort_by(lex_le()), Seq::empty())),
{
    lemma_walk_parents_first(references, tables.sort_by(lex_le()), Seq::empty());
}


/// One column, and the storage class its values are read and written as.
#[derive(Debug, Clone, PartialEq, Eq)]
pub struct Column {
    pub name: String,
    pub kind: Kind,
}

/// One table's place in the walk: its name, its columns in the order its
/// rows are written, and how many rows it had.
#[derive(Debug, Clone, PartialEq, Eq)]
pub struct TableEntry {
    pub name: String,
    pub columns: Vec<Column>,
    pub rows: u64,
}

/// `s` in a column `width` characters wide: padded on the right with
/// spaces, and never cut.
pub open spec fn padded(s: Seq<char>, width: nat) -> Seq<char> {
    if s.len() >= width {
        s
    } else {
        s + Seq::new((width - s.len()) as nat, |_i: int| ' ')
    }
}

/// The line a report gives one table: its name in a column of twenty, and a
/// count of rows.
pub open spec fn count_line(name: Seq<char>, n: nat) -> Seq<char> {
    "  "@ + padded(name, 20) + " "@ + decimal(n) + "\n"@
}

/// The lines for the tables that count anything, in order.
pub open spec fn count_lines(counts: Seq<(Seq<char>, nat)>) -> Seq<char>
    decreases counts.len(),
{
    if counts.len() == 0 {
        Seq::<char>::empty()
    } else {
        let rest = count_lines(counts.drop_last());
        let last = counts.last();
        if last.1 > 0 { rest + count_line(last.0, last.1) } else { rest }
    }
}

/// The counts added up.
pub open spec fn total(counts: Seq<(Seq<char>, nat)>) -> nat
    decreases counts.len(),
{
    if counts.len() == 0 { 0 } else { total(counts.drop_last()) + counts.last().1 }
}

pub(crate) fn push_padded(out: &mut String, s: &str, width: usize)
    ensures
        final(out)@ == old(out)@ + padded(s@, width as nat),
{
    let c = chars_of(s);
    out.append(s);
    let mut k: usize = c.len();
    let ghost start = old(out)@ + s@;
    while k < width
        invariant
            c@ == s@,
            c@.len() <= k <= width || (k == c@.len() && k >= width),
            out@ == start + Seq::new((k - c@.len()) as nat, |_i: int| ' '),
        decreases width - k,
    {
        push_char(out, ' ');
        assert(start + Seq::new((k + 1 - c@.len()) as nat, |_i: int| ' ')
            =~= start + Seq::new((k - c@.len()) as nat, |_i: int| ' ').push(' '));
        k = k + 1;
    }
    if c.len() >= width {
        assert(Seq::new(0nat, |_i: int| ' ') =~= Seq::<char>::empty());
        assert(out@ =~= old(out)@ + s@);
    } else {
        assert(out@ =~= old(out)@ + (s@ + Seq::new((width - s@.len()) as nat, |_i: int| ' ')));
    }
}

fn push_count_line(out: &mut String, name: &str, n: u64)
    ensures
        final(out)@ == old(out)@ + count_line(name@, n as nat),
{
    out.append("  ");
    push_padded(out, name, 20);
    out.append(" ");
    push_decimal(out, n);
    out.append("\n");
    assert(out@ =~= old(out)@ + count_line(name@, n as nat));
}

/// Names and counts, as the report lines read them.
pub open spec fn counts_view(v: Seq<(String, u64)>) -> Seq<(Seq<char>, nat)> {
    v.map_values(|e: (String, u64)| (e.0@, e.1 as nat))
}

/// The count lines and the total, built together.
fn lines_and_total(counts: &[(String, u64)]) -> (r: (String, u64))
    requires
        total(counts_view(counts@)) <= u64::MAX,
    ensures
        r.0@ == count_lines(counts_view(counts@)),
        r.1 == total(counts_view(counts@)),
{
    let ghost all = counts_view(counts@);
    let mut text = String::new();
    let mut sum: u64 = 0;
    let mut i: usize = 0;
    assert(all.take(0) =~= Seq::<(Seq<char>, nat)>::empty());
    while i < counts.len()
        invariant
            all == counts_view(counts@),
            total(all) <= u64::MAX,
            i <= counts@.len(),
            text@ == count_lines(all.take(i as int)),
            sum == total(all.take(i as int)),
        decreases counts@.len() - i,
    {
        assert(all.take(i + 1).drop_last() =~= all.take(i as int));
        assert(all.take(i + 1).last() == all[i as int]);
        proof { lemma_total_prefix(all, i + 1); }
        let (name, n) = (&counts[i].0, counts[i].1);
        if n > 0 {
            push_count_line(&mut text, name.as_str(), n);
        }
        sum = sum + n;
        i = i + 1;
    }
    assert(all.take(counts@.len() as int) =~= all);
    (text, sum)
}

proof fn lemma_total_prefix(all: Seq<(Seq<char>, nat)>, k: int)
    requires
        0 <= k <= all.len(),
    ensures
        total(all.take(k)) <= total(all),
    decreases all.len() - k,
{
    if k < all.len() {
        lemma_total_prefix(all, k + 1);
        assert(all.take(k + 1).drop_last() =~= all.take(k));
    } else {
        assert(all.take(k) =~= all);
    }
}

/// Tables as the report counts them: each name and its rows.
pub open spec fn entries_view(tables: Seq<TableEntry>) -> Seq<(Seq<char>, nat)> {
    tables.map_values(|t: TableEntry| (t.name@, t.rows as nat))
}

/// What a finished backup reports: the offset it is consistent at, how many
/// rows over how many tables, where, and a line for each table that had
/// any.
pub open spec fn backup_text(offset: u64, tables: Seq<TableEntry>, dir: Seq<char>) -> Seq<char> {
    "backup at offset "@ + decimal(offset as nat) + " — "@ + decimal(total(entries_view(tables)))
        + " rows over "@ + decimal(tables.len()) + " tables, into "@ + dir + "\n"@
        + count_lines(entries_view(tables))
}

/// [`backup_text`].
pub fn backup_report(offset: u64, tables: &[TableEntry], dir: &str) -> (r: String)
    requires
        total(entries_view(tables@)) <= u64::MAX,
    ensures
        r@ == backup_text(offset, tables@, dir@),
{
    let mut counts: Vec<(String, u64)> = Vec::new();
    let mut i: usize = 0;
    while i < tables.len()
        invariant
            i <= tables@.len(),
            counts_view(counts@) == entries_view(tables@.take(i as int)),
        decreases tables@.len() - i,
    {
        let name = tables[i].name.clone();
        assert(name@ == tables@[i as int].name@);
        let ghost before = counts_view(counts@);
        counts.push((name, tables[i].rows));
        assert(counts_view(counts@) =~= before.push((tables@[i as int].name@, tables@[i as int].rows as nat)));
        assert(tables@.take(i + 1) =~= tables@.take(i as int).push(tables@[i as int]));
        assert(counts_view(counts@) =~= entries_view(tables@.take(i + 1)));
        i = i + 1;
    }
    assert(tables@.take(tables@.len() as int) =~= tables@);
    let (lines, sum) = lines_and_total(&counts);
    let mut r = String::from_str("backup at offset ");
    push_decimal(&mut r, offset);
    r.append(" — ");
    push_decimal(&mut r, sum);
    r.append(" rows over ");
    push_decimal(&mut r, tables.len() as u64);
    r.append(" tables, into ");
    r.append(dir);
    r.append("\n");
    r.append(lines.as_str());
    r
}

/// What emptying a deployment reports: the rows removed over how many
/// tables, that nobody operates it now, and a line for each table that held
/// any. `removed` is each table, in the order emptied, with its rows.
pub open spec fn wipe_text(removed: Seq<(Seq<char>, nat)>) -> Seq<char> {
    "wiped "@ + decimal(total(removed)) + " rows over "@ + decimal(removed.len())
        + " tables. This deployment now has no operator: the configured bootstrap address takes it on the next registration, or the dev sign-in invents one.\n"@
        + count_lines(removed)
}

/// [`wipe_text`].
pub fn wipe_report(removed: &[(String, u64)]) -> (r: String)
    requires
        total(counts_view(removed@)) <= u64::MAX,
    ensures
        r@ == wipe_text(counts_view(removed@)),
{
    let (lines, sum) = lines_and_total(removed);
    let mut r = String::from_str("wiped ");
    push_decimal(&mut r, sum);
    r.append(" rows over ");
    push_decimal(&mut r, removed.len() as u64);
    r.append(" tables. This deployment now has no operator: the configured bootstrap address takes it on the next registration, or the dev sign-in invents one.\n");
    r.append(lines.as_str());
    r
}


/// The text the standard padded base64 encoder writes for some bytes.
pub uninterp spec fn base64_encoded(bytes: Seq<u8>) -> Seq<char>;

/// Whether the standard decoder reads `text` as exactly `bytes`.
pub open spec fn decodes_to(text: Seq<char>, bytes: Seq<u8>) -> bool {
    base64_decoded(text) == Ok::<Seq<u8>, Seq<char>>(bytes)
}

/// `base64::engine::general_purpose::STANDARD.encode`. The contract names
/// the text, and states the one fact the crate's round-trip tests hold the
/// engine to: its decoder gives the same bytes back. The encoder refuses
/// (panics) only when the text's length would not fit a `usize`.
#[verifier::external_body]
fn encode_base64(bytes: &[u8]) -> (r: String)
    requires
        bytes@.len() / 3 * 4 + 4 <= usize::MAX,
    ensures
        r@ == base64_encoded(bytes@),
        decodes_to(r@, bytes@),
{
    base64::Engine::encode(&base64::engine::general_purpose::STANDARD, bytes)
}

/// The `b64` member a blob column's value is written as in its table's row
/// file, `{"b64": …}`, because JSON has no bytes. It reads back as the same
/// bytes, whatever JSON text carried it: a blob survives the round trip as
/// bytes and not as whatever text they happened to be.
pub fn blob_member(bytes: &[u8]) -> (r: String)
    requires
        bytes@.len() / 3 * 4 + 4 <= usize::MAX,
    ensures
        r@ == base64_encoded(bytes@),
        forall|json: String| #[trigger] stored_of(Cell { shape: Shape::Object(Some(r)), json }, Kind::Blob)
            == Ok::<StoredView, Seq<char>>(StoredView::Blob(bytes@)),
{
    encode_base64(bytes)
}


pub open spec fn unknown_type_message(table: Seq<char>, name: Seq<char>, declared: Seq<char>) -> Seq<char> {
    table + "."@ + name + " declares the type "@ + debug_quote(declared)
        + ", which is not one of SQLite's five storage classes. The walk will not guess at how to read it"@
}

/// One column of `table` as the schema declares it: the storage class its
/// declared type names, which the walk never guesses at, and a name fit to
/// put into a statement.
pub open spec fn column_outcome(table: Seq<char>, name: Seq<char>, declared: Seq<char>) -> Result<(Seq<char>, Kind), Seq<char>> {
    match kind_of(declared) {
        None => Err(unknown_type_message(table, name, declared)),
        Some(kind) => if is_identifier(name) { Ok((name, kind)) } else { Err(refused_name(name)) },
    }
}

/// [`column_outcome`], refused as the walk refuses.
pub fn column_of(table: &str, name: &str, declared: &str) -> (r: Result<Column, AdminError>)
    ensures
        match column_outcome(table@, name@, declared@) {
            Ok(c) => r matches Ok(col) && col.name@ == c.0 && col.kind == c.1,
            Err(m) => r matches Err(AdminError::Refused(e)) && e@ == m,
        },
{
    let kind = match Kind::of(declared) {
        Some(kind) => kind,
        None => {
            let mut m = concat(table, ".");
            m.append(name);
            m.append(" declares the type ");
            let quoted = debug_quoted(declared);
            m.append(quoted.as_str());
            m.append(", which is not one of SQLite's five storage classes. The walk will not guess at how to read it");
            return Err(AdminError::Refused(m));
        },
    };
    let checked = identifier(name)?;
    Ok(Column { name: checked, kind })
}

/// A table's columns, refused when there are none: a table with no
/// columns has no rows the walk could write.
pub fn columns_found(table: &str, columns: Vec<Column>) -> (r: Result<Vec<Column>, AdminError>)
    ensures
        columns@.len() > 0 ==> r == Ok::<Vec<Column>, AdminError>(columns),
        columns@.len() == 0 ==> (r matches Err(AdminError::Refused(m)) && m@ == table@ + " has no columns"@),
{
    if columns.len() == 0 {
        return Err(AdminError::Refused(concat(table, " has no columns")));
    }
    Ok(columns)
}


/// Whether a table is the deployment's: not one of SQLite's own
/// (`sqlite_…`), and not one of the tables hiqlite keeps ([`NOT_OURS`]).
pub open spec fn is_owned(name: Seq<char>) -> bool {
    &&& !is_prefix("sqlite_"@, name)
    &&& name != "_migrations"@
    &&& name != "_metadata"@
}

/// [`is_owned`].
pub fn owned(name: &str) -> (r: bool)
    ensures
        r == is_owned(name@),
{
    let c = chars_of(name);
    !starts_with(&c, "sqlite_") && !same(name, NOT_OURS[0]) && !same(name, NOT_OURS[1])
}

pub open spec fn occupied_dir_message(dir: Seq<char>) -> Seq<char> {
    dir + " already holds a backup; name a directory that does not"@
}

/// A backup goes only into a directory that holds none: `manifest_exists`
/// is whether `dir` already has a manifest.
pub fn refuse_existing_backup(dir: &str, manifest_exists: bool) -> (r: Result<(), AdminError>)
    ensures
        !manifest_exists ==> r is Ok,
        manifest_exists ==> (r matches Err(AdminError::Usage(m)) && m@ == occupied_dir_message(dir@)),
{
    if manifest_exists {
        return Err(AdminError::Usage(concat(dir, " already holds a backup; name a directory that does not")));
    }
    Ok(())
}

} // verus!
