//! The HTTP API's request shapes: query strings, the command vocabulary, the
//! same-origin rule, and the read side's parameters and names.

pub mod cmd;
pub mod decline;
pub mod origin;
pub mod query;
pub mod whoami;

use vstd::prelude::*;

use crate::text::{chars_of, split, split_on, split_once, split_once_at, string_of};

verus! {

/// One `name=value` piece: split at the first `=`, or the whole piece as a
/// name with an empty value.
pub open spec fn pair_of(p: Seq<char>) -> (Seq<char>, Seq<char>) {
    match split_once(p, '=') {
        Some(nv) => nv,
        None => (p, Seq::<char>::empty()),
    }
}

/// The pieces that are not empty, in order.
pub open spec fn kept(s: Seq<Seq<char>>) -> Seq<Seq<char>>
    decreases s.len(),
{
    if s.len() == 0 {
        Seq::<Seq<char>>::empty()
    } else {
        let r = kept(s.drop_last());
        if s.last().len() > 0 { r.push(s.last()) } else { r }
    }
}

/// A raw query string, read as `&`-separated pairs; an absent one is empty.
pub open spec fn query_pairs(raw: Option<Seq<char>>) -> Seq<(Seq<char>, Seq<char>)> {
    let s = match raw {
        Some(r) => r,
        None => Seq::<char>::empty(),
    };
    kept(split(s, '&')).map_values(|p: Seq<char>| pair_of(p))
}

pub open spec fn pairs_view(v: Seq<(String, String)>) -> Seq<(Seq<char>, Seq<char>)> {
    v.map_values(|p: (String, String)| (p.0@, p.1@))
}

pub open spec fn str_opt_view(o: Option<&str>) -> Option<Seq<char>> {
    match o {
        Some(s) => Some(s@),
        None => None,
    }
}

/// A query string's pairs, in the order they were written.
pub fn pairs(raw: Option<&str>) -> (r: Vec<(String, String)>)
    ensures
        pairs_view(r@) == query_pairs(str_opt_view(raw)),
{
    let text = match raw {
        Some(s) => chars_of(s),
        None => Vec::new(),
    };
    let ghost s = match raw {
        Some(r) => r@,
        None => Seq::<char>::empty(),
    };
    assert(text@ == s);
    let pieces = split_on(&text, '&');
    let ghost ps = split(s, '&');
    let mut out: Vec<(String, String)> = Vec::new();
    let mut i: usize = 0;
    assert(ps.take(0) =~= Seq::<Seq<char>>::empty());
    assert(pairs_view(out@) =~= kept(ps.take(0)).map_values(|p: Seq<char>| pair_of(p)));
    while i < pieces.len()
        invariant
            i <= pieces@.len(),
            ps == split(s, '&'),
            pieces@.len() == ps.len(),
            forall|k: int| 0 <= k < pieces@.len() ==> #[trigger] pieces@[k]@ == ps[k],
            pairs_view(out@) == kept(ps.take(i as int)).map_values(|p: Seq<char>| pair_of(p)),
        decreases pieces@.len() - i,
    {
        let piece = &pieces[i];
        assert(piece@ == ps[i as int]);
        assert(ps.take(i + 1).drop_last() =~= ps.take(i as int));
        assert(ps.take(i + 1).last() == ps[i as int]);
        if piece.len() > 0 {
            let pair = match split_once_at(piece, '=') {
                Some((a, b)) => (string_of(&a, 0, a.len()), string_of(&b, 0, b.len())),
                None => (string_of(piece, 0, piece.len()), String::new()),
            };
            proof {
                assert(pair.0@ == pair_of(piece@).0) by {
                    match split_once(piece@, '=') {
                        Some(nv) => { assert(nv.0.subrange(0, nv.0.len() as int) =~= nv.0); },
                        None => { assert(piece@.subrange(0, piece@.len() as int) =~= piece@); },
                    }
                }
                assert(pair.1@ == pair_of(piece@).1) by {
                    match split_once(piece@, '=') {
                        Some(nv) => { assert(nv.1.subrange(0, nv.1.len() as int) =~= nv.1); },
                        None => {},
                    }
                }
            }
            let ghost before = pairs_view(out@);
            out.push(pair);
            assert(pairs_view(out@) =~= before.push(pair_of(ps[i as int])));
        }
        assert(kept(ps.take(i + 1)).map_values(|p: Seq<char>| pair_of(p)) =~= if ps[i as int].len() > 0 {
            kept(ps.take(i as int)).map_values(|p: Seq<char>| pair_of(p)).push(pair_of(ps[i as int]))
        } else {
            kept(ps.take(i as int)).map_values(|p: Seq<char>| pair_of(p))
        });
        i = i + 1;
    }
    assert(ps.take(ps.len() as int) =~= ps);
    out
}

} // verus!
