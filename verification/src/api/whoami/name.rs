//! What an identity with no person is called: a mask of its address.

use vstd::prelude::*;

use crate::text::{chars_of, find, first_pos, lemma_first_pos, lemma_first_pos_absent, push_char};

verus! {

/// The part of an address before its first `@`, or all of it.
pub open spec fn local_part(address: Seq<char>) -> Seq<char> {
    address.take(first_pos(address, '@'))
}

/// The first and last characters of the local part around an ellipsis, and
/// the `@` that says it is an address. A local part of fewer than three
/// characters shows nothing, because there the first and the last *are* the
/// address; no address at all is not described as one.
pub open spec fn mask_of(address: Option<Seq<char>>) -> Seq<char> {
    match address {
        None => "…"@,
        Some(a) => {
            let l = local_part(a);
            if l.len() >= 3 {
                seq![l[0]] + "…"@ + seq![l.last()] + "@"@
            } else {
                "…@"@
            }
        },
    }
}

/// What an unresolved identity is called in a list.
pub fn masked(address: Option<&str>) -> (r: String)
    ensures
        r@ == mask_of(match address { Some(a) => Some(a@), None => None }),
{
    match address {
        None => String::from_str("…"),
        Some(a) => {
            let c = chars_of(a);
            let end = match find(&c, '@') {
                Some(i) => {
                    proof { lemma_first_pos(c@, '@', i as int); }
                    i
                },
                None => {
                    proof { lemma_first_pos_absent(c@, '@'); }
                    c.len()
                },
            };
            if end >= 3 {
                let mut r = String::new();
                push_char(&mut r, c[0]);
                r.append("…");
                push_char(&mut r, c[end - 1]);
                r.append("@");
                assert(r@ =~= mask_of(Some(a@)));
                r
            } else {
                String::from_str("…@")
            }
        },
    }
}


/// A mask never carries the address: it ends in the one `@` it has, and
/// shows at most two characters of the local part.
pub proof fn lemma_mask_hides_the_address(address: Option<Seq<char>>)
    ensures
        address matches Some(_) ==> {
            let m = mask_of(address);
            &&& m.len() > 0 && m.last() == '@'
            &&& forall|i: int| 0 <= i < m.len() - 1 ==> m[i] != '@'
            &&& m.len() <= 4
        },
{
    reveal_strlit("…");
    reveal_strlit("…@");
    reveal_strlit("@");
    if let Some(a) = address {
        let l = local_part(a);
        lemma_before_first_at(a);
        if l.len() >= 3 {
            assert(l[0] != '@');
            assert(l[l.len() - 1] != '@');
            let m = seq![l[0]] + "…"@ + seq![l.last()] + "@"@;
            assert(m =~= seq![l[0], '…', l.last(), '@']);
        } else {
            assert("…@"@ =~= seq!['…', '@']);
        }
    }
}

proof fn lemma_before_first_at(a: Seq<char>)
    ensures
        first_pos(a, '@') <= a.len(),
        forall|i: int| 0 <= i < first_pos(a, '@') ==> a[i] != '@',
        local_part(a).len() == first_pos(a, '@'),
        forall|i: int| 0 <= i < local_part(a).len() ==> local_part(a)[i] != '@',
    decreases a.len(),
{
    if a.len() > 0 && a[0] != '@' {
        lemma_before_first_at(a.drop_first());
        assert forall|i: int| 0 <= i < first_pos(a, '@') implies a[i] != '@' by {
            if i > 0 {
                assert(a[i] == a.drop_first()[i - 1]);
            }
        }
    }
}

} // verus!
