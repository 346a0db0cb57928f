//! The session cookie: reading it out of a `Cookie` header, and the
//! `Set-Cookie` values that start and end a session.
//!
//! `HttpOnly` so script cannot read it, `SameSite=Lax` so a top-level
//! navigation from elsewhere still arrives signed in while a cross-site form
//! post does not, and `Secure` in production only — a dev server on loopback
//! has no TLS, and a `Secure` cookie there is never sent.

use vstd::prelude::*;

use crate::admin::opt_view;
use crate::config::Mode;
use crate::text::{
    chars_of, concat, decimal, lemma_first_pos, lemma_split_joined, lemma_split_whole,
    same_chars, split, split_on, split_once, split_once_at, string_of, trim, trim_end, trim_start,
    trimmed, push_decimal,
};

verus! {

/// The session cookie's name. One name, everywhere.
pub const COOKIE: &'static str = "rn_session";

/// The value of the first `name=value` pair among `pieces` whose trimmed
/// name is `name`, trimmed; pieces with no `=` are passed over.
pub open spec fn cookie_in(pieces: Seq<Seq<char>>, name: Seq<char>) -> Option<Seq<char>>
    decreases pieces.len(),
{
    if pieces.len() == 0 {
        None
    } else {
        match split_once(pieces[0], '=') {
            Some(kv) => if trim(kv.0) == name {
                Some(trim(kv.1))
            } else {
                cookie_in(pieces.drop_first(), name)
            },
            None => cookie_in(pieces.drop_first(), name),
        }
    }
}

/// One cookie's value out of a `Cookie` header's value (the header, when
/// present and readable as text).
pub fn cookie(header: Option<&str>, name: &str) -> (r: Option<String>)
    ensures
        opt_view(r) == match header {
            None => None,
            Some(h) => cookie_in(split(h@, ';'), name@),
        },
{
    let h = match header {
        Some(h) => h,
        None => return None,
    };
    let c = chars_of(h);
    let pieces = split_on(&c, ';');
    let ghost ps = split(h@, ';');
    let wanted = chars_of(name);
    let mut i: usize = 0;
    assert(ps.skip(0) =~= ps);
    while i < pieces.len()
        invariant
            i <= pieces@.len(),
            ps == split(h@, ';'),
            header == Some(h),
            pieces@.len() == ps.len(),
            wanted@ == name@,
            forall|k: int| 0 <= k < pieces@.len() ==> #[trigger] pieces@[k]@ == ps[k],
            cookie_in(ps, name@) == cookie_in(ps.skip(i as int), name@),
        decreases pieces@.len() - i,
    {
        assert(ps.skip(i as int)[0] == ps[i as int]);
        assert(ps.skip(i as int).drop_first() =~= ps.skip(i + 1));
        assert(pieces@[i as int]@ == ps[i as int]);
        if let Some((key, value)) = split_once_at(&pieces[i], '=') {
            let k = trimmed(&key);
            if same_chars(&k, &wanted) {
                let v = trimmed(&value);
                let found = string_of(&v, 0, v.len());
                assert(v@.subrange(0, v@.len() as int) =~= v@);
                assert(split_once(ps.skip(i as int)[0], '=') == Some((key@, value@)));
                assert(trim(key@) == name@);
                assert(cookie_in(ps.skip(i as int), name@) == Some(trim(value@)));
                assert(found@ == trim(value@));
                return Some(found);
            }
        }
        i = i + 1;
    }
    assert(ps.skip(i as int).len() == 0);
    None
}

pub open spec fn secure_of(mode: Mode) -> Seq<char> {
    match mode {
        Mode::Prod => "; Secure"@,
        Mode::Dev => ""@,
    }
}

/// The attribute that keeps a production cookie off plain HTTP.
pub fn secure(mode: Mode) -> (r: &'static str)
    ensures
        r@ == secure_of(mode),
{
    match mode {
        Mode::Prod => "; Secure",
        Mode::Dev => "",
    }
}

/// The `Set-Cookie` value that starts a session carrying `token`, expiring
/// after `max_age` seconds (none, when negative).
pub open spec fn set_value(token: Seq<char>, max_age: i64, mode: Mode) -> Seq<char> {
    "rn_session="@ + token + "; Path=/; HttpOnly; SameSite=Lax; Max-Age="@
        + decimal(if max_age < 0 { 0 } else { max_age as nat }) + secure_of(mode)
}

/// The `Set-Cookie` value that ends one.
pub open spec fn clear_value(mode: Mode) -> Seq<char> {
    "rn_session=; Path=/; HttpOnly; SameSite=Lax; Max-Age=0"@ + secure_of(mode)
}

/// The `Set-Cookie` value that starts a session.
pub fn set(token: &str, max_age: i64, mode: Mode) -> (r: String)
    ensures
        r@ == set_value(token@, max_age, mode),
{
    let mut r = concat("rn_session=", token);
    r.append("; Path=/; HttpOnly; SameSite=Lax; Max-Age=");
    let age: u64 = if max_age < 0 { 0 } else { max_age as u64 };
    push_decimal(&mut r, age);
    r.append(secure(mode));
    r
}

/// The `Set-Cookie` value that ends one: the same name and path, expired.
pub fn clear(mode: Mode) -> (r: String)
    ensures
        r@ == clear_value(mode),
{
    concat("rn_session=; Path=/; HttpOnly; SameSite=Lax; Max-Age=0", secure(mode))
}


proof fn lemma_cookie_in_after(a: Seq<Seq<char>>, b: Seq<Seq<char>>, name: Seq<char>)
    requires
        cookie_in(a, name) is None,
    ensures
        cookie_in(a + b, name) == cookie_in(b, name),
    decreases a.len(),
{
    if a.len() > 0 {
        assert((a + b)[0] == a[0]);
        assert((a + b).drop_first() =~= a.drop_first() + b);
        lemma_cookie_in_after(a.drop_first(), b, name);
    } else {
        assert(a + b =~= b);
    }
}

/// The one pair `lead + "rn_session=" + token` reads as the session
/// cookie, when `lead` is white space or nothing.
proof fn lemma_pair_reads(lead: Seq<char>, token: Seq<char>)
    requires
        lead == Seq::<char>::empty() || lead == seq![' '],
        forall|i: int| 0 <= i < token.len() ==> token[i] != ';',
        trim(token) == token,
    ensures
        cookie_in(seq![lead + "rn_session="@ + token], COOKIE@) == Some(token),
{
    reveal_strlit("rn_session=");
    reveal_strlit("rn_session");
    let name = "rn_session"@;
    let pair = lead + "rn_session="@ + token;
    let at: int = lead.len() as int + 10;
    assert forall|j: int| 0 <= j < at implies pair[j] != '=' by {
        if j < lead.len() {
            assert(pair[j] == lead[j]);
        } else {
            assert(pair[j] == "rn_session="@[j - lead.len()]);
        }
    }
    assert(pair[at] == '=');
    lemma_first_pos(pair, '=', at);
    assert(pair.take(at) =~= lead + name);
    assert(pair.skip(at + 1) =~= token);
    let key = lead + name;
    if lead.len() == 1 {
        assert(key[0] == ' ');
        assert(key.drop_first() =~= name);
    } else {
        assert(key =~= name);
    }
    assert(trim_start(name) == name);
    assert(trim_start(key) == name);
    assert(name.last() == 'n');
    assert(trim_end(name) == name);
    assert(seq![pair].drop_first() =~= Seq::<Seq<char>>::empty());
}

/// The session a response starts is the one the next request reads: a
/// browser returns the `name=value` before the first `;` of the
/// `Set-Cookie` value, alone or after cookies of other names, and [`cookie`]
/// reads the token back out of it, for any token without a `;` and without
/// surrounding white space.
pub proof fn lemma_set_cookie_read_back(token: Seq<char>, max_age: i64, mode: Mode, others: Seq<char>)
    requires
        forall|i: int| 0 <= i < token.len() ==> token[i] != ';',
        trim(token) == token,
        cookie_in(split(others, ';'), COOKIE@) is None,
    ensures
        split(set_value(token, max_age, mode), ';')[0] == "rn_session="@ + token,
        cookie_in(split("rn_session="@ + token, ';'), COOKIE@) == Some(token),
        cookie_in(split(others + "; rn_session="@ + token, ';'), COOKIE@) == Some(token),
{
    reveal_strlit("rn_session=");
    reveal_strlit("; rn_session=");
    reveal_strlit("; Path=/; HttpOnly; SameSite=Lax; Max-Age=");
    let pair = "rn_session="@ + token;
    assert forall|i: int| 0 <= i < pair.len() implies pair[i] != ';' by {
        if i >= 11 {
            assert(pair[i] == token[i - 11]);
        }
    }
    lemma_split_whole(pair, ';');
    // The `Set-Cookie` value is the pair, a `;`, and the attributes.
    let attributes = "; Path=/; HttpOnly; SameSite=Lax; Max-Age="@
        + decimal(if max_age < 0 { 0 } else { max_age as nat }) + secure_of(mode);
    assert(set_value(token, max_age, mode) =~= pair + seq![';'] + attributes.drop_first());
    lemma_split_joined(pair, attributes.drop_first(), ';');
    // Alone.
    assert(Seq::<char>::empty() + pair =~= pair);
    lemma_pair_reads(Seq::<char>::empty(), token);
    // After other cookies.
    let spaced = seq![' '] + pair;
    assert(others + "; rn_session="@ + token =~= others + seq![';'] + spaced);
    lemma_split_joined(others, spaced, ';');
    assert forall|i: int| 0 <= i < spaced.len() implies spaced[i] != ';' by {
        if i >= 1 {
            assert(spaced[i] == pair[i - 1]);
        }
    }
    lemma_split_whole(spaced, ';');
    assert(seq![' '] + "rn_session="@ + token =~= spaced);
    lemma_pair_reads(seq![' '], token);
    lemma_cookie_in_after(split(others, ';'), seq![spaced], COOKIE@);
}

} // verus!
