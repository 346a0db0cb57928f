//! Where `?next=` is allowed to send somebody.
//!
//! An open redirect is a phishing primitive, so the parameter is not
//! sanitised, it is *validated*, and anything that fails falls back to the
//! member shell. The rule is one sentence: a single absolute path on this
//! origin. That excludes a scheme, an authority, a protocol-relative
//! `//host`, a backslash (which some browsers normalise into a slash before
//! parsing the authority), and anything carrying a control character —
//! including the newline that would otherwise split the `Location` header.

use vstd::prelude::*;

use crate::text::{chars_of, is_control, is_control_char, is_prefix, same_chars, starts_with};

verus! {

/// Where a visitor lands when the parameter says nothing usable.
pub const DEFAULT: &'static str = "/app";

/// The paths a redirect may not target however well-formed it is: bouncing
/// a fresh sign-in back to the sign-in page is a loop.
pub const REFUSED: [&'static str; 1] = ["/auth"];

/// Where the path ends: at the first `?` or `#`, or at the end.
pub open spec fn path_end(c: Seq<char>) -> int
    decreases c.len(),
{
    if c.len() == 0 {
        0
    } else if c[0] == '?' || c[0] == '#' {
        0
    } else {
        1 + path_end(c.drop_first())
    }
}

/// The path of a candidate, before its query or fragment.
pub open spec fn path_part(c: Seq<char>) -> Seq<char> {
    c.take(path_end(c))
}

/// A refused path, or anything beneath one.
pub open spec fn is_refused(p: Seq<char>) -> bool {
    p == "/auth"@ || is_prefix("/auth/"@, p)
}

/// One absolute path on this origin.
pub open spec fn same_origin(c: Seq<char>) -> bool {
    &&& c.len() > 0 && c[0] == '/'
    &&& !(c.len() > 1 && (c[1] == '/' || c[1] == '\\'))
    &&& forall|i: int| 0 <= i < c.len() ==> !is_control(#[trigger] c[i])
    &&& !is_refused(path_part(c))
}

/// The redirect target a raw parameter gives.
pub open spec fn target(raw: Option<Seq<char>>) -> Seq<char> {
    match raw {
        Some(c) => if same_origin(c) { c } else { DEFAULT@ },
        None => DEFAULT@,
    }
}

proof fn lemma_path_end(c: Seq<char>, i: int)
    requires
        0 <= i <= c.len(),
        forall|j: int| 0 <= j < i ==> c[j] != '?' && c[j] != '#',
        i < c.len() ==> (c[i] == '?' || c[i] == '#'),
    ensures
        path_end(c) == i,
    decreases c.len(),
{
    if c.len() > 0 && i > 0 {
        assert forall|j: int| 0 <= j < i - 1 implies c.drop_first()[j] != '?' && c.drop_first()[j] != '#' by {
            assert(c.drop_first()[j] == c[j + 1]);
        }
        lemma_path_end(c.drop_first(), i - 1);
    }
}

/// Whether a string is one absolute path on this origin.
pub fn is_same_origin_path(candidate: &str) -> (r: bool)
    ensures
        r == same_origin(candidate@),
{
    let c = chars_of(candidate);
    if c.len() == 0 || c[0] != '/' {
        return false;
    }
    if c.len() > 1 && (c[1] == '/' || c[1] == '\\') {
        return false;
    }
    let mut i: usize = 0;
    while i < c.len()
        invariant
            c@ == candidate@,
            i <= c@.len(),
            forall|j: int| 0 <= j < i ==> !is_control(#[trigger] c@[j]),
        decreases c@.len() - i,
    {
        if is_control_char(c[i]) {
            return false;
        }
        i = i + 1;
    }
    let mut end: usize = 0;
    while end < c.len() && c[end] != '?' && c[end] != '#'
        invariant
            c@ == candidate@,
            end <= c@.len(),
            forall|j: int| 0 <= j < end ==> c@[j] != '?' && c@[j] != '#',
        decreases c@.len() - end,
    {
        end = end + 1;
    }
    proof { lemma_path_end(c@, end as int); }
    let mut path: Vec<char> = Vec::new();
    let mut k: usize = 0;
    while k < end
        invariant
            end <= c@.len(),
            k <= end,
            path@ == c@.take(k as int),
        decreases end - k,
    {
        path.push(c[k]);
        assert(c@.take(k + 1) =~= c@.take(k as int).push(c@[k as int]));
        k = k + 1;
    }
    let auth = chars_of("/auth");
    !(same_chars(&path, &auth) || starts_with(&path, "/auth/"))
}

/// A same-origin path, or [`DEFAULT`].
pub fn validate(raw: Option<&str>) -> (r: String)
    ensures
        r@ == target(match raw { Some(c) => Some(c@), None => None }),
{
    match raw {
        Some(candidate) => if is_same_origin_path(candidate) {
            String::from_str(candidate)
        } else {
            String::from_str(DEFAULT)
        },
        None => String::from_str(DEFAULT),
    }
}

/// Whatever was asked for, the redirect lands on one absolute path on this
/// origin: the fallback is one too.
pub proof fn lemma_target_is_same_origin(raw: Option<Seq<char>>)
    ensures
        same_origin(target(raw)),
{
    reveal_strlit("/app");
    reveal_strlit("/auth");
    reveal_strlit("/auth/");
    let d = DEFAULT@;
    assert(d.len() == 4);
    lemma_path_end(d, 4);
    assert(path_part(d) =~= d);
    assert("/auth"@.len() != d.len());
    assert("/auth/"@.len() > d.len());
}

/// Validating a validated target changes nothing.
pub proof fn lemma_validate_idempotent(raw: Option<Seq<char>>)
    ensures
        target(Some(target(raw))) == target(raw),
{
    lemma_target_is_same_origin(raw);
}

/// A candidate comes back unchanged exactly when it is one absolute path on
/// this origin, whatever its length: it begins with `/`, its second
/// character, if it has one, is neither `/` nor a backslash, it carries no
/// control character, and its path — what stands before the first `?` or `#`, which
/// is at `e` — is neither `/auth` nor beneath it. Anything else becomes
/// `/app`.
pub proof fn lemma_kept_exactly_when_path(c: Seq<char>, e: int)
    requires
        0 <= e <= c.len(),
        forall|j: int| 0 <= j < e ==> c[j] != '?' && c[j] != '#',
        e < c.len() ==> (c[e] == '?' || c[e] == '#'),
    ensures
        target(Some(c)) == c <==> {
            &&& 0 < c.len()
            &&& c[0] == '/'
            &&& c.len() > 1 ==> c[1] != '/' && c[1] != '\\'
            &&& forall|i: int| 0 <= i < c.len() ==> !is_control(#[trigger] c[i])
            &&& c.take(e) != "/auth"@
            &&& !(e >= 6 && c.take(6) == "/auth/"@)
        },
        target(Some(c)) != c ==> target(Some(c)) == DEFAULT@,
{
    reveal_strlit("/auth/");
    lemma_path_end(c, e);
    assert(path_part(c) == c.take(e));
    if e >= 6 {
        assert(c.take(e).take(6) =~= c.take(6));
    }
    lemma_target_is_same_origin(Some(c));
}

} // verus!
