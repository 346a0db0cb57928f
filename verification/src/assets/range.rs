//! Byte-range requests against one file of known length.
//!
//! Only one well-formed `bytes=` span is honoured. A header this module does
//! not understand is ignored and the whole file is served; only a well-formed
//! span that lies outside the file is refused (RFC 9110 §14.2).

use vstd::prelude::*;

use crate::text::{
    all_digits, chars_of, contains_char, decimal, has_char, is_digit, is_prefix, is_white,
    lemma_first_pos, lemma_trim_unchanged, lemma_u64_decimal, parse_u64, slice_of, split_once,
    split_once_at, starts_with, trim, trimmed, u64_of,
};

verus! {

/// The path prefix, relative to the static root, served by range.
pub const PREFIX: &'static str = "stars/lod/";

/// What a request asked for, already resolved against the file's length.
#[derive(Debug, Clone, Copy, PartialEq, Eq, Structural)]
pub enum Asked {
    /// No usable `Range` header: serve the whole file.
    Whole,
    /// An inclusive byte span that the file actually contains.
    Slice { start: u64, end: u64 },
    /// A byte range the file cannot satisfy.
    Unsatisfiable,
}

/// The resolution of a `first-last` span whose first position is present.
pub open spec fn span(first: u64, last: Seq<char>, len: u64) -> Asked {
    if last.len() == 0 {
        if len == 0 || first >= len {
            Asked::Unsatisfiable
        } else {
            Asked::Slice { start: first, end: (len - 1) as u64 }
        }
    } else {
        match u64_of(last) {
            None => Asked::Whole,
            Some(l) => {
                let end: u64 = if len == 0 { 0 } else if l < len - 1 { l } else { (len - 1) as u64 };
                if first >= len {
                    Asked::Unsatisfiable
                } else if end < first {
                    Asked::Whole
                } else {
                    Asked::Slice { start: first, end }
                }
            },
        }
    }
}

/// The resolution of a `-n` span: the last `n` bytes.
pub open spec fn suffix_span(last: Seq<char>, len: u64) -> Asked {
    match u64_of(last) {
        None => Asked::Whole,
        Some(n) => if n == 0 || len == 0 {
            Asked::Unsatisfiable
        } else {
            Asked::Slice { start: if n >= len { 0 } else { (len - n) as u64 }, end: (len - 1) as u64 }
        },
    }
}

/// What a `Range` header value asks of a file of `len` bytes.
pub open spec fn asked(value: Option<Seq<char>>, len: u64) -> Asked {
    match value {
        None => Asked::Whole,
        Some(v) => {
            let t = trim(v);
            if !is_prefix("bytes="@, t) {
                Asked::Whole
            } else {
                let spec = t.skip("bytes="@.len() as int);
                if has_char(spec, ',') {
                    Asked::Whole
                } else {
                    match split_once(trim(spec), '-') {
                        None => Asked::Whole,
                        Some((f, l)) => {
                            let first = trim(f);
                            let last = trim(l);
                            if first.len() == 0 {
                                suffix_span(last, len)
                            } else {
                                match u64_of(first) {
                                    None => Asked::Whole,
                                    Some(start) => span(start, last, len),
                                }
                            }
                        },
                    }
                }
            }
        },
    }
}

pub open spec fn view_of(value: Option<&str>) -> Option<Seq<char>> {
    match value {
        Some(v) => Some(v@),
        None => None,
    }
}

/// Resolve a `Range` header against a known file length.
pub fn parse(value: Option<&str>, len: u64) -> (r: Asked)
    ensures
        r == asked(view_of(value), len),
        r matches Asked::Slice { start, end } ==> start <= end < len,
        r is Unsatisfiable ==> value is Some,
{
    proof { reveal_strlit("bytes="); }
    let v = match value {
        None => return Asked::Whole,
        Some(v) => chars_of(v),
    };
    let t = trimmed(&v);
    if !starts_with(&t, "bytes=") {
        return Asked::Whole;
    }
    let spec = slice_of(&t, 6, t.len());
    assert(spec@ =~= t@.skip(6));
    if contains_char(&spec, ',') {
        return Asked::Whole;
    }
    let st = trimmed(&spec);
    let (f, l) = match split_once_at(&st, '-') {
        None => return Asked::Whole,
        Some(p) => p,
    };
    let first = trimmed(&f);
    let last = trimmed(&l);
    if first.len() == 0 {
        let suffix = match parse_u64(&last) {
            None => return Asked::Whole,
            Some(n) => n,
        };
        if suffix == 0 || len == 0 {
            return Asked::Unsatisfiable;
        }
        let start = if suffix >= len { 0 } else { len - suffix };
        return Asked::Slice { start, end: len - 1 };
    }
    let start = match parse_u64(&first) {
        None => return Asked::Whole,
        Some(n) => n,
    };
    let end = if last.len() == 0 {
        if len == 0 {
            return Asked::Unsatisfiable;
        }
        len - 1
    } else {
        match parse_u64(&last) {
            Some(l) => {
                let cap = if len == 0 { 0 } else { len - 1 };
                if l < cap { l } else { cap }
            },
            None => return Asked::Whole,
        }
    };
    if start >= len {
        return Asked::Unsatisfiable;
    }
    if end < start {
        return Asked::Whole;
    }
    Asked::Slice { start, end }
}

/// A well-formed `bytes=first-last` span is served from `first` through
/// `last`, cut at the file's last byte when `last` runs past it. A span that
/// starts past the end of the file is refused, and one that ends before it
/// starts is ignored.
pub proof fn lemma_closed_span(first: u64, last: u64, len: u64)
    ensures
        asked(Some("bytes="@ + decimal(first as nat) + "-"@ + decimal(last as nat)), len) == if first >= len {
            Asked::Unsatisfiable
        } else if last < first {
            Asked::Whole
        } else {
            Asked::Slice { start: first, end: if last < len { last } else { (len - 1) as u64 } }
        },
{
    reveal_strlit("bytes=");
    reveal_strlit("-");
    let df = decimal(first as nat);
    let dl = decimal(last as nat);
    lemma_u64_decimal(first);
    lemma_u64_decimal(last);
    let spec = df + "-"@ + dl;
    let v = "bytes="@ + spec;
    assert(v =~= "bytes="@ + df + "-"@ + dl);
    assert(is_digit(df[0]) && is_digit(dl[0]) && is_digit(dl.last()));
    assert(spec[0] == df[0]);
    assert(spec.last() == dl.last());
    assert(v.last() == dl.last());
    lemma_trim_unchanged(v);
    lemma_trim_unchanged(spec);
    lemma_trim_unchanged(df);
    assert(df.last() == df[df.len() - 1]);
    lemma_trim_unchanged(dl);
    assert(v.take(6) =~= "bytes="@);
    assert(v.skip(6) =~= spec);
    assert(!has_char(spec, ',')) by {
        assert forall|i: int| 0 <= i < spec.len() implies spec[i] != ',' by {
            if i < df.len() {
                assert(spec[i] == df[i]);
            } else if i > df.len() {
                assert(spec[i] == dl[i - df.len() - 1]);
            }
        }
    }
    assert forall|j: int| 0 <= j < df.len() implies spec[j] != '-' by {
        assert(spec[j] == df[j]);
    }
    lemma_first_pos(spec, '-', df.len() as int);
    assert(spec.take(df.len() as int) =~= df);
    assert(spec.skip(df.len() as int + 1) =~= dl);
}

/// `bytes=first-` is everything from `first` to the end of the file, and is
/// refused when the file has no byte at `first`.
pub proof fn lemma_open_span(first: u64, len: u64)
    ensures
        asked(Some("bytes="@ + decimal(first as nat) + "-"@), len) == if first >= len {
            Asked::Unsatisfiable
        } else {
            Asked::Slice { start: first, end: (len - 1) as u64 }
        },
{
    reveal_strlit("bytes=");
    reveal_strlit("-");
    let df = decimal(first as nat);
    lemma_u64_decimal(first);
    let spec = df + "-"@;
    let v = "bytes="@ + spec;
    assert(v =~= "bytes="@ + df + "-"@);
    assert(is_digit(df[0]) && is_digit(df.last()));
    assert(spec[0] == df[0]);
    assert(spec.last() == '-');
    lemma_trim_unchanged(v);
    lemma_trim_unchanged(spec);
    lemma_trim_unchanged(df);
    assert(v.take(6) =~= "bytes="@);
    assert(v.skip(6) =~= spec);
    assert(!has_char(spec, ',')) by {
        assert forall|i: int| 0 <= i < spec.len() implies spec[i] != ',' by {
            if i < df.len() {
                assert(spec[i] == df[i]);
            }
        }
    }
    assert forall|j: int| 0 <= j < df.len() implies spec[j] != '-' by {
        assert(spec[j] == df[j]);
    }
    lemma_first_pos(spec, '-', df.len() as int);
    assert(spec.take(df.len() as int) =~= df);
    assert(spec.skip(df.len() as int + 1) =~= Seq::<char>::empty());
}

/// `bytes=-n` is the last `n` bytes of the file, or all of it when it is
/// shorter; asking for none of them, or anything of an empty file, is
/// refused.
pub proof fn lemma_suffix_span(n: u64, len: u64)
    ensures
        asked(Some("bytes=-"@ + decimal(n as nat)), len) == if n == 0 || len == 0 {
            Asked::Unsatisfiable
        } else {
            Asked::Slice { start: if n >= len { 0 } else { (len - n) as u64 }, end: (len - 1) as u64 }
        },
{
    reveal_strlit("bytes=");
    reveal_strlit("bytes=-");
    let dn = decimal(n as nat);
    lemma_u64_decimal(n);
    let spec = seq!['-'] + dn;
    let v = "bytes=-"@ + dn;
    assert(v =~= "bytes="@ + spec);
    assert(is_digit(dn[0]) && is_digit(dn.last()));
    assert(spec.last() == dn.last());
    assert(v.last() == dn.last());
    lemma_trim_unchanged(v);
    lemma_trim_unchanged(spec);
    lemma_trim_unchanged(dn);
    assert(v.take(6) =~= "bytes="@);
    assert(v.skip(6) =~= spec);
    assert(!has_char(spec, ',')) by {
        assert forall|i: int| 0 <= i < spec.len() implies spec[i] != ',' by {
            if i > 0 {
                assert(spec[i] == dn[i - 1]);
            }
        }
    }
    lemma_first_pos(spec, '-', 0);
    assert(spec.take(0) =~= Seq::<char>::empty());
    assert(spec.skip(1) =~= dn);
}

} // verus!
