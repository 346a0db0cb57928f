//! What the read actions print: who operates the deployment, who is signed
//! in, and what has happened, one row per line, in columns.

use vstd::prelude::*;

use super::backup::{padded, push_padded};
use crate::text::{decimal, push_char, push_decimal};

verus! {

/// The most audit rows one read returns.
pub const AUDIT_MAX: i64 = 1000;

/// How many audit rows a read asks for: the tail asked, held to
/// `1..=1000`.
pub fn audit_limit(tail: usize) -> (r: i64)
    ensures
        r == if tail < 1 { 1 } else if tail > 1000 { 1000 } else { tail as int },
{
    if tail < 1 {
        1
    } else if tail > 1000 {
        1000
    } else {
        tail as i64
    }
}

/// A signed number as `Display` writes it.
pub open spec fn signed(i: i64) -> Seq<char> {
    if i < 0 { "-"@ + decimal((-(i as int)) as nat) } else { decimal(i as nat) }
}

fn push_signed(out: &mut String, i: i64)
    ensures
        final(out)@ == old(out)@ + signed(i),
{
    if i < 0 {
        out.append("-");
        let magnitude: u64 = if i == i64::MIN { 9223372036854775808u64 } else { (-i) as u64 };
        push_decimal(out, magnitude);
    } else {
        push_decimal(out, i as u64);
    }
}

/// `s` in a column `width` wide, against its right edge.
pub open spec fn right_aligned(s: Seq<char>, width: nat) -> Seq<char> {
    if s.len() >= width { s } else { Seq::new((width - s.len()) as nat, |_i: int| ' ') + s }
}

fn right_align(s: String, width: usize) -> (r: String)
    ensures
        r@ == right_aligned(s@, width as nat),
{
    let n = s.as_str().unicode_len();
    if n >= width {
        return s;
    }
    let mut r = String::new();
    let mut k: usize = 0;
    while k < width - n
        invariant
            n < width,
            n == s@.len(),
            k <= width - n,
            r@ == Seq::new(k as nat, |_i: int| ' '),
        decreases width - n - k,
    {
        push_char(&mut r, ' ');
        assert(Seq::new((k + 1) as nat, |_i: int| ' ') =~= Seq::new(k as nat, |_i: int| ' ').push(' '));
        k = k + 1;
    }
    r.append(s.as_str());
    r
}

/// One holder of the operator relation: its person's public id, name,
/// since when, and whether the relation was granted by nobody (the
/// bootstrap).
#[derive(Debug, Clone, PartialEq, Eq)]
pub struct OperatorLine {
    pub id: String,
    pub who: String,
    pub at: i64,
    pub bootstrap: bool,
}

pub open spec fn operator_line(r: OperatorLine) -> Seq<char> {
    r.id@ + "  "@ + padded(r.who@, 24) + " since "@ + signed(r.at)
        + (if r.bootstrap { "  (bootstrap)"@ } else { Seq::<char>::empty() }) + "\n"@
}

pub open spec fn operator_lines(rows: Seq<OperatorLine>) -> Seq<char>
    decreases rows.len(),
{
    if rows.len() == 0 { Seq::<char>::empty() } else { operator_lines(rows.drop_last()) + operator_line(rows.last()) }
}

/// What `operators` prints: a line each, or that nobody operates it.
pub open spec fn operators_text(rows: Seq<OperatorLine>) -> Seq<char> {
    if rows.len() == 0 {
        "no operators — this deployment has nobody who can grant one\n"@
    } else {
        operator_lines(rows)
    }
}

/// [`operators_text`].
pub fn operators_report(rows: &[OperatorLine]) -> (r: String)
    ensures
        r@ == operators_text(rows@),
{
    if rows.len() == 0 {
        return String::from_str("no operators — this deployment has nobody who can grant one\n");
    }
    let mut text = String::new();
    let mut i: usize = 0;
    while i < rows.len()
        invariant
            i <= rows@.len(),
            text@ == operator_lines(rows@.take(i as int)),
        decreases rows@.len() - i,
    {
        assert(rows@.take(i + 1).drop_last() =~= rows@.take(i as int));
        let row = &rows[i];
        let ghost before = text@;
        text.append(row.id.as_str());
        text.append("  ");
        push_padded(&mut text, row.who.as_str(), 24);
        text.append(" since ");
        push_signed(&mut text, row.at);
        if row.bootstrap {
            text.append("  (bootstrap)");
        }
        text.append("\n");
        assert(text@ =~= before + operator_line(rows@[i as int]));
        i = i + 1;
    }
    assert(rows@.take(rows@.len() as int) =~= rows@);
    text
}

/// One live session: its public id, the name behind it when it has
/// resolved to one, when it expires, and whether it is an impersonation.
#[derive(Debug, Clone, PartialEq, Eq)]
pub struct SessionLine {
    pub id: String,
    pub who: Option<String>,
    pub expires_at: i64,
    pub impersonated: bool,
}

pub open spec fn session_line(r: SessionLine) -> Seq<char> {
    r.id@ + "  "@ + padded(match r.who { Some(w) => w@, None => "(unresolved)"@ }, 24)
        + " expires "@ + signed(r.expires_at)
        + (if r.impersonated { "  impersonated"@ } else { Seq::<char>::empty() }) + "\n"@
}

pub open spec fn session_lines(rows: Seq<SessionLine>) -> Seq<char>
    decreases rows.len(),
{
    if rows.len() == 0 { Seq::<char>::empty() } else { session_lines(rows.drop_last()) + session_line(rows.last()) }
}

/// What `sessions` prints: a line each, or that none is live.
pub open spec fn sessions_text(rows: Seq<SessionLine>) -> Seq<char> {
    if rows.len() == 0 { "no live sessions\n"@ } else { session_lines(rows) }
}

/// [`sessions_text`].
pub fn sessions_report(rows: &[SessionLine]) -> (r: String)
    ensures
        r@ == sessions_text(rows@),
{
    if rows.len() == 0 {
        return String::from_str("no live sessions\n");
    }
    let mut text = String::new();
    let mut i: usize = 0;
    while i < rows.len()
        invariant
            i <= rows@.len(),
            text@ == session_lines(rows@.take(i as int)),
        decreases rows@.len() - i,
    {
        assert(rows@.take(i + 1).drop_last() =~= rows@.take(i as int));
        let row = &rows[i];
        let ghost before = text@;
        text.append(row.id.as_str());
        text.append("  ");
        match &row.who {
            Some(w) => push_padded(&mut text, w.as_str(), 24),
            None => push_padded(&mut text, "(unresolved)", 24),
        }
        text.append(" expires ");
        push_signed(&mut text, row.expires_at);
        if row.impersonated {
            text.append("  impersonated");
        }
        text.append("\n");
        assert(text@ =~= before + session_line(rows@[i as int]));
        i = i + 1;
    }
    assert(rows@.take(rows@.len() as int) =~= rows@);
    text
}

/// One audit row: its offset, command, the acting identity if any, when,
/// and its payload as stored.
#[derive(Debug, Clone, PartialEq, Eq)]
pub struct AuditLine {
    pub id: i64,
    pub command: String,
    pub actor: Option<i64>,
    pub at: i64,
    pub payload: String,
}

pub open spec fn audit_line(r: AuditLine) -> Seq<char> {
    right_aligned(signed(r.id), 8) + "  "@ + padded(r.command@, 22) + " actor "@
        + padded(match r.actor { Some(a) => signed(a), None => "-"@ }, 6) + " at "@ + signed(r.at)
        + "  "@ + r.payload@ + "\n"@
}

/// What `audit` prints: the rows it read newest first, printed oldest
/// first, so the history reads down the page.
pub open spec fn audit_text(rows: Seq<AuditLine>) -> Seq<char>
    decreases rows.len(),
{
    if rows.len() == 0 { Seq::<char>::empty() } else { audit_line(rows.last()) + audit_text(rows.drop_last()) }
}

fn push_audit_line(text: &mut String, row: &AuditLine)
    ensures
        final(text)@ == old(text)@ + audit_line(*row),
{
    let mut id = String::new();
    push_signed(&mut id, row.id);
    let id = right_align(id, 8);
    text.append(id.as_str());
    text.append("  ");
    push_padded(text, row.command.as_str(), 22);
    text.append(" actor ");
    let mut actor = String::new();
    match row.actor {
        Some(a) => push_signed(&mut actor, a),
        None => actor.append("-"),
    }
    push_padded(text, actor.as_str(), 6);
    text.append(" at ");
    push_signed(text, row.at);
    text.append("  ");
    text.append(row.payload.as_str());
    text.append("\n");
    assert(text@ =~= old(text)@ + audit_line(*row));
}

/// [`audit_text`]; `rows` as the statement returns them, newest first.
pub fn audit_report(rows: &[AuditLine]) -> (r: String)
    ensures
        r@ == audit_text(rows@),
{
    let mut text = String::new();
    let mut i: usize = rows.len();
    assert(rows@.take(rows@.len() as int) =~= rows@);
    while i > 0
        invariant
            i <= rows@.len(),
            text@ + audit_text(rows@.take(i as int)) == audit_text(rows@),
        decreases i,
    {
        let row = &rows[i - 1];
        assert(rows@.take(i as int).drop_last() =~= rows@.take(i - 1));
        assert(rows@.take(i as int).last() == rows@[i - 1]);
        let ghost before = text@;
        push_audit_line(&mut text, row);
        assert(before + audit_line(rows@[i - 1]) + audit_text(rows@.take(i - 1))
            =~= before + audit_text(rows@.take(i as int)));
        i = i - 1;
    }
    assert(rows@.take(0) =~= Seq::<AuditLine>::empty());
    assert(text@ + Seq::<char>::empty() =~= text@);
    text
}

} // verus!
