//! The refusals that make a restore a formation act rather than a merge, and
//! the ones that make a backup name the offset it is consistent at.
//!
//! A backup from another format, taken under another id key, or out of
//! another schema is refused; so is a database that already holds rows; and
//! a table that does not come back whole is reported rather than accepted.

use vstd::prelude::*;

use super::AdminError;
use super::backup::{Column, Kind};
use crate::text::{concat, decimal, push_decimal, same};

verus! {

/// The one backup format this build writes and reads.
pub const FORMAT: u32 = 1;

pub open spec fn format_message(format: u32) -> Seq<char> {
    "this backup is format "@ + decimal(format as nat) + " and this build writes and reads format 1"@
}

pub open spec fn key_message(theirs: Seq<char>, ours: Seq<char>) -> Seq<char> {
    "this backup was taken under id key "@ + theirs + " and this deployment's is "@ + ours
        + ". Restoring it would rename every object in it — every saved link, every bookmarked URL, every token subject. Point RN_SITE__ID_KEY at the key this backup was taken under"@
}

pub open spec fn schema_message(theirs: Seq<char>, ours: Seq<char>) -> Seq<char> {
    "this backup came out of schema "@ + theirs + " and this deployment is on "@ + ours
        + ". A restore is not a migration"@
}

/// Whether a backup may be restored here: its format, then the fingerprint
/// of the id key its public ids were derived under, then the schema it came
/// out of. The key is asked first because it is the refusal whose absence
/// nobody would notice.
pub open spec fn admissible(format: u32, their_key: Seq<char>, our_key: Seq<char>, their_schema: Seq<char>, our_schema: Seq<char>) -> Result<(), Seq<char>> {
    if format != FORMAT {
        Err(format_message(format))
    } else if their_key != our_key {
        Err(key_message(their_key, our_key))
    } else if their_schema != our_schema {
        Err(schema_message(their_schema, our_schema))
    } else {
        Ok(())
    }
}

/// A backup restores onto exactly the deployments that share its format,
/// its id key and its schema: anywhere else it is refused, so a restore
/// never silently renames every object in it.
pub proof fn lemma_restores_only_where_it_came_from(
    format: u32,
    their_key: Seq<char>,
    our_key: Seq<char>,
    their_schema: Seq<char>,
    our_schema: Seq<char>,
)
    ensures
        admissible(format, their_key, our_key, their_schema, our_schema) is Ok
            <==> (format == FORMAT && their_key == our_key && their_schema == our_schema),
{
}

/// [`admissible`], as the refusal the operator reads.
pub fn restorable(format: u32, their_key: &str, our_key: &str, their_schema: &str, our_schema: &str) -> (r: Result<(), AdminError>)
    ensures
        match r {
            Ok(()) => admissible(format, their_key@, our_key@, their_schema@, our_schema@) is Ok,
            Err(AdminError::Refused(m)) => admissible(format, their_key@, our_key@, their_schema@, our_schema@) == Err::<(), Seq<char>>(m@),
            Err(_) => false,
        },
{
    if format != FORMAT {
        let mut m = String::from_str("this backup is format ");
        push_decimal(&mut m, format as u64);
        m.append(" and this build writes and reads format 1");
        return Err(AdminError::Refused(m));
    }
    if !same(their_key, our_key) {
        let mut m = concat("this backup was taken under id key ", their_key);
        m.append(" and this deployment's is ");
        m.append(our_key);
        m.append(". Restoring it would rename every object in it — every saved link, every bookmarked URL, every token subject. Point RN_SITE__ID_KEY at the key this backup was taken under");
        return Err(AdminError::Refused(m));
    }
    if !same(their_schema, our_schema) {
        let mut m = concat("this backup came out of schema ", their_schema);
        m.append(" and this deployment is on ");
        m.append(our_schema);
        m.append(". A restore is not a migration");
        return Err(AdminError::Refused(m));
    }
    Ok(())
}

pub open spec fn occupied_message(table: Seq<char>, rows: nat) -> Seq<char> {
    "this database is not empty — "@ + table + " already holds "@ + decimal(rows)
        + " row(s). A restore is a formation act, not a merge: wipe it first (`rn-site admin wipe`, or `tools/ephemeral.sh reset`)"@
}

/// A restore lands only on empty tables: `rows` is how many `table` holds.
pub fn refuse_occupied(table: &str, rows: i64) -> (r: Result<(), AdminError>)
    ensures
        rows <= 0 ==> r is Ok,
        rows > 0 ==> (r matches Err(AdminError::Refused(m)) && m@ == occupied_message(table@, rows as nat)),
{
    if rows <= 0 {
        return Ok(());
    }
    let mut m = concat("this database is not empty — ", table);
    m.append(" already holds ");
    push_decimal(&mut m, rows as u64);
    m.append(" row(s). A restore is a formation act, not a merge: wipe it first (`rn-site admin wipe`, or `tools/ephemeral.sh reset`)");
    Err(AdminError::Refused(m))
}

pub open spec fn short_message(table: Seq<char>, expected: u64, written: u64) -> Seq<char> {
    table + ": the manifest counted "@ + decimal(expected as nat) + " rows and "@ + decimal(written as nat)
        + " went back"@
}

/// A table comes back whole or the restore says it did not.
pub fn counted(table: &str, expected: u64, written: u64) -> (r: Result<u64, AdminError>)
    ensures
        written == expected ==> r == Ok::<u64, AdminError>(written),
        written != expected ==> (r matches Err(AdminError::Store(m)) && m@ == short_message(table@, expected, written)),
{
    if written == expected {
        return Ok(written);
    }
    let mut m = concat(table, ": the manifest counted ");
    push_decimal(&mut m, expected);
    m.append(" rows and ");
    push_decimal(&mut m, written);
    m.append(" went back");
    Err(AdminError::Store(m))
}

pub open spec fn moved_message(opened: u64, closed: u64) -> Seq<char> {
    "the feed head moved from "@ + decimal(opened as nat) + " to "@ + decimal(closed as nat)
        + " while the walk ran, so this backup is consistent at no offset at all. Stop the node and run it again"@
}

/// A backup is consistent at one offset only if the head did not move while
/// it was walked; that offset is the one it names.
pub fn consistent(opened: u64, closed: u64) -> (r: Result<u64, AdminError>)
    ensures
        opened == closed ==> r == Ok::<u64, AdminError>(opened),
        opened != closed ==> (r matches Err(AdminError::Refused(m)) && m@ == moved_message(opened, closed)),
{
    if opened == closed {
        return Ok(opened);
    }
    let mut m = String::from_str("the feed head moved from ");
    push_decimal(&mut m, opened);
    m.append(" to ");
    push_decimal(&mut m, closed);
    m.append(" while the walk ran, so this backup is consistent at no offset at all. Stop the node and run it again");
    Err(AdminError::Refused(m))
}


/// The first of `n` statement parameters to the `n`th, as a list.
pub open spec fn holders(n: nat) -> Seq<char>
    decreases n,
{
    if n == 0 {
        Seq::<char>::empty()
    } else if n == 1 {
        "$1"@
    } else {
        holders((n - 1) as nat) + ", $"@ + decimal(n)
    }
}

/// The columns' names, each in double quotes, as a list.
pub open spec fn quoted_names(columns: Seq<Column>) -> Seq<char>
    decreases columns.len(),
{
    if columns.len() == 0 {
        Seq::<char>::empty()
    } else if columns.len() == 1 {
        "\""@ + columns[0].name@ + "\""@
    } else {
        quoted_names(columns.drop_last()) + ", \""@ + columns.last().name@ + "\""@
    }
}

/// The statement one row of `table` goes back with: every column, in the
/// order the rows were written, each bound to its own parameter.
pub open spec fn insert_sql(table: Seq<char>, columns: Seq<Column>) -> Seq<char> {
    "INSERT INTO \""@ + table + "\" ("@ + quoted_names(columns) + ") VALUES ("@
        + holders(columns.len()) + ")"@
}

/// [`insert_sql`]. `table` and the column names have been through the
/// identifier check, which is what makes putting them into it safe.
pub fn insert_statement(table: &str, columns: &[Column]) -> (r: String)
    requires
        columns@.len() < u64::MAX,
    ensures
        r@ == insert_sql(table@, columns@),
{
    let mut names = String::new();
    let mut places = String::new();
    let mut i: usize = 0;
    while i < columns.len()
        invariant
            columns@.len() < u64::MAX,
            i <= columns@.len(),
            names@ == quoted_names(columns@.take(i as int)),
            places@ == holders(i as nat),
        decreases columns@.len() - i,
    {
        assert(columns@.take(i + 1).drop_last() =~= columns@.take(i as int));
        assert(columns@.take(i + 1).last() == columns@[i as int]);
        let ghost names_before = names@;
        let ghost places_before = places@;
        if i > 0 {
            names.append(", ");
            places.append(", ");
        }
        names.append("\"");
        names.append(columns[i].name.as_str());
        names.append("\"");
        places.append("$");
        push_decimal(&mut places, (i + 1) as u64);
        proof {
            reveal_strlit(", ");
            reveal_strlit("\"");
            reveal_strlit(", \"");
            reveal_strlit("$");
            reveal_strlit(", $");
            reveal_strlit("$1");
            let name = columns@[i as int].name@;
            if i == 0 {
                assert(columns@.take(1) =~= seq![columns@[0]]);
                assert(names@ =~= "\""@ + name + "\""@);
                assert(decimal(1) =~= seq!['1']);
                assert(places@ =~= "$1"@);
            } else {
                assert(names@ =~= names_before + ", \""@ + name + "\""@);
                assert(places@ =~= places_before + ", $"@ + decimal((i + 1) as nat));
            }
        }
        i = i + 1;
    }
    assert(columns@.take(columns@.len() as int) =~= columns@);
    let mut r = concat("INSERT INTO \"", table);
    r.append("\" (");
    r.append(names.as_str());
    r.append(") VALUES (");
    r.append(places.as_str());
    r.append(")");
    r
}

/// What a finished restore reports: the rows over how many tables, from
/// where, the feed head against the offset the manifest named, and a
/// warning when they differ, because then the audit did not come back whole.
pub open spec fn restore_text(restored: u64, tables: u64, dir: Seq<char>, head: u64, offset: u64) -> Seq<char> {
    "restored "@ + decimal(restored as nat) + " rows over "@ + decimal(tables as nat) + " tables from "@
        + dir + "\n"@ + "the feed head is "@ + decimal(head as nat)
        + "; the manifest was consistent at "@ + decimal(offset as nat) + "\n"@
        + if head != offset {
            "those differ, which means the audit table did not come back whole — read it before trusting this instance\n"@
        } else {
            Seq::<char>::empty()
        }
}

/// [`restore_text`].
pub fn restore_report(restored: u64, tables: u64, dir: &str, head: u64, offset: u64) -> (r: String)
    ensures
        r@ == restore_text(restored, tables, dir@, head, offset),
{
    let mut r = String::from_str("restored ");
    push_decimal(&mut r, restored);
    r.append(" rows over ");
    push_decimal(&mut r, tables);
    r.append(" tables from ");
    r.append(dir);
    r.append("\n");
    r.append("the feed head is ");
    push_decimal(&mut r, head);
    r.append("; the manifest was consistent at ");
    push_decimal(&mut r, offset);
    r.append("\n");
    if head != offset {
        r.append("those differ, which means the audit table did not come back whole — read it before trusting this instance\n");
    }
    r
}


/// A value out of a table's row file, as much of it as putting it back
/// reads: its shape, and the JSON text a refusal quotes.
#[derive(Debug, Clone, PartialEq, Eq)]
pub struct Cell {
    pub shape: Shape,
    pub json: String,
}

/// What a JSON value is, for the restore's purposes.
#[derive(Debug, Clone, PartialEq, Eq)]
pub enum Shape {
    Null,
    /// A number, and the integer it is when it is one that fits 64 bits.
    Number(Option<i64>),
    Text(String),
    /// An object, and its `b64` member when that member is a string.
    Object(Option<String>),
    /// `true`, `false`, or an array.
    Other,
}

/// What a value goes back into the database as.
#[derive(Debug, Clone, PartialEq, Eq)]
pub enum Stored {
    Null,
    Integer(i64),
    /// The cell's number, as a float. The caller holds it: a float is no
    /// value this library holds.
    Real,
    Text(String),
    Blob(Vec<u8>),
}

/// A [`Stored`], as the specifications speak of it.
pub enum StoredView {
    Null,
    Integer(i64),
    Real,
    Text(Seq<char>),
    Blob(Seq<u8>),
}

impl View for Stored {
    type V = StoredView;

    open spec fn view(&self) -> StoredView {
        match self {
            Stored::Null => StoredView::Null,
            Stored::Integer(i) => StoredView::Integer(*i),
            Stored::Real => StoredView::Real,
            Stored::Text(t) => StoredView::Text(t@),
            Stored::Blob(b) => StoredView::Blob(b@),
        }
    }
}

/// What the standard padded base64 decoder makes of a text: the bytes it
/// spells, or the decoder's account of why it spells none.
pub uninterp spec fn base64_decoded(encoded: Seq<char>) -> Result<Seq<u8>, Seq<char>>;

pub open spec fn decoded_view(r: Result<Vec<u8>, String>) -> Result<Seq<u8>, Seq<char>> {
    match r {
        Ok(b) => Ok(b@),
        Err(e) => Err(e@),
    }
}

/// `base64::engine::general_purpose::STANDARD.decode`, with the decoder's
/// error as its text. The contract names the result and says nothing of
/// the alphabet or the padding rules, which are the crate's.
#[verifier::external_body]
fn decode_base64(encoded: &str) -> (r: Result<Vec<u8>, String>)
    ensures
        decoded_view(r) == base64_decoded(encoded@),
{
    match base64::Engine::decode(&base64::engine::general_purpose::STANDARD, encoded) {
        Ok(bytes) => Ok(bytes),
        Err(error) => Err(error.to_string()),
    }
}

pub open spec fn stored_view(r: Result<Stored, String>) -> Result<StoredView, Seq<char>> {
    match r {
        Ok(v) => Ok(v@),
        Err(e) => Err(e@),
    }
}

/// A decoded blob, or why it is none.
pub open spec fn blob_from(decoded: Result<Seq<u8>, Seq<char>>) -> Result<StoredView, Seq<char>> {
    match decoded {
        Ok(b) => Ok(StoredView::Blob(b)),
        Err(e) => Err("the blob does not decode: "@ + e),
    }
}

/// [`blob_from`]: what a blob column gets once its `b64` text is decoded.
pub fn stored_blob(decoded: Result<Vec<u8>, String>) -> (r: Result<Stored, String>)
    ensures
        stored_view(r) == blob_from(decoded_view(decoded)),
{
    match decoded {
        Ok(bytes) => Ok(Stored::Blob(bytes)),
        Err(error) => Err(concat("the blob does not decode: ", error.as_str())),
    }
}

/// One value back into the storage class its column declares, or why it
/// cannot go: `null` is null in every class; an integer column takes only
/// an integer, a real one any number, a text one only a string, and a blob
/// one only `{"b64": …}` holding standard base64. Nothing is coerced.
pub open spec fn stored_of(cell: Cell, kind: Kind) -> Result<StoredView, Seq<char>> {
    match cell.shape {
        Shape::Null => Ok(StoredView::Null),
        shape => match kind {
            Kind::Int => match shape {
                Shape::Number(Some(i)) => Ok(StoredView::Integer(i)),
                _ => Err(cell.json@ + " is not an integer"@),
            },
            Kind::Real => match shape {
                Shape::Number(_) => Ok(StoredView::Real),
                _ => Err(cell.json@ + " is not a number"@),
            },
            Kind::Text => match shape {
                Shape::Text(t) => Ok(StoredView::Text(t@)),
                _ => Err(cell.json@ + " is not text"@),
            },
            Kind::Blob => match shape {
                Shape::Object(Some(e)) => blob_from(base64_decoded(e@)),
                _ => Err(cell.json@ + " is not a {\"b64\": …} blob"@),
            },
        },
    }
}

/// [`stored_of`].
pub fn param(cell: &Cell, kind: Kind) -> (r: Result<Stored, String>)
    ensures
        stored_view(r) == stored_of(*cell, kind),
{
    if let Shape::Null = cell.shape {
        return Ok(Stored::Null);
    }
    match kind {
        Kind::Int => match cell.shape {
            Shape::Number(Some(i)) => Ok(Stored::Integer(i)),
            _ => Err(concat(cell.json.as_str(), " is not an integer")),
        },
        Kind::Real => match cell.shape {
            Shape::Number(_) => Ok(Stored::Real),
            _ => Err(concat(cell.json.as_str(), " is not a number")),
        },
        Kind::Text => match &cell.shape {
            Shape::Text(t) => Ok(Stored::Text(t.clone())),
            _ => Err(concat(cell.json.as_str(), " is not text")),
        },
        Kind::Blob => match &cell.shape {
            Shape::Object(Some(encoded)) => stored_blob(decode_base64(encoded.as_str())),
            _ => Err(concat(cell.json.as_str(), " is not a {\"b64\": …} blob")),
        },
    }
}

/// Where in the backup a refusal is: the file and the line, counted from
/// one.
pub open spec fn at_line(path: Seq<char>, line: u64) -> Seq<char> {
    path + ":"@ + decimal(line as nat) + ": "@
}

/// One line's values, each in the class its column declares; the first that
/// cannot go is refused, naming its column.
pub open spec fn row_values(path: Seq<char>, line: u64, columns: Seq<Column>, cells: Seq<Cell>, n: int) -> Result<Seq<StoredView>, Seq<char>>
    decreases n,
{
    if n <= 0 {
        Ok(Seq::<StoredView>::empty())
    } else {
        match row_values(path, line, columns, cells, n - 1) {
            Err(e) => Err(e),
            Ok(done) => match stored_of(cells[n - 1], columns[n - 1].kind) {
                Ok(v) => Ok(done.push(v)),
                Err(what) => Err(at_line(path, line) + columns[n - 1].name@ + ": "@ + what),
            },
        }
    }
}

/// A line of a row file put back into parameters: as many values as the
/// table has columns, each in its column's class.
pub open spec fn row_of(path: Seq<char>, line: u64, columns: Seq<Column>, cells: Seq<Cell>) -> Result<Seq<StoredView>, Seq<char>> {
    if cells.len() != columns.len() {
        Err(at_line(path, line) + decimal(cells.len()) + " values for "@ + decimal(columns.len()) + " columns"@)
    } else {
        row_values(path, line, columns, cells, cells.len() as int)
    }
}

pub open spec fn stored_seq(v: Seq<Stored>) -> Seq<StoredView> {
    v.map_values(|s: Stored| s@)
}

proof fn lemma_refusal_stands(path: Seq<char>, line: u64, columns: Seq<Column>, cells: Seq<Cell>, i: int, n: int)
    requires
        1 <= i <= n,
        row_values(path, line, columns, cells, i) is Err,
    ensures
        row_values(path, line, columns, cells, n) == row_values(path, line, columns, cells, i),
    decreases n - i,
{
    if i < n {
        lemma_refusal_stands(path, line, columns, cells, i, n - 1);
    }
}

fn line_prefix(path: &str, line: u64) -> (r: String)
    ensures
        r@ == at_line(path@, line),
{
    let mut r = concat(path, ":");
    push_decimal(&mut r, line);
    r.append(": ");
    r
}

/// [`row_of`], refused as a usage error: the file is not what a backup
/// writes.
pub fn row_params(path: &str, line: u64, columns: &[Column], cells: &[Cell]) -> (r: Result<Vec<Stored>, AdminError>)
    ensures
        match row_of(path@, line, columns@, cells@) {
            Ok(vs) => r matches Ok(out) && stored_seq(out@) == vs,
            Err(m) => r matches Err(AdminError::Usage(u)) && u@ == m,
        },
{
    if cells.len() != columns.len() {
        let mut m = line_prefix(path, line);
        push_decimal(&mut m, cells.len() as u64);
        m.append(" values for ");
        push_decimal(&mut m, columns.len() as u64);
        m.append(" columns");
        return Err(AdminError::Usage(m));
    }
    let mut out: Vec<Stored> = Vec::new();
    let mut i: usize = 0;
    assert(stored_seq(out@) =~= Seq::<StoredView>::empty());
    while i < cells.len()
        invariant
            cells@.len() == columns@.len(),
            i <= cells@.len(),
            out@.len() == i,
            row_values(path@, line, columns@, cells@, i as int) == Ok::<Seq<StoredView>, Seq<char>>(stored_seq(out@)),
        decreases cells@.len() - i,
    {
        match param(&cells[i], columns[i].kind) {
            Ok(v) => {
                let ghost before = out@;
                out.push(v);
                assert(stored_seq(out@) =~= stored_seq(before).push(out@[i as int]@));
            },
            Err(what) => {
                let mut m = line_prefix(path, line);
                m.append(columns[i].name.as_str());
                m.append(": ");
                m.append(what.as_str());
                proof {
                    lemma_refusal_stands(path@, line, columns@, cells@, i + 1, cells@.len() as int);
                }
                return Err(AdminError::Usage(m));
            },
        }
        i = i + 1;
    }
    Ok(out)
}


/// Everything a restore must pass before it inserts a single row, in the
/// order it is asked: the backup's format, key and schema against this
/// deployment's, then that no table here holds rows. `occupied` is the
/// first table found holding any, and how many. Nothing is inserted unless
/// this is `Ok`, so a refused restore has changed nothing.
pub open spec fn gate(
    format: u32,
    their_key: Seq<char>,
    our_key: Seq<char>,
    their_schema: Seq<char>,
    our_schema: Seq<char>,
    occupied: Option<(Seq<char>, i64)>,
) -> Result<(), Seq<char>> {
    match admissible(format, their_key, our_key, their_schema, our_schema) {
        Err(m) => Err(m),
        Ok(()) => match occupied {
            Some(o) => if o.1 > 0 { Err(occupied_message(o.0, o.1 as nat)) } else { Ok(()) },
            None => Ok(()),
        },
    }
}

/// [`gate`], refused as the restore refuses.
pub fn restore_gate(
    format: u32,
    their_key: &str,
    our_key: &str,
    their_schema: &str,
    our_schema: &str,
    occupied: Option<(&str, i64)>,
) -> (r: Result<(), AdminError>)
    ensures
        match gate(format, their_key@, our_key@, their_schema@, our_schema@,
            match occupied { Some(o) => Some((o.0@, o.1)), None => None }) {
            Ok(()) => r is Ok,
            Err(m) => r matches Err(AdminError::Refused(e)) && e@ == m,
        },
{
    restorable(format, their_key, our_key, their_schema, our_schema)?;
    match occupied {
        Some((table, rows)) => refuse_occupied(table, rows),
        None => Ok(()),
    }
}

} // verus!
