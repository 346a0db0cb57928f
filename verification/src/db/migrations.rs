//! The migration set, as a value, plus the integrity check that runs before
//! it is applied.
//!
//! A migration whose recorded name or content hash no longer matches the
//! embedded history means the binary and the database disagree about what
//! the schema *is*, and continuing would apply the next migration onto a
//! shape nobody has described. The check refuses to start instead.

use vstd::prelude::*;

use vstd::relations::sorted_by;

use crate::text::{
    chars_of, contains_text, decimal, ends_with, hex_fixed, is_suffix, occurs, parse_u32,
    push_decimal, push_hex, split_once, split_once_at, string_of, u32_of,
};

verus! {

/// One schema step: `<id>_<name>.sql`, its sha-256, and its statements.
#[derive(Debug, Clone, PartialEq, Eq)]
pub struct Migration {
    pub id: u32,
    pub name: String,
    /// Lowercase hex sha-256 of `sql`, the same digest hiqlite records.
    pub hash: String,
    pub sql: String,
}

/// What the database records of a migration it has applied.
#[derive(Debug, Clone, PartialEq, Eq)]
pub struct AppliedMigration {
    pub id: u32,
    pub name: String,
    pub ts: i64,
    pub hash: String,
}

/// A previously applied migration no longer matches the embedded history.
#[derive(Debug, Clone, PartialEq, Eq)]
pub struct IntegrityError {
    pub migration_id: u32,
    pub field: &'static str,
    pub expected: String,
    pub actual: String,
}

/// An [`IntegrityError`], as the specifications speak of it.
pub struct Fault {
    pub migration_id: u32,
    pub field: Seq<char>,
    pub expected: Seq<char>,
    pub actual: Seq<char>,
}

impl View for IntegrityError {
    type V = Fault;

    open spec fn view(&self) -> Fault {
        Fault {
            migration_id: self.migration_id,
            field: self.field@,
            expected: self.expected@,
            actual: self.actual@,
        }
    }
}

pub open spec fn integrity_message(e: Fault) -> Seq<char> {
    "migration "@ + decimal(e.migration_id as nat) + ": "@ + e.field + " should be "@ + e.expected
        + ", database has "@ + e.actual
}

impl IntegrityError {
    /// A refusal about a migration's file name.
    pub fn name(migration_id: u32, expected: &str, actual: &str) -> (r: IntegrityError)
        ensures
            r@ == (Fault { migration_id, field: "filename"@, expected: expected@, actual: actual@ }),
    {
        IntegrityError {
            migration_id,
            field: "filename",
            expected: String::from_str(expected),
            actual: String::from_str(actual),
        }
    }

    /// What the refusal says.
    pub fn message(&self) -> (r: String)
        ensures
            r@ == integrity_message(self@),
    {
        let mut r = String::from_str("migration ");
        push_decimal(&mut r, self.migration_id as u64);
        r.append(": ");
        r.append(self.field);
        r.append(" should be ");
        r.append(self.expected.as_str());
        r.append(", database has ");
        r.append(self.actual.as_str());
        r
    }
}

/// Why migrating did not happen.
#[derive(Debug, Clone, PartialEq, Eq)]
pub enum MigrateError {
    /// The history has drifted.
    Integrity(IntegrityError),
    /// hiqlite refused, with what it said.
    Hiqlite(String),
}

pub open spec fn migrate_message(e: MigrateError) -> Seq<char> {
    match e {
        MigrateError::Integrity(i) => integrity_message(i@),
        MigrateError::Hiqlite(m) => m@,
    }
}

impl MigrateError {
    /// What the error says.
    pub fn message(&self) -> (r: String)
        ensures
            r@ == migrate_message(*self),
    {
        match self {
            MigrateError::Integrity(i) => i.message(),
            MigrateError::Hiqlite(m) => m.clone(),
        }
    }
}

/// The ids run 1, 2, 3, … with no gap.
pub open spec fn is_sequenced(steps: Seq<Migration>) -> bool {
    forall|i: int| 0 <= i < steps.len() ==> #[trigger] steps[i].id == i + 1
}

/// The first position whose id is not its place in the sequence, if any.
pub open spec fn first_gap(steps: Seq<Migration>, from: int) -> Option<int>
    decreases steps.len() - from,
{
    if from < 0 || from >= steps.len() {
        None
    } else if steps[from].id != from + 1 {
        Some(from)
    } else {
        first_gap(steps, from + 1)
    }
}

/// What [`Migrations::sequenced`] refuses a gap with.
pub open spec fn gap_fault(steps: Seq<Migration>, at: int, field: Seq<char>) -> Fault {
    Fault {
        migration_id: (at + 1) as u32,
        field,
        expected: decimal((at + 1) as nat),
        actual: decimal(steps[at].id as nat),
    }
}

/// An ordered, gap-free migration history.
#[derive(Debug, Clone, PartialEq, Eq)]
pub struct Migrations(Vec<Migration>);

impl Migrations {
    pub closed spec fn steps_view(&self) -> Seq<Migration> {
        self.0@
    }

    /// Every history this type holds is gap-free.
    pub closed spec fn wf(&self) -> bool {
        is_sequenced(self.0@)
    }

    /// The empty history: boot applies nothing.
    pub fn new() -> (r: Migrations)
        ensures
            r.wf(),
            r.steps_view().len() == 0,
    {
        Migrations(Vec::new())
    }

    /// A history from steps already in order, refusing the first gap.
    pub fn sequenced(steps: Vec<Migration>, field: &'static str) -> (r: Result<Migrations, IntegrityError>)
        requires
            steps@.len() < u32::MAX,
        ensures
            match first_gap(steps@, 0) {
                None => r matches Ok(m) && m.wf() && m.steps_view() == steps@,
                Some(at) => r matches Err(e) && e@ == gap_fault(steps@, at, field@),
            },
    {
        let mut i: usize = 0;
        while i < steps.len()
            invariant
                steps@.len() < u32::MAX,
                i <= steps@.len(),
                first_gap(steps@, 0) == first_gap(steps@, i as int),
                forall|k: int| 0 <= k < i ==> #[trigger] steps@[k].id == k + 1,
            decreases steps@.len() - i,
        {
            let expected = (i + 1) as u32;
            if steps[i].id != expected {
                let mut e = String::new();
                push_decimal(&mut e, expected as u64);
                let mut a = String::new();
                push_decimal(&mut a, steps[i].id as u64);
                return Err(IntegrityError { migration_id: expected, field, expected: e, actual: a });
            }
            i = i + 1;
        }
        Ok(Migrations(steps))
    }

    /// How many steps the history has.
    pub fn len(&self) -> (r: usize)
        ensures
            r == self.steps_view().len(),
    {
        self.0.len()
    }

    /// Whether the history is empty.
    pub fn is_empty(&self) -> (r: bool)
        ensures
            r == (self.steps_view().len() == 0),
    {
        self.0.len() == 0
    }

    /// The steps, in order.
    pub fn steps(&self) -> (r: &Vec<Migration>)
        ensures
            r@ == self.steps_view(),
    {
        &self.0
    }
}

impl Default for Migrations {
    fn default() -> (r: Migrations)
        ensures
            r.wf(),
            r.steps_view().len() == 0,
    {
        Migrations::new()
    }
}

/// What is wrong with applied row `i`, if anything: its id out of sequence,
/// no embedded step at its place, or a different name or hash there.
pub open spec fn fault_at(embedded: Seq<Migration>, applied: Seq<AppliedMigration>, i: int) -> Option<Fault> {
    let step = applied[i];
    if step.id != i + 1 {
        Some(Fault {
            migration_id: (i + 1) as u32,
            field: "applied sequence"@,
            expected: decimal((i + 1) as nat),
            actual: decimal(step.id as nat),
        })
    } else if i >= embedded.len() {
        Some(Fault {
            migration_id: step.id,
            field: "filename"@,
            expected: decimal(step.id as nat) + "_"@ + step.name@,
            actual: "missing"@,
        })
    } else if embedded[i].name@ != step.name@ {
        Some(Fault { migration_id: step.id, field: "name"@, expected: embedded[i].name@, actual: step.name@ })
    } else if embedded[i].hash@ != step.hash@ {
        Some(Fault { migration_id: step.id, field: "hash"@, expected: embedded[i].hash@, actual: step.hash@ })
    } else {
        None
    }
}

/// The first fault from row `from` on, if any.
pub open spec fn first_fault(embedded: Seq<Migration>, applied: Seq<AppliedMigration>, from: int) -> Option<Fault>
    decreases applied.len() - from,
{
    if from < 0 || from >= applied.len() {
        None
    } else {
        match fault_at(embedded, applied, from) {
            Some(f) => Some(f),
            None => first_fault(embedded, applied, from + 1),
        }
    }
}

/// Compare what the database has applied with what this binary embeds.
pub fn check(embedded: &[Migration], applied: &[AppliedMigration]) -> (r: Result<(), IntegrityError>)
    requires
        applied@.len() < u32::MAX,
    ensures
        match first_fault(embedded@, applied@, 0) {
            None => r is Ok,
            Some(f) => r matches Err(e) && e@ == f,
        },
{
    let mut i: usize = 0;
    while i < applied.len()
        invariant
            applied@.len() < u32::MAX,
            i <= applied@.len(),
            first_fault(embedded@, applied@, 0) == first_fault(embedded@, applied@, i as int),
        decreases applied@.len() - i,
    {
        let step = &applied[i];
        let expected_id = (i + 1) as u32;
        if step.id != expected_id {
            let mut e = String::new();
            push_decimal(&mut e, expected_id as u64);
            let mut a = String::new();
            push_decimal(&mut a, step.id as u64);
            return Err(IntegrityError {
                migration_id: expected_id,
                field: "applied sequence",
                expected: e,
                actual: a,
            });
        }
        if i >= embedded.len() {
            let mut label = String::new();
            push_decimal(&mut label, step.id as u64);
            label.append("_");
            label.append(step.name.as_str());
            return Err(IntegrityError::name(step.id, label.as_str(), "missing"));
        }
        let known = &embedded[i];
        if known.name != step.name {
            return Err(IntegrityError {
                migration_id: step.id,
                field: "name",
                expected: known.name.clone(),
                actual: step.name.clone(),
            });
        }
        if known.hash != step.hash {
            return Err(IntegrityError {
                migration_id: step.id,
                field: "hash",
                expected: known.hash.clone(),
                actual: step.hash.clone(),
            });
        }
        i = i + 1;
    }
    Ok(())
}

/// What the database records after applying `steps` in order.
pub open spec fn recorded(steps: Seq<Migration>, ts: spec_fn(int) -> i64) -> Seq<AppliedMigration> {
    Seq::new(steps.len(), |i: int| AppliedMigration { id: steps[i].id, name: steps[i].name, ts: ts(i), hash: steps[i].hash })
}

/// A database that has applied a prefix of a gap-free history, faithfully,
/// passes the check against that history — whenever each step was applied.
/// Appending a migration to the binary is therefore the normal case.
pub proof fn lemma_applied_prefix_passes(embedded: Seq<Migration>, k: int, ts: spec_fn(int) -> i64)
    requires
        is_sequenced(embedded),
        0 <= k <= embedded.len(),
    ensures
        first_fault(embedded, recorded(embedded.take(k), ts), 0) is None,
{
    let applied = recorded(embedded.take(k), ts);
    lemma_no_fault_from(embedded, applied, 0);
}

proof fn lemma_no_fault_from(embedded: Seq<Migration>, applied: Seq<AppliedMigration>, from: int)
    requires
        is_sequenced(embedded),
        0 <= from,
        applied.len() <= embedded.len(),
        forall|i: int| 0 <= i < applied.len() ==> {
            &&& #[trigger] applied[i].id == embedded[i].id
            &&& applied[i].name == embedded[i].name
            &&& applied[i].hash == embedded[i].hash
        },
    ensures
        first_fault(embedded, applied, from) is None,
    decreases applied.len() - from,
{
    if from < applied.len() {
        assert(applied[from].id == embedded[from].id);
        assert(embedded[from].id == from + 1);
        lemma_no_fault_from(embedded, applied, from + 1);
    }
}

/// A database that has applied more than the binary embeds is refused, at
/// the first migration the binary does not know.
pub proof fn lemma_database_ahead_refused(embedded: Seq<Migration>, applied: Seq<AppliedMigration>)
    requires
        is_sequenced(embedded),
        embedded.len() < applied.len(),
        forall|i: int| 0 <= i < applied.len() ==> #[trigger] applied[i].id == i + 1,
        forall|i: int| 0 <= i < embedded.len() ==> {
            &&& #[trigger] applied[i].name == embedded[i].name
            &&& applied[i].hash == embedded[i].hash
        },
    ensures
        first_fault(embedded, applied, 0) matches Some(f) && f.migration_id == embedded.len() + 1
            && f.actual == "missing"@,
{
    lemma_fault_found(embedded, applied, 0);
}

proof fn lemma_fault_found(embedded: Seq<Migration>, applied: Seq<AppliedMigration>, from: int)
    requires
        is_sequenced(embedded),
        0 <= from <= embedded.len(),
        embedded.len() < applied.len(),
        forall|i: int| 0 <= i < applied.len() ==> #[trigger] applied[i].id == i + 1,
        forall|i: int| 0 <= i < embedded.len() ==> {
            &&& #[trigger] applied[i].name == embedded[i].name
            &&& applied[i].hash == embedded[i].hash
        },
    ensures
        first_fault(embedded, applied, from) matches Some(f) && f.migration_id == embedded.len() + 1
            && f.actual == "missing"@,
    decreases embedded.len() - from,
{
    assert(applied[from].id == from + 1);
    if from < embedded.len() {
        assert(applied[from].name == embedded[from].name);
        lemma_fault_found(embedded, applied, from + 1);
    }
}

/// A migration edited after it was applied is refused at that migration,
/// naming the hash the binary expects and the one the database recorded:
/// the binary and the database disagree about what the schema is.
pub proof fn lemma_edited_migration_refused(
    embedded: Seq<Migration>,
    n: int,
    k: int,
    ts: spec_fn(int) -> i64,
    recorded_hash: String,
)
    requires
        is_sequenced(embedded),
        0 <= k < n <= embedded.len(),
        recorded_hash@ != embedded[k].hash@,
    ensures
        ({
            let faithful = recorded(embedded.take(n), ts);
            let applied = faithful.update(k, AppliedMigration { hash: recorded_hash, ..faithful[k] });
            first_fault(embedded, applied, 0) == Some(Fault {
                migration_id: embedded[k].id,
                field: "hash"@,
                expected: embedded[k].hash@,
                actual: recorded_hash@,
            })
        }),
{
    let faithful = recorded(embedded.take(n), ts);
    let applied = faithful.update(k, AppliedMigration { hash: recorded_hash, ..faithful[k] });
    assert(embedded[k].id == k + 1);
    lemma_clean_until(embedded, applied, 0, k);
}

/// Every applied row's name is held against the embedded step at its place,
/// not only the last row's: when the rows before row `k` agree with the
/// binary and row `k` carries the right id but another name, the check stops
/// at row `k` and reports its name, whatever rows follow it.
pub proof fn lemma_renamed_migration_refused(embedded: Seq<Migration>, applied: Seq<AppliedMigration>, k: int)
    requires
        is_sequenced(embedded),
        0 <= k < applied.len(),
        applied.len() <= embedded.len(),
        forall|i: int| 0 <= i < k ==> {
            &&& #[trigger] applied[i].id == embedded[i].id
            &&& applied[i].name == embedded[i].name
            &&& applied[i].hash == embedded[i].hash
        },
        applied[k].id == k + 1,
        applied[k].name@ != embedded[k].name@,
    ensures
        first_fault(embedded, applied, 0) == Some(Fault {
            migration_id: embedded[k].id,
            field: "name"@,
            expected: embedded[k].name@,
            actual: applied[k].name@,
        }),
{
    assert(embedded[k].id == k + 1);
    lemma_clean_until(embedded, applied, 0, k);
}

/// A gap in the applied history is refused where it opens: when the rows
/// before row `k` agree with the binary and row `k` carries another id than
/// `k + 1`, the check stops there and names the id it expected and the one
/// the database recorded.
#[verifier::spinoff_prover]
pub proof fn lemma_gap_refused(embedded: Seq<Migration>, applied: Seq<AppliedMigration>, k: int)
    requires
        is_sequenced(embedded),
        0 <= k < applied.len(),
        applied.len() <= embedded.len(),
        forall|i: int| 0 <= i < k ==> {
            &&& #[trigger] applied[i].id == embedded[i].id
            &&& applied[i].name == embedded[i].name
            &&& applied[i].hash == embedded[i].hash
        },
        applied[k].id != k + 1,
    ensures
        first_fault(embedded, applied, 0) == Some(Fault {
            migration_id: (k + 1) as u32,
            field: "applied sequence"@,
            expected: decimal((k + 1) as nat),
            actual: decimal(applied[k].id as nat),
        }),
{
    lemma_clean_until(embedded, applied, 0, k);
}

proof fn lemma_clean_until(embedded: Seq<Migration>, applied: Seq<AppliedMigration>, from: int, k: int)
    requires
        is_sequenced(embedded),
        0 <= from <= k < applied.len(),
        applied.len() <= embedded.len(),
        forall|i: int| 0 <= i < k ==> {
            &&& #[trigger] applied[i].id == embedded[i].id
            &&& applied[i].name == embedded[i].name
            &&& applied[i].hash == embedded[i].hash
        },
    ensures
        first_fault(embedded, applied, from) == first_fault(embedded, applied, k),
    decreases k - from,
{
    if from < k {
        assert(applied[from].id == embedded[from].id);
        assert(embedded[from].id == from + 1);
        assert(fault_at(embedded, applied, from) is None);
        lemma_clean_until(embedded, applied, from + 1, k);
    }
}

/// Lowercase hex, two digits per byte.
pub open spec fn hex_bytes(bytes: Seq<u8>) -> Seq<char>
    decreases bytes.len(),
{
    if bytes.len() == 0 {
        Seq::<char>::empty()
    } else {
        hex_bytes(bytes.drop_last()) + hex_fixed(bytes.last() as nat, 2)
    }
}

/// Bytes as lowercase hex, zero-padded to two digits each.
pub fn hex(bytes: &[u8]) -> (r: String)
    ensures
        r@ == hex_bytes(bytes@),
{
    let mut out = String::new();
    let mut i: usize = 0;
    assert(bytes@.take(0) =~= Seq::<u8>::empty());
    while i < bytes.len()
        invariant
            i <= bytes@.len(),
            out@ == hex_bytes(bytes@.take(i as int)),
        decreases bytes@.len() - i,
    {
        push_hex(&mut out, bytes[i] as u64, 2);
        assert(bytes@.take(i + 1).drop_last() =~= bytes@.take(i as int));
        i = i + 1;
    }
    assert(bytes@.take(bytes@.len() as int) =~= bytes@);
    out
}

/// Whether an error's text says the cluster has not settled, rather than
/// that it refused. Matched on the text because hiqlite passes most of these
/// through as strings; an unrecognised error is not treated as transient.
pub open spec fn still_forming(message: Seq<char>) -> bool {
    ||| occurs(message, "forward request to"@)
    ||| occurs(message, "no such table: _migrations"@)
    ||| occurs(message, "has no leader"@)
    ||| occurs(message, "Leader vote is in progress"@)
}

/// [`still_forming`], on an error's text.
pub fn forming(message: &str) -> (r: bool)
    ensures
        r == still_forming(message@),
{
    let m = chars_of(message);
    contains_text(&m, "forward request to") || contains_text(&m, "no such table: _migrations")
        || contains_text(&m, "has no leader") || contains_text(&m, "Leader vote is in progress")
}

/// A [`Migration`], as the specifications speak of it.
pub struct MigrationView {
    pub id: u32,
    pub name: Seq<char>,
    pub hash: Seq<char>,
    pub sql: Seq<char>,
}

impl View for Migration {
    type V = MigrationView;

    open spec fn view(&self) -> MigrationView {
        MigrationView { id: self.id, name: self.name@, hash: self.hash@, sql: self.sql@ }
    }
}

pub open spec fn views(s: Seq<Migration>) -> Seq<MigrationView> {
    s.map_values(|m: Migration| m@)
}

pub open spec fn ids_of(s: Seq<Migration>) -> Seq<u32> {
    s.map_values(|m: Migration| m.id)
}

/// One file of the embedded migration folder: its name, its sha-256, and its
/// contents when they are UTF-8.
#[derive(Debug, Clone, PartialEq, Eq)]
pub struct SqlFile {
    pub filename: String,
    pub sha256: Vec<u8>,
    pub sql: Option<String>,
}

/// The step a file is, or why it is none: `<id>_<name>.sql`, an unsigned
/// id, a `.sql` suffix, and UTF-8 statements.
pub open spec fn file_step(f: SqlFile) -> Result<MigrationView, Fault> {
    let name = f.filename@;
    match split_once(name, '_') {
        None => Err(Fault { migration_id: 0, field: "filename"@, expected: "<integer>_<name>.sql"@, actual: name }),
        Some(parts) => match u32_of(parts.0) {
            None => Err(Fault { migration_id: 0, field: "filename"@, expected: "a positive integer"@, actual: parts.0 }),
            Some(id) => if !is_suffix(".sql"@, parts.1) {
                Err(Fault { migration_id: id, field: "filename"@, expected: "a .sql suffix"@, actual: name })
            } else {
                match f.sql {
                    None => Err(Fault { migration_id: id, field: "filename"@, expected: "utf-8 sql"@, actual: "invalid utf-8"@ }),
                    Some(sql) => Ok(MigrationView {
                        id,
                        name: parts.1.take(parts.1.len() - 4),
                        hash: hex_bytes(f.sha256@),
                        sql: sql@,
                    }),
                }
            },
        },
    }
}

/// The first file, from `from` on, that is no step.
pub open spec fn first_bad_file(files: Seq<SqlFile>, from: int) -> Option<Fault>
    decreases files.len() - from,
{
    if from < 0 || from >= files.len() {
        None
    } else {
        match file_step(files[from]) {
            Err(f) => Some(f),
            Ok(_) => first_bad_file(files, from + 1),
        }
    }
}

/// The steps the files are, in folder order, when every one is a step.
pub open spec fn file_steps(files: Seq<SqlFile>) -> Seq<MigrationView> {
    files.map_values(|f: SqlFile| file_step(f)->Ok_0)
}

/// Ids in nondecreasing order.
pub open spec fn id_order() -> spec_fn(u32, u32) -> bool {
    |a: u32, b: u32| a <= b
}

/// The first place a sorted id sequence is not `1, 2, 3, …`.
pub open spec fn first_id_gap(ids: Seq<u32>, from: int) -> Option<int>
    decreases ids.len() - from,
{
    if from < 0 || from >= ids.len() {
        None
    } else if ids[from] != from + 1 {
        Some(from)
    } else {
        first_id_gap(ids, from + 1)
    }
}

pub open spec fn steps_sorted(s: Seq<Migration>) -> bool {
    forall|i: int, j: int| 0 <= i < j < s.len() ==> s[i].id <= s[j].id
}

proof fn lemma_first_gap_in_range(steps: Seq<Migration>, from: int)
    ensures
        first_gap(steps, from) matches Some(at) ==> 0 <= at < steps.len() && steps[at].id != at + 1,
    decreases steps.len() - from,
{
    if 0 <= from < steps.len() {
        lemma_first_gap_in_range(steps, from + 1);
    }
}

proof fn lemma_first_gap_ids(steps: Seq<Migration>, from: int)
    ensures
        first_gap(steps, from) == first_id_gap(ids_of(steps), from),
    decreases steps.len() - from,
{
    if 0 <= from < steps.len() {
        lemma_first_gap_ids(steps, from + 1);
    }
}

/// Put `m` after every step whose id is not larger, keeping the order sorted
/// and stable.
fn insert_sorted(out: &mut Vec<Migration>, m: Migration)
    requires
        steps_sorted(old(out)@),
    ensures
        final(out)@.len() == old(out)@.len() + 1,
        steps_sorted(final(out)@),
        views(final(out)@).to_multiset() == views(old(out)@).to_multiset().insert(m@),
        ids_of(final(out)@).to_multiset() == ids_of(old(out)@).to_multiset().insert(m.id),
{
    broadcast use vstd::seq_lib::group_to_multiset_ensures;
    let mut k = out.len();
    while k > 0 && out[k - 1].id > m.id
        invariant
            k <= out@.len(),
            steps_sorted(out@),
            forall|j: int| k <= j < out@.len() ==> out@[j].id > m.id,
        decreases k,
    {
        k = k - 1;
    }
    let ghost before = out@;
    let ghost mv = m@;
    let ghost mid = m.id;
    out.insert(k, m);
    assert(views(out@) =~= views(before).insert(k as int, mv));
    assert(ids_of(out@) =~= ids_of(before).insert(k as int, mid));
    assert forall|i: int, j: int| 0 <= i < j < out@.len() implies out@[i].id <= out@[j].id by {
        if k > 0 {
            assert(before[k - 1].id <= mid);
        }
    }
}

/// The step one file is, or why it is none.
fn step_of(f: &SqlFile) -> (r: Result<Migration, IntegrityError>)
    ensures
        match r {
            Ok(m) => file_step(*f) == Ok::<MigrationView, Fault>(m@),
            Err(e) => file_step(*f) == Err::<MigrationView, Fault>(e@),
        },
{
    let name = chars_of(f.filename.as_str());
    let (id_part, rest) = match split_once_at(&name, '_') {
        Some(parts) => parts,
        None => return Err(IntegrityError::name(0, "<integer>_<name>.sql", f.filename.as_str())),
    };
    let id = match parse_u32(&id_part) {
        Some(id) => id,
        None => {
            let shown = string_of(&id_part, 0, id_part.len());
            assert(id_part@.subrange(0, id_part@.len() as int) =~= id_part@);
            return Err(IntegrityError::name(0, "a positive integer", shown.as_str()));
        },
    };
    if !ends_with(&rest, ".sql") {
        return Err(IntegrityError::name(id, "a .sql suffix", f.filename.as_str()));
    }
    let sql = match &f.sql {
        Some(s) => s.clone(),
        None => return Err(IntegrityError::name(id, "utf-8 sql", "invalid utf-8")),
    };
    proof { reveal_strlit(".sql"); }
    let step_name = string_of(&rest, 0, rest.len() - 4);
    assert(rest@.subrange(0, rest@.len() - 4) =~= rest@.take(rest@.len() - 4));
    Ok(Migration { id, name: step_name, hash: hex(f.sha256.as_slice()), sql })
}

impl Migrations {
    /// Build the history from the embedded folder of `<id>_<name>.sql`
    /// files: every file must be a step, and the steps, ordered by id, must
    /// run `1, 2, 3, …` with no gap.
    pub fn embedded(files: &[SqlFile]) -> (r: Result<Migrations, IntegrityError>)
        requires
            files@.len() < u32::MAX,
        ensures
            match first_bad_file(files@, 0) {
                Some(f) => r matches Err(e) && e@ == f,
                None => {
                    let ids = file_steps(files@).map_values(|v: MigrationView| v.id).sort_by(id_order());
                    match first_id_gap(ids, 0) {
                        None => r matches Ok(m) && m.wf()
                            && views(m.steps_view()).to_multiset() == file_steps(files@).to_multiset(),
                        Some(at) => r matches Err(e) && e@ == (Fault {
                            migration_id: (at + 1) as u32,
                            field: "embedded sequence"@,
                            expected: decimal((at + 1) as nat),
                            actual: decimal(ids[at] as nat),
                        }),
                    }
                },
            },
    {
        broadcast use vstd::seq_lib::group_to_multiset_ensures;
        let mut steps: Vec<Migration> = Vec::new();
        let mut i: usize = 0;
        let ghost parsed = file_steps(files@);
        assert(views(steps@) =~= Seq::<MigrationView>::empty());
        assert(parsed.take(0) =~= Seq::<MigrationView>::empty());
        while i < files.len()
            invariant
                files@.len() < u32::MAX,
                i <= files@.len(),
                parsed == file_steps(files@),
                first_bad_file(files@, 0) == first_bad_file(files@, i as int),
                steps@.len() == i,
                steps_sorted(steps@),
                views(steps@).to_multiset() == parsed.take(i as int).to_multiset(),
                ids_of(steps@).to_multiset() == parsed.take(i as int).map_values(|v: MigrationView| v.id).to_multiset(),
            decreases files@.len() - i,
        {
            let m = match step_of(&files[i]) {
                Ok(m) => m,
                Err(e) => return Err(e),
            };
            assert(parsed[i as int] == m@);
            assert(parsed.take(i + 1) =~= parsed.take(i as int).push(m@));
            assert(parsed.take(i + 1).map_values(|v: MigrationView| v.id)
                =~= parsed.take(i as int).map_values(|v: MigrationView| v.id).push(m.id));
            let ghost mv = m@;
            let ghost mid = m.id;
            insert_sorted(&mut steps, m);
            proof {
                vstd::seq_lib::to_multiset_build(parsed.take(i as int), mv);
                vstd::seq_lib::to_multiset_build(parsed.take(i as int).map_values(|v: MigrationView| v.id), mid);
            }
            i = i + 1;
        }
        assert(parsed.take(i as int) =~= parsed);
        let ghost ids = parsed.map_values(|v: MigrationView| v.id);
        proof {
            assert(parsed.take(i as int).map_values(|v: MigrationView| v.id) =~= ids);
            let leq = id_order();
            ids.lemma_sort_by_ensures(leq);
            assert(sorted_by(ids_of(steps@), leq));
            vstd::seq_lib::lemma_sorted_unique(ids_of(steps@), ids.sort_by(leq), leq);
            lemma_first_gap_ids(steps@, 0);
        }
        let ghost sv = steps@;
        let r = Migrations::sequenced(steps, "embedded sequence");
        proof {
            lemma_first_gap_in_range(sv, 0);
            if let Some(at) = first_gap(sv, 0) {
                assert(ids_of(sv)[at] == sv[at].id);
            }
        }
        r
    }
}

} // verus!
