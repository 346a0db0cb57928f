//! The audit's filters, and the index each one rides.
//!
//! Five controls — actor, hat, object, command and a time range — make
//! sixty-four combinations, served by six statements: one per *lead*, the
//! lead being whichever control is present and most selective. Everything
//! else rides along as a `$n IS NULL OR …` predicate, so one statement serves
//! every combination that shares its lead.

use vstd::prelude::*;

verus! {

/// No filter: the primary key, walked backwards. This is the live tail.
pub const TAIL: &'static str = "SELECT a.id, a.command, a.actor_identity_id, a.acting_as, a.at, \
     a.payload, p.display_name AS actor_display, \
     act.kind AS acting_kind, act.display_name AS acting_display \
     FROM audit a \
     LEFT JOIN identity i ON i.id = a.actor_identity_id \
     LEFT JOIN party p ON p.id = i.person_id \
     LEFT JOIN party act ON act.id = a.acting_as \
     WHERE a.id < $1 \
       AND ($2 IS NULL OR a.actor_identity_id = $2) \
       AND ($3 IS NULL OR a.acting_as = $3) \
       AND ($4 IS NULL OR a.command = $4) \
       AND ($5 IS NULL OR a.at >= $5) \
       AND ($6 IS NULL OR a.at < $6) \
     ORDER BY a.id DESC LIMIT $7";

/// Led by the actor: `audit_actor_idx (actor_identity_id, id)`, which is both
/// the seek and the newest-first order inside it.
pub const BY_ACTOR: &'static str = "SELECT a.id, a.command, a.actor_identity_id, a.acting_as, a.at, \
     a.payload, p.display_name AS actor_display, \
     act.kind AS acting_kind, act.display_name AS acting_display \
     FROM audit a \
     LEFT JOIN identity i ON i.id = a.actor_identity_id \
     LEFT JOIN party p ON p.id = i.person_id \
     LEFT JOIN party act ON act.id = a.acting_as \
     WHERE a.actor_identity_id = $1 AND a.id < $2 \
       AND ($3 IS NULL OR a.acting_as = $3) \
       AND ($4 IS NULL OR a.command = $4) \
       AND ($5 IS NULL OR a.at >= $5) \
       AND ($6 IS NULL OR a.at < $6) \
     ORDER BY a.id DESC LIMIT $7";

/// Led by the hat — the party a command was attributed to, which after
/// `ActAs` and under impersonation is not the actor.
pub const BY_HAT: &'static str = "SELECT a.id, a.command, a.actor_identity_id, a.acting_as, a.at, \
     a.payload, p.display_name AS actor_display, \
     act.kind AS acting_kind, act.display_name AS acting_display \
     FROM audit a \
     LEFT JOIN identity i ON i.id = a.actor_identity_id \
     LEFT JOIN party p ON p.id = i.person_id \
     LEFT JOIN party act ON act.id = a.acting_as \
     WHERE a.acting_as = $1 AND a.id < $2 \
       AND ($3 IS NULL OR a.actor_identity_id = $3) \
       AND ($4 IS NULL OR a.command = $4) \
       AND ($5 IS NULL OR a.at >= $5) \
       AND ($6 IS NULL OR a.at < $6) \
     ORDER BY a.id DESC LIMIT $7";

/// Led by the command name: `audit_command_idx (command, id)`.
pub const BY_COMMAND: &'static str = "SELECT a.id, a.command, a.actor_identity_id, a.acting_as, a.at, \
     a.payload, p.display_name AS actor_display, \
     act.kind AS acting_kind, act.display_name AS acting_display \
     FROM audit a \
     LEFT JOIN identity i ON i.id = a.actor_identity_id \
     LEFT JOIN party p ON p.id = i.person_id \
     LEFT JOIN party act ON act.id = a.acting_as \
     WHERE a.command = $1 AND a.id < $2 \
       AND ($3 IS NULL OR a.actor_identity_id = $3) \
       AND ($4 IS NULL OR a.acting_as = $4) \
       AND ($5 IS NULL OR a.at >= $5) \
       AND ($6 IS NULL OR a.at < $6) \
     ORDER BY a.id DESC LIMIT $7";

/// Led by the time range, on `audit_at_idx`. Both ends are always bound — an
/// open end is the beginning or the end of time.
pub const BY_TIME: &'static str = "SELECT a.id, a.command, a.actor_identity_id, a.acting_as, a.at, \
     a.payload, p.display_name AS actor_display, \
     act.kind AS acting_kind, act.display_name AS acting_display \
     FROM audit a \
     LEFT JOIN identity i ON i.id = a.actor_identity_id \
     LEFT JOIN party p ON p.id = i.person_id \
     LEFT JOIN party act ON act.id = a.acting_as \
     WHERE a.at >= $1 AND a.at < $2 AND a.id < $3 \
       AND ($4 IS NULL OR a.actor_identity_id = $4) \
       AND ($5 IS NULL OR a.acting_as = $5) \
       AND ($6 IS NULL OR a.command = $6) \
     ORDER BY a.id DESC LIMIT $7";

/// Led by the object: everything one ruling was *about*. The side table
/// leads because it is the selective one.
pub const BY_OBJECT: &'static str = "SELECT a.id, a.command, a.actor_identity_id, a.acting_as, a.at, \
     a.payload, p.display_name AS actor_display, \
     act.kind AS acting_kind, act.display_name AS acting_display \
     FROM audit_object o JOIN audit a ON a.id = o.audit_id \
     LEFT JOIN identity i ON i.id = a.actor_identity_id \
     LEFT JOIN party p ON p.id = i.person_id \
     LEFT JOIN party act ON act.id = a.acting_as \
     WHERE o.kind = $1 AND o.id = $2 AND a.id < $3 \
       AND ($4 IS NULL OR a.actor_identity_id = $4) \
       AND ($5 IS NULL OR a.acting_as = $5) \
       AND ($6 IS NULL OR a.command = $6) \
       AND ($7 IS NULL OR a.at >= $7) \
       AND ($8 IS NULL OR a.at < $8) \
     ORDER BY a.id DESC LIMIT $9";

/// Every control the audit screen draws, by the parameter name it sends.
pub const CONTROLS: [&'static str; 6] = ["actor", "hat", "object", "command", "from", "to"];

/// The end of time, for a range with no upper bound. `audit.at` is unix
/// seconds, so this is not a value any row can hold.
pub const FOREVER: i64 = 9223372036854775807;

/// A statement parameter.
#[derive(Debug, Clone, PartialEq, Eq)]
pub enum Value {
    Null,
    Int(i64),
    Text(String),
}

/// A [`Value`], as the specifications speak of it.
pub enum ValueSpec {
    Null,
    Int(i64),
    Text(Seq<char>),
}

impl View for Value {
    type V = ValueSpec;

    open spec fn view(&self) -> ValueSpec {
        match self {
            Value::Null => ValueSpec::Null,
            Value::Int(i) => ValueSpec::Int(*i),
            Value::Text(s) => ValueSpec::Text(s@),
        }
    }
}

pub open spec fn values_view(v: Seq<Value>) -> Seq<ValueSpec> {
    v.map_values(|x: Value| x@)
}

/// What the controls asked for, once every public id has been decoded. An id
/// that did not decode was dropped rather than carried as a literal.
#[derive(Debug, Clone, PartialEq, Eq)]
pub struct Filter {
    /// The registration that ran the command.
    pub actor: Option<i64>,
    /// The party it was attributed to.
    pub hat: Option<i64>,
    /// A row it was about, as `audit_object` names it: its kind and rowid.
    pub object: Option<(&'static str, i64)>,
    /// The command's route name.
    pub command: Option<String>,
    /// The inclusive start of the range.
    pub from: Option<i64>,
    /// The exclusive end of it.
    pub to: Option<i64>,
}

pub open spec fn int_or_null(o: Option<i64>) -> ValueSpec {
    match o {
        Some(i) => ValueSpec::Int(i),
        None => ValueSpec::Null,
    }
}

pub open spec fn text_or_null(o: Option<String>) -> ValueSpec {
    match o {
        Some(s) => ValueSpec::Text(s@),
        None => ValueSpec::Null,
    }
}

/// Whether no control is set.
pub open spec fn no_control(f: Filter) -> bool {
    f.actor is None && f.hat is None && f.object is None && f.command is None && f.from is None
        && f.to is None
}

/// The statement a filter rides and its parameters: one arm per lead, in
/// order of selectivity, and everything not leading bound as an optional
/// predicate in the order that statement declares.
pub open spec fn planned(f: Filter, before: i64, limit: i64) -> (&'static str, Seq<ValueSpec>) {
    let actor = int_or_null(f.actor);
    let hat = int_or_null(f.hat);
    let command = text_or_null(f.command);
    let from = int_or_null(f.from);
    let to = int_or_null(f.to);
    match f.object {
        Some(o) => (BY_OBJECT, seq![ValueSpec::Text(o.0@), ValueSpec::Int(o.1), ValueSpec::Int(before), actor, hat, command, from, to, ValueSpec::Int(limit)]),
        None => match f.actor {
            Some(a) => (BY_ACTOR, seq![ValueSpec::Int(a), ValueSpec::Int(before), hat, command, from, to, ValueSpec::Int(limit)]),
            None => match f.hat {
                Some(h) => (BY_HAT, seq![ValueSpec::Int(h), ValueSpec::Int(before), actor, command, from, to, ValueSpec::Int(limit)]),
                None => match f.command {
                    Some(c) => (BY_COMMAND, seq![ValueSpec::Text(c@), ValueSpec::Int(before), actor, hat, from, to, ValueSpec::Int(limit)]),
                    None => if f.from is Some || f.to is Some {
                        (BY_TIME, seq![
                            ValueSpec::Int(match f.from { Some(t) => t, None => 0 }),
                            ValueSpec::Int(match f.to { Some(t) => t, None => FOREVER }),
                            ValueSpec::Int(before), actor, hat, command, ValueSpec::Int(limit),
                        ])
                    } else {
                        (TAIL, seq![ValueSpec::Int(before), actor, hat, command, from, to, ValueSpec::Int(limit)])
                    },
                },
            },
        },
    }
}

fn int_value(o: Option<i64>) -> (r: Value)
    ensures
        r@ == int_or_null(o),
{
    match o {
        Some(i) => Value::Int(i),
        None => Value::Null,
    }
}

fn text_value(o: &Option<String>) -> (r: Value)
    ensures
        r@ == text_or_null(*o),
{
    match o {
        Some(s) => Value::Text(s.clone()),
        None => Value::Null,
    }
}

impl Filter {
    /// No control set at all.
    pub fn new() -> (r: Filter)
        ensures
            no_control(r),
    {
        Filter { actor: None, hat: None, object: None, command: None, from: None, to: None }
    }

    /// Whether any control is set at all.
    pub fn is_empty(&self) -> (r: bool)
        ensures
            r == no_control(*self),
    {
        self.actor.is_none() && self.hat.is_none() && self.object.is_none() && self.command.is_none()
            && self.from.is_none() && self.to.is_none()
    }

    /// The statement this combination rides, and its parameters.
    pub fn plan(&self, before: i64, limit: i64) -> (r: (&'static str, Vec<Value>))
        ensures
            r.0 == planned(*self, before, limit).0,
            values_view(r.1@) == planned(*self, before, limit).1,
    {
        let actor = int_value(self.actor);
        let hat = int_value(self.hat);
        let command = text_value(&self.command);
        let from = int_value(self.from);
        let to = int_value(self.to);
        let r = match self.object {
            Some((kind, id)) => (BY_OBJECT, vec![
                Value::Text(String::from_str(kind)), Value::Int(id), Value::Int(before), actor, hat,
                command, from, to, Value::Int(limit),
            ]),
            None => match self.actor {
                Some(a) => (BY_ACTOR, vec![Value::Int(a), Value::Int(before), hat, command, from, to, Value::Int(limit)]),
                None => match self.hat {
                    Some(h) => (BY_HAT, vec![Value::Int(h), Value::Int(before), actor, command, from, to, Value::Int(limit)]),
                    None => match &self.command {
                        Some(c) => (BY_COMMAND, vec![
                            Value::Text(c.clone()), Value::Int(before), actor, hat, from, to, Value::Int(limit),
                        ]),
                        None => if self.from.is_some() || self.to.is_some() {
                            let start = match self.from { Some(t) => t, None => 0 };
                            let end = match self.to { Some(t) => t, None => FOREVER };
                            (BY_TIME, vec![
                                Value::Int(start), Value::Int(end), Value::Int(before), actor, hat, command,
                                Value::Int(limit),
                            ])
                        } else {
                            (TAIL, vec![Value::Int(before), actor, hat, command, from, to, Value::Int(limit)])
                        },
                    },
                },
            },
        };
        assert(values_view(r.1@) =~= planned(*self, before, limit).1);
        r
    }
}

impl Default for Filter {
    fn default() -> (r: Filter)
        ensures
            no_control(r),
    {
        Filter::new()
    }
}


/// No control is dropped: whichever statement a filter rides, every control
/// it sets is bound among that statement's parameters — the lead as the
/// seek, the rest as their optional predicates — and a filter that sets
/// nothing rides the live tail.
pub proof fn lemma_every_control_is_bound(f: Filter, before: i64, limit: i64)
    ensures
        ({
            let p = planned(f, before, limit).1;
            &&& f.actor matches Some(a) ==> p.contains(ValueSpec::Int(a))
            &&& f.hat matches Some(h) ==> p.contains(ValueSpec::Int(h))
            &&& f.command matches Some(c) ==> p.contains(ValueSpec::Text(c@))
            &&& f.from matches Some(t) ==> p.contains(ValueSpec::Int(t))
            &&& f.to matches Some(t) ==> p.contains(ValueSpec::Int(t))
            &&& f.object matches Some(o) ==> p.contains(ValueSpec::Text(o.0@)) && p.contains(ValueSpec::Int(o.1))
            &&& p.contains(ValueSpec::Int(before))
            &&& p.last() == ValueSpec::Int(limit)
            &&& no_control(f) ==> planned(f, before, limit).0 == TAIL
        }),
{
    let p = planned(f, before, limit).1;
    assert(p.len() >= 7);
    if f.object is Some {
        assert(p[0] == ValueSpec::Text(f.object->Some_0.0@));
        assert(p[1] == ValueSpec::Int(f.object->Some_0.1));
        assert(p[2] == ValueSpec::Int(before));
        assert(p[3] == int_or_null(f.actor));
        assert(p[4] == int_or_null(f.hat));
        assert(p[5] == text_or_null(f.command));
        assert(p[6] == int_or_null(f.from));
        assert(p[7] == int_or_null(f.to));
    } else if f.actor is Some {
        assert(p[0] == ValueSpec::Int(f.actor->Some_0));
        assert(p[1] == ValueSpec::Int(before));
        assert(p[2] == int_or_null(f.hat));
        assert(p[3] == text_or_null(f.command));
        assert(p[4] == int_or_null(f.from));
        assert(p[5] == int_or_null(f.to));
    } else if f.hat is Some {
        assert(p[0] == ValueSpec::Int(f.hat->Some_0));
        assert(p[1] == ValueSpec::Int(before));
        assert(p[3] == text_or_null(f.command));
        assert(p[4] == int_or_null(f.from));
        assert(p[5] == int_or_null(f.to));
    } else if f.command is Some {
        assert(p[0] == ValueSpec::Text(f.command->Some_0@));
        assert(p[1] == ValueSpec::Int(before));
        assert(p[4] == int_or_null(f.from));
        assert(p[5] == int_or_null(f.to));
    } else if f.from is Some || f.to is Some {
        assert(p[0] == ValueSpec::Int(match f.from { Some(t) => t, None => 0 }));
        assert(p[1] == ValueSpec::Int(match f.to { Some(t) => t, None => FOREVER }));
        assert(p[2] == ValueSpec::Int(before));
    } else {
        assert(p[0] == ValueSpec::Int(before));
    }
}

} // verus!
