//! `rn-site admin <command>`: the argument vector, read into a request.
//!
//! Parsing comes before anything is opened — a typo must not cost a database
//! open — and every refusal names the part of the line that was wrong.

use vstd::prelude::*;

use super::{Action, ActionSpec, AdminError, opt_view};
use crate::config::Mode;
use crate::text::{
    chars_of, concat, debug_quote, debug_quoted, decimal, parse_usize, push_decimal, same,
    usize_of,
};

verus! {

/// The subcommand word. `main` looks for it before it opens anything.
pub const SUBCOMMAND: &'static str = "admin";

/// What `--help`, and every usage error, prints after the refusal.
pub const USAGE: &'static str = "rn-site admin <command> [--as <email>]

  operators                       who holds platform:* #operator
  grant-operator <who> --reason <why> --as <email>
  revoke-operator <who> --reason <why> --as <email>
  sessions [--person <who>]       live sessions, newest first
  revoke-session <id> --as <email>
  products                        which products this deployment serves
  enable <slug> --as <email>
  disable <slug> --as <email>
  audit --tail <n>                the newest n rows of the whole history
  backup <dir>                    a logical backup, with a manifest
  restore <dir>                   put one back, onto an empty database
  wipe                            empty this deployment (dev only)

<who> is an address or a person's public id.
--as names who is accountable; it is required by everything that writes, and
it grants nothing — the command still asks what that person may do.
";

/// What the argument vector asked for.
#[derive(Debug, Clone, PartialEq, Eq)]
pub enum Request {
    /// One of the actions both front doors share, and who answers for it.
    Act { action: Action, who: Option<String> },
    /// A whole-database act into a directory, which is not a command.
    Backup(String),
    /// The same, in reverse.
    Restore(String),
    /// Empty this deployment. Dev only.
    Wipe,
}

/// A [`Request`], as the specifications speak of it.
pub enum RequestSpec {
    Act { action: ActionSpec, who: Option<Seq<char>> },
    Backup(Seq<char>),
    Restore(Seq<char>),
    Wipe,
}

impl View for Request {
    type V = RequestSpec;

    open spec fn view(&self) -> RequestSpec {
        match self {
            Request::Act { action, who } => RequestSpec::Act { action: action@, who: opt_view(*who) },
            Request::Backup(d) => RequestSpec::Backup(d@),
            Request::Restore(d) => RequestSpec::Restore(d@),
            Request::Wipe => RequestSpec::Wipe,
        }
    }
}

pub open spec fn strs(v: Seq<String>) -> Seq<Seq<char>> {
    v.map_values(|s: String| s@)
}

/// The flags and words of a line, as far as it has been read.
pub struct Gathered {
    pub positional: Seq<Seq<char>>,
    pub who: Option<Seq<char>>,
    pub person: Option<Seq<char>>,
    pub reason: Option<Seq<char>>,
    pub tail: Option<usize>,
}

/// The value a flag at `i - 1` takes: the next word, which must exist and
/// must not be empty.
pub open spec fn flag_value(args: Seq<Seq<char>>, i: int, flag: Seq<char>) -> Result<Seq<char>, Seq<char>> {
    if 0 <= i < args.len() && args[i].len() > 0 {
        Ok(args[i])
    } else {
        Err(flag + " wants a value"@)
    }
}

/// The words from `i` on, read left to right into `g`; the first refusal
/// ends the reading.
pub open spec fn gather(args: Seq<Seq<char>>, i: int, g: Gathered) -> Result<Gathered, Seq<char>>
    decreases args.len() - i,
{
    if i < 0 || i >= args.len() {
        Ok(g)
    } else {
        let a = args[i];
        if a == "--as"@ {
            match flag_value(args, i + 1, "--as"@) {
                Err(m) => Err(m),
                Ok(v) => gather(args, i + 2, Gathered { who: Some(v), ..g }),
            }
        } else if a == "--reason"@ {
            match flag_value(args, i + 1, "--reason"@) {
                Err(m) => Err(m),
                Ok(v) => gather(args, i + 2, Gathered { reason: Some(v), ..g }),
            }
        } else if a == "--person"@ {
            match flag_value(args, i + 1, "--person"@) {
                Err(m) => Err(m),
                Ok(v) => gather(args, i + 2, Gathered { person: Some(v), ..g }),
            }
        } else if a == "--tail"@ {
            match flag_value(args, i + 1, "--tail"@) {
                Err(m) => Err(m),
                Ok(v) => match usize_of(v) {
                    None => Err("--tail wants a number, not "@ + debug_quote(v)),
                    Some(n) => gather(args, i + 2, Gathered { tail: Some(n), ..g }),
                },
            }
        } else if a == "-h"@ || a == "--help"@ {
            Err("here is what it does"@)
        } else if a.len() > 0 && a[0] == '-' {
            Err("unknown option "@ + a)
        } else {
            gather(args, i + 1, Gathered { positional: g.positional.push(a), ..g })
        }
    }
}

/// The one argument a command takes.
pub open spec fn one_of(command: Seq<char>, arguments: Seq<Seq<char>>, what: Seq<char>) -> Result<Seq<char>, Seq<char>> {
    if arguments.len() == 1 {
        Ok(arguments[0])
    } else if arguments.len() == 0 {
        Err(command + " wants "@ + what)
    } else {
        Err(command + " wants one "@ + what + ", not "@ + decimal(arguments.len()))
    }
}

pub open spec fn takes_none(command: Seq<char>) -> Seq<char> {
    command + " takes no arguments"@
}

pub open spec fn reason_of(command: Seq<char>, reason: Option<Seq<char>>) -> Result<Seq<char>, Seq<char>> {
    match reason {
        Some(r) => Ok(r),
        None => Err(command
            + " wants --reason: a delegation of full authority with no stated reason is a row nobody can account for afterwards"@),
    }
}

pub open spec fn act(action: ActionSpec, g: Gathered) -> Result<RequestSpec, Seq<char>> {
    Ok(RequestSpec::Act { action, who: g.who })
}

pub open spec fn person_what() -> Seq<char> {
    "an address or a person's public id"@
}

/// The request a fully read line makes.
pub open spec fn decide(g: Gathered) -> Result<RequestSpec, Seq<char>> {
    if g.positional.len() == 0 {
        Err("name a command"@)
    } else {
        let command = g.positional[0];
        let arguments = g.positional.drop_first();
        if command == "operators"@ {
            if arguments.len() == 0 { act(ActionSpec::Operators, g) } else { Err(takes_none(command)) }
        } else if command == "grant-operator"@ {
            match one_of(command, arguments, person_what()) {
                Err(m) => Err(m),
                Ok(p) => match reason_of(command, g.reason) {
                    Err(m) => Err(m),
                    Ok(r) => act(ActionSpec::GrantOperator { person: p, reason: r }, g),
                },
            }
        } else if command == "revoke-operator"@ {
            match one_of(command, arguments, person_what()) {
                Err(m) => Err(m),
                Ok(p) => match reason_of(command, g.reason) {
                    Err(m) => Err(m),
                    Ok(r) => act(ActionSpec::RevokeOperator { person: p, reason: r }, g),
                },
            }
        } else if command == "sessions"@ {
            if arguments.len() == 0 {
                act(ActionSpec::Sessions { person: g.person }, g)
            } else {
                Err(takes_none(command))
            }
        } else if command == "revoke-session"@ {
            match one_of(command, arguments, "a session's public id"@) {
                Err(m) => Err(m),
                Ok(s) => act(ActionSpec::RevokeSession { session: s }, g),
            }
        } else if command == "products"@ {
            if arguments.len() == 0 { act(ActionSpec::Products, g) } else { Err(takes_none(command)) }
        } else if command == "enable"@ || command == "disable"@ {
            match one_of(command, arguments, "a product slug"@) {
                Err(m) => Err(m),
                Ok(s) => act(ActionSpec::SetProduct { slug: s, enabled: command == "enable"@ }, g),
            }
        } else if command == "audit"@ {
            if arguments.len() == 0 {
                act(ActionSpec::Audit { tail: match g.tail { Some(t) => t, None => 20 } }, g)
            } else {
                Err(takes_none(command))
            }
        } else if command == "backup"@ {
            match one_of(command, arguments, "a directory"@) {
                Err(m) => Err(m),
                Ok(d) => Ok(RequestSpec::Backup(d)),
            }
        } else if command == "restore"@ {
            match one_of(command, arguments, "a directory"@) {
                Err(m) => Err(m),
                Ok(d) => Ok(RequestSpec::Restore(d)),
            }
        } else if command == "wipe"@ {
            if arguments.len() == 0 { Ok(RequestSpec::Wipe) } else { Err(takes_none(command)) }
        } else {
            Err(command + " is not a command"@)
        }
    }
}

pub open spec fn empty_gathered() -> Gathered {
    Gathered { positional: Seq::empty(), who: None, person: None, reason: None, tail: None }
}

/// What a whole argument vector asks for, or why it asks for nothing.
pub open spec fn parsed(args: Seq<Seq<char>>) -> Result<RequestSpec, Seq<char>> {
    match gather(args, 0, empty_gathered()) {
        Err(m) => Err(m),
        Ok(g) => decide(g),
    }
}

pub open spec fn parse_outcome(r: Result<Request, String>) -> Result<RequestSpec, Seq<char>> {
    match r {
        Ok(q) => Ok(q@),
        Err(m) => Err(m@),
    }
}

/// The word after a flag, or the refusal that names the flag.
pub fn value(argv: &[String], at: usize, flag: &str) -> (r: Result<String, String>)
    ensures
        match r {
            Ok(v) => flag_value(strs(argv@), at as int, flag@) == Ok::<Seq<char>, Seq<char>>(v@),
            Err(m) => flag_value(strs(argv@), at as int, flag@) == Err::<Seq<char>, Seq<char>>(m@),
        },
{
    if at < argv.len() && argv[at].as_str().unicode_len() > 0 {
        assert(strs(argv@)[at as int] == argv@[at as int]@);
        Ok(argv[at].clone())
    } else {
        proof {
            if at < argv.len() {
                assert(strs(argv@)[at as int] == argv@[at as int]@);
            }
        }
        Err(concat(flag, " wants a value"))
    }
}

fn one(command: &str, arguments: &[String], what: &str) -> (r: Result<String, String>)
    ensures
        match r {
            Ok(v) => one_of(command@, strs(arguments@), what@) == Ok::<Seq<char>, Seq<char>>(v@),
            Err(m) => one_of(command@, strs(arguments@), what@) == Err::<Seq<char>, Seq<char>>(m@),
        },
{
    if arguments.len() == 1 {
        assert(strs(arguments@)[0] == arguments@[0]@);
        Ok(arguments[0].clone())
    } else if arguments.len() == 0 {
        let r = concat(command, " wants ");
        Err(concat(r.as_str(), what))
    } else {
        let r = concat(command, " wants one ");
        let r = concat(r.as_str(), what);
        let mut r = concat(r.as_str(), ", not ");
        push_decimal(&mut r, arguments.len() as u64);
        Err(r)
    }
}

fn no_arguments(command: &str) -> (r: String)
    ensures
        r@ == takes_none(command@),
{
    concat(command, " takes no arguments")
}

fn acted(action: Action, who: &Option<String>) -> (r: Request)
    ensures
        r@ == (RequestSpec::Act { action: action@, who: opt_view(*who) }),
{
    Request::Act { action, who: who.clone() }
}

fn stated_reason(command: &str, reason: &Option<String>) -> (r: Result<String, String>)
    ensures
        match r {
            Ok(v) => reason_of(command@, opt_view(*reason)) == Ok::<Seq<char>, Seq<char>>(v@),
            Err(m) => reason_of(command@, opt_view(*reason)) == Err::<Seq<char>, Seq<char>>(m@),
        },
{
    match reason {
        Some(r) => Ok(r.clone()),
        None => Err(concat(
            command,
            " wants --reason: a delegation of full authority with no stated reason is a row nobody can account for afterwards",
        )),
    }
}

/// Every word but the first.
fn after_first(v: &Vec<String>) -> (r: Vec<String>)
    requires
        v@.len() > 0,
    ensures
        strs(r@) == strs(v@).drop_first(),
{
    let mut r: Vec<String> = Vec::new();
    let mut k: usize = 1;
    while k < v.len()
        invariant
            1 <= k <= v@.len(),
            strs(r@) == strs(v@).subrange(1, k as int),
        decreases v@.len() - k,
    {
        let ghost before = strs(r@);
        r.push(v[k].clone());
        assert(strs(r@) =~= before.push(v@[k as int]@));
        assert(strs(v@).subrange(1, k + 1) =~= strs(v@).subrange(1, k as int).push(strs(v@)[k as int]));
        k = k + 1;
    }
    assert(strs(v@).subrange(1, v@.len() as int) =~= strs(v@).drop_first());
    r
}

/// The request the gathered words make.
fn decided(positional: &Vec<String>, who: &Option<String>, person: &Option<String>, why: &Option<String>, tail: Option<usize>) -> (r: Result<Request, String>)
    ensures
        parse_outcome(r) == decide(Gathered {
            positional: strs(positional@),
            who: opt_view(*who),
            person: opt_view(*person),
            reason: opt_view(*why),
            tail,
        }),
{
    let ghost g = Gathered {
        positional: strs(positional@),
        who: opt_view(*who),
        person: opt_view(*person),
        reason: opt_view(*why),
        tail,
    };
    if positional.len() == 0 {
        return Err(String::from_str("name a command"));
    }
    let command = positional[0].as_str();
    let rest = after_first(positional);
    let arguments = rest.as_slice();
    assert(g.positional[0] == command@);
    assert(strs(arguments@) =~= g.positional.drop_first());
    if same(command, "operators") {
        if arguments.len() == 0 { Ok(acted(Action::Operators, who)) } else { Err(no_arguments(command)) }
    } else if same(command, "grant-operator") {
        let p = one(command, arguments, "an address or a person's public id")?;
        let r = stated_reason(command, why)?;
        Ok(acted(Action::GrantOperator { person: p, reason: r }, who))
    } else if same(command, "revoke-operator") {
        let p = one(command, arguments, "an address or a person's public id")?;
        let r = stated_reason(command, why)?;
        Ok(acted(Action::RevokeOperator { person: p, reason: r }, who))
    } else if same(command, "sessions") {
        if arguments.len() == 0 {
            Ok(acted(Action::Sessions { person: person.clone() }, who))
        } else {
            Err(no_arguments(command))
        }
    } else if same(command, "revoke-session") {
        let s = one(command, arguments, "a session's public id")?;
        Ok(acted(Action::RevokeSession { session: s }, who))
    } else if same(command, "products") {
        if arguments.len() == 0 { Ok(acted(Action::Products, who)) } else { Err(no_arguments(command)) }
    } else if same(command, "enable") || same(command, "disable") {
        let s = one(command, arguments, "a product slug")?;
        let enabled = same(command, "enable");
        Ok(acted(Action::SetProduct { slug: s, enabled }, who))
    } else if same(command, "audit") {
        if arguments.len() == 0 {
            let t = match tail { Some(t) => t, None => 20 };
            Ok(acted(Action::Audit { tail: t }, who))
        } else {
            Err(no_arguments(command))
        }
    } else if same(command, "backup") {
        let d = one(command, arguments, "a directory")?;
        Ok(Request::Backup(d))
    } else if same(command, "restore") {
        let d = one(command, arguments, "a directory")?;
        Ok(Request::Restore(d))
    } else if same(command, "wipe") {
        if arguments.len() == 0 { Ok(Request::Wipe) } else { Err(no_arguments(command)) }
    } else {
        Err(concat(command, " is not a command"))
    }
}

/// Read an argument vector into the request it makes.
///
/// Flags may stand anywhere on the line and each takes the word after it;
/// everything else is positional, the first word naming the command.
pub fn parse(argv: &[String]) -> (r: Result<Request, String>)
    ensures
        parse_outcome(r) == parsed(strs(argv@)),
{
    let ghost args = strs(argv@);
    let mut positional: Vec<String> = Vec::new();
    let mut who: Option<String> = None;
    let mut person: Option<String> = None;
    let mut why: Option<String> = None;
    let mut tail: Option<usize> = None;
    let mut i: usize = 0;
    assert(strs(positional@) =~= Seq::<Seq<char>>::empty());
    while i < argv.len()
        invariant
            i <= argv@.len(),
            args == strs(argv@),
            gather(args, 0, empty_gathered()) == gather(args, i as int, Gathered {
                positional: strs(positional@),
                who: opt_view(who),
                person: opt_view(person),
                reason: opt_view(why),
                tail,
            }),
        decreases argv@.len() - i,
    {
        let a = argv[i].as_str();
        assert(args[i as int] == a@);
        if same(a, "--as") {
            let v = value(argv, i + 1, "--as")?;
            who = Some(v);
            i = i + 2;
        } else if same(a, "--reason") {
            let v = value(argv, i + 1, "--reason")?;
            why = Some(v);
            i = i + 2;
        } else if same(a, "--person") {
            let v = value(argv, i + 1, "--person")?;
            person = Some(v);
            i = i + 2;
        } else if same(a, "--tail") {
            let raw = value(argv, i + 1, "--tail")?;
            let digits = chars_of(raw.as_str());
            match parse_usize(&digits) {
                None => {
                    let quoted = debug_quoted(raw.as_str());
                    return Err(concat("--tail wants a number, not ", quoted.as_str()));
                },
                Some(n) => {
                    tail = Some(n);
                    i = i + 2;
                },
            }
        } else if same(a, "-h") || same(a, "--help") {
            return Err(String::from_str("here is what it does"));
        } else if a.unicode_len() > 0 && a.get_char(0) == '-' {
            return Err(concat("unknown option ", a));
        } else {
            let ghost before = strs(positional@);
            positional.push(argv[i].clone());
            assert(strs(positional@) =~= before.push(a@));
            i = i + 1;
        }
    }
    decided(&positional, &who, &person, &why, tail)
}

/// What is said when a production deployment is asked to wipe itself.
pub const WIPE_REFUSAL: &'static str = "refusing to wipe a deployment in mode=prod. This subcommand exists for a disposable-dev instance and there is no flag that turns it on here — if this really is a throwaway, set RN_SITE__MODE=dev on the invocation and it will run.";

/// Whether a request is refused on the configuration alone, before the
/// database is opened: a wipe, in production.
pub fn wipe_refused(request: &Request, mode: Mode) -> (r: bool)
    ensures
        r == (request@ is Wipe && mode == Mode::Prod),
{
    match request {
        Request::Wipe => match mode {
            Mode::Prod => true,
            Mode::Dev => false,
        },
        _ => false,
    }
}

/// The process's exit status for a refusal: `2` for a usage error, `1` for
/// anything else, so a script can branch without parsing English.
pub fn exit_code(error: &AdminError) -> (r: i32)
    ensures
        r == if error is Usage { 2i32 } else { 1i32 },
{
    match error {
        AdminError::Usage(_) => 2,
        _ => 1,
    }
}


/// The four flags that take a value.
#[derive(Debug, Clone, Copy, PartialEq, Eq, Structural)]
pub enum Flag {
    As,
    Reason,
    Person,
    Tail,
}

/// How a flag is spelled on the line.
pub open spec fn flag_word(f: Flag) -> Seq<char> {
    match f {
        Flag::As => "--as"@,
        Flag::Reason => "--reason"@,
        Flag::Person => "--person"@,
        Flag::Tail => "--tail"@,
    }
}

/// Whether `v` is a value the flag accepts.
pub open spec fn takes(f: Flag, v: Seq<char>) -> bool {
    &&& v.len() > 0
    &&& f is Tail ==> usize_of(v) is Some
}

/// A reading with the flag set to `v`.
pub open spec fn with_flag(g: Gathered, f: Flag, v: Seq<char>) -> Gathered {
    match f {
        Flag::As => Gathered { who: Some(v), ..g },
        Flag::Reason => Gathered { reason: Some(v), ..g },
        Flag::Person => Gathered { person: Some(v), ..g },
        Flag::Tail => Gathered { tail: usize_of(v), ..g },
    }
}

/// Whether a reading has not met the flag.
pub open spec fn flag_unset(g: Gathered, f: Flag) -> bool {
    match f {
        Flag::As => g.who is None,
        Flag::Reason => g.reason is None,
        Flag::Person => g.person is None,
        Flag::Tail => g.tail is None,
    }
}

/// A flag and its value, read at `i`.
proof fn lemma_flag_step(args: Seq<Seq<char>>, i: int, g: Gathered, f: Flag)
    requires
        0 <= i,
        i + 1 < args.len(),
        args[i] == flag_word(f),
        takes(f, args[i + 1]),
    ensures
        gather(args, i, g) == gather(args, i + 2, with_flag(g, f, args[i + 1])),
{
    reveal_strlit("--as");
    reveal_strlit("--reason");
    reveal_strlit("--person");
    reveal_strlit("--tail");
    assert("--as"@.len() != "--reason"@.len());
    assert("--as"@.len() != "--person"@.len());
    assert("--as"@.len() != "--tail"@.len());
    assert("--reason"@[2] != "--person"@[2]);
    assert("--reason"@.len() != "--tail"@.len());
    assert("--person"@.len() != "--tail"@.len());
}

/// Once a reading has met a flag, it never forgets it.
proof fn lemma_flag_stays(args: Seq<Seq<char>>, i: int, g: Gathered, f: Flag)
    requires
        !flag_unset(g, f),
        gather(args, i, g) is Ok,
    ensures
        !flag_unset(gather(args, i, g)->Ok_0, f),
    decreases args.len() - i,
{
    if 0 <= i < args.len() {
        let a = args[i];
        if a == "--as"@ {
            lemma_flag_stays(args, i + 2, Gathered { who: Some(args[i + 1]), ..g }, f);
        } else if a == "--reason"@ {
            lemma_flag_stays(args, i + 2, Gathered { reason: Some(args[i + 1]), ..g }, f);
        } else if a == "--person"@ {
            lemma_flag_stays(args, i + 2, Gathered { person: Some(args[i + 1]), ..g }, f);
        } else if a == "--tail"@ {
            let n = usize_of(args[i + 1])->Some_0;
            lemma_flag_stays(args, i + 2, Gathered { tail: Some(n), ..g }, f);
        } else if !(a == "-h"@ || a == "--help"@) && !(a.len() > 0 && a[0] == '-') {
            lemma_flag_stays(args, i + 1, Gathered { positional: g.positional.push(a), ..g }, f);
        }
    }
}

/// A reading that never meets a flag reads the same whatever that flag was
/// set to before it began.
proof fn lemma_flag_free(args: Seq<Seq<char>>, i: int, g: Gathered, f: Flag, v: Seq<char>)
    requires
        flag_unset(g, f),
        gather(args, i, g) matches Ok(h) && flag_unset(h, f),
    ensures
        gather(args, i, with_flag(g, f, v))
            == Ok::<Gathered, Seq<char>>(with_flag(gather(args, i, g)->Ok_0, f, v)),
    decreases args.len() - i,
{
    if 0 <= i < args.len() {
        let a = args[i];
        if a == "--as"@ {
            let next = Gathered { who: Some(args[i + 1]), ..g };
            if f == Flag::As {
                lemma_flag_stays(args, i + 2, next, f);
            } else {
                lemma_flag_free(args, i + 2, next, f, v);
                assert(Gathered { who: Some(args[i + 1]), ..with_flag(g, f, v) } == with_flag(next, f, v));
            }
        } else if a == "--reason"@ {
            let next = Gathered { reason: Some(args[i + 1]), ..g };
            if f == Flag::Reason {
                lemma_flag_stays(args, i + 2, next, f);
            } else {
                lemma_flag_free(args, i + 2, next, f, v);
                assert(Gathered { reason: Some(args[i + 1]), ..with_flag(g, f, v) } == with_flag(next, f, v));
            }
        } else if a == "--person"@ {
            let next = Gathered { person: Some(args[i + 1]), ..g };
            if f == Flag::Person {
                lemma_flag_stays(args, i + 2, next, f);
            } else {
                lemma_flag_free(args, i + 2, next, f, v);
                assert(Gathered { person: Some(args[i + 1]), ..with_flag(g, f, v) } == with_flag(next, f, v));
            }
        } else if a == "--tail"@ {
            let n = usize_of(args[i + 1])->Some_0;
            let next = Gathered { tail: Some(n), ..g };
            if f == Flag::Tail {
                lemma_flag_stays(args, i + 2, next, f);
            } else {
                lemma_flag_free(args, i + 2, next, f, v);
                assert(Gathered { tail: Some(n), ..with_flag(g, f, v) } == with_flag(next, f, v));
            }
        } else if !(a == "-h"@ || a == "--help"@) && !(a.len() > 0 && a[0] == '-') {
            let next = Gathered { positional: g.positional.push(a), ..g };
            lemma_flag_free(args, i + 1, next, f, v);
            assert(Gathered { positional: with_flag(g, f, v).positional.push(a), ..with_flag(g, f, v) }
                == with_flag(next, f, v));
        }
    }
}

/// Words put in front of a line are read first and change nothing about
/// how the rest of it reads.
proof fn lemma_after_prefix(p: Seq<Seq<char>>, args: Seq<Seq<char>>, i: int, g: Gathered)
    requires
        0 <= i <= args.len(),
    ensures
        gather(p + args, p.len() + i, g) == gather(args, i, g),
    decreases args.len() - i,
{
    let l = p + args;
    if i < args.len() {
        assert(l[p.len() + i] == args[i]);
        assert(flag_value(l, p.len() + i + 1, "--as"@) == flag_value(args, i + 1, "--as"@));
        assert(flag_value(l, p.len() + i + 1, "--reason"@) == flag_value(args, i + 1, "--reason"@));
        assert(flag_value(l, p.len() + i + 1, "--person"@) == flag_value(args, i + 1, "--person"@));
        assert(flag_value(l, p.len() + i + 1, "--tail"@) == flag_value(args, i + 1, "--tail"@));
        let a = args[i];
        if a == "--as"@ || a == "--reason"@ || a == "--person"@ || a == "--tail"@ {
            if i + 1 < args.len() {
                assert(l[p.len() + i + 1] == args[i + 1]);
                lemma_after_prefix(p, args, i + 2, Gathered { who: Some(args[i + 1]), ..g });
                lemma_after_prefix(p, args, i + 2, Gathered { reason: Some(args[i + 1]), ..g });
                lemma_after_prefix(p, args, i + 2, Gathered { person: Some(args[i + 1]), ..g });
                if usize_of(args[i + 1]) is Some {
                    lemma_after_prefix(p, args, i + 2, Gathered { tail: Some(usize_of(args[i + 1])->Some_0), ..g });
                }
            }
        } else {
            lemma_after_prefix(p, args, i + 1, Gathered { positional: g.positional.push(a), ..g });
        }
    }
}

/// A line that reads without error reads the same with more words after it,
/// up to where it ended: what follows is read from the state it left.
proof fn lemma_before_suffix(args: Seq<Seq<char>>, s: Seq<Seq<char>>, i: int, g: Gathered)
    requires
        0 <= i <= args.len(),
        gather(args, i, g) is Ok,
    ensures
        gather(args + s, i, g) == gather(args + s, args.len() as int, gather(args, i, g)->Ok_0),
    decreases args.len() - i,
{
    let l = args + s;
    if i < args.len() {
        assert(l[i] == args[i]);
        let a = args[i];
        if a == "--as"@ || a == "--reason"@ || a == "--person"@ || a == "--tail"@ {
            assert(i + 1 < args.len());
            assert(l[i + 1] == args[i + 1]);
            assert(flag_value(l, i + 1, "--as"@) == flag_value(args, i + 1, "--as"@));
            assert(flag_value(l, i + 1, "--reason"@) == flag_value(args, i + 1, "--reason"@));
            assert(flag_value(l, i + 1, "--person"@) == flag_value(args, i + 1, "--person"@));
            assert(flag_value(l, i + 1, "--tail"@) == flag_value(args, i + 1, "--tail"@));
            if a == "--as"@ {
                lemma_before_suffix(args, s, i + 2, Gathered { who: Some(args[i + 1]), ..g });
            } else if a == "--reason"@ {
                lemma_before_suffix(args, s, i + 2, Gathered { reason: Some(args[i + 1]), ..g });
            } else if a == "--person"@ {
                lemma_before_suffix(args, s, i + 2, Gathered { person: Some(args[i + 1]), ..g });
            } else {
                lemma_before_suffix(args, s, i + 2, Gathered { tail: Some(usize_of(args[i + 1])->Some_0), ..g });
            }
        } else {
            lemma_before_suffix(args, s, i + 1, Gathered { positional: g.positional.push(a), ..g });
        }
    }
}

/// A flag is not a position: a flag and its value may stand between any
/// two words of a line that do not split another flag from its value, and
/// the line makes the same request as with the pair at its end, the one the
/// rest of the line makes with that flag set. So moving the pair from one
/// such place to another never changes what is asked.
pub proof fn lemma_flag_anywhere(p: Seq<Seq<char>>, q: Seq<Seq<char>>, f: Flag, v: Seq<char>)
    requires
        takes(f, v),
        gather(p, 0, empty_gathered()) is Ok,
        gather(p + q, 0, empty_gathered()) matches Ok(g) && flag_unset(g, f),
    ensures
        parsed(p + seq![flag_word(f), v] + q) == parsed(p + q + seq![flag_word(f), v]),
        parsed(p + q + seq![flag_word(f), v])
            == decide(with_flag(gather(p + q, 0, empty_gathered())->Ok_0, f, v)),
{
    let e = empty_gathered();
    let pair = seq![flag_word(f), v];
    let gp = gather(p, 0, e)->Ok_0;
    let g = gather(p + q, 0, e)->Ok_0;
    // The line without the pair reads `q` from where `p` left off.
    lemma_before_suffix(p, q, 0, e);
    lemma_after_prefix(p, q, 0, gp);
    assert(p.len() + 0 == p.len());
    if !flag_unset(gp, f) {
        lemma_flag_stays(q, 0, gp, f);
    }
    lemma_flag_free(q, 0, gp, f, v);
    // With the pair inside.
    let inside = p + pair + q;
    assert(inside =~= p + (pair + q));
    lemma_before_suffix(p, pair + q, 0, e);
    assert(inside[p.len() as int] == flag_word(f));
    assert(inside[p.len() as int + 1] == v);
    lemma_flag_step(inside, p.len() as int, gp, f);
    lemma_after_prefix(p + pair, q, 0, with_flag(gp, f, v));
    assert((p + pair).len() + 0 == p.len() + 2);
    // With the pair at the end.
    let back = p + q + pair;
    lemma_before_suffix(p + q, pair, 0, e);
    assert(back[(p + q).len() as int] == flag_word(f));
    assert(back[(p + q).len() as int + 1] == v);
    lemma_flag_step(back, (p + q).len() as int, g, f);
}

/// `--as` in particular: naming who is accountable at the front of a line
/// or at its end makes the same request, the one the rest of the line makes
/// with that person answering for it.
pub proof fn lemma_as_anywhere(args: Seq<Seq<char>>, who: Seq<char>)
    requires
        who.len() > 0,
        gather(args, 0, empty_gathered()) matches Ok(g) && g.who is None,
    ensures
        parsed(seq!["--as"@, who] + args) == parsed(args + seq!["--as"@, who]),
        parsed(args + seq!["--as"@, who])
            == decide(Gathered { who: Some(who), ..gather(args, 0, empty_gathered())->Ok_0 }),
{
    let none = Seq::<Seq<char>>::empty();
    assert(none + args =~= args);
    assert(none + seq!["--as"@, who] + args =~= seq!["--as"@, who] + args);
    lemma_flag_anywhere(none, args, Flag::As, who);
}

/// `enable <slug>` turns the product on and `disable <slug>` turns it off:
/// for any slug that is not itself a flag, the line asks to set exactly that
/// product, enabled for the first word and disabled for the second, with
/// nobody named or with the person that `--as` names.
pub proof fn lemma_enable_disable(slug: Seq<char>, who: Seq<char>)
    requires
        slug.len() > 0,
        slug[0] != '-',
        who.len() > 0,
    ensures
        parsed(seq!["enable"@, slug]) == Ok::<RequestSpec, Seq<char>>(
            RequestSpec::Act { action: ActionSpec::SetProduct { slug, enabled: true }, who: None },
        ),
        parsed(seq!["disable"@, slug]) == Ok::<RequestSpec, Seq<char>>(
            RequestSpec::Act { action: ActionSpec::SetProduct { slug, enabled: false }, who: None },
        ),
        parsed(seq!["enable"@, slug, "--as"@, who]) == Ok::<RequestSpec, Seq<char>>(
            RequestSpec::Act { action: ActionSpec::SetProduct { slug, enabled: true }, who: Some(who) },
        ),
        parsed(seq!["disable"@, slug, "--as"@, who]) == Ok::<RequestSpec, Seq<char>>(
            RequestSpec::Act { action: ActionSpec::SetProduct { slug, enabled: false }, who: Some(who) },
        ),
{
    reveal_strlit("enable");
    reveal_strlit("disable");
    reveal_strlit("operators");
    reveal_strlit("grant-operator");
    reveal_strlit("revoke-operator");
    reveal_strlit("sessions");
    reveal_strlit("revoke-session");
    reveal_strlit("products");
    lemma_enable_disable_line("enable"@, slug, who);
    lemma_enable_disable_line("disable"@, slug, who);
    assert("enable"@ != "disable"@);
    assert("enable"@ != "operators"@);
    assert("enable"@ != "grant-operator"@);
    assert("enable"@ != "revoke-operator"@);
    assert("enable"@ != "sessions"@);
    assert("enable"@ != "revoke-session"@);
    assert("enable"@ != "products"@);
    assert("disable"@ != "operators"@);
    assert("disable"@ != "grant-operator"@);
    assert("disable"@ != "revoke-operator"@);
    assert("disable"@ != "sessions"@);
    assert("disable"@ != "revoke-session"@);
    assert("disable"@ != "products"@);
    let one = seq![slug];
    assert(seq!["enable"@, slug].drop_first() =~= one);
    assert(seq!["disable"@, slug].drop_first() =~= one);
    assert(one_of("enable"@, one, "a product slug"@) == Ok::<Seq<char>, Seq<char>>(slug));
    assert(one_of("disable"@, one, "a product slug"@) == Ok::<Seq<char>, Seq<char>>(slug));
}

/// How a command word and one plain word read, alone and with `--as`.
proof fn lemma_enable_disable_line(command: Seq<char>, slug: Seq<char>, who: Seq<char>)
    requires
        command.len() > 0,
        command[0] != '-',
        slug.len() > 0,
        slug[0] != '-',
        who.len() > 0,
    ensures
        gather(seq![command, slug], 0, empty_gathered()) == Ok::<Gathered, Seq<char>>(
            Gathered { positional: seq![command, slug], ..empty_gathered() },
        ),
        gather(seq![command, slug, "--as"@, who], 0, empty_gathered()) == Ok::<Gathered, Seq<char>>(
            Gathered { positional: seq![command, slug], who: Some(who), ..empty_gathered() },
        ),
{
    reveal_strlit("--as");
    reveal_strlit("--reason");
    reveal_strlit("--person");
    reveal_strlit("--tail");
    reveal_strlit("-h");
    reveal_strlit("--help");
    let e = empty_gathered();
    let g1 = Gathered { positional: e.positional.push(command), ..e };
    let g2 = Gathered { positional: g1.positional.push(slug), ..g1 };
    assert(command != "--as"@ && command != "--reason"@ && command != "--person"@ && command != "--tail"@);
    assert(command != "-h"@ && command != "--help"@);
    assert(slug != "--as"@ && slug != "--reason"@ && slug != "--person"@ && slug != "--tail"@);
    assert(slug != "-h"@ && slug != "--help"@);
    assert(g2.positional =~= seq![command, slug]);
    let short = seq![command, slug];
    assert(gather(short, 2, g2) == Ok::<Gathered, Seq<char>>(g2));
    assert(gather(short, 1, g1) == gather(short, 2, g2));
    assert(gather(short, 0, e) == gather(short, 1, g1));
    let long = seq![command, slug, "--as"@, who];
    let g3 = Gathered { who: Some(who), ..g2 };
    assert(gather(long, 4, g3) == Ok::<Gathered, Seq<char>>(g3));
    assert(flag_value(long, 3, "--as"@) == Ok::<Seq<char>, Seq<char>>(who));
    assert(gather(long, 2, g2) == gather(long, 4, g3));
    assert(gather(long, 1, g1) == gather(long, 2, g2));
    assert(gather(long, 0, e) == gather(long, 1, g1));
}

/// A line of plain words — none empty, none starting with `-` — reads as
/// those words, in order, and nothing else.
proof fn lemma_plain_words(args: Seq<Seq<char>>, i: int, g: Gathered)
    requires
        0 <= i <= args.len(),
        forall|k: int| 0 <= k < args.len() ==> (#[trigger] args[k]).len() > 0 && args[k][0] != '-',
    ensures
        gather(args, i, g) == Ok::<Gathered, Seq<char>>(Gathered { positional: g.positional + args.skip(i), ..g }),
    decreases args.len() - i,
{
    reveal_strlit("--as");
    reveal_strlit("--reason");
    reveal_strlit("--person");
    reveal_strlit("--tail");
    reveal_strlit("-h");
    reveal_strlit("--help");
    if i == args.len() {
        assert(g.positional + args.skip(i) =~= g.positional);
    } else {
        let a = args[i];
        assert(a.len() > 0 && a[0] != '-');
        assert(a != "--as"@ && a != "--reason"@ && a != "--person"@ && a != "--tail"@);
        assert(a != "-h"@ && a != "--help"@);
        let next = Gathered { positional: g.positional.push(a), ..g };
        lemma_plain_words(args, i + 1, next);
        assert(next.positional + args.skip(i + 1) =~= g.positional + args.skip(i));
    }
}

/// A command word alone, or with one plain word after it, reads as those
/// words and is decided on them.
proof fn lemma_command_line(w: Seq<char>, arg: Seq<char>)
    requires
        w.len() > 0,
        w[0] != '-',
        arg.len() > 0,
        arg[0] != '-',
    ensures
        parsed(seq![w]) == decide(Gathered { positional: seq![w], ..empty_gathered() }),
        parsed(seq![w, arg]) == decide(Gathered { positional: seq![w, arg], ..empty_gathered() }),
        seq![w].drop_first() == Seq::<Seq<char>>::empty(),
        seq![w, arg].drop_first() == seq![arg],
{
    let e = empty_gathered();
    let l1 = seq![w];
    let l2 = seq![w, arg];
    lemma_plain_words(l1, 0, e);
    assert(e.positional + l1.skip(0) =~= l1);
    assert(l2[0] == w && l2[1] == arg);
    lemma_plain_words(l2, 0, e);
    assert(e.positional + l2.skip(0) =~= l2);
    assert(l1.drop_first() =~= Seq::<Seq<char>>::empty());
    assert(l2.drop_first() =~= seq![arg]);
}

/// The reads that take nothing read what they name, `audit` showing a
/// screenful of twenty rows; `wipe` asks to empty the deployment.
pub proof fn lemma_reads_and_wipe()
    ensures
        parsed(seq!["operators"@]) == Ok::<RequestSpec, Seq<char>>(RequestSpec::Act { action: ActionSpec::Operators, who: None }),
        parsed(seq!["products"@]) == Ok::<RequestSpec, Seq<char>>(RequestSpec::Act { action: ActionSpec::Products, who: None }),
        parsed(seq!["sessions"@]) == Ok::<RequestSpec, Seq<char>>(
            RequestSpec::Act { action: ActionSpec::Sessions { person: None }, who: None },
        ),
        parsed(seq!["audit"@]) == Ok::<RequestSpec, Seq<char>>(
            RequestSpec::Act { action: ActionSpec::Audit { tail: 20 }, who: None },
        ),
        parsed(seq!["wipe"@]) == Ok::<RequestSpec, Seq<char>>(RequestSpec::Wipe),
{
    reveal_strlit("operators");
    reveal_strlit("grant-operator");
    reveal_strlit("revoke-operator");
    reveal_strlit("sessions");
    reveal_strlit("revoke-session");
    reveal_strlit("products");
    reveal_strlit("enable");
    reveal_strlit("disable");
    reveal_strlit("audit");
    reveal_strlit("backup");
    reveal_strlit("restore");
    reveal_strlit("wipe");
    reveal_strlit("x");
    let x = "x"@;
    lemma_command_line("operators"@, x);
    lemma_command_line("products"@, x);
    lemma_command_line("sessions"@, x);
    lemma_command_line("audit"@, x);
    lemma_command_line("wipe"@, x);
    assert("sessions"@[0] != "products"@[0]);
}

/// The whole-database acts work on the directory they name, and a session
/// revocation on the id it names.
pub proof fn lemma_commands_with_argument(arg: Seq<char>)
    requires
        arg.len() > 0,
        arg[0] != '-',
    ensures
        parsed(seq!["backup"@, arg]) == Ok::<RequestSpec, Seq<char>>(RequestSpec::Backup(arg)),
        parsed(seq!["restore"@, arg]) == Ok::<RequestSpec, Seq<char>>(RequestSpec::Restore(arg)),
        parsed(seq!["revoke-session"@, arg]) == Ok::<RequestSpec, Seq<char>>(
            RequestSpec::Act { action: ActionSpec::RevokeSession { session: arg }, who: None },
        ),
{
    reveal_strlit("operators");
    reveal_strlit("grant-operator");
    reveal_strlit("revoke-operator");
    reveal_strlit("sessions");
    reveal_strlit("revoke-session");
    reveal_strlit("products");
    reveal_strlit("enable");
    reveal_strlit("disable");
    reveal_strlit("audit");
    reveal_strlit("backup");
    reveal_strlit("restore");
    lemma_command_line("backup"@, arg);
    lemma_command_line("restore"@, arg);
    lemma_command_line("revoke-session"@, arg);
    assert("grant-operator"@[0] != "revoke-session"@[0]);
    assert("revoke-session"@[7] != "revoke-operator"@[7]);
    assert("backup"@[0] != "enable"@[0]);
    assert("restore"@[0] != "disable"@[0]);
    assert(one_of("backup"@, seq![arg], "a directory"@) == Ok::<Seq<char>, Seq<char>>(arg));
    assert(one_of("restore"@, seq![arg], "a directory"@) == Ok::<Seq<char>, Seq<char>>(arg));
    assert(one_of("revoke-session"@, seq![arg], "a session's public id"@) == Ok::<Seq<char>, Seq<char>>(arg));
}

/// Granting and revoking the operator role work on the person they name,
/// with the reason stated beside it.
pub proof fn lemma_operator_changes(person: Seq<char>, reason: Seq<char>)
    requires
        person.len() > 0,
        person[0] != '-',
        reason.len() > 0,
    ensures
        parsed(seq!["grant-operator"@, person, "--reason"@, reason]) == Ok::<RequestSpec, Seq<char>>(
            RequestSpec::Act { action: ActionSpec::GrantOperator { person, reason }, who: None },
        ),
        parsed(seq!["revoke-operator"@, person, "--reason"@, reason]) == Ok::<RequestSpec, Seq<char>>(
            RequestSpec::Act { action: ActionSpec::RevokeOperator { person, reason }, who: None },
        ),
{
    reveal_strlit("operators");
    reveal_strlit("grant-operator");
    reveal_strlit("revoke-operator");
    reveal_strlit("--reason");
    lemma_operator_line("grant-operator"@, person, reason);
    lemma_operator_line("revoke-operator"@, person, reason);
    assert(seq!["grant-operator"@, person].drop_first() =~= seq![person]);
    assert(seq!["revoke-operator"@, person].drop_first() =~= seq![person]);
    assert(one_of("grant-operator"@, seq![person], person_what()) == Ok::<Seq<char>, Seq<char>>(person));
    assert(one_of("revoke-operator"@, seq![person], person_what()) == Ok::<Seq<char>, Seq<char>>(person));
}

/// A command word and a person, with `--reason` after them.
proof fn lemma_operator_line(w: Seq<char>, person: Seq<char>, reason: Seq<char>)
    requires
        w.len() > 0,
        w[0] != '-',
        person.len() > 0,
        person[0] != '-',
        reason.len() > 0,
    ensures
        parsed(seq![w, person, "--reason"@, reason])
            == decide(Gathered { reason: Some(reason), positional: seq![w, person], ..empty_gathered() }),
{
    reveal_strlit("--reason");
    let e = empty_gathered();
    let none = Seq::<Seq<char>>::empty();
    let p = seq![w, person];
    lemma_command_line(w, person);
    lemma_plain_words(p, 0, e);
    assert(e.positional + p.skip(0) =~= p);
    assert(p + none =~= p);
    assert(p + seq![flag_word(Flag::Reason), reason] + none =~= seq![w, person, "--reason"@, reason]);
    lemma_flag_anywhere(p, none, Flag::Reason, reason);
}

} // verus!
