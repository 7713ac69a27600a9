//! What each command decides, between what it reads and what it writes.

use vstd::prelude::*;
use vstd::string::StringExecFns;

use crate::anchor::{join_path, under};
use crate::bound::bytes_of;
use crate::cli::{CancelArgs, InterruptArgs, MemberArgs, RunArgs};
use crate::clock::{millis_of, rendered, Instant};
use crate::config::is_member_name;
use crate::control::{Address, Delivery, Turn};
use crate::emitter::{Emitted, Emitter, Sequence};
use crate::error::{
    answers, Error, EXIT_MEMBER_FAILED, EXIT_NO_CONTROLLABLE_TURN, EXIT_SUCCESS,
};
use crate::event::{EventKind, LabelValue, Labels, Source, ENVELOPE_VERSION, SESSION_LABEL};
use crate::history::{failure_of, run_dir, run_directory, show, show_refusal, Record};
use crate::invoke::GeneratedFile;
use crate::json::{
    json_member, json_object, json_string, write_member, write_object, write_string_member,
};
use crate::keyed::{get, value_at};
use crate::payload::{Payload, TurnInterrupted};
use crate::session::session_of;
use crate::text::{
    blank, contains_text, decimal, holds_text, is_blank, join, plain_name, quote, quoted, same,
    separated, signed_decimal, text_of, texts_of, trim, trimmed, write_decimal,
    write_signed,
};

verus! {

// ---- Where a command works ----
/// Where run state lives unless the environment says otherwise.
pub const STATE_DIR_ENV: &'static str = "ONEAGENTGRAPH_STATE_DIR";

/// The `oneharness` binary a run drives, overridable so that a host with a pinned
/// install can name its own.
pub const ONEHARNESS_BIN_ENV: &'static str = "ONEAGENTGRAPH_ONEHARNESS_BIN";

/// The value of a variable, or `otherwise` where it is not set.
pub open spec fn variable(
    env: Seq<(String, String)>,
    name: Seq<char>,
    otherwise: Seq<char>,
) -> Seq<char> {
    match value_at(env, name) {
        Some(value) => value@,
        None => otherwise,
    }
}

fn read_variable(env: &Vec<(String, String)>, name: &str, otherwise: &str) -> (value: String)
    ensures
        value@ == variable(env@, name@, otherwise@),
{
    match get(env, name) {
        Some(value) => value.clone(),
        None => String::from_str(otherwise),
    }
}

/// Where run state lives: where the environment says, or under the home directory,
/// or under the host's own temporary directory where there is no home.
pub fn state_dir(env: &Vec<(String, String)>, host_temp: &str) -> (dir: String)
    ensures
        dir@ == variable(
            env@,
            STATE_DIR_ENV@,
            under(variable(env@, "HOME"@, host_temp@), ".local/state/oneagentgraph/runs"@),
        ),
{
    let home = read_variable(env, "HOME", host_temp);
    let otherwise = join_path(home.as_str(), ".local/state/oneagentgraph/runs");
    read_variable(env, STATE_DIR_ENV, otherwise.as_str())
}

/// The directory throwaway scratch is left in.
///
/// `TMPDIR` first, so that a caller can point one invocation somewhere with room on
/// it, and a sweep looks where the invocation that made the scratch did.
pub fn temp_root(env: &Vec<(String, String)>, host_temp: &str) -> (dir: String)
    ensures
        dir@ == variable(env@, "TMPDIR"@, host_temp@),
{
    read_variable(env, "TMPDIR", host_temp)
}

/// A throwaway directory's path. The verb is in its name, so that two verbs of one
/// process never share one, and neither leaves the other's leavings under its name.
pub fn temp_dir(root: &str, prefix: &str, verb: &str, pid: u32) -> (dir: String)
    ensures
        dir@ == under(root@, prefix@ + verb@ + "-"@ + decimal(pid as nat)),
{
    let mut name = String::from_str(prefix);
    name.append(verb);
    name.append("-");
    name.append(write_decimal(pid as u64).as_str());
    join_path(root, name.as_str())
}

/// The `oneharness` binary a run drives.
pub fn oneharness_bin(env: &Vec<(String, String)>) -> (bin: String)
    ensures
        bin@ == variable(env@, ONEHARNESS_BIN_ENV@, "oneharness"@),
{
    read_variable(env, ONEHARNESS_BIN_ENV, "oneharness")
}

/// The code a process exits with, as an operating system takes it.
pub fn exit_status(code: i32) -> (status: u8)
    ensures
        status == if 0 <= code <= 255 {
            code as int
        } else {
            1
        },
{
    if 0 <= code && code <= 255 {
        code as u8
    } else {
        1
    }
}

// ---- Run ----
/// What a text carried either by a flag or in a file comes to: nothing where
/// neither is given, a refusal where both are or where the file cannot be read.
pub open spec fn carried(
    text: Option<Seq<char>>,
    file: Option<Seq<char>>,
    read: Result<String, String>,
    both: Seq<char>,
    flag: Seq<char>,
) -> Result<Option<Seq<char>>, Seq<char>> {
    match (text, file) {
        (Some(_), Some(_)) => Err(both),
        (Some(text), None) => Ok(Some(text)),
        (None, Some(path)) => match read {
            Ok(text) => Ok(Some(text@)),
            Err(why) => Err("cannot read "@ + flag + " "@ + path + ": "@ + why@),
        },
        (None, None) => Ok(None),
    }
}

fn take_carried(
    text: &Option<String>,
    file: &Option<String>,
    read: Result<String, String>,
    both: &str,
    flag: &str,
) -> (found: Result<Option<String>, String>)
    ensures
        match carried(text_of(*text), text_of(*file), read, both@, flag@) {
            Ok(wanted) => found matches Ok(given) && text_of(given) == wanted,
            Err(wanted) => found matches Err(why) && why@ == wanted,
        },
{
    match (text, file) {
        (Some(_), Some(_)) => Err(String::from_str(both)),
        (Some(text), None) => Ok(Some(text.clone())),
        (None, Some(path)) => match read {
            Ok(text) => Ok(Some(text)),
            Err(err) => {
                let mut why = String::from_str("cannot read ");
                why.append(flag);
                why.append(" ");
                why.append(path.as_str());
                why.append(": ");
                why.append(err.as_str());
                Err(why)
            },
        },
        (None, None) => Ok(None),
    }
}

/// The task an invocation names.
pub open spec fn task_named(
    task: Option<Seq<char>>,
    file: Option<Seq<char>>,
    read: Result<String, String>,
) -> Result<Option<Seq<char>>, Seq<char>> {
    carried(
        task,
        file,
        read,
        "--task and --task-file both name the task; give exactly one"@,
        "--task-file"@,
    )
}

/// The task this invocation names, from whichever flag carries it; `read` is what
/// reading the file came to, where one is named.
pub fn requested_task(args: &RunArgs, read: Result<String, String>) -> (task: Result<
    Option<String>,
    Error,
>)
    ensures
        match task_named(text_of(args.task), text_of(args.task_file), read) {
            Ok(wanted) => task matches Ok(given) && text_of(given) == wanted,
            Err(wanted) => task matches Err(Error::InvalidConfig(why)) && why@ == wanted,
        },
{
    match take_carried(
        &args.task,
        &args.task_file,
        read,
        "--task and --task-file both name the task; give exactly one",
        "--task-file",
    ) {
        Ok(given) => Ok(given),
        Err(why) => Err(Error::InvalidConfig(why)),
    }
}

/// A flag and the value it carries, once for each of `values`.
pub open spec fn repeated(flag: Seq<char>, values: Seq<String>) -> Seq<Seq<char>>
    decreases values.len(),
{
    if values.len() == 0 {
        seq![]
    } else {
        repeated(flag, values.drop_last()) + seq![flag, values.last()@]
    }
}

/// A flag and its value, where it has one.
pub open spec fn given(flag: Seq<char>, value: Option<String>) -> Seq<Seq<char>> {
    match value {
        Some(value) => seq![flag, value@],
        None => seq![],
    }
}

/// The arguments of the run a `--detach` starts: this invocation's own, without
/// `--detach`. Its stream is discarded, so how it is rendered is not said.
pub open spec fn detached_argv(args: RunArgs) -> Seq<Seq<char>> {
    seq!["run"@, args.graph@] + given("--task"@, args.task) + given("--task-file"@, args.task_file)
        + given("--dir"@, args.dir) + repeated("--label"@, args.label@) + repeated(
        "--set"@,
        args.set@,
    ) + given("--event-filter"@, args.event_filter)
}

fn push_given(args: &mut Vec<String>, flag: &str, value: &Option<String>)
    ensures
        texts_of(final(args)@) == texts_of(old(args)@) + given(flag@, *value),
{
    let ghost was = texts_of(args@);
    if let Some(value) = value {
        args.push(String::from_str(flag));
        args.push(value.clone());
    }
    assert(texts_of(args@) =~= was + given(flag@, *value));
}

fn push_repeated(args: &mut Vec<String>, flag: &str, values: &Vec<String>)
    ensures
        texts_of(final(args)@) == texts_of(old(args)@) + repeated(flag@, values@),
{
    let ghost was = texts_of(args@);
    let mut at: usize = 0;
    assert(texts_of(args@) =~= was + repeated(flag@, values@.take(0)));
    while at < values.len()
        invariant
            at <= values@.len(),
            texts_of(args@) == was + repeated(flag@, values@.take(at as int)),
        decreases values@.len() - at,
    {
        let ghost held = texts_of(args@);
        args.push(String::from_str(flag));
        args.push(values[at].clone());
        assert(values@.take(at + 1).drop_last() =~= values@.take(at as int));
        assert(texts_of(args@) =~= held + seq![flag@, values@[at as int]@]);
        assert(texts_of(args@) =~= was + repeated(flag@, values@.take(at + 1)));
        at = at + 1;
    }
    assert(values@.take(at as int) =~= values@);
}

/// The arguments of the run a `--detach` starts.
pub fn detached_args(args: &RunArgs) -> (argv: Vec<String>)
    ensures
        texts_of(argv@) == detached_argv(*args),
{
    let mut argv: Vec<String> = Vec::new();
    argv.push(String::from_str("run"));
    argv.push(args.graph.clone());
    assert(texts_of(argv@) =~= seq!["run"@, args.graph@]);
    push_given(&mut argv, "--task", &args.task);
    push_given(&mut argv, "--task-file", &args.task_file);
    push_given(&mut argv, "--dir", &args.dir);
    push_repeated(&mut argv, "--label", &args.label);
    push_repeated(&mut argv, "--set", &args.set);
    push_given(&mut argv, "--event-filter", &args.event_filter);
    argv
}

/// How many of `records`, from the front, were there before.
pub open spec fn known_prefix(known: Seq<String>, records: Seq<Record>, upto: int) -> bool {
    forall|i: int| 0 <= i < upto ==> holds_text(known, (#[trigger] records[i]).run_id@)
}

/// Which listed run was not there before: the first whose id is not among `known`.
///
/// The run id is the started process's to mint, so it is read back rather than
/// guessed.
pub fn started_run(known: &Vec<String>, records: &Vec<Record>) -> (found: Option<usize>)
    ensures
        match found {
            Some(at) => at < records@.len() && !holds_text(known@, records@[at as int].run_id@)
                && known_prefix(known@, records@, at as int),
            None => known_prefix(known@, records@, records@.len() as int),
        },
{
    let mut at: usize = 0;
    while at < records.len()
        invariant
            at <= records@.len(),
            known_prefix(known@, records@, at as int),
        decreases records@.len() - at,
    {
        if !contains_text(known, records[at].run_id.as_str()) {
            return Some(at);
        }
        at = at + 1;
    }
    None
}

/// What a `--detach` says of the run it started, as one line of JSON.
pub open spec fn started_text(record: Record, pid: u32) -> Seq<char> {
    json_object(
        seq![
            json_member("run_id"@, json_string(record.run_id@)),
            json_member("events_path"@, json_string(record.events_path@)),
            json_member("pid"@, decimal(pid as nat)),
        ],
    )
}

/// What a `--detach` says of the run it started.
pub fn started_line(record: &Record, pid: u32) -> (line: String)
    ensures
        line@ == started_text(*record, pid),
{
    let mut members: Vec<String> = Vec::new();
    members.push(write_string_member("run_id", record.run_id.as_str()));
    members.push(write_string_member("events_path", record.events_path.as_str()));
    members.push(write_member("pid", write_decimal(pid as u64).as_str()));
    assert(texts_of(members@) =~= seq![
        json_member("run_id"@, json_string(record.run_id@)),
        json_member("events_path"@, json_string(record.events_path@)),
        json_member("pid"@, decimal(pid as nat)),
    ]);
    write_object(&members)
}

/// How long a `--detach` waits for its run to record itself, in milliseconds.
pub const DETACH_WAIT_MILLIS: u64 = 10_000;

/// How long a `--detach` leaves between two looks, in milliseconds.
pub const DETACH_POLL_MILLIS: u64 = 20;

/// What a `--detach` does next.
#[derive(Debug)]
pub enum Detaching {
    /// Say this and leave: the run is recorded.
    Started(String),
    /// Look again.
    Wait,
    /// Fail: the wait is over.
    GiveUp(Error),
}

/// What a `--detach` does next, `waited` milliseconds after it started its run: it
/// looks for a run that was not there before until the wait is over.
pub fn detaching(known: &Vec<String>, records: &Vec<Record>, pid: u32, waited: u64) -> (next:
    Detaching)
    ensures
        match next {
            Detaching::GiveUp(error) => waited >= DETACH_WAIT_MILLIS && (
            error matches Error::InvalidConfig(text) && text@ == unrecorded()),
            Detaching::Started(line) => waited < DETACH_WAIT_MILLIS && exists|at: int|
                0 <= at < records@.len() && !holds_text(
                    known@,
                    (#[trigger] records@[at]).run_id@,
                ) && known_prefix(known@, records@, at) && line@ == started_text(records@[at], pid),
            Detaching::Wait => waited < DETACH_WAIT_MILLIS && known_prefix(
                known@,
                records@,
                records@.len() as int,
            ),
        },
{
    if waited >= DETACH_WAIT_MILLIS {
        return Detaching::GiveUp(never_recorded());
    }
    match started_run(known, records) {
        Some(at) => Detaching::Started(started_line(&records[at], pid)),
        None => Detaching::Wait,
    }
}

/// What a `--detach` whose run never recorded itself is told.
pub open spec fn unrecorded() -> Seq<char> {
    "the detached run did not record itself; check the graph with `oneagentgraph validate`"@
}

/// What a `--detach` whose run never recorded itself is told.
pub fn never_recorded() -> (error: Error)
    ensures
        error matches Error::InvalidConfig(text) && text@ == unrecorded(),
{
    Error::InvalidConfig(
        String::from_str(
            "the detached run did not record itself; check the graph with `oneagentgraph validate`",
        ),
    )
}

// ---- Validate ----
/// The task `validate` checks a member's invocation against: a graph is not
/// invalid for lacking prose nobody has typed yet.
pub const VALIDATE_TASK: &'static str = "validate: no task is run";

/// What `validate` says of a graph that can run.
pub fn valid_line(name: &str, members: usize) -> (line: String)
    ensures
        line@ == name@ + ": "@ + decimal(members as nat) + " member(s) OK"@,
{
    let mut line = String::from_str(name);
    line.append(": ");
    line.append(write_decimal(members as u64).as_str());
    line.append(" member(s) OK");
    line
}

// ---- Addressing a member ----
/// The two out-of-band signals an operator has.
///
/// A closed set, because a run watches for a file named after one: a third
/// spelling would be a file nothing ever reads.
#[derive(Debug, Clone, Copy, PartialEq, Eq, Structural)]
pub enum Signal {
    /// Fire a scheduled member now.
    Trigger,
    /// Restart a resettable schedule's clock.
    Reset,
}

impl Signal {
    /// The suffix a run watches for.
    pub open spec fn suffix(self) -> Seq<char> {
        match self {
            Signal::Trigger => "trigger"@,
            Signal::Reset => "reset"@,
        }
    }

    /// The suffix a run watches for.
    pub fn as_str(self) -> (text: &'static str)
        ensures
            text@ == self.suffix(),
    {
        match self {
            Signal::Trigger => "trigger",
            Signal::Reset => "reset",
        }
    }
}

/// Why a member argument is refused, if it is: it becomes a path.
pub open spec fn member_refusal(member: Seq<char>) -> Option<Seq<char>> {
    if plain_name(member) {
        None
    } else {
        Some(
            "member "@ + quoted(member)
                + ": a member name is letters, digits, hyphens, and underscores — this one would name a path outside the run's own directory"@,
        )
    }
}

/// One member argument, checked against the shape a graph's own member names are
/// checked against.
pub fn member_name(member: &str) -> (checked: Result<(), Error>)
    ensures
        answers(checked, member_refusal(member@)),
{
    if is_member_name(member) {
        return Ok(());
    }
    let mut why = String::from_str("member ");
    why.append(quote(member).as_str());
    why.append(
        ": a member name is letters, digits, hyphens, and underscores — this one would name a path outside the run's own directory",
    );
    Err(Error::InvalidConfig(why))
}

/// The members a record says its run has: what its graph declares, or, in a record
/// from before that was written down, what has settled.
pub open spec fn known_members(record: Record) -> Seq<String> {
    if record.declared_members@.len() > 0 {
        record.declared_members@
    } else {
        record.members@
    }
}

/// Why a member is refused for not being one of this run's, if it is. A record that
/// names no members at all is not second-guessed.
pub open spec fn membership_refusal(record: Record, run: Seq<char>, member: Seq<char>) -> Option<
    Seq<char>,
> {
    let known = known_members(record);
    if known.len() == 0 || holds_text(known, member) {
        None
    } else {
        Some(
            "run "@ + quoted(run) + " has no member "@ + quoted(member) + "; it has "@ + separated(
                texts_of(known),
                ", "@,
            ),
        )
    }
}

/// Refuse a member this run does not have, naming the ones it does.
pub fn belongs_to_run(record: &Record, run: &str, member: &str) -> (checked: Result<(), Error>)
    ensures
        answers(checked, membership_refusal(*record, run@, member@)),
{
    let known = if record.declared_members.len() > 0 {
        &record.declared_members
    } else {
        &record.members
    };
    if known.len() == 0 || contains_text(known, member) {
        return Ok(());
    }
    let mut why = String::from_str("run ");
    why.append(quote(run).as_str());
    why.append(" has no member ");
    why.append(quote(member).as_str());
    why.append("; it has ");
    why.append(join(known, ", ").as_str());
    Err(Error::InvalidConfig(why))
}

/// Why a verb that addresses one member of a run is refused, if it is: the member's
/// name first, then the run, then whether the run has that member.
pub open spec fn address_refusal(
    state_dir: Seq<char>,
    run: Seq<char>,
    member: Seq<char>,
    read: Result<Record, String>,
) -> Option<Seq<char>> {
    match member_refusal(member) {
        Some(why) => Some(why),
        None => match show_refusal(state_dir, run, failure_of(read)) {
            Some(why) => Some(why),
            None => membership_refusal(read->Ok_0, run, member),
        },
    }
}

/// The record of the run a member is addressed in.
pub fn addressed(
    state_dir: &str,
    run: &str,
    member: &str,
    read: Result<Record, String>,
) -> (record: Result<Record, Error>)
    ensures
        answers(record, address_refusal(state_dir@, run@, member@, read)),
        record matches Ok(found) ==> read == Ok::<Record, String>(found),
{
    match member_name(member) {
        Err(refused) => Err(refused),
        Ok(()) => match show(state_dir, run, read) {
            Err(refused) => Err(refused),
            Ok(record) => match belongs_to_run(&record, run, member) {
                Err(refused) => Err(refused),
                Ok(()) => Ok(record),
            },
        },
    }
}

/// A file a verb leaves for a run to find, and what it says on standard output once
/// the file is there.
#[derive(Debug, PartialEq, Eq)]
pub struct Left {
    /// The directory the file is in, which is created where it is missing.
    pub dir: String,
    /// The file.
    pub file: GeneratedFile,
    /// What is printed.
    pub line: String,
}

/// Whether a verb leaves this signal: under the run's own id, whatever else its
/// record says, so that no record can place a write elsewhere.
pub open spec fn leaves_signal(
    left: Left,
    state_dir: Seq<char>,
    signal_dir: Seq<char>,
    args: MemberArgs,
    record: Record,
    kind: Signal,
) -> bool {
    let dir = under(run_directory(state_dir, record.run_id@), signal_dir);
    &&& left.dir@ == dir
    &&& left.file.path@ == under(dir, args.member@ + "."@ + kind.suffix())
    &&& left.file.content@ == kind.suffix()
    &&& left.line@ == args.run@ + ": "@ + args.member@ + " "@ + kind.suffix()
}

/// `trigger` and `reset-timer`: what is left for the run to pick up.
pub fn signal(
    state_dir: &str,
    signal_dir: &str,
    args: &MemberArgs,
    read: Result<Record, String>,
    kind: Signal,
) -> (left: Result<Left, Error>)
    ensures
        answers(left, address_refusal(state_dir@, args.run@, args.member@, read)),
        left matches Ok(found) ==> leaves_signal(
            found,
            state_dir@,
            signal_dir@,
            *args,
            read->Ok_0,
            kind,
        ),
{
    match addressed(state_dir, args.run.as_str(), args.member.as_str(), read) {
        Err(refused) => Err(refused),
        Ok(record) => {
            let root = run_dir(state_dir, record.run_id.as_str());
            let dir = join_path(root.as_str(), signal_dir);
            let mut name = args.member.clone();
            name.append(".");
            name.append(kind.as_str());
            let path = join_path(dir.as_str(), name.as_str());
            let content = String::from_str(kind.as_str());
            let mut line = args.run.clone();
            line.append(": ");
            line.append(args.member.as_str());
            line.append(" ");
            line.append(kind.as_str());
            Ok(Left { dir, file: GeneratedFile { path, content }, line })
        },
    }
}

// ---- Cancel ----
/// Why a cancel is refused, if it is.
pub open spec fn cancel_refusal(
    state_dir: Seq<char>,
    args: CancelArgs,
    read: Result<Record, String>,
) -> Option<Seq<char>> {
    match args.member {
        Some(member) => address_refusal(state_dir, args.run@, member@, read),
        None => show_refusal(state_dir, args.run@, failure_of(read)),
    }
}

/// What a cancel leaves and reaps.
#[derive(Debug, PartialEq, Eq)]
pub struct Cancelled {
    /// The directory the file is in, which is created where it is missing.
    pub dir: String,
    /// The file a run, or one member of it, watches for.
    pub file: GeneratedFile,
    /// The scratch whose processes a `--kill` signals.
    pub scratch: String,
}

/// Whether a cancel leaves this: a member's own stop where one is named, since the
/// run's is what every member watches.
pub open spec fn cancels(
    cancelled: Cancelled,
    state_dir: Seq<char>,
    signal_dir: Seq<char>,
    args: CancelArgs,
    record: Record,
) -> bool {
    let root = run_directory(state_dir, record.run_id@);
    let dir = under(root, signal_dir);
    &&& cancelled.dir@ == dir
    &&& cancelled.file.content@ == "stop"@
    &&& cancelled.file.path@ == under(
        dir,
        match args.member {
            Some(member) => member@ + ".stop"@,
            None => "stop"@,
        },
    )
    &&& cancelled.scratch@ == match args.member {
        Some(member) => member_scratch(state_dir, record.run_id@, member@),
        None => root,
    }
}

/// Where one member of a run keeps what it writes.
pub open spec fn member_scratch(
    state_dir: Seq<char>,
    run_id: Seq<char>,
    member: Seq<char>,
) -> Seq<char> {
    under(under(run_directory(state_dir, run_id), "members"@), member)
}

/// Where one member of a run keeps what it writes.
pub fn scratch_of(state_dir: &str, run_id: &str, member: &str) -> (dir: String)
    ensures
        dir@ == member_scratch(state_dir@, run_id@, member@),
{
    let root = run_dir(state_dir, run_id);
    let members = join_path(root.as_str(), "members");
    join_path(members.as_str(), member)
}

/// `cancel`: the stop that is left, and the scratch a `--kill` reaps.
pub fn cancel(
    state_dir: &str,
    signal_dir: &str,
    args: &CancelArgs,
    read: Result<Record, String>,
) -> (cancelled: Result<Cancelled, Error>)
    ensures
        answers(cancelled, cancel_refusal(state_dir@, *args, read)),
        cancelled matches Ok(found) ==> cancels(
            found,
            state_dir@,
            signal_dir@,
            *args,
            read->Ok_0,
        ),
{
    let record = match &args.member {
        Some(member) => addressed(state_dir, args.run.as_str(), member.as_str(), read),
        None => show(state_dir, args.run.as_str(), read),
    };
    match record {
        Err(refused) => Err(refused),
        Ok(record) => {
            let root = run_dir(state_dir, record.run_id.as_str());
            let dir = join_path(root.as_str(), signal_dir);
            let (name, scratch) = match &args.member {
                Some(member) => {
                    let mut name = member.clone();
                    name.append(".stop");
                    (name, scratch_of(state_dir, record.run_id.as_str(), member.as_str()))
                },
                None => (String::from_str("stop"), root),
            };
            let path = join_path(dir.as_str(), name.as_str());
            let content = String::from_str("stop");
            Ok(Cancelled { dir, file: GeneratedFile { path, content }, scratch })
        },
    }
}

/// What a cancel says of itself.
pub fn cancelled_line(args: &CancelArgs, reaped: usize) -> (line: String)
    ensures
        line@ == args.run@ + ": cancelled"@ + (match args.member {
            Some(member) => " member "@ + member@,
            None => seq![],
        }) + (if args.kill {
            ", "@ + decimal(reaped as nat) + " process(es) signalled"@
        } else {
            seq![]
        }),
{
    let mut line = args.run.clone();
    line.append(": cancelled");
    let ghost begun = line@;
    if let Some(member) = &args.member {
        line.append(" member ");
        line.append(member.as_str());
        assert(line@ =~= begun + (" member "@ + member@));
    } else {
        assert(line@ =~= begun + seq![]);
    }
    let ghost named = line@;
    if args.kill {
        line.append(", ");
        line.append(write_decimal(reaped as u64).as_str());
        line.append(" process(es) signalled");
        assert(line@ =~= named + (", "@ + decimal(reaped as nat) + " process(es) signalled"@));
    } else {
        assert(line@ =~= named + seq![]);
    }
    line
}

// ---- Interrupt ----
/// What an interrupt redirects a turn at: as [`carried`], and refused where it is
/// blank, which would stop the turn and say nothing.
pub open spec fn redirected(
    input: Option<Seq<char>>,
    file: Option<Seq<char>>,
    read: Result<String, String>,
) -> Result<Option<Seq<char>>, Seq<char>> {
    match carried(
        input,
        file,
        read,
        "--input and --input-file both name the redirection; give at most one"@,
        "--input-file"@,
    ) {
        Ok(Some(text)) => if blank(text) {
            Err(
                "--input is blank, so it would redirect the turn at nothing; send no --input to only stop it"@,
            )
        } else {
            Ok(Some(text))
        },
        other => other,
    }
}

/// The redirection this invocation carries, from whichever flag names it; `read` is
/// what reading the file came to, where one is named.
pub fn redirection(args: &InterruptArgs, read: Result<String, String>) -> (input: Result<
    Option<String>,
    Error,
>)
    ensures
        match redirected(text_of(args.input), text_of(args.input_file), read) {
            Ok(wanted) => input matches Ok(given) && text_of(given) == wanted,
            Err(wanted) => input matches Err(Error::InvalidConfig(why)) && why@ == wanted,
        },
{
    match take_carried(
        &args.input,
        &args.input_file,
        read,
        "--input and --input-file both name the redirection; give at most one",
        "--input-file",
    ) {
        Err(why) => Err(Error::InvalidConfig(why)),
        Ok(None) => Ok(None),
        Ok(Some(text)) => {
            if is_blank(text.as_str()) {
                return Err(
                    Error::InvalidConfig(
                        String::from_str(
                            "--input is blank, so it would redirect the turn at nothing; send no --input to only stop it",
                        ),
                    ),
                );
            }
            Ok(Some(text))
        },
    }
}

/// How many bytes a redirection is.
pub open spec fn bytes_offered(input: Option<Seq<char>>) -> nat {
    match input {
        Some(text) => bytes_of(text),
        None => 0,
    }
}

/// How many bytes a redirection is.
pub fn input_bytes(input: &Option<String>) -> (bytes: u64)
    ensures
        bytes == bytes_offered(text_of(*input)),
{
    match input {
        Some(text) => text.as_str().as_bytes().len() as u64,
        None => 0,
    }
}

/// Whether a run has recorded an outcome for `member`: it has one for itself, or
/// the member is among those that settled.
pub fn settled(record: &Record, member: &str) -> (answer: bool)
    ensures
        answer == (record.exit_code is Some || holds_text(record.members@, member@)),
{
    record.exit_code.is_some() || contains_text(&record.members, member)
}

/// What an interrupt does about a member's turn.
#[derive(Debug, PartialEq, Eq)]
pub enum Approach {
    /// Deliver to this address.
    Deliver(Address),
    /// There is no turn to deliver to, and why.
    NoTurn(String),
}

/// What an interrupt does about a member's turn, told apart by what it carries.
///
/// An ask that was refused beats every other answer: a member on a harness with no
/// lever has none whether it is running, between turns, or long settled.
pub open spec fn approaches(
    approach: Approach,
    turn: Result<Turn, String>,
    settled: bool,
) -> bool {
    match turn {
        Ok(Turn::Unavailable { reason }) => approach matches Approach::NoTurn(why) && why
            == reason,
        Ok(Turn::Open { address }) => if settled {
            approach matches Approach::NoTurn(why) && why@
                == "the member has already settled, so its turn is over"@
        } else {
            approach == Approach::Deliver(address)
        },
        Err(reason) => approach matches Approach::NoTurn(why) && why == reason,
    }
}

/// What an interrupt does about a member's turn.
pub fn approach(turn: Result<Turn, String>, settled: bool) -> (approach: Approach)
    ensures
        approaches(approach, turn, settled),
{
    match turn {
        Ok(Turn::Unavailable { reason }) => Approach::NoTurn(reason),
        Ok(Turn::Open { address }) => {
            if settled {
                Approach::NoTurn(
                    String::from_str("the member has already settled, so its turn is over"),
                )
            } else {
                Approach::Deliver(address)
            }
        },
        Err(reason) => Approach::NoTurn(reason),
    }
}

/// What an interrupt came to: the code it exits with, and why the redirection did
/// not land where it did not.
#[derive(Debug, PartialEq, Eq)]
pub struct Interrupted {
    /// The code the process exits with.
    pub code: i32,
    /// Why the redirection did not land.
    pub reason: Option<String>,
}

/// What a delivery that was not refused comes to.
pub open spec fn comes_to(delivery: Delivery, outcome: Interrupted) -> bool {
    match delivery {
        Delivery::Delivered => outcome.code == EXIT_SUCCESS && outcome.reason is None,
        Delivery::NoTurn(why) => outcome.code == EXIT_NO_CONTROLLABLE_TURN && outcome.reason
            == Some(why),
        Delivery::Failed(why) => outcome.code == EXIT_MEMBER_FAILED && outcome.reason == Some(why),
        Delivery::Invalid(_) => false,
    }
}

/// What a delivery comes to.
///
/// A redirection oneharness would not take is an argument the caller got wrong, so
/// it is refused like every other bad argument, before any event claims a lever
/// was pulled.
pub fn interrupted(delivery: Delivery) -> (outcome: Result<Interrupted, Error>)
    ensures
        match delivery {
            Delivery::Invalid(why) => outcome matches Err(Error::InvalidConfig(text)) && text@
                == "--input: "@ + why@,
            _ => outcome matches Ok(found) && comes_to(delivery, found),
        },
{
    match delivery {
        Delivery::Delivered => Ok(Interrupted { code: EXIT_SUCCESS, reason: None }),
        Delivery::NoTurn(why) => Ok(
            Interrupted { code: EXIT_NO_CONTROLLABLE_TURN, reason: Some(why) },
        ),
        Delivery::Failed(why) => Ok(Interrupted { code: EXIT_MEMBER_FAILED, reason: Some(why) }),
        Delivery::Invalid(why) => {
            let mut text = String::from_str("--input: ");
            text.append(why.as_str());
            Err(Error::InvalidConfig(text))
        },
    }
}

/// What an interrupt is diagnosed as.
pub open spec fn diagnosed(run: Seq<char>, member: Seq<char>, outcome: Interrupted) -> Option<
    Seq<char>,
> {
    if outcome.code == EXIT_MEMBER_FAILED {
        Some(
            "oneagentgraph: "@ + run + ": could not interrupt member "@ + member + ": "@ + (
            match outcome.reason {
                Some(why) => why@,
                None => seq![],
            }),
        )
    } else {
        None
    }
}

/// What a failed interrupt is diagnosed as: only a delivery that was attempted and
/// failed is, since the lack of a turn is a fact rather than an error.
pub fn diagnostic(run: &str, member: &str, outcome: &Interrupted) -> (line: Option<String>)
    ensures
        text_of(line) == diagnosed(run@, member@, *outcome),
{
    if outcome.code != EXIT_MEMBER_FAILED {
        return None;
    }
    let mut line = String::from_str("oneagentgraph: ");
    line.append(run);
    line.append(": could not interrupt member ");
    line.append(member);
    line.append(": ");
    let ghost begun = line@;
    if let Some(why) = &outcome.reason {
        line.append(why.as_str());
    } else {
        assert(line@ =~= begun + seq![]);
    }
    Some(line)
}

/// The stream an interrupt publishes on: its own, because a stream is one producing
/// process's.
pub open spec fn interrupt_stream(run_id: Seq<char>, pid: u32) -> Seq<char> {
    run_id + "-interrupt-"@ + decimal(pid as nat)
}

/// Whether an envelope is this interrupt's: one event, the first of its own stream,
/// saying a redirection was delivered exactly when there is no reason it was not.
pub open spec fn publishes(
    emitted: Emitted<Payload>,
    run_id: Seq<char>,
    member: Seq<char>,
    pid: u32,
    input_bytes: u64,
    reason: Option<Seq<char>>,
) -> bool {
    let envelope = emitted.envelope;
    &&& emitted.admitted
    &&& envelope.v == ENVELOPE_VERSION
    &&& envelope.source == Source::Agentgraph
    &&& exists|at: Instant| envelope.ts@ == rendered(#[trigger] millis_of(at) as int)
    &&& envelope.stream@ == interrupt_stream(run_id, pid)
    &&& envelope.seq == 0
    &&& envelope.kind == EventKind::TurnInterrupted
    &&& text_of(envelope.labels.run_id) == Some(run_id)
    &&& text_of(envelope.labels.member) == Some(member)
    &&& match session_of(interrupt_stream(run_id, pid), member) {
        Some(session) => value_at(envelope.labels.extra@, SESSION_LABEL@) matches Some(
            LabelValue::Text(text),
        ) && text@ == session,
        None => value_at(envelope.labels.extra@, SESSION_LABEL@) is None,
    }
    &&& envelope.artifacts@.len() == 0
    &&& envelope.payload matches Payload::TurnInterrupted(payload) && payload.member@ == member
        && payload.delivered == (reason is None) && payload.input_bytes == input_bytes && text_of(
        payload.reason,
    ) == reason
}

/// An interrupt as the event that says it happened, whatever came of it.
pub fn publish(
    run_id: &str,
    member: &str,
    pid: u32,
    input_bytes: u64,
    reason: Option<String>,
) -> (emitted: Emitted<Payload>)
    ensures
        publishes(emitted, run_id@, member@, pid, input_bytes, text_of(reason)),
{
    let mut stream = String::from_str(run_id);
    stream.append("-interrupt-");
    stream.append(write_decimal(pid as u64).as_str());
    let mut labels = Labels::default();
    labels.run_id = Some(String::from_str(run_id));
    labels.member = Some(String::from_str(member));
    let emitter = Emitter::new(stream).with_labels(labels);
    let payload = TurnInterrupted {
        member: String::from_str(member),
        delivered: reason.is_none(),
        input_bytes,
        reason,
    };
    let mut sequence = Sequence::default();
    emitter.emit(&mut sequence, EventKind::TurnInterrupted, Payload::TurnInterrupted(payload))
}

/// What an interrupt leaves behind: the event it publishes, the code it exits with,
/// and what it says on standard error.
#[derive(Debug)]
pub struct Concluded {
    /// The event.
    pub event: Emitted<Payload>,
    /// The code the process exits with.
    pub code: i32,
    /// The line on standard error.
    pub diagnostic: Option<String>,
}

/// Whether `concluded` is what an interrupt whose delivery was not refused leaves
/// behind.
pub open spec fn concludes(
    concluded: Concluded,
    args: InterruptArgs,
    run_id: Seq<char>,
    pid: u32,
    input: Option<Seq<char>>,
    delivery: Delivery,
) -> bool {
    exists|outcome: Interrupted|
        {
            &&& #[trigger] comes_to(delivery, outcome)
            &&& concluded.code == outcome.code
            &&& text_of(concluded.diagnostic) == diagnosed(args.run@, args.member@, outcome)
            &&& publishes(
                concluded.event,
                run_id,
                args.member@,
                pid,
                bytes_offered(input) as u64,
                text_of(outcome.reason),
            )
        }
}

/// What a delivery leaves behind. Every one that was not refused publishes one
/// event, the ones that did not land among them: a verb that stayed quiet unless it
/// worked would leave a pulled lever visible only in an exit code.
pub fn conclude(
    args: &InterruptArgs,
    run_id: &str,
    pid: u32,
    input: &Option<String>,
    delivery: Delivery,
) -> (concluded: Result<Concluded, Error>)
    ensures
        match delivery {
            Delivery::Invalid(why) => concluded matches Err(Error::InvalidConfig(text)) && text@
                == "--input: "@ + why@,
            _ => concluded matches Ok(found) && concludes(
                found,
                *args,
                run_id@,
                pid,
                text_of(*input),
                delivery,
            ),
        },
{
    let ghost was = delivery;
    match interrupted(delivery) {
        Err(refused) => Err(refused),
        Ok(outcome) => {
            let ghost found = outcome;
            let line = diagnostic(args.run.as_str(), args.member.as_str(), &outcome);
            let event = publish(
                run_id,
                args.member.as_str(),
                pid,
                input_bytes(input),
                outcome.reason,
            );
            assert(comes_to(was, found));
            Ok(Concluded { event, code: outcome.code, diagnostic: line })
        },
    }
}

// ---- History ----
/// One run's line in a listing.
pub open spec fn listing_line(record: Record) -> Seq<char> {
    record.run_id@ + "\t"@ + (match record.exit_code {
        Some(code) => signed_decimal(code as int),
        None => "running"@,
    }) + "\t"@ + record.name@
}

/// The lines of a listing: every run's, or those of the run that was asked for.
pub open spec fn listing(run: Option<Seq<char>>, records: Seq<Record>) -> Seq<Seq<char>>
    decreases records.len(),
{
    if records.len() == 0 {
        seq![]
    } else {
        let earlier = listing(run, records.drop_last());
        let last = records.last();
        if run is None || run == Some(last.run_id@) {
            earlier.push(listing_line(last))
        } else {
            earlier
        }
    }
}

fn write_listing_line(record: &Record) -> (line: String)
    ensures
        line@ == listing_line(*record),
{
    let mut line = record.run_id.clone();
    line.append("\t");
    match record.exit_code {
        Some(code) => line.append(write_signed(code).as_str()),
        None => line.append("running"),
    }
    line.append("\t");
    line.append(record.name.as_str());
    line
}

/// `history`: the lines of a listing. Asking for a run there is no record of is
/// refused; listing every run of an empty store is not.
pub fn show_history(run: &Option<String>, records: &Vec<Record>) -> (lines: Result<
    Vec<String>,
    Error,
>)
    ensures
        answers(
            lines,
            match run {
                Some(wanted) if listing(Some(wanted@), records@).len() == 0 => Some(
                    "no run "@ + quoted(wanted@),
                ),
                _ => None,
            },
        ),
        lines matches Ok(found) ==> texts_of(found@) == listing(text_of(*run), records@),
{
    let ghost wanted = text_of(*run);
    let mut lines: Vec<String> = Vec::new();
    let mut at: usize = 0;
    assert(texts_of(lines@) =~= listing(wanted, records@.take(0)));
    while at < records.len()
        invariant
            at <= records@.len(),
            wanted == text_of(*run),
            texts_of(lines@) == listing(wanted, records@.take(at as int)),
        decreases records@.len() - at,
    {
        let ghost held = texts_of(lines@);
        assert(records@.take(at + 1).drop_last() =~= records@.take(at as int));
        let listed = match run {
            Some(id) => same(id.as_str(), records[at].run_id.as_str()),
            None => true,
        };
        if listed {
            lines.push(write_listing_line(&records[at]));
            assert(texts_of(lines@) =~= held.push(listing_line(records@[at as int])));
        }
        at = at + 1;
    }
    assert(records@.take(at as int) =~= records@);
    assert(lines@.len() == texts_of(lines@).len());
    if let Some(id) = run {
        if lines.len() == 0 {
            let mut why = String::from_str("no run ");
            why.append(quote(id.as_str()).as_str());
            return Err(Error::InvalidConfig(why));
        }
    }
    Ok(lines)
}

// ---- Smoke ----
/// What a smoke says of the candidates its chain moved past, and of the one that
/// ran.
pub open spec fn smoke_report(
    fell_through: Seq<(String, String)>,
    ran: Seq<char>,
    attempts: u64,
) -> Seq<Seq<char>> {
    fell_through.map_values(
        |candidate: (String, String)|
            "smoke: fell through "@ + candidate.0@ + " ("@ + candidate.1@
                + "); the chain handed the turn on"@,
    ).push(
        "smoke: passed via "@ + ran + if attempts > 1 {
            " after "@ + decimal(attempts as nat) + " attempts"@
        } else {
            seq![]
        },
    )
}

/// What a smoke that passed says: each candidate that fell through and why, then
/// the one that ran. A start that had to be repeated is said rather than smoothed
/// over.
pub fn smoke_lines(fell_through: &Vec<(String, String)>, ran: &str, attempts: u64) -> (lines: Vec<
    String,
>)
    ensures
        texts_of(lines@) == smoke_report(fell_through@, ran@, attempts),
{
    let ghost report = smoke_report(fell_through@, ran@, attempts);
    let mut lines: Vec<String> = Vec::new();
    let mut at: usize = 0;
    while at < fell_through.len()
        invariant
            at <= fell_through@.len(),
            report == smoke_report(fell_through@, ran@, attempts),
            texts_of(lines@) =~= report.take(at as int),
        decreases fell_through@.len() - at,
    {
        let ghost held = texts_of(lines@);
        let mut line = String::from_str("smoke: fell through ");
        line.append(fell_through[at].0.as_str());
        line.append(" (");
        line.append(fell_through[at].1.as_str());
        line.append("); the chain handed the turn on");
        assert(line@ == report[at as int]);
        lines.push(line);
        assert(texts_of(lines@) =~= held.push(report[at as int]));
        at = at + 1;
    }
    let ghost held = texts_of(lines@);
    let mut line = String::from_str("smoke: passed via ");
    line.append(ran);
    let ghost begun = line@;
    if attempts > 1 {
        line.append(" after ");
        line.append(write_decimal(attempts).as_str());
        line.append(" attempts");
        assert(line@ =~= begun + (" after "@ + decimal(attempts as nat) + " attempts"@));
    } else {
        assert(line@ =~= begun + seq![]);
    }
    assert(line@ == report.last());
    lines.push(line);
    assert(texts_of(lines@) =~= held.push(report.last()));
    lines
}

/// What running a program to its end came to.
#[derive(Debug, PartialEq, Eq)]
pub struct Output {
    /// Whether it succeeded.
    pub success: bool,
    /// What it wrote to standard output.
    pub stdout: Vec<u8>,
    /// What it wrote to standard error.
    pub stderr: String,
}

/// Whether git said a directory is inside a worktree: it succeeded, and wrote
/// `true` and a newline.
pub open spec fn said_inside(output: Output) -> bool {
    output.success && output.stdout@ == seq![116u8, 114u8, 117u8, 101u8, 10u8]
}

/// Whether a smoke's directory has to be made a repository of its own, from what
/// asking git about it came to. One already inside a worktree is left alone.
pub fn needs_worktree(dir: &str, asked: Result<Output, String>) -> (needs: Result<bool, Error>)
    ensures
        match asked {
            Ok(output) => needs == Ok::<bool, Error>(!said_inside(output)),
            Err(err) => needs matches Err(Error::InvalidConfig(why)) && why@ == "cannot inspect "@
                + dir@ + " with git: "@ + err@,
        },
{
    match asked {
        Ok(output) => {
            let said = &output.stdout;
            let inside = output.success && said.len() == 5 && said[0] == 116 && said[1] == 114
                && said[2] == 117 && said[3] == 101 && said[4] == 10;
            assert(inside ==> said@ =~= seq![116u8, 114u8, 117u8, 101u8, 10u8]);
            Ok(!inside)
        },
        Err(err) => {
            let mut why = String::from_str("cannot inspect ");
            why.append(dir);
            why.append(" with git: ");
            why.append(err.as_str());
            Err(Error::InvalidConfig(why))
        },
    }
}

/// Why a directory could not be made a repository, if it could not.
pub open spec fn worktree_refusal(dir: Seq<char>, made: Result<Output, String>) -> Option<Seq<char>> {
    let why = match made {
        Err(err) => Some(err@),
        Ok(output) => if output.success {
            None
        } else {
            Some(trimmed(output.stderr@))
        },
    };
    match why {
        Some(why) => Some("cannot initialize "@ + dir + " as a git repository: "@ + why),
        None => None,
    }
}

/// Whether a directory was made a repository, from what asking git to came to.
pub fn made_worktree(dir: &str, made: Result<Output, String>) -> (checked: Result<(), Error>)
    ensures
        answers(checked, worktree_refusal(dir@, made)),
{
    let err = match made {
        Err(err) => err,
        Ok(output) => {
            if output.success {
                return Ok(());
            }
            trim(output.stderr.as_str())
        },
    };
    let mut why = String::from_str("cannot initialize ");
    why.append(dir);
    why.append(" as a git repository: ");
    why.append(err.as_str());
    Err(Error::InvalidConfig(why))
}

// ---- Laws ----
/// A verb that addresses a member only ever writes under the state directory of the
/// run it names: its file's name is one component, of its own directory.
pub proof fn a_signal_stays_in_its_run(
    left: Left,
    state_dir: Seq<char>,
    signal_dir: Seq<char>,
    args: MemberArgs,
    read: Result<Record, String>,
    kind: Signal,
)
    requires
        address_refusal(state_dir, args.run@, args.member@, read) is None,
        leaves_signal(left, state_dir, signal_dir, args, read->Ok_0, kind),
    ensures
        exists|name: Seq<char>|
            left.file.path@ == #[trigger] under(left.dir@, name) && name.len() > 0
                && !name.contains('/') && name[0] != '.',
{
    let member = args.member@;
    let name = member + "."@ + kind.suffix();
    reveal_strlit(".");
    reveal_strlit("trigger");
    reveal_strlit("reset");
    assert(plain_name(member));
    assert(name[0] == member[0]);
    assert forall|i: int| 0 <= i < name.len() implies name[i] != '/' by {
        if i < member.len() {
            assert(name[i] == member[i]);
        } else if i > member.len() {
            assert(name[i] == kind.suffix()[i - member.len() - 1]);
        }
    }
    assert(left.file.path@ == under(left.dir@, name));
}

/// The reason a `turn-interrupted` event gives is there exactly when its
/// redirection did not land, and the process exits with success exactly when it
/// did.
pub proof fn a_reason_is_given_exactly_when_nothing_was_delivered(
    delivery: Delivery,
    outcome: Interrupted,
)
    requires
        comes_to(delivery, outcome),
    ensures
        outcome.reason is None <==> delivery is Delivered,
        outcome.code == EXIT_SUCCESS <==> delivery is Delivered,
{
}

} // verus!
