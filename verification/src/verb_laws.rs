//! What each command does, said of what it was given.

use vstd::prelude::*;

use crate::cli::{CancelArgs, Hours, InterruptArgs, MemberArgs, MinAgeHours, RunArgs, Span};
use crate::control::{Delivery, Turn};
use crate::error::Error;
use crate::event::EventKind;
use crate::health;
use crate::history::{events, is_run_id, list, run_dir, show, Record};
use crate::json::{json_member, json_object, json_string};
use crate::keyed::before;
use crate::launch_laws::{a_name_is_placed, placed_in};
use crate::payload::Payload;
use crate::text::{decimal, signed_decimal, text_of, texts_of};
use crate::validation_laws::{one_component, says};
use crate::verbs::{
    addressed, approach, belongs_to_run, cancel, conclude, detached_args, detaching, exit_status,
    input_bytes, interrupted, made_worktree, member_name, needs_worktree, oneharness_bin,
    redirection, repeated, requested_task, scratch_of, settled, show_history, signal, smoke_lines,
    started_line, started_run, state_dir, temp_dir, temp_root, valid_line, Approach, Cancelled,
    Concluded, Detaching, Interrupted, Left, Output, Signal,
};

verus! {

// ---- Where a command works ----
/// Whether the environment sets a variable to a value: the first of its name says so.
pub open spec fn sets(env: Seq<(String, String)>, name: Seq<char>, value: Seq<char>) -> bool {
    exists|i: int|
        0 <= i < env.len() && (#[trigger] env[i]).0@ == name && env[i].1@ == value && forall|j: int|
            0 <= j < i ==> (#[trigger] env[j]).0@ != name
}

/// Whether the environment does not set a variable.
pub open spec fn unset(env: Seq<(String, String)>, name: Seq<char>) -> bool {
    forall|i: int| 0 <= i < env.len() ==> (#[trigger] env[i]).0@ != name
}

proof fn a_variable_is_its_first_entry(
    env: Seq<(String, String)>,
    name: Seq<char>,
    otherwise: Seq<char>,
)
    ensures
        unset(env, name) ==> crate::verbs::variable(env, name, otherwise) == otherwise,
        forall|value: Seq<char>| #[trigger]
            sets(env, name, value) ==> crate::verbs::variable(env, name, otherwise) == value,
{
    crate::keyed::place_is_the_first(env, name);
    let place = crate::keyed::place(env, name);
    assert forall|value: Seq<char>| #[trigger] sets(env, name, value) implies crate::verbs::variable(
        env,
        name,
        otherwise,
    ) == value by {
        let i = choose|i: int|
            0 <= i < env.len() && (#[trigger] env[i]).0@ == name && env[i].1@ == value && forall|
                j: int,
            |
                0 <= j < i ==> (#[trigger] env[j]).0@ != name;
        assert(crate::keyed::has_name(env, name));
        if place < i {
            assert(env[place].0@ != name);
        } else if i < place {
            assert(env[i].0@ != name);
        }
    }
}

/// Run state is where the environment says, and otherwise under the home directory, and
/// under the host's temporary one where there is no home; scratch is where `TMPDIR` says,
/// and otherwise in the host's own; the harness is the one the environment names, and
/// `oneharness` otherwise.
pub proof fn a_command_works_where_its_environment_says(
    env: &Vec<(String, String)>,
    temp: &str,
    state: String,
    root: String,
    bin: String,
)
    requires
        call_ensures(state_dir, (env, temp), state),
        call_ensures(temp_root, (env, temp), root),
        call_ensures(oneharness_bin, (env,), bin),
    ensures
        forall|value: Seq<char>| #[trigger]
            sets(env@, "ONEAGENTGRAPH_STATE_DIR"@, value) ==> state@ == value,
        forall|home: Seq<char>|
            unset(env@, "ONEAGENTGRAPH_STATE_DIR"@) && #[trigger] sets(env@, "HOME"@, home)
                ==> placed_in(state@, home, ".local/state/oneagentgraph/runs"@),
        unset(env@, "ONEAGENTGRAPH_STATE_DIR"@) && unset(env@, "HOME"@) ==> placed_in(
            state@,
            temp@,
            ".local/state/oneagentgraph/runs"@,
        ),
        forall|value: Seq<char>| #[trigger] sets(env@, "TMPDIR"@, value) ==> root@ == value,
        unset(env@, "TMPDIR"@) ==> root@ == temp@,
        forall|value: Seq<char>| #[trigger]
            sets(env@, "ONEAGENTGRAPH_ONEHARNESS_BIN"@, value) ==> bin@ == value,
        unset(env@, "ONEAGENTGRAPH_ONEHARNESS_BIN"@) ==> bin@ == "oneharness"@,
{
    reveal_strlit(".local/state/oneagentgraph/runs");
    let tail = ".local/state/oneagentgraph/runs"@;
    a_variable_is_its_first_entry(env@, "HOME"@, temp@);
    let home = crate::verbs::variable(env@, "HOME"@, temp@);
    a_name_is_placed(home, tail);
    a_variable_is_its_first_entry(
        env@,
        "ONEAGENTGRAPH_STATE_DIR"@,
        crate::anchor::under(home, tail),
    );
    a_variable_is_its_first_entry(env@, "TMPDIR"@, temp@);
    a_variable_is_its_first_entry(env@, "ONEAGENTGRAPH_ONEHARNESS_BIN"@, "oneharness"@);
}

/// A throwaway directory is named after what made it: the prefix, the verb, and the
/// process.
pub proof fn a_throwaway_directory_is_named_after_its_maker(
    root: &str,
    prefix: &str,
    verb: &str,
    pid: u32,
    dir: String,
)
    requires
        call_ensures(temp_dir, (root, prefix, verb, pid), dir),
        prefix@.len() > 0,
        prefix@[0] != '/',
    ensures
        placed_in(dir@, root@, prefix@ + verb@ + "-"@ + decimal(pid as nat)),
{
    a_name_is_placed(root@, prefix@ + verb@ + "-"@ + decimal(pid as nat));
}

/// A code that a process can exit with is the one it exits with, and any other is a
/// failure.
pub proof fn an_exit_code_is_kept_or_is_a_failure(code: i32, status: u8)
    requires
        call_ensures(exit_status, (code,), status),
    ensures
        0 <= code <= 255 ==> status == code,
        !(0 <= code <= 255) ==> status == 1,
{
}

/// A refused config exits two, and a member that failed exits one.
pub proof fn a_failure_exits_as_it_is(error: &Error, code: i32, text: String)
    requires
        call_ensures(Error::exit_code, (error,), code),
        call_ensures(Error::message, (error,), text),
    ensures
        error is InvalidConfig <==> code == 2,
        error is MemberFailed <==> code == 1,
        *error matches Error::InvalidConfig(why) ==> text@ == "invalid config: "@ + why@,
        *error matches Error::MemberFailed { member, reason } ==> text@ == "member '"@ + member@
            + "' failed: "@ + reason@,
{
}

// ---- Running ----
/// A task is named by one flag or by the other: both are refused, a file that cannot be
/// read is, and neither is no task.
pub proof fn a_task_is_named_once(
    args: &RunArgs,
    read: Result<String, String>,
    task: Result<Option<String>, Error>,
)
    requires
        call_ensures(requested_task, (args, read), task),
    ensures
        task is Err <==> (args.task is Some && args.task_file is Some) || (args.task is None
            && args.task_file is Some && read is Err),
        task matches Ok(found) ==> (args.task matches Some(text) ==> found matches Some(given)
            && given@ == text@),
        task matches Ok(found) ==> (args.task is None && args.task_file is Some ==> (found matches Some(
            given,
        ) && read matches Ok(text) && given@ == text@)),
        task matches Ok(found) ==> (args.task is None && args.task_file is None ==> found is None),
        task matches Err(error) ==> error is InvalidConfig,
{
}

/// How many of the arguments of a detached run come before its labels.
pub open spec fn arguments_first(args: RunArgs) -> int {
    2 + (if args.task is Some {
        2int
    } else {
        0
    }) + (if args.task_file is Some {
        2int
    } else {
        0
    }) + (if args.dir is Some {
        2int
    } else {
        0
    })
}

/// Whether a flag and its value stand at a place of the arguments.
pub open spec fn passes(argv: Seq<String>, at: int, flag: Seq<char>, value: Seq<char>) -> bool {
    0 <= at && at + 1 < argv.len() && argv[at]@ == flag && argv[at + 1]@ == value
}

/// Whether a flag is repeated before each value.
spec fn alternates(argv: Seq<Seq<char>>, flag: Seq<char>, values: Seq<String>, i: int) -> bool {
    argv[2 * i] == flag && argv[2 * i + 1] == values[i]@
}

proof fn a_repeated_flag_is_repeated(flag: Seq<char>, values: Seq<String>)
    ensures
        repeated(flag, values).len() == 2 * values.len(),
        forall|i: int|
            0 <= i < values.len() ==> #[trigger] alternates(
                repeated(flag, values),
                flag,
                values,
                i,
            ),
    decreases values.len(),
{
    if values.len() > 0 {
        let rest = values.drop_last();
        a_repeated_flag_is_repeated(flag, rest);
        let whole = repeated(flag, values);
        let earlier = repeated(flag, rest);
        assert forall|i: int| 0 <= i < values.len() implies #[trigger] alternates(
            whole,
            flag,
            values,
            i,
        ) by {
            if i < rest.len() {
                assert(alternates(earlier, flag, rest, i));
                assert(rest[i] == values[i]);
                assert(whole[2 * i] == earlier[2 * i]);
                assert(whole[2 * i + 1] == earlier[2 * i + 1]);
            } else {
                assert(whole[earlier.len() as int] == flag);
                assert(whole[earlier.len() as int + 1] == values.last()@);
            }
        }
    }
}

/// The run a `--detach` starts is handed this invocation's own arguments and no others:
/// the graph, the task, the directory, every label and every value that is set, in order,
/// and the filter.
pub proof fn a_detached_run_is_handed_its_arguments(args: &RunArgs, argv: Vec<String>)
    requires
        call_ensures(detached_args, (args,), argv),
    ensures
        ({
            let first = arguments_first(*args);
            let labels = args.label@.len() as int;
            let sets = args.set@.len() as int;
            let files = if args.task is Some {
                4int
            } else {
                2
            };
            &&& argv@.len() == first + 2 * labels + 2 * sets + if args.event_filter is Some {
                2int
            } else {
                0
            }
            &&& argv@[0]@ == "run"@
            &&& argv@[1]@ == args.graph@
            &&& args.task matches Some(task) ==> passes(argv@, 2, "--task"@, task@)
            &&& args.task_file matches Some(file) ==> passes(argv@, files, "--task-file"@, file@)
            &&& args.dir matches Some(dir) ==> passes(argv@, first - 2, "--dir"@, dir@)
            &&& forall|i: int|
                0 <= i < labels ==> passes(
                    argv@,
                    first + 2 * i,
                    "--label"@,
                    (#[trigger] args.label@[i])@,
                )
            &&& forall|i: int|
                0 <= i < sets ==> passes(
                    argv@,
                    first + 2 * labels + 2 * i,
                    "--set"@,
                    (#[trigger] args.set@[i])@,
                )
            &&& args.event_filter matches Some(filter) ==> passes(
                argv@,
                first + 2 * labels + 2 * sets,
                "--event-filter"@,
                filter@,
            )
        }),
{
    a_repeated_flag_is_repeated("--label"@, args.label@);
    a_repeated_flag_is_repeated("--set"@, args.set@);
    let texts = texts_of(argv@);
    assert(texts.len() == argv@.len());
    assert forall|i: int| 0 <= i < argv@.len() implies #[trigger] argv@[i]@ == texts[i] by {}
    let first = arguments_first(*args);
    let labels = args.label@.len() as int;
    let sets = args.set@.len() as int;
    let named = repeated("--label"@, args.label@);
    let set = repeated("--set"@, args.set@);
    assert forall|i: int| 0 <= i < labels implies passes(
        argv@,
        first + 2 * i,
        "--label"@,
        (#[trigger] args.label@[i])@,
    ) by {
        assert(alternates(named, "--label"@, args.label@, i));
        assert(texts[first + 2 * i] == named[2 * i]);
        assert(texts[first + 2 * i + 1] == named[2 * i + 1]);
    }
    assert forall|i: int| 0 <= i < sets implies passes(
        argv@,
        first + 2 * labels + 2 * i,
        "--set"@,
        (#[trigger] args.set@[i])@,
    ) by {
        assert(alternates(set, "--set"@, args.set@, i));
        assert(texts[first + 2 * labels + 2 * i] == set[2 * i]);
        assert(texts[first + 2 * labels + 2 * i + 1] == set[2 * i + 1]);
    }
}

/// Whether a list names a run.
pub open spec fn names_run(known: Seq<String>, run_id: Seq<char>) -> bool {
    exists|k: int| 0 <= k < known.len() && (#[trigger] known[k])@ == run_id
}

/// The run a `--detach` reports is the first listed one that was not there before, and it
/// reports none while every listed one was.
pub proof fn a_started_run_was_not_there_before(
    known: &Vec<String>,
    records: &Vec<Record>,
    found: Option<usize>,
)
    requires
        call_ensures(started_run, (known, records), found),
    ensures
        found matches Some(at) ==> at < records@.len() && !names_run(
            known@,
            records@[at as int].run_id@,
        ) && forall|i: int|
            0 <= i < at ==> names_run(known@, (#[trigger] records@[i]).run_id@),
        found is None ==> forall|i: int|
            0 <= i < records@.len() ==> names_run(known@, (#[trigger] records@[i]).run_id@),
{
    if let Some(at) = found {
        assert forall|i: int| 0 <= i < at implies names_run(
            known@,
            (#[trigger] records@[i]).run_id@,
        ) by {
            a_text_that_is_held_is_named(known@, records@[i].run_id@);
        }
        a_text_that_is_held_is_named(known@, records@[at as int].run_id@);
    } else {
        assert forall|i: int| 0 <= i < records@.len() implies names_run(
            known@,
            (#[trigger] records@[i]).run_id@,
        ) by {
            a_text_that_is_held_is_named(known@, records@[i].run_id@);
        }
    }
}

proof fn a_text_that_is_held_is_named(known: Seq<String>, run_id: Seq<char>)
    ensures
        crate::text::holds_text(known, run_id) <==> names_run(known, run_id),
{
}

/// A `--detach` waits for its run for ten seconds: until then it looks again while no new
/// run is listed and reports the first that is, and then it fails.
pub proof fn a_detach_waits_ten_seconds(
    known: &Vec<String>,
    records: &Vec<Record>,
    pid: u32,
    waited: u64,
    next: Detaching,
)
    requires
        call_ensures(detaching, (known, records, pid, waited), next),
    ensures
        waited >= 10_000 <==> next is GiveUp,
        next is Wait ==> forall|i: int|
            0 <= i < records@.len() ==> names_run(known@, (#[trigger] records@[i]).run_id@),
        next matches Detaching::Started(line) ==> exists|at: int|
            0 <= at < records@.len() && !names_run(
                known@,
                (#[trigger] records@[at]).run_id@,
            ) && reports_started(line@, records@[at], pid),
        next matches Detaching::GiveUp(error) ==> error is InvalidConfig,
{
    assert forall|run_id: Seq<char>| #[trigger]
        crate::text::holds_text(known@, run_id) <==> names_run(known@, run_id) by {
        a_text_that_is_held_is_named(known@, run_id);
    }
    if let Detaching::Started(line) = next {
        let at = choose|at: int|
            0 <= at < records@.len() && !crate::text::holds_text(
                known@,
                (#[trigger] records@[at]).run_id@,
            ) && crate::verbs::known_prefix(known@, records@, at) && line@
                == crate::verbs::started_text(records@[at], pid);
        a_text_that_is_held_is_named(known@, records@[at].run_id@);
        assert(reports_started(line@, records@[at], pid));
    }
}

/// Whether a line says which run was started, where its events are, and by which process.
pub open spec fn reports_started(line: Seq<char>, record: Record, pid: u32) -> bool {
    line == json_object(
        seq![
            json_member("run_id"@, json_string(record.run_id@)),
            json_member("events_path"@, json_string(record.events_path@)),
            json_member("pid"@, decimal(pid as nat)),
        ],
    )
}

/// A started run's line says which run it is, where its events are, and its process.
pub proof fn a_started_line_says_which_run(record: &Record, pid: u32, line: String)
    requires
        call_ensures(started_line, (record, pid), line),
    ensures
        reports_started(line@, *record, pid),
{
}

/// A graph that can run is reported by its name and the number of its members.
pub proof fn a_valid_graph_is_counted(name: &str, members: usize, line: String)
    requires
        call_ensures(valid_line, (name, members), line),
    ensures
        line@ == name@ + ": "@ + decimal(members as nat) + " member(s) OK"@,
{
}

// ---- Addressing a member ----
/// Whether a record knows a member: it is among those its graph declares, or, where the
/// record declares none, among those that settled; a record that names nobody knows
/// everybody.
pub open spec fn knows(record: Record, member: Seq<char>) -> bool {
    if record.declared_members@.len() > 0 {
        names_run(record.declared_members@, member)
    } else {
        record.members@.len() == 0 || names_run(record.members@, member)
    }
}

/// A member's name is accepted where it is one path component, and nowhere else.
pub proof fn a_member_is_addressed_by_one_component(member: &str, checked: Result<(), Error>)
    requires
        call_ensures(member_name, (member,), checked),
    ensures
        checked is Ok <==> one_component(member@),
        checked matches Err(error) ==> error is InvalidConfig,
{
}

/// A member belongs to a run exactly where the run's record knows it.
pub proof fn a_member_belongs_where_it_is_known(
    record: &Record,
    run: &str,
    member: &str,
    checked: Result<(), Error>,
)
    requires
        call_ensures(belongs_to_run, (record, run, member), checked),
    ensures
        checked is Ok <==> knows(*record, member@),
        checked matches Err(error) ==> error is InvalidConfig,
{
    a_text_that_is_held_is_named(record.declared_members@, member@);
    a_text_that_is_held_is_named(record.members@, member@);
}

/// A member of a run is addressed exactly where its name and the run's are one component
/// each, the run's record could be read, and the record knows the member; what is answered
/// is that record.
pub proof fn a_member_is_addressed_in_its_run(
    state: &str,
    run: &str,
    member: &str,
    read: Result<Record, String>,
    record: Result<Record, Error>,
)
    requires
        call_ensures(addressed, (state, run, member, read), record),
    ensures
        record is Ok <==> one_component(member@) && one_component(run@) && (read matches Ok(found)
            && knows(found, member@)),
        record matches Ok(found) ==> read == Ok::<Record, String>(found),
        record matches Err(error) ==> error is InvalidConfig,
{
    if let Ok(found) = read {
        a_text_that_is_held_is_named(found.declared_members@, member@);
        a_text_that_is_held_is_named(found.members@, member@);
    }
}

/// Whether a directory is that of a run's signals.
pub open spec fn signals_of(
    dir: Seq<char>,
    state: Seq<char>,
    run_id: Seq<char>,
    signals: Seq<char>,
) -> bool {
    exists|root: Seq<char>| #[trigger] placed_in(root, state, run_id) && placed_in(dir, root, signals)
}

/// A signal is left for the member that was named, in the signals of the run that was
/// addressed, under the name and with the text of its own kind, and only for a member that
/// can be addressed.
pub proof fn a_signal_is_left_for_its_member(
    state: &str,
    signals: &str,
    args: &MemberArgs,
    read: Result<Record, String>,
    kind: Signal,
    left: Result<Left, Error>,
)
    requires
        call_ensures(signal, (state, signals, args, read, kind), left),
        signals@.len() > 0,
        signals@[0] != '/',
    ensures
        left is Ok <==> one_component(args.member@) && one_component(args.run@) && (
        read matches Ok(found) && knows(found, args.member@)),
        left matches Ok(left) ==> {
            let said = match kind {
                Signal::Trigger => "trigger"@,
                Signal::Reset => "reset"@,
            };
            &&& one_component(read->Ok_0.run_id@) ==> signals_of(
                left.dir@,
                state@,
                read->Ok_0.run_id@,
                signals@,
            )
            &&& placed_in(left.file.path@, left.dir@, args.member@ + "."@ + said)
            &&& left.file.content@ == said
            &&& left.line@ == args.run@ + ": "@ + args.member@ + " "@ + said
        },
{
    reveal_strlit(".");
    if let Ok(found) = read {
        a_text_that_is_held_is_named(found.declared_members@, args.member@);
        a_text_that_is_held_is_named(found.members@, args.member@);
        if let Ok(left) = left {
            let name = args.member@ + "."@ + kind.suffix();
            assert(name[0] == args.member@[0]);
            a_name_is_placed(left.dir@, name);
            if one_component(found.run_id@) {
                a_name_is_placed(state@, found.run_id@);
                a_name_is_placed(crate::anchor::under(state@, found.run_id@), signals@);
            }
        }
    }
}

/// A cancel stops the member it names, or the whole run where it names none: the stop is
/// left in the run's own signals, and what a `--kill` reaps is that member's scratch, or
/// the run's directory.
pub proof fn a_cancel_stops_what_it_names(
    state: &str,
    signals: &str,
    args: &CancelArgs,
    read: Result<Record, String>,
    cancelled: Result<Cancelled, Error>,
)
    requires
        call_ensures(cancel, (state, signals, args, read), cancelled),
        signals@.len() > 0,
        signals@[0] != '/',
    ensures
        cancelled is Ok <==> one_component(args.run@) && (read matches Ok(found) && (
        args.member matches Some(member) ==> one_component(member@) && knows(found, member@))),
        cancelled matches Ok(cancelled) ==> {
            let record = read->Ok_0;
            &&& cancelled.file.content@ == "stop"@
            &&& args.member matches Some(member) ==> placed_in(
                cancelled.file.path@,
                cancelled.dir@,
                member@ + ".stop"@,
            )
            &&& args.member is None ==> placed_in(
                cancelled.file.path@,
                cancelled.dir@,
                "stop"@,
            )
            &&& one_component(record.run_id@) ==> signals_of(
                cancelled.dir@,
                state@,
                record.run_id@,
                signals@,
            )
            &&& one_component(record.run_id@) && args.member is None ==> placed_in(
                cancelled.scratch@,
                state@,
                record.run_id@,
            )
            &&& one_component(record.run_id@) ==> (args.member matches Some(member)
                ==> scratch_in(cancelled.scratch@, state@, record.run_id@, member@))
        },
{
    reveal_strlit("stop");
    reveal_strlit("members");
    if let Ok(found) = read {
        if let Some(member) = args.member {
            a_text_that_is_held_is_named(found.declared_members@, member@);
            a_text_that_is_held_is_named(found.members@, member@);
        }
        if let Ok(cancelled) = cancelled {
            a_name_is_placed(cancelled.dir@, "stop"@);
            if let Some(member) = args.member {
                let name = member@ + ".stop"@;
                assert(name[0] == member@[0]);
                a_name_is_placed(cancelled.dir@, name);
            }
            if one_component(found.run_id@) {
                a_name_is_placed(state@, found.run_id@);
                let root = crate::anchor::under(state@, found.run_id@);
                a_name_is_placed(root, signals@);
                a_name_is_placed(root, "members"@);
                if let Some(member) = args.member {
                    a_name_is_placed(crate::anchor::under(root, "members"@), member@);
                }
            }
        }
    }
}

/// Whether a directory is the scratch of one member of a run.
pub open spec fn scratch_in(
    dir: Seq<char>,
    state: Seq<char>,
    run_id: Seq<char>,
    member: Seq<char>,
) -> bool {
    exists|root: Seq<char>, members: Seq<char>|
        #[trigger] placed_in(root, state, run_id) && #[trigger] placed_in(
            members,
            root,
            "members"@,
        ) && placed_in(dir, members, member)
}

/// A member's scratch is in its run's directory, among the members.
pub proof fn a_members_scratch_is_in_its_run(state: &str, run_id: &str, member: &str, dir: String)
    requires
        call_ensures(scratch_of, (state, run_id, member), dir),
        one_component(run_id@),
        one_component(member@),
    ensures
        scratch_in(dir@, state@, run_id@, member@),
{
    reveal_strlit("members");
    a_name_is_placed(state@, run_id@);
    let root = crate::anchor::under(state@, run_id@);
    a_name_is_placed(root, "members"@);
    a_name_is_placed(crate::anchor::under(root, "members"@), member@);
}

// ---- Interrupting ----
/// A redirection is named once, and is refused where it says nothing; sending none only
/// stops the turn.
pub proof fn a_redirection_says_something(
    args: &InterruptArgs,
    read: Result<String, String>,
    input: Result<Option<String>, Error>,
)
    requires
        call_ensures(redirection, (args, read), input),
    ensures
        args.input is Some && args.input_file is Some ==> input is Err,
        args.input is None && args.input_file is None ==> (input matches Ok(given)
            && given is None),
        args.input is Some && args.input_file is None ==> if says(args.input->0@) {
            input matches Ok(Some(given)) && given@ == args.input->0@
        } else {
            input is Err
        },
        args.input is None && args.input_file is Some ==> match read {
            Ok(text) => if says(text@) {
                input matches Ok(Some(given)) && given@ == text@
            } else {
                input is Err
            },
            Err(_) => input is Err,
        },
        input matches Err(error) ==> error is InvalidConfig,
{
}

/// A redirection is measured by its bytes.
pub proof fn a_redirection_is_measured_in_bytes(input: &Option<String>, bytes: u64)
    requires
        call_ensures(input_bytes, (input,), bytes),
    ensures
        *input matches Some(text) ==> bytes == vstd::utf8::encode_utf8(text@).len(),
        *input is None ==> bytes == 0,
{
}

/// A member has settled where its run has ended or names it among those that did.
pub proof fn a_member_has_settled_with_its_run(record: &Record, member: &str, answer: bool)
    requires
        call_ensures(settled, (record, member), answer),
    ensures
        answer <==> record.exit_code is Some || names_run(record.members@, member@),
{
    a_text_that_is_held_is_named(record.members@, member@);
}

/// A redirection is delivered to an open turn of a member that has not settled, and to no
/// other; a turn that could never be addressed says so in its own words, settled or not.
pub proof fn only_an_open_turn_is_delivered_to(
    turn: Result<Turn, String>,
    settled: bool,
    approach_taken: Approach,
)
    requires
        call_ensures(approach, (turn, settled), approach_taken),
    ensures
        approach_taken is Deliver <==> (turn matches Ok(Turn::Open { .. }) && !settled),
        approach_taken matches Approach::Deliver(address) ==> turn == Ok::<Turn, String>(
            Turn::Open { address },
        ),
        turn matches Ok(Turn::Unavailable { reason }) ==> approach_taken == Approach::NoTurn(
            reason,
        ),
        turn matches Err(reason) ==> approach_taken == Approach::NoTurn(reason),
{
}

/// A delivery exits zero where it landed, three where there was no turn, and one where it
/// failed, with the reason it gave; one that oneharness would not take is refused.
pub proof fn a_delivery_exits_as_it_went(delivery: Delivery, outcome: Result<Interrupted, Error>)
    requires
        call_ensures(interrupted, (delivery,), outcome),
    ensures
        delivery is Invalid <==> outcome is Err,
        delivery is Delivered ==> outcome->Ok_0.code == 0 && outcome->Ok_0.reason is None,
        delivery matches Delivery::NoTurn(why) ==> outcome->Ok_0.code == 3
            && outcome->Ok_0.reason == Some(why),
        delivery matches Delivery::Failed(why) ==> outcome->Ok_0.code == 1
            && outcome->Ok_0.reason == Some(why),
        outcome matches Err(error) ==> error is InvalidConfig,
{
}

/// Every interrupt that was not refused publishes one event, on a stream of its own, that
/// names the member and says whether the redirection landed, how much was offered, and why
/// not; only a delivery that was attempted and failed is an error on the terminal.
pub proof fn an_interrupt_is_published_whatever_came_of_it(
    args: &InterruptArgs,
    run_id: &str,
    pid: u32,
    input: &Option<String>,
    delivery: Delivery,
    concluded: Result<Concluded, Error>,
)
    requires
        call_ensures(conclude, (args, run_id, pid, input, delivery), concluded),
        *input matches Some(text) ==> vstd::utf8::encode_utf8(text@).len() <= u64::MAX,
    ensures
        concluded is Err <==> delivery is Invalid,
        concluded matches Ok(found) ==> {
            let envelope = found.event.envelope;
            &&& found.event.admitted
            &&& envelope.kind == EventKind::TurnInterrupted
            &&& envelope.seq == 0
            &&& envelope.stream@ == run_id@ + "-interrupt-"@ + decimal(pid as nat)
            &&& text_of(envelope.labels.run_id) == Some(run_id@)
            &&& text_of(envelope.labels.member) == Some(args.member@)
            &&& envelope.payload matches Payload::TurnInterrupted(said) && said.member@
                == args.member@ && said.delivered == (delivery is Delivered) && (said.reason is None
                <==> delivery is Delivered) && said.input_bytes == match *input {
                Some(text) => vstd::utf8::encode_utf8(text@).len(),
                None => 0,
            }
            &&& found.diagnostic is Some <==> delivery is Failed
            &&& delivery is Delivered <==> found.code == 0
            &&& delivery is NoTurn <==> found.code == 3
            &&& delivery is Failed <==> found.code == 1
            &&& envelope.payload matches Payload::TurnInterrupted(said) && (
            delivery matches Delivery::NoTurn(why) ==> text_of(said.reason) == Some(why@))
            &&& envelope.payload matches Payload::TurnInterrupted(said) && (
            delivery matches Delivery::Failed(why) ==> text_of(said.reason) == Some(why@))
        },
{
}

// ---- History ----
/// A run's id is accepted where it is one path component, and nowhere else, and its
/// directory is that component of the state directory.
pub proof fn a_run_is_one_component_of_the_state_directory(
    state: &str,
    run_id: &str,
    answer: bool,
    dir: String,
)
    requires
        call_ensures(is_run_id, (run_id,), answer),
        call_ensures(run_dir, (state, run_id), dir),
    ensures
        answer <==> one_component(run_id@),
        answer ==> placed_in(dir@, state@, run_id@),
{
    if one_component(run_id@) {
        a_name_is_placed(state@, run_id@);
    }
}

/// A listing holds every run that could be read and no other, the newest first, and of two
/// that started together the one whose id comes first.
pub proof fn a_listing_is_newest_first(
    found: Vec<Option<Record>>,
    records: Vec<Record>,
    i: int,
    j: int,
    record: Record,
)
    requires
        call_ensures(list, (found,), records),
        0 <= i < j < records@.len(),
    ensures
        records@[i].started_ms >= records@[j].started_ms,
        records@[i].started_ms == records@[j].started_ms && records@[i].run_id@
            != records@[j].run_id@ ==> before(records@[i].run_id@, records@[j].run_id@),
        records@.contains(record) <==> found@.contains(Some(record)),
{
    crate::keyed::order_is_total(records@[i].run_id@, records@[j].run_id@);
    assert(!crate::history::listed_before(records@[j], records@[i]));
    crate::history::an_unreadable_record_hides_only_itself(found@, records@, record);
}

/// One text comes before another by their first different character, and a text comes
/// before every longer one that begins with it.
pub proof fn texts_are_ordered_by_their_first_difference(
    left: Seq<char>,
    right: Seq<char>,
    at: int,
)
    requires
        0 <= at <= left.len(),
        at <= right.len(),
        left.take(at) == right.take(at),
        left != right,
        at < left.len() && at < right.len() ==> left[at] != right[at],
        at < left.len() || at < right.len(),
    ensures
        at == left.len() ==> before(left, right),
        at == right.len() ==> !before(left, right),
        at < left.len() && at < right.len() ==> (before(left, right) <==> (left[at] as u32) < (
        right[at] as u32)),
    decreases at,
{
    if at > 0 {
        assert(left.take(at)[0] == left[0]);
        assert(right.take(at)[0] == right[0]);
        let (a, b) = (left.drop_first(), right.drop_first());
        assert(a.take(at - 1) =~= left.take(at).drop_first());
        assert(b.take(at - 1) =~= right.take(at).drop_first());
        if a == b {
            assert(left =~= seq![left[0]] + a);
            assert(right =~= seq![right[0]] + b);
        }
        texts_are_ordered_by_their_first_difference(a, b, at - 1);
    }
}

/// A run is shown where its id is one and its record could be read, and its events where
/// they could be read too: as they were written.
pub proof fn a_run_is_shown_as_it_was_recorded(
    state: &str,
    run_id: &str,
    read: Result<Record, String>,
    shown: Result<Record, Error>,
    written: Result<String, String>,
    stream: Result<String, Error>,
)
    requires
        call_ensures(show, (state, run_id, read), shown),
        call_ensures(events, (shown, written), stream),
    ensures
        shown is Ok <==> one_component(run_id@) && read is Ok,
        shown matches Ok(record) ==> read == Ok::<Record, String>(record),
        stream is Ok <==> shown is Ok && written is Ok,
        stream matches Ok(text) ==> written == Ok::<String, String>(text),
        shown matches Err(error) ==> error is InvalidConfig,
{
}

/// How a run is listed: its id, what it exited with or that it is running, and its graph.
pub open spec fn listed_as(line: Seq<char>, record: Record) -> bool {
    line == record.run_id@ + "\t"@ + (match record.exit_code {
        Some(code) => signed_decimal(code as int),
        None => "running"@,
    }) + "\t"@ + record.name@
}

proof fn every_listed_line_is_a_runs(run: Option<Seq<char>>, records: Seq<Record>)
    ensures
        run is None ==> crate::verbs::listing(run, records).len() == records.len() && forall|
            i: int,
        |
            0 <= i < records.len() ==> listed_as(
                #[trigger] crate::verbs::listing(run, records)[i],
                records[i],
            ),
        run matches Some(id) ==> (crate::verbs::listing(run, records).len() == 0 <==> forall|i: int|
            0 <= i < records.len() ==> (#[trigger] records[i]).run_id@ != id),
        forall|i: int|
            0 <= i < crate::verbs::listing(run, records).len() ==> exists|k: int|
                0 <= k < records.len() && listed_as(
                    #[trigger] crate::verbs::listing(run, records)[i],
                    #[trigger] records[k],
                ) && (run matches Some(id) ==> records[k].run_id@ == id),
    decreases records.len(),
{
    if records.len() > 0 {
        let rest = records.drop_last();
        every_listed_line_is_a_runs(run, rest);
        let whole = crate::verbs::listing(run, records);
        let earlier = crate::verbs::listing(run, rest);
        assert forall|i: int| 0 <= i < whole.len() implies exists|k: int|
            0 <= k < records.len() && listed_as(#[trigger] whole[i], #[trigger] records[k]) && (
            run matches Some(id) ==> records[k].run_id@ == id) by {
            if i < earlier.len() {
                assert(whole[i] == earlier[i]);
                let k = choose|k: int|
                    0 <= k < rest.len() && listed_as(earlier[i], #[trigger] rest[k]) && (
                    run matches Some(id) ==> rest[k].run_id@ == id);
                assert(records[k] == rest[k]);
            } else {
                assert(listed_as(whole[i], records[records.len() - 1]));
            }
        }
        if run is None {
            assert forall|i: int| 0 <= i < records.len() implies listed_as(
                #[trigger] whole[i],
                records[i],
            ) by {
                if i < rest.len() {
                    assert(whole[i] == earlier[i]);
                    assert(rest[i] == records[i]);
                }
            }
        }
        if let Some(id) = run {
            if whole.len() == 0 {
                assert forall|i: int| 0 <= i < records.len() implies (#[trigger] records[i]).run_id@
                    != id by {
                    if i < rest.len() {
                        assert(rest[i].run_id@ != id);
                    }
                }
            }
            if forall|i: int| 0 <= i < records.len() ==> (#[trigger] records[i]).run_id@ != id {
                assert forall|i: int| 0 <= i < rest.len() implies (#[trigger] rest[i]).run_id@
                    != id by {
                    assert(records[i].run_id@ != id);
                }
                assert(records[records.len() - 1].run_id@ != id);
            }
        }
    }
}

/// A listing of every run has one line for each, in order; a listing of one run holds that
/// run's lines alone, and is refused where there is none.
pub proof fn a_listing_says_how_each_run_went(
    run: &Option<String>,
    records: &Vec<Record>,
    lines: Result<Vec<String>, Error>,
)
    requires
        call_ensures(show_history, (run, records), lines),
    ensures
        *run is None ==> lines is Ok && lines->Ok_0@.len() == records@.len() && forall|i: int|
            0 <= i < records@.len() ==> listed_as(
                (#[trigger] lines->Ok_0@[i])@,
                records@[i],
            ),
        *run matches Some(id) ==> (lines is Err <==> forall|i: int|
            0 <= i < records@.len() ==> (#[trigger] records@[i]).run_id@ != id@),
        *run is Some && lines is Ok ==> forall|i: int|
            0 <= i < lines->Ok_0@.len() ==> exists|k: int|
                0 <= k < records@.len() && listed_as(
                    (#[trigger] lines->Ok_0@[i])@,
                    #[trigger] records@[k],
                ) && records@[k].run_id@ == (*run)->0@,
{
    every_listed_line_is_a_runs(text_of(*run), records@);
    let listed = crate::verbs::listing(text_of(*run), records@);
    if let Ok(lines) = lines {
        assert(texts_of(lines@).len() == lines@.len());
        assert forall|i: int| 0 <= i < lines@.len() implies (#[trigger] lines@[i])@ == listed[i] by {
            assert(texts_of(lines@)[i] == lines@[i]@);
        }
        if let Some(id) = *run {
            assert forall|i: int| 0 <= i < lines@.len() implies exists|k: int|
                0 <= k < records@.len() && listed_as(
                    (#[trigger] lines@[i])@,
                    #[trigger] records@[k],
                ) && records@[k].run_id@ == id@ by {
                let k = choose|k: int|
                    0 <= k < records@.len() && listed_as(listed[i], #[trigger] records@[k])
                        && records@[k].run_id@ == id@;
                assert(listed_as(lines@[i]@, records@[k]));
            }
        }
    }
}

// ---- Smoke and the rest ----
/// A smoke reports every candidate that fell through, in order, and then the one that ran;
/// a start that had to be repeated is said to have been.
pub proof fn a_smoke_reports_its_chain(
    past: &Vec<(String, String)>,
    ran: &str,
    attempts: u64,
    lines: Vec<String>,
)
    requires
        call_ensures(smoke_lines, (past, ran, attempts), lines),
    ensures
        lines@.len() == past@.len() + 1,
        forall|i: int|
            0 <= i < past@.len() ==> (#[trigger] lines@[i])@ == "smoke: fell through "@
                + past@[i].0@ + " ("@ + past@[i].1@ + "); the chain handed the turn on"@,
        attempts <= 1 ==> lines@.last()@ == "smoke: passed via "@ + ran@,
        attempts > 1 ==> lines@.last()@ == "smoke: passed via "@ + ran@ + (" after "@ + decimal(
            attempts as nat,
        ) + " attempts"@),
{
    let report = crate::verbs::smoke_report(past@, ran@, attempts);
    assert(texts_of(lines@).len() == lines@.len());
    assert forall|i: int| 0 <= i < lines@.len() implies (#[trigger] lines@[i])@ == report[i] by {
        assert(texts_of(lines@)[i] == lines@[i]@);
    }
    if attempts <= 1 {
        assert("smoke: passed via "@ + ran@ + Seq::<char>::empty() =~= "smoke: passed via "@ + ran@);
    }
}

/// A directory needs a repository of its own unless git succeeds in saying that it is
/// inside one; that git could not be asked is refused.
pub proof fn a_directory_outside_a_worktree_needs_one(
    dir: &str,
    asked: Result<Output, String>,
    needs: Result<bool, Error>,
)
    requires
        call_ensures(needs_worktree, (dir, asked), needs),
    ensures
        needs is Err <==> asked is Err,
        asked matches Ok(output) ==> (needs->Ok_0 <==> !(output.success && output.stdout@ == seq![
            116u8,
            114u8,
            117u8,
            101u8,
            10u8,
        ])),
{
}

/// A directory was made a repository where git succeeded, and only there.
pub proof fn a_repository_was_made_where_git_succeeded(
    dir: &str,
    made: Result<Output, String>,
    checked: Result<(), Error>,
)
    requires
        call_ensures(made_worktree, (dir, made), checked),
    ensures
        checked is Ok <==> (made matches Ok(output) && output.success),
        checked matches Err(error) ==> error is InvalidConfig,
{
}

/// What oneharness reports is handed on as it is, and its refusal is that of a config,
/// with its own words in it.
pub proof fn a_health_report_is_handed_on<R>(reported: Result<R, String>, report: Result<R, Error>)
    requires
        call_ensures(health::read, (reported,), report),
    ensures
        reported matches Ok(found) ==> report == Ok::<R, Error>(found),
        reported matches Err(why) ==> (report matches Err(Error::InvalidConfig(text)) && exists|
            front: Seq<char>,
            back: Seq<char>,
        | text@ == #[trigger] (front + why@ + back)),
{
    if let Err(why) = reported {
        if let Err(Error::InvalidConfig(text)) = report {
            let front = "oneharness cannot report on this host's identities: "@;
            let back =
                ". `health` is a free pre-flight read of oneharness's own data, so the only thing that refuses it is configuration it cannot load."@;
            assert(text@ == front + why@ + back);
        }
    }
}

/// A floor is exactly the span that was read, and every text that was read as none is
/// refused.
pub proof fn a_floor_is_the_span_that_was_read(
    text: &str,
    hours: Hours,
    floor: Result<MinAgeHours, String>,
)
    requires
        hours matches Hours::Long(span) ==> span.well_formed(),
        call_ensures(MinAgeHours::read, (text, hours), floor),
    ensures
        floor is Ok <==> hours is Long,
        hours matches Hours::Long(span) ==> floor->Ok_0.span() == span,
        hours is NotNumeric ==> floor->Err_0@ == "`"@ + text@ + "` is not a number of hours"@,
        hours is BelowZero ==> floor->Err_0@ == "`"@ + text@
            + "` is not a non-negative number of hours"@,
        hours is TooMany ==> floor->Err_0@ == "`"@ + text@
            + "` is more hours than a floor can hold"@,
{
}

/// The floor nobody asked for is a day.
pub proof fn a_floor_is_a_day_by_default(floor: MinAgeHours, span: Span)
    requires
        call_ensures(MinAgeHours::default_floor, (), floor),
        call_ensures(MinAgeHours::as_duration, (floor,), span),
    ensures
        span.secs == 24 * 60 * 60,
        span.nanos == 0,
{
}

} // verus!
