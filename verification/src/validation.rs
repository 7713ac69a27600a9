//! Everything about a graph that can be checked without launching it.
//!
//! Each check states its refusal as text, in the terms the graph's author wrote
//! it, and the graph's answer is the first refusal there is.

use vstd::prelude::*;
use vstd::string::StringExecFns;

use crate::config::{
    GraphConfig, JudgeSide, Member, OneharnessMember, OnejudgeMember, PreTurn, Schedule,
    DEFAULT_PRE_TURN_SECONDS, FIRST_BACKGROUND_VERSION, FIRST_EVENT_FILTER_VERSION,
    FIRST_MEMBER_JOB_VERSION, FIRST_PERSONA_CATALOG_VERSION, FIRST_PRE_TURN_VERSION,
    FIRST_SCHEMA_VERSION, FIRST_START_AFTER_VERSION, FIRST_TWO_PARTY_DEPS_VERSION,
    FIRST_TWO_PARTY_JOB_VERSION, MAX_PRE_TURN_COMMANDS, MAX_PRE_TURN_SECONDS,
    MAX_SCHEDULE_SECONDS, SCHEMA_VERSION,
};
use crate::error::{answers, Error};
use crate::text::{
    blank, characters, contains_character, decimal, holds_character, is_blank, is_plain_name,
    plain_name, quote, quoted, write_decimal,
};

verus! {

/// The first of two refusals.
pub open spec fn or_else(first: Option<Seq<char>>, then: Option<Seq<char>>) -> Option<Seq<char>> {
    match first {
        Some(why) => Some(why),
        None => then,
    }
}

/// Something said of one member.
pub open spec fn of_member(name: Seq<char>, said: Seq<char>) -> Seq<char> {
    "member "@ + quoted(name) + said
}

fn say_of_member(name: &str, said: &str) -> (text: String)
    ensures
        text@ == of_member(name@, said@),
{
    let mut text = String::from_str("member ");
    text.append(quote(name).as_str());
    text.append(said);
    text
}

/// A field a member may only use from a later schema.
pub open spec fn needs_version(name: Seq<char>, field: Seq<char>, version: u32) -> Seq<char> {
    of_member(name, " uses "@ + field + ", which requires graph schema version "@ + decimal(
        version as nat,
    ))
}

fn say_needs_version(name: &str, field: &str, version: u32) -> (text: String)
    ensures
        text@ == needs_version(name@, field@, version),
{
    let mut said = String::from_str(" uses ");
    said.append(field);
    said.append(", which requires graph schema version ");
    said.append(write_decimal(version as u64).as_str());
    say_of_member(name, said.as_str())
}

fn refuse<T>(why: String) -> (outcome: Result<T, Error>)
    ensures
        answers(outcome, Some(why@)),
{
    Err(Error::InvalidConfig(why))
}

// ---- Commands ----
/// The first word of a command that holds a NUL.
pub open spec fn nul_word(command: Seq<String>) -> Option<Seq<char>>
    decreases command.len(),
{
    if command.len() == 0 {
        None
    } else if holds_character(command[0]@, '\0') {
        Some(command[0]@)
    } else {
        nul_word(command.drop_first())
    }
}

/// Whether a command names no program.
pub open spec fn no_program(command: Seq<String>) -> bool {
    command.len() == 0 || blank(command[0]@)
}

fn find_nul_word(command: &Vec<String>) -> (found: Option<&String>)
    ensures
        match nul_word(command@) {
            Some(word) => found matches Some(text) && text@ == word,
            None => found is None,
        },
{
    let mut at: usize = 0;
    assert(command@.skip(0) =~= command@);
    while at < command.len()
        invariant
            at <= command@.len(),
            nul_word(command@) == nul_word(command@.skip(at as int)),
        decreases command@.len() - at,
    {
        assert(command@.skip(at as int)[0] == command@[at as int]);
        if contains_character(command[at].as_str(), '\0') {
            return Some(&command[at]);
        }
        assert(command@.skip(at as int).drop_first() =~= command@.skip(at + 1));
        at = at + 1;
    }
    None
}

fn has_no_program(command: &Vec<String>) -> (answer: bool)
    ensures
        answer == no_program(command@),
{
    command.len() == 0 || is_blank(command[0].as_str())
}

/// A word that cannot cross into a process.
pub open spec fn carries_nul(word: Seq<char>) -> Seq<char> {
    quoted(word)
        + " carries a NUL, which no argument can — this is an argv handed straight to a process"@
}

fn say_carries_nul(word: &str) -> (text: String)
    ensures
        text@ == carries_nul(word@),
{
    let mut text = quote(word);
    text.append(
        " carries a NUL, which no argument can — this is an argv handed straight to a process",
    );
    text
}

/// Why `command` could not be spawned as a command judge, when it could not.
pub open spec fn command_refusal(command: Seq<String>) -> Option<Seq<char>> {
    if no_program(command) {
        Some(
            "a command judge needs a command to run — its `command` is an argv spawned directly, so the program is its first element"@,
        )
    } else {
        match nul_word(command) {
            Some(word) => Some(carries_nul(word)),
            None => None,
        }
    }
}

/// Why `command` could not be spawned as a command judge, when it could not.
///
/// An empty list names no program, a blank one is a spawn of nothing, and a NUL
/// cannot cross into a process. Shared by the graph's validation and by the
/// composition of a member's launch so the two cannot drift.
pub fn command_judge_refusal(command: &Vec<String>) -> (refusal: Option<String>)
    ensures
        crate::text::text_of(refusal) == command_refusal(command@),
{
    if has_no_program(command) {
        return Some(
            String::from_str(
                "a command judge needs a command to run — its `command` is an argv spawned directly, so the program is its first element",
            ),
        );
    }
    match find_nul_word(command) {
        Some(word) => Some(say_carries_nul(word.as_str())),
        None => None,
    }
}

// ---- The judge panel ----
/// Something said of one entry of a member's judge list, counted from one.
pub open spec fn of_judge(name: Seq<char>, entry: nat, said: Seq<char>) -> Seq<char> {
    of_member(name, ": judge entry "@ + decimal(entry) + ": "@ + said)
}

fn say_of_judge(name: &str, entry: u64, said: &str) -> (text: String)
    ensures
        text@ == of_judge(name@, entry as nat, said@),
{
    let mut rest = String::from_str(": judge entry ");
    rest.append(write_decimal(entry).as_str());
    rest.append(": ");
    rest.append(said);
    say_of_member(name, rest.as_str())
}

/// What is wrong with one judge, when something is.
pub open spec fn judge_refusal(name: Seq<char>, entry: nat, judge: JudgeSide) -> Option<Seq<char>> {
    let command = match judge {
        JudgeSide::Command(side) => command_refusal(side.command@),
        _ => None,
    };
    match command {
        Some(why) => Some(of_judge(name, entry, why)),
        None => match judge.labelled() {
            Some(label) => if plain_name(label@) {
                None
            } else {
                Some(
                    of_judge(
                        name,
                        entry,
                        "label "@ + quoted(label@)
                            + " — use letters, digits, hyphens, and underscores; a label names this judge on every surface and, for a harness judge, the config file this run writes for it"@,
                    ),
                )
            },
            None => None,
        },
    }
}

/// What is wrong with the first judge that is not well formed, among the first
/// `upto`.
pub open spec fn panel_refusal(name: Seq<char>, judges: Seq<JudgeSide>, upto: nat) -> Option<
    Seq<char>,
>
    decreases upto,
{
    if upto == 0 {
        None
    } else {
        or_else(
            panel_refusal(name, judges, (upto - 1) as nat),
            judge_refusal(name, upto, judges[upto - 1]),
        )
    }
}

proof fn the_first_refused_judge_answers(
    name: Seq<char>,
    judges: Seq<JudgeSide>,
    at: nat,
    upto: nat,
)
    requires
        at <= upto,
        panel_refusal(name, judges, at) is Some,
    ensures
        panel_refusal(name, judges, upto) == panel_refusal(name, judges, at),
    decreases upto,
{
    if at < upto {
        the_first_refused_judge_answers(name, judges, at, (upto - 1) as nat);
    }
}

/// What is wrong with a judge list, when something is.
pub open spec fn judges_refusal(name: Seq<char>, judges: Seq<JudgeSide>) -> Option<Seq<char>> {
    if judges.len() == 0 {
        Some(
            of_member(
                name,
                ": `judge` names no side — a two-party member needs at least one judge"@,
            ),
        )
    } else {
        panel_refusal(name, judges, judges.len())
    }
}

/// The shape refusals a judge list earns before anything is resolved: no judge at
/// all, a command judge with nothing to run, and a label that could not be a file
/// name.
fn judge_sides_are_well_formed(name: &str, judges: &Vec<JudgeSide>) -> (outcome: Result<(), Error>)
    ensures
        answers(outcome, judges_refusal(name@, judges@)),
{
    if judges.len() == 0 {
        return refuse(
            say_of_member(
                name,
                ": `judge` names no side — a two-party member needs at least one judge",
            ),
        );
    }
    let mut at: usize = 0;
    while at < judges.len()
        invariant
            at <= judges@.len(),
            judges@.len() > 0,
            panel_refusal(name@, judges@, at as nat) is None,
        decreases judges@.len() - at,
    {
        let entry: u64 = at as u64 + 1;
        let judge = &judges[at];
        let ghost next = panel_refusal(name@, judges@, entry as nat);
        proof {
            assert(next == judge_refusal(name@, entry as nat, *judge));
            if next is Some {
                the_first_refused_judge_answers(name@, judges@, entry as nat, judges@.len());
            }
        }
        if let JudgeSide::Command(command) = judge {
            if let Some(why) = command_judge_refusal(&command.command) {
                return refuse(say_of_judge(name, entry, why.as_str()));
            }
        }
        if let Some(label) = judge.label() {
            if !is_plain_name(label.as_str()) {
                let mut said = String::from_str("label ");
                said.append(quote(label.as_str()).as_str());
                said.append(
                    " — use letters, digits, hyphens, and underscores; a label names this judge on every surface and, for a harness judge, the config file this run writes for it",
                );
                return refuse(say_of_judge(name, entry, said.as_str()));
            }
        }
        at = at + 1;
    }
    Ok(())
}

// ---- Directories and schedules ----
/// What is wrong with a member's own directory: present and empty, it would name
/// wherever the launching process happened to be.
pub open spec fn dir_refusal(name: Seq<char>, dir: Option<String>) -> Option<Seq<char>> {
    if dir matches Some(path) && path@.len() == 0 {
        Some(
            of_member(
                name,
                ": `dir` names no directory — omit it to work in the graph's own directory"@,
            ),
        )
    } else {
        None
    }
}

fn own_dir(name: &str, dir: &Option<String>) -> (outcome: Result<(), Error>)
    ensures
        answers(outcome, dir_refusal(name@, *dir)),
{
    if let Some(path) = dir {
        if path.as_str().is_empty() {
            return refuse(
                say_of_member(
                    name,
                    ": `dir` names no directory — omit it to work in the graph's own directory",
                ),
            );
        }
    }
    Ok(())
}

/// A span longer than any run.
pub open spec fn too_long(name: Seq<char>, field: Seq<char>, seconds: u64) -> Seq<char> {
    of_member(
        name,
        ": `"@ + field + "` of "@ + decimal(seconds as nat)
            + " seconds is longer than any run this will ever pace — the ceiling is "@ + decimal(
            MAX_SCHEDULE_SECONDS as nat,
        ),
    )
}

fn say_too_long(name: &str, field: &str, seconds: u64) -> (text: String)
    ensures
        text@ == too_long(name@, field@, seconds),
{
    let mut said = String::from_str(": `");
    said.append(field);
    said.append("` of ");
    said.append(write_decimal(seconds).as_str());
    said.append(" seconds is longer than any run this will ever pace — the ceiling is ");
    said.append(write_decimal(MAX_SCHEDULE_SECONDS).as_str());
    say_of_member(name, said.as_str())
}

/// What is wrong with a schedule, when something is.
pub open spec fn schedule_refusal(name: Seq<char>, schedule: Schedule, schema: u32) -> Option<
    Seq<char>,
> {
    if schedule.every == 0 {
        Some(of_member(name, ": a schedule of every 0 seconds never stops firing"@))
    } else if schedule.start_after is Some && schema < FIRST_START_AFTER_VERSION {
        Some(needs_version(name, "`schedule.start_after`"@, FIRST_START_AFTER_VERSION))
    } else if schedule.every > MAX_SCHEDULE_SECONDS {
        Some(too_long(name, "every"@, schedule.every))
    } else if schedule.waits(schema) > MAX_SCHEDULE_SECONDS {
        Some(too_long(name, "start_after"@, schedule.waits(schema)))
    } else {
        None
    }
}

/// Everything a [`Schedule`] has to be, whichever kind of member carries it.
fn schedule_spans(name: &str, schedule: &Schedule, schema: u32) -> (outcome: Result<(), Error>)
    ensures
        answers(outcome, schedule_refusal(name@, *schedule, schema)),
{
    if schedule.every == 0 {
        return refuse(
            say_of_member(name, ": a schedule of every 0 seconds never stops firing"),
        );
    }
    if schedule.start_after.is_some() && schema < FIRST_START_AFTER_VERSION {
        return refuse(
            say_needs_version(name, "`schedule.start_after`", FIRST_START_AFTER_VERSION),
        );
    }
    if schedule.every > MAX_SCHEDULE_SECONDS {
        return refuse(say_too_long(name, "every", schedule.every));
    }
    let first: u64 = schedule.first_turn_after(schema);
    if first > MAX_SCHEDULE_SECONDS {
        return refuse(say_too_long(name, "start_after", first));
    }
    Ok(())
}

/// What is wrong with a member's schedule, when it carries one.
pub open spec fn pace_refusal(name: Seq<char>, schedule: Option<Schedule>, schema: u32) -> Option<
    Seq<char>,
> {
    match schedule {
        Some(schedule) => schedule_refusal(name, schedule, schema),
        None => None,
    }
}

// ---- Pre-turn views ----
/// Whether a character is one of Unicode's control characters.
pub open spec fn control(character: char) -> bool {
    (character as u32) < 0x20 || 0x7f <= character as u32 <= 0x9f
}

/// Whether a text holds a control character.
pub open spec fn holds_control(text: Seq<char>) -> bool {
    exists|i: int| 0 <= i < text.len() && control(#[trigger] text[i])
}

fn contains_control(text: &str) -> (found: bool)
    ensures
        found == holds_control(text@),
{
    let all = characters(text);
    let mut at: usize = 0;
    while at < all.len()
        invariant
            all@ == text@,
            at <= all@.len(),
            forall|i: int| 0 <= i < at ==> !control(#[trigger] all@[i]),
        decreases all@.len() - at,
    {
        let code: u32 = all[at] as u32;
        if code < 0x20 || (0x7f <= code && code <= 0x9f) {
            assert(control(text@[at as int]));
            return true;
        }
        at = at + 1;
    }
    false
}

/// Something said of one of a member's pre-turn views, counted from zero.
pub open spec fn of_view(name: Seq<char>, at: nat, said: Seq<char>) -> Seq<char> {
    of_member(name, ": `pre_turn["@ + decimal(at) + "]`: "@ + said)
}

fn say_of_view(name: &str, at: usize, said: &str) -> (text: String)
    ensures
        text@ == of_view(name@, at as nat, said@),
{
    let mut rest = String::from_str(": `pre_turn[");
    rest.append(write_decimal(at as u64).as_str());
    rest.append("]`: ");
    rest.append(said);
    say_of_member(name, rest.as_str())
}

/// What is wrong with one pre-turn view, when something is.
pub open spec fn view_refusal(name: Seq<char>, at: nat, view: PreTurn) -> Option<Seq<char>> {
    if no_program(view.command@) {
        Some(
            of_view(
                name,
                at,
                "`command` is the program this view runs, and an empty one names none — it is an argv this run spawns directly, so the program is its first element"@,
            ),
        )
    } else if let Some(word) = nul_word(view.command@) {
        Some(of_view(name, at, carries_nul(word)))
    } else if view.label matches Some(label) && (blank(label@) || holds_control(label@)) {
        Some(
            of_view(
                name,
                at,
                "`label` "@ + quoted(view.label->0@)
                    + " is what this view is called in the turn's context, so it cannot be blank or carry a control character — omit it to be called "@
                    + quoted(view.command@[0]@),
            ),
        )
    } else if view.timeout matches Some(seconds) && (seconds == 0 || seconds
        > MAX_PRE_TURN_SECONDS) {
        Some(
            of_view(
                name,
                at,
                "`timeout` of "@ + decimal(view.timeout->0 as nat)
                    + " seconds is not a bound this view can run under — it is between 1 and "@
                    + decimal(MAX_PRE_TURN_SECONDS as nat) + ", and omitting it is "@ + decimal(
                    DEFAULT_PRE_TURN_SECONDS as nat,
                ),
            ),
        )
    } else {
        None
    }
}

fn check_view(name: &str, at: usize, view: &PreTurn) -> (outcome: Result<(), Error>)
    ensures
        answers(outcome, view_refusal(name@, at as nat, *view)),
{
    if has_no_program(&view.command) {
        return refuse(
            say_of_view(
                name,
                at,
                "`command` is the program this view runs, and an empty one names none — it is an argv this run spawns directly, so the program is its first element",
            ),
        );
    }
    if let Some(word) = find_nul_word(&view.command) {
        return refuse(say_of_view(name, at, say_carries_nul(word.as_str()).as_str()));
    }
    if let Some(label) = &view.label {
        if is_blank(label.as_str()) || contains_control(label.as_str()) {
            let mut said = String::from_str("`label` ");
            said.append(quote(label.as_str()).as_str());
            said.append(
                " is what this view is called in the turn's context, so it cannot be blank or carry a control character — omit it to be called ",
            );
            said.append(quote(view.command[0].as_str()).as_str());
            return refuse(say_of_view(name, at, said.as_str()));
        }
    }
    if let Some(seconds) = view.timeout {
        if seconds == 0 || seconds > MAX_PRE_TURN_SECONDS {
            let mut said = String::from_str("`timeout` of ");
            said.append(write_decimal(seconds).as_str());
            said.append(" seconds is not a bound this view can run under — it is between 1 and ");
            said.append(write_decimal(MAX_PRE_TURN_SECONDS).as_str());
            said.append(", and omitting it is ");
            said.append(write_decimal(DEFAULT_PRE_TURN_SECONDS).as_str());
            return refuse(say_of_view(name, at, said.as_str()));
        }
    }
    Ok(())
}

/// What is wrong with the first view that is not one a run could honour, among
/// the first `upto`.
pub open spec fn first_view_refusal(name: Seq<char>, views: Seq<PreTurn>, upto: nat) -> Option<
    Seq<char>,
>
    decreases upto,
{
    if upto == 0 {
        None
    } else {
        or_else(
            first_view_refusal(name, views, (upto - 1) as nat),
            view_refusal(name, (upto - 1) as nat, views[upto - 1]),
        )
    }
}

proof fn the_first_refused_view_answers(name: Seq<char>, views: Seq<PreTurn>, at: nat, upto: nat)
    requires
        at <= upto,
        first_view_refusal(name, views, at) is Some,
    ensures
        first_view_refusal(name, views, upto) == first_view_refusal(name, views, at),
    decreases upto,
{
    if at < upto {
        the_first_refused_view_answers(name, views, at, (upto - 1) as nat);
    }
}

/// What is wrong with a member's pre-turn views, when something is.
pub open spec fn views_refusal(name: Seq<char>, views: Seq<PreTurn>, schema: u32) -> Option<
    Seq<char>,
> {
    if views.len() == 0 {
        None
    } else if schema < FIRST_PRE_TURN_VERSION {
        Some(needs_version(name, "oneharness `pre_turn`"@, FIRST_PRE_TURN_VERSION))
    } else if views.len() > MAX_PRE_TURN_COMMANDS {
        Some(
            of_member(
                name,
                ": `pre_turn` declares "@ + decimal(views.len())
                    + " commands, and every turn waits on all of them and carries all of their output — the ceiling is "@
                    + decimal(MAX_PRE_TURN_COMMANDS as nat),
            ),
        )
    } else {
        first_view_refusal(name, views, views.len())
    }
}

/// Everything a member's pre-turn list has to be before any of it reaches a
/// process.
fn pre_turn(name: &str, member: &OneharnessMember, schema: u32) -> (outcome: Result<(), Error>)
    ensures
        answers(outcome, views_refusal(name@, member.pre_turn@, schema)),
{
    let views = &member.pre_turn;
    if views.len() == 0 {
        return Ok(());
    }
    if schema < FIRST_PRE_TURN_VERSION {
        return refuse(say_needs_version(name, "oneharness `pre_turn`", FIRST_PRE_TURN_VERSION));
    }
    if views.len() > MAX_PRE_TURN_COMMANDS {
        let mut said = String::from_str(": `pre_turn` declares ");
        said.append(write_decimal(views.len() as u64).as_str());
        said.append(
            " commands, and every turn waits on all of them and carries all of their output — the ceiling is ",
        );
        said.append(write_decimal(MAX_PRE_TURN_COMMANDS as u64).as_str());
        return refuse(say_of_member(name, said.as_str()));
    }
    let mut at: usize = 0;
    while at < views.len()
        invariant
            at <= views@.len(),
            0 < views@.len() <= MAX_PRE_TURN_COMMANDS,
            schema >= FIRST_PRE_TURN_VERSION,
            views@ == member.pre_turn@,
            first_view_refusal(name@, views@, at as nat) is None,
        decreases views@.len() - at,
    {
        let checked = check_view(name, at, &views[at]);
        proof {
            if first_view_refusal(name@, views@, (at + 1) as nat) is Some {
                the_first_refused_view_answers(name@, views@, (at + 1) as nat, views@.len());
            }
        }
        if checked.is_err() {
            return checked;
        }
        at = at + 1;
    }
    Ok(())
}

// ---- Members ----
/// What is wrong with a two-party member, when something is.
pub open spec fn two_party_refusal(name: Seq<char>, member: OnejudgeMember, schema: u32) -> Option<
    Seq<char>,
> {
    if blank(member.mode@) {
        Some(
            of_member(
                name,
                ": `mode` is the approval posture every member runs under, and an empty one names none"@,
            ),
        )
    } else if member.max_turns == Some(0u32) {
        Some(of_member(name, ": `max_turns` of 0 lets the member take no turn at all"@))
    } else if judges_refusal(name, member.judge@) is Some {
        judges_refusal(name, member.judge@)
    } else if member.dir is Some && schema < FIRST_TWO_PARTY_JOB_VERSION {
        Some(needs_version(name, "onejudge `dir`"@, FIRST_TWO_PARTY_JOB_VERSION))
    } else if member.schedule is Some && schema < FIRST_TWO_PARTY_JOB_VERSION {
        Some(needs_version(name, "onejudge `schedule`"@, FIRST_TWO_PARTY_JOB_VERSION))
    } else {
        or_else(dir_refusal(name, member.dir), pace_refusal(name, member.schedule, schema))
    }
}

/// What is wrong with a single-sided member, when something is.
pub open spec fn single_sided_refusal(
    name: Seq<char>,
    member: OneharnessMember,
    schema: u32,
) -> Option<Seq<char>> {
    if member.task is Some && schema < FIRST_MEMBER_JOB_VERSION {
        Some(needs_version(name, "oneharness `task`"@, FIRST_MEMBER_JOB_VERSION))
    } else if member.dir is Some && schema < FIRST_MEMBER_JOB_VERSION {
        Some(needs_version(name, "oneharness `dir`"@, FIRST_MEMBER_JOB_VERSION))
    } else if dir_refusal(name, member.dir) is Some {
        dir_refusal(name, member.dir)
    } else if member.task matches Some(task) && blank(task@) {
        Some(
            of_member(
                name,
                ": `task` is the job this member runs, and an empty one is no job — omit it to run the task the graph was given"@,
            ),
        )
    } else {
        or_else(
            views_refusal(name, member.pre_turn@, schema),
            pace_refusal(name, member.schedule, schema),
        )
    }
}

/// What is wrong with one member, when something is.
pub open spec fn member_refusal(name: Seq<char>, member: Member, schema: u32) -> Option<Seq<char>> {
    if schema == 1 && member is Onejudge && member.waits_for().len() > 0 {
        Some(needs_version(name, "onejudge `deps`"@, FIRST_TWO_PARTY_DEPS_VERSION))
    } else if !plain_name(name) {
        Some(
            "member name "@ + quoted(name)
                + ": use letters, digits, hyphens, and underscores — a name is a directory this run creates and a signal file an operator writes"@,
        )
    } else if member.declares_background() is Some && schema < FIRST_BACKGROUND_VERSION {
        Some(needs_version(name, "`background`"@, FIRST_BACKGROUND_VERSION))
    } else {
        match member {
            Member::Onejudge(member) => two_party_refusal(name, member, schema),
            Member::Oneharness(member) => single_sided_refusal(name, member, schema),
        }
    }
}

fn check_two_party(name: &str, member: &OnejudgeMember, schema: u32) -> (outcome: Result<
    (),
    Error,
>)
    ensures
        answers(outcome, two_party_refusal(name@, *member, schema)),
{
    if is_blank(member.mode.as_str()) {
        return refuse(
            say_of_member(
                name,
                ": `mode` is the approval posture every member runs under, and an empty one names none",
            ),
        );
    }
    if let Some(turns) = member.max_turns {
        if turns == 0 {
            return refuse(
                say_of_member(name, ": `max_turns` of 0 lets the member take no turn at all"),
            );
        }
    }
    let judges = judge_sides_are_well_formed(name, &member.judge);
    if judges.is_err() {
        return judges;
    }
    if member.dir.is_some() && schema < FIRST_TWO_PARTY_JOB_VERSION {
        return refuse(say_needs_version(name, "onejudge `dir`", FIRST_TWO_PARTY_JOB_VERSION));
    }
    if member.schedule.is_some() && schema < FIRST_TWO_PARTY_JOB_VERSION {
        return refuse(
            say_needs_version(name, "onejudge `schedule`", FIRST_TWO_PARTY_JOB_VERSION),
        );
    }
    let dir = own_dir(name, &member.dir);
    if dir.is_err() {
        return dir;
    }
    match member.schedule {
        Some(schedule) => schedule_spans(name, &schedule, schema),
        None => Ok(()),
    }
}

fn check_single_sided(name: &str, member: &OneharnessMember, schema: u32) -> (outcome: Result<
    (),
    Error,
>)
    ensures
        answers(outcome, single_sided_refusal(name@, *member, schema)),
{
    if member.task.is_some() && schema < FIRST_MEMBER_JOB_VERSION {
        return refuse(say_needs_version(name, "oneharness `task`", FIRST_MEMBER_JOB_VERSION));
    }
    if member.dir.is_some() && schema < FIRST_MEMBER_JOB_VERSION {
        return refuse(say_needs_version(name, "oneharness `dir`", FIRST_MEMBER_JOB_VERSION));
    }
    let dir = own_dir(name, &member.dir);
    if dir.is_err() {
        return dir;
    }
    if let Some(task) = &member.task {
        if is_blank(task.as_str()) {
            return refuse(
                say_of_member(
                    name,
                    ": `task` is the job this member runs, and an empty one is no job — omit it to run the task the graph was given",
                ),
            );
        }
    }
    let views = pre_turn(name, member, schema);
    if views.is_err() {
        return views;
    }
    match member.schedule {
        Some(schedule) => schedule_spans(name, &schedule, schema),
        None => Ok(()),
    }
}

fn check_member(name: &str, member: &Member, schema: u32) -> (outcome: Result<(), Error>)
    ensures
        answers(outcome, member_refusal(name@, *member, schema)),
{
    if schema == 1 {
        if let Member::Onejudge(two_party) = member {
            if two_party.deps.len() > 0 {
                return refuse(
                    say_needs_version(name, "onejudge `deps`", FIRST_TWO_PARTY_DEPS_VERSION),
                );
            }
        }
    }
    if !is_plain_name(name) {
        let mut text = String::from_str("member name ");
        text.append(quote(name).as_str());
        text.append(
            ": use letters, digits, hyphens, and underscores — a name is a directory this run creates and a signal file an operator writes",
        );
        return refuse(text);
    }
    if member.declared_background().is_some() && schema < FIRST_BACKGROUND_VERSION {
        return refuse(say_needs_version(name, "`background`", FIRST_BACKGROUND_VERSION));
    }
    match member {
        Member::Onejudge(member) => check_two_party(name, member, schema),
        Member::Oneharness(member) => check_single_sided(name, member, schema),
    }
}

/// What is wrong with the first member that could not run, among the first
/// `upto`.
pub open spec fn members_refusal(members: Seq<(String, Member)>, schema: u32, upto: nat) -> Option<
    Seq<char>,
>
    decreases upto,
{
    if upto == 0 {
        None
    } else {
        or_else(
            members_refusal(members, schema, (upto - 1) as nat),
            member_refusal(members[upto - 1].0@, members[upto - 1].1, schema),
        )
    }
}

proof fn the_first_refused_member_answers(
    members: Seq<(String, Member)>,
    schema: u32,
    at: nat,
    upto: nat,
)
    requires
        at <= upto,
        members_refusal(members, schema, at) is Some,
    ensures
        members_refusal(members, schema, upto) == members_refusal(members, schema, at),
    decreases upto,
{
    if at < upto {
        the_first_refused_member_answers(members, schema, at, (upto - 1) as nat);
    }
}

// ---- The environment a graph exports ----
/// What is wrong with one exported variable, when something is: a name or a value
/// the platform could not take.
pub open spec fn variable_refusal(key: Seq<char>, value: Seq<char>) -> Option<Seq<char>> {
    if key.len() == 0 || holds_character(key, '=') || holds_character(key, '\0') {
        Some(
            "env key "@ + quoted(key)
                + ": an environment variable name cannot be empty or contain '=' or a NUL, and this one is exported to every member"@,
        )
    } else if holds_character(value, '\0') {
        Some(
            "env value for "@ + quoted(key)
                + ": an environment value cannot contain a NUL, and this one is exported to every member"@,
        )
    } else {
        None
    }
}

/// What is wrong with the first exported variable that could not be, among the
/// first `upto`.
pub open spec fn env_refusal(env: Seq<(String, String)>, upto: nat) -> Option<Seq<char>>
    decreases upto,
{
    if upto == 0 {
        None
    } else {
        or_else(
            env_refusal(env, (upto - 1) as nat),
            variable_refusal(env[upto - 1].0@, env[upto - 1].1@),
        )
    }
}

proof fn the_first_refused_variable_answers(env: Seq<(String, String)>, at: nat, upto: nat)
    requires
        at <= upto,
        env_refusal(env, at) is Some,
    ensures
        env_refusal(env, upto) == env_refusal(env, at),
    decreases upto,
{
    if at < upto {
        the_first_refused_variable_answers(env, at, (upto - 1) as nat);
    }
}

fn check_env(env: &Vec<(String, String)>) -> (outcome: Result<(), Error>)
    ensures
        answers(outcome, env_refusal(env@, env@.len())),
{
    let mut at: usize = 0;
    while at < env.len()
        invariant
            at <= env@.len(),
            env_refusal(env@, at as nat) is None,
        decreases env@.len() - at,
    {
        let key = &env[at].0;
        let value = &env[at].1;
        proof {
            if env_refusal(env@, (at + 1) as nat) is Some {
                the_first_refused_variable_answers(env@, (at + 1) as nat, env@.len());
            }
        }
        if key.as_str().is_empty() || contains_character(key.as_str(), '=') || contains_character(
            key.as_str(),
            '\0',
        ) {
            let mut text = String::from_str("env key ");
            text.append(quote(key.as_str()).as_str());
            text.append(
                ": an environment variable name cannot be empty or contain '=' or a NUL, and this one is exported to every member",
            );
            return refuse(text);
        }
        if contains_character(value.as_str(), '\0') {
            let mut text = String::from_str("env value for ");
            text.append(quote(key.as_str()).as_str());
            text.append(
                ": an environment value cannot contain a NUL, and this one is exported to every member",
            );
            return refuse(text);
        }
        at = at + 1;
    }
    Ok(())
}

// ---- The graph ----
/// What is wrong with a graph's own persona catalog, when it names one.
pub open spec fn personas_refusal(personas: Option<String>, schema: u32) -> Option<Seq<char>> {
    match personas {
        None => None,
        Some(root) => if schema < FIRST_PERSONA_CATALOG_VERSION {
            Some(
                "this graph uses `personas`, which requires graph schema version "@ + decimal(
                    FIRST_PERSONA_CATALOG_VERSION as nat,
                ),
            )
        } else if root@.len() == 0 {
            Some(
                "`personas` names no directory — omit it to resolve a member's `persona` name against the personas this crate ships"@,
            )
        } else {
            None
        },
    }
}

/// What is wrong with a graph's say over its own stream, when it has one.
pub open spec fn events_refusal(graph: GraphConfig) -> Option<Seq<char>> {
    match graph.events {
        None => None,
        Some(events) => if graph.version < FIRST_EVENT_FILTER_VERSION {
            Some(
                "this graph uses `events`, which requires graph schema version "@ + decimal(
                    FIRST_EVENT_FILTER_VERSION as nat,
                ),
            )
        } else {
            match events.filter {
                None => None,
                Some(filter) => match filter.refusal() {
                    None => None,
                    Some(why) => Some("`events.filter`: "@ + why),
                },
            }
        },
    }
}

/// What is wrong with a graph, in the order it is looked at, when something is.
pub open spec fn graph_refusal(graph: GraphConfig) -> Option<Seq<char>> {
    if !(FIRST_SCHEMA_VERSION <= graph.version <= SCHEMA_VERSION) {
        Some(
            "version "@ + decimal(graph.version as nat)
                + " is not a graph schema this build reads; it reads versions "@ + decimal(
                FIRST_SCHEMA_VERSION as nat,
            ) + " through "@ + decimal(SCHEMA_VERSION as nat),
        )
    } else if blank(graph.name@) {
        Some("a graph needs a name"@)
    } else if graph.members@.len() == 0 {
        Some(
            "graph "@ + quoted(graph.name@)
                + " has no members, so there is nothing for it to run"@,
        )
    } else {
        or_else(
            or_else(
                or_else(
                    env_refusal(graph.env@, graph.env@.len()),
                    personas_refusal(graph.personas, graph.version),
                ),
                events_refusal(graph),
            ),
            members_refusal(graph.members@, graph.version, graph.members@.len()),
        )
    }
}

fn check_personas(personas: &Option<String>, schema: u32) -> (outcome: Result<(), Error>)
    ensures
        answers(outcome, personas_refusal(*personas, schema)),
{
    if let Some(root) = personas {
        if schema < FIRST_PERSONA_CATALOG_VERSION {
            let mut text = String::from_str(
                "this graph uses `personas`, which requires graph schema version ",
            );
            text.append(write_decimal(FIRST_PERSONA_CATALOG_VERSION as u64).as_str());
            return refuse(text);
        }
        if root.as_str().is_empty() {
            return refuse(
                String::from_str(
                    "`personas` names no directory — omit it to resolve a member's `persona` name against the personas this crate ships",
                ),
            );
        }
    }
    Ok(())
}

fn check_events(graph: &GraphConfig) -> (outcome: Result<(), Error>)
    ensures
        answers(outcome, events_refusal(*graph)),
{
    if let Some(events) = &graph.events {
        if graph.version < FIRST_EVENT_FILTER_VERSION {
            let mut text = String::from_str(
                "this graph uses `events`, which requires graph schema version ",
            );
            text.append(write_decimal(FIRST_EVENT_FILTER_VERSION as u64).as_str());
            return refuse(text);
        }
        if let Some(filter) = &events.filter {
            if let Err(why) = filter.validate() {
                let mut text = String::from_str("`events.filter`: ");
                text.append(why.as_str());
                return refuse(text);
            }
        }
    }
    Ok(())
}

fn check_members(members: &Vec<(String, Member)>, schema: u32) -> (outcome: Result<(), Error>)
    ensures
        answers(outcome, members_refusal(members@, schema, members@.len())),
{
    let mut at: usize = 0;
    while at < members.len()
        invariant
            at <= members@.len(),
            members_refusal(members@, schema, at as nat) is None,
        decreases members@.len() - at,
    {
        let checked = check_member(members[at].0.as_str(), &members[at].1, schema);
        proof {
            if members_refusal(members@, schema, (at + 1) as nat) is Some {
                the_first_refused_member_answers(
                    members@,
                    schema,
                    (at + 1) as nat,
                    members@.len(),
                );
            }
        }
        if checked.is_err() {
            return checked;
        }
        at = at + 1;
    }
    Ok(())
}

/// Everything about a graph that can be checked without launching it.
///
/// The refusal is [`Error::InvalidConfig`] naming what is wrong, in the terms the
/// graph's author wrote it.
pub fn validate(graph: &GraphConfig) -> (outcome: Result<(), Error>)
    ensures
        answers(outcome, graph_refusal(*graph)),
{
    if !(FIRST_SCHEMA_VERSION <= graph.version && graph.version <= SCHEMA_VERSION) {
        let mut text = String::from_str("version ");
        text.append(write_decimal(graph.version as u64).as_str());
        text.append(" is not a graph schema this build reads; it reads versions ");
        text.append(write_decimal(FIRST_SCHEMA_VERSION as u64).as_str());
        text.append(" through ");
        text.append(write_decimal(SCHEMA_VERSION as u64).as_str());
        return refuse(text);
    }
    if is_blank(graph.name.as_str()) {
        return refuse(String::from_str("a graph needs a name"));
    }
    if graph.members.len() == 0 {
        let mut text = String::from_str("graph ");
        text.append(quote(graph.name.as_str()).as_str());
        text.append(" has no members, so there is nothing for it to run");
        return refuse(text);
    }
    let env = check_env(&graph.env);
    if env.is_err() {
        return env;
    }
    let personas = check_personas(&graph.personas, graph.version);
    if personas.is_err() {
        return personas;
    }
    let events = check_events(graph);
    if events.is_err() {
        return events;
    }
    check_members(&graph.members, graph.version)
}

} // verus!
