//! What is said of a member's end, and of the watch over it.

use vstd::prelude::*;

use crate::event::{Artifact, EventKind};
use crate::harness::{
    ends_as, holds_refusal, last_named, ran, sinks, ActionEvent, Fallback, HarnessLaunch, Request,
    RunOutcome, RunResult, SinkStep,
    TheTurn,
};
use crate::judge::{tells, FellThrough};
use crate::judge_laws::{begins_bounded, count_of, ends_once};
use crate::member::{
    activity, attach_report, died, engine_gone, engine_refused, is_stalled, settle, settle_report,
    unstartable, Ending, Heard, Kind, Next, Rule, Settling, Stopping, Teardown, Verdict, Watch,
};
use crate::payload::{Cause, Emission, Payload, Usage};
use crate::text::{text_of, trim, trimmed, trimmed_end, trimmed_start, white_space};

verus! {

// ---- Texts ----
/// Whether `kept` is a text without the white space around it: what was taken off is
/// white space, and what is left neither begins nor ends with any.
pub open spec fn trims(kept: Seq<char>, text: Seq<char>) -> bool {
    exists|from: int, to: int| #[trigger]
        text.subrange(from, to) == kept && 0 <= from <= to <= text.len() && (forall|i: int|
            0 <= i < from || to <= i < text.len() ==> white_space(#[trigger] text[i])) && (
        kept.len() > 0 ==> !white_space(kept[0]) && !white_space(kept.last()))
}

proof fn the_end_is_trimmed(text: Seq<char>)
    ensures
        trimmed_end(text).len() <= text.len(),
        trimmed_end(text) == text.take(trimmed_end(text).len() as int),
        forall|i: int|
            trimmed_end(text).len() <= i < text.len() ==> white_space(#[trigger] text[i]),
        trimmed_end(text).len() > 0 ==> !white_space(trimmed_end(text).last()),
    decreases text.len(),
{
    if text.len() > 0 && white_space(text.last()) {
        let rest = text.drop_last();
        the_end_is_trimmed(rest);
        let kept = trimmed_end(rest).len() as int;
        assert(rest.take(kept) =~= text.take(kept));
        assert forall|i: int| kept <= i < text.len() implies white_space(#[trigger] text[i]) by {
            if i < rest.len() {
                assert(rest[i] == text[i]);
            }
        }
    } else {
        assert(text.take(text.len() as int) =~= text);
    }
}

proof fn the_start_is_trimmed(text: Seq<char>)
    ensures
        trimmed_start(text).len() <= text.len(),
        trimmed_start(text) == text.skip(text.len() - trimmed_start(text).len()),
        forall|i: int|
            0 <= i < text.len() - trimmed_start(text).len() ==> white_space(#[trigger] text[i]),
        trimmed_start(text).len() > 0 ==> !white_space(trimmed_start(text)[0]),
    decreases text.len(),
{
    if text.len() > 0 && white_space(text.first()) {
        let rest = text.drop_first();
        the_start_is_trimmed(rest);
        let kept = trimmed_start(rest).len() as int;
        assert(rest.skip(rest.len() - kept) =~= text.skip(text.len() - kept));
        assert forall|i: int| 0 <= i < text.len() - kept implies white_space(#[trigger] text[i]) by {
            if i > 0 {
                assert(rest[i - 1] == text[i]);
            }
        }
    } else {
        assert(text.skip(0) =~= text);
    }
}

pub(crate) proof fn a_text_is_trimmed(text: Seq<char>)
    ensures
        trims(trimmed(text), text),
{
    the_start_is_trimmed(text);
    let inner = trimmed_start(text);
    the_end_is_trimmed(inner);
    let from = text.len() - inner.len();
    let to = from + trimmed(text).len();
    assert(text.subrange(from, to) =~= trimmed(text));
    assert forall|i: int| 0 <= i < from || to <= i < text.len() implies white_space(
        #[trigger] text[i],
    ) by {
        if i >= to {
            assert(inner[i - from] == text[i]);
        }
    }
    if trimmed(text).len() > 0 {
        assert(trimmed(text)[0] == inner[0]);
    }
}

/// Trimming takes the white space around a text off, and nothing else.
pub proof fn trimming_takes_off_white_space(text: &str, kept: String)
    requires
        call_ensures(trim, (text,), kept),
    ensures
        trims(kept@, text@),
{
    a_text_is_trimmed(text@);
}

/// Whether `kept` is the end of a text, whole where it fits into the bound on a payload's
/// text, and otherwise cut no shorter than a character needs.
pub open spec fn ends_bounded(kept: Seq<char>, text: Seq<char>, cut: bool) -> bool {
    &&& kept.len() <= text.len()
    &&& kept == text.skip(text.len() - kept.len())
    &&& vstd::utf8::encode_utf8(kept).len() <= 4096
    &&& cut == (vstd::utf8::encode_utf8(text).len() > 4096)
    &&& !cut ==> kept == text
    &&& cut ==> vstd::utf8::encode_utf8(kept).len() > 4092
}

/// Whether a text is a trimmed detail, its end kept where it is too long.
pub open spec fn details(kept: Seq<char>, detail: Seq<char>, cut: bool) -> bool {
    exists|trimmed: Seq<char>| #[trigger] trims(trimmed, detail) && ends_bounded(kept, trimmed, cut)
}

pub(crate) proof fn a_detail_is_trimmed_and_bounded(detail: Seq<char>)
    ensures
        details(
            crate::bound::tail(trimmed(detail), 4096),
            detail,
            vstd::utf8::encode_utf8(trimmed(detail)).len() > 4096,
        ),
{
    a_text_is_trimmed(detail);
    crate::bound::a_tail_is_the_longest_end_that_fits(trimmed(detail), 4096);
    assert(trims(trimmed(detail), detail));
}

/// Keeping the end of a text keeps it whole where it fits, and otherwise as much of its
/// end as does.
pub proof fn a_bounded_text_keeps_its_end(text: &str, bounded: (String, bool))
    requires
        call_ensures(crate::bound::bound_text, (text,), bounded),
    ensures
        ends_bounded(bounded.0@, text@, bounded.1),
{
    crate::bound::a_tail_is_the_longest_end_that_fits(text@, 4096);
}

/// Keeping the beginning of a text keeps it whole where it fits, and otherwise as much of
/// its beginning as does.
pub proof fn a_bounded_head_keeps_its_beginning(text: &str, bounded: (String, bool))
    requires
        call_ensures(crate::bound::bound_head, (text,), bounded),
    ensures
        begins_bounded(bounded.0@, text@, bounded.1),
{
    crate::bound::a_head_is_the_longest_beginning_that_fits(text@, 4096);
}

// ---- Deaths and settles ----
/// How a rule is spelled where a death names it.
pub open spec fn spells_rule(text: Seq<char>, rule: Rule) -> bool {
    match rule {
        Rule::Heartbeat => text == "heartbeat"@,
        Rule::Activity => text == "activity"@,
        Rule::ProviderFailure => text == "provider-failure"@,
    }
}

/// A death names its rule, its cause and its detail, and carries no evidence.
pub proof fn a_death_says_why(rule: Rule, cause: Cause, detail: &str, emission: Emission)
    requires
        call_ensures(died, (rule, cause, detail), emission),
    ensures
        emission.kind == EventKind::MemberDied,
        emission.artifacts@.len() == 0,
        emission.payload matches Payload::MemberDied(said) && spells_rule(said.rule@, rule)
            && said.cause == cause && details(said.detail@, detail@, said.truncated)
            && said.exit_code is None && said.disposition is None && said.stderr_tail is None,
{
    a_detail_is_trimmed_and_bounded(detail@);
}

/// A member that never started is a failure of what runs it, caused by the start.
pub proof fn an_unstartable_member_died_of_its_start(reason: &str, emission: Emission)
    requires
        call_ensures(unstartable, (reason,), emission),
    ensures
        emission.kind == EventKind::MemberDied,
        emission.payload matches Payload::MemberDied(said) && said.rule@ == "provider-failure"@
            && said.cause == Cause::Spawn && details(said.detail@, reason@, said.truncated),
{
    a_detail_is_trimmed_and_bounded(reason@);
}

/// A settle says whether the member completed its task, and nothing else.
pub proof fn a_settle_says_whether_the_task_was_completed(completed: bool, emission: Emission)
    requires
        call_ensures(settle, (completed,), emission),
    ensures
        emission.kind == EventKind::MemberSettled,
        emission.payload matches Payload::MemberSettled(said) && said.completed == completed,
        emission.artifacts@.len() == 0,
{
}

/// A member whose engine is gone died of it, and one the host gave no thread to never
/// started: one death each.
pub proof fn a_lost_engine_is_one_death(
    kind: Kind,
    gone: Ending,
    why: &str,
    refused: Ending,
)
    requires
        call_ensures(engine_gone, (kind,), gone),
        call_ensures(engine_refused, (why,), refused),
    ensures
        gone.verdict == Verdict::Died(Rule::ProviderFailure),
        gone.emissions@.len() == 1,
        gone.emissions@[0].kind == EventKind::MemberDied,
        gone.emissions@[0].payload matches Payload::MemberDied(said) && said.cause
            == Cause::Unclassified && said.rule@ == "provider-failure"@,
        refused.verdict matches Verdict::Unstartable(reason) && reason@
            == "cannot start this member's engine thread: "@ + why@,
        refused.emissions@.len() == 1,
        refused.emissions@[0].kind == EventKind::MemberDied,
        refused.emissions@[0].payload matches Payload::MemberDied(said) && said.cause
            == Cause::Spawn && said.rule@ == "provider-failure"@,
{
}

/// The report of a member that settled is stored in its scratch as it is, and is the last
/// evidence of the event of its settle; nothing else of the ending changes. A member that
/// did not settle has none.
pub proof fn a_settle_carries_its_report(
    ending: Ending,
    scratch: &str,
    document: &str,
    settling: Settling,
)
    requires
        call_ensures(settle_report, (ending, scratch, document), settling),
    ensures
        settling.ending.verdict == ending.verdict,
        settling.file is Some <==> ending.verdict is Settled,
        !(ending.verdict is Settled) ==> settling.ending == ending,
        ending.verdict is Settled && ending.emissions@.len() > 0 ==> {
            let was = ending.emissions@;
            let now = settling.ending.emissions@;
            &&& now.len() == was.len()
            &&& forall|i: int| 0 <= i < was.len() - 1 ==> #[trigger] now[i] == was[i]
            &&& now.last().kind == was.last().kind
            &&& now.last().payload == was.last().payload
            &&& now.last().artifacts@.len() == was.last().artifacts@.len() + 1
            &&& now.last().artifacts@.last().id@ == settling.file->0.path@
            &&& now.last().artifacts@.last().kind@ == "report"@
            &&& now.last().artifacts@.last().bytes == vstd::utf8::encode_utf8(document@).len()
        },
        settling.file matches Some(file) ==> file.content@ == document@ && (scratch@.len() > 0
            && scratch@.last() != '/' ==> file.path@ == scratch@ + "/report.json"@),
{
    reveal_strlit("report.json");
    reveal_strlit("/report.json");
    reveal_strlit("/");
    let was = ending.emissions@;
    let now = settling.ending.emissions@;
    if ending.verdict is Settled && was.len() > 0 {
        assert forall|i: int| 0 <= i < was.len() - 1 implies #[trigger] now[i] == was[i] by {
            assert(now.drop_last()[i] == was.drop_last()[i]);
        }
    }
    assert(scratch@ + "/"@ + "report.json"@ =~= scratch@ + "/report.json"@);
}

/// Attaching a report leaves the ending of a member that did not settle as it is.
pub proof fn only_a_settle_takes_a_report(ending: Ending, report: Artifact, attached: Ending)
    requires
        call_ensures(attach_report, (ending, report), attached),
    ensures
        attached.verdict == ending.verdict,
        attached.emissions@.len() == ending.emissions@.len(),
        !(ending.verdict is Settled) ==> attached.emissions@ == ending.emissions@,
        ending.verdict is Settled && ending.emissions@.len() > 0
            ==> attached.emissions@.last().artifacts@.last() == report,
{
}

/// A tool event is published under its own kind, name, call and position, its summary as
/// one line of at most 160 characters, and what it returned by its end.
pub proof fn a_tool_event_is_published_bounded(
    kind: &str,
    name: &Option<String>,
    detail: &str,
    output: &Option<String>,
    tool_call_id: &Option<String>,
    index: u64,
    emission: Emission,
)
    requires
        call_ensures(activity, (kind, name, detail, output, tool_call_id, index), emission),
    ensures
        emission.kind == EventKind::TurnActivity,
        emission.artifacts@.len() == 0,
        emission.payload matches Payload::TurnActivity(said) && said.kind@ == kind@ && said.name
            == *name && said.tool_call_id == *tool_call_id && said.index == index
            && said.detail@.len() <= 160 && (said.truncated ==> said.detail@.len() == 160) && (
        forall|i: int|
            0 <= i < said.detail@.len() ==> (!white_space(#[trigger] said.detail@[i])
                || said.detail@[i] == ' ')) && match *output {
            Some(text) => said.output matches Some(kept) && ends_bounded(
                kept@,
                text@,
                said.output_truncated,
            ),
            None => said.output is None && !said.output_truncated,
        },
{
    crate::bound::a_detail_is_one_bounded_line(detail@);
    if let Some(text) = *output {
        crate::bound::a_tail_is_the_longest_end_that_fits(text@, 4096);
    }
}

// ---- The watch over a member ----
/// An answer ends the watch, and so does an engine that is gone: nothing about the clock
/// changes either.
pub proof fn an_answer_ends_the_watch(watch: Watch, now: u64, stalled: bool)
    ensures
        watch.next(Heard::Answer, now, stalled) == (Next::Finish, watch),
        watch.next(Heard::Gone, now, stalled) == (Next::Gone, watch),
{
}

/// A member that was silent for longer than its heartbeat allows is condemned by that
/// rule, stalled or not, and nothing is published of it first.
pub proof fn a_silent_member_is_condemned_by_its_heartbeat(watch: Watch, now: u64, stalled: bool)
    ensures
        watch.beat + watch.heartbeat < now <==> (watch.next(
            Heard::Nothing,
            now,
            stalled,
        ).0 matches Next::Condemn { rule: Rule::Heartbeat, .. }),
        watch.beat + watch.heartbeat < now ==> watch.next(Heard::Nothing, now, stalled) == (
            Next::Condemn { rule: Rule::Heartbeat, publish: false },
            watch,
        ),
{
}

/// A member inside its heartbeat is condemned exactly where it is stalled; its beat is
/// taken either way, and a heartbeat is published once its pace has passed since the last
/// one, and only then.
pub proof fn a_beating_member_is_condemned_only_when_stalled(
    watch: Watch,
    now: u64,
    stalled: bool,
)
    requires
        now <= watch.beat + watch.heartbeat,
    ensures
        ({
            let (next, after) = watch.next(Heard::Nothing, now, stalled);
            let due = watch.published <= now && now - watch.published >= watch.publish_every
                || watch.publish_every == 0;
            &&& stalled ==> next == (Next::Condemn { rule: Rule::Activity, publish: due })
            &&& !stalled ==> next == (Next::Listen { publish: due })
            &&& after.beat == now
            &&& after.heartbeat == watch.heartbeat
            &&& after.publish_every == watch.publish_every
            &&& after.published == if due {
                now
            } else {
                watch.published
            }
        }),
{
}

/// A watch begins with a fresh beat, and publishes at most every second listen and at
/// most four times in a heartbeat.
pub proof fn a_watch_begins_fresh(now: u64, heartbeat: u64, interval: u64, watch: Watch)
    requires
        call_ensures(Watch::new, (now, heartbeat, interval), watch),
    ensures
        watch.heartbeat == heartbeat,
        watch.beat == now,
        watch.published == now,
        watch.publish_every >= 2 * interval,
        watch.publish_every >= heartbeat / 4,
        watch.publish_every == 2 * interval || watch.publish_every == heartbeat / 4,
{
}

/// A member is stalled exactly where it recorded nothing for longer than its bound and
/// nothing of it is at work.
pub proof fn a_stall_is_silence_with_nothing_at_work(
    last: u64,
    now: u64,
    bound: u64,
    working: bool,
    stalled: bool,
)
    requires
        call_ensures(is_stalled, (last, now, bound, working), stalled),
    ensures
        stalled <==> last + bound < now && !working,
{
}

/// A condemned member's engine is given five seconds, is listened to until then, and is
/// reaped again for as long as it says nothing; an answer is evidence, and an engine that
/// is gone is given up on.
pub proof fn a_condemned_member_is_given_its_grace(
    rule: Rule,
    start: u64,
    reaped: u64,
    teardown: Teardown,
    now: u64,
    waits: bool,
    heard: Heard,
    next: Stopping,
)
    requires
        call_ensures(Teardown::begin, (rule, start, reaped), teardown),
        call_ensures(Teardown::waits, (&teardown, now), waits),
        call_ensures(Teardown::hear, (&teardown, heard), next),
    ensures
        teardown.rule == rule,
        teardown.reaped == reaped,
        waits <==> now < start + 5000,
        next is Answered <==> heard is Answer,
        next is Abandoned <==> heard is Gone,
        next is Reap <==> heard is Nothing,
{
}

/// A condemned member dies by the rule that condemned it, of the cancellation, whether or
/// not its engine answered.
pub proof fn a_condemned_member_dies_by_its_rule(
    teardown: &Teardown,
    stopped: Emission,
    abandoned: Emission,
)
    requires
        call_ensures(Teardown::stopped, (teardown,), stopped),
        call_ensures(Teardown::abandoned, (teardown,), abandoned),
    ensures
        stopped.kind == EventKind::MemberDied,
        stopped.payload matches Payload::MemberDied(said) && spells_rule(
            said.rule@,
            teardown.rule,
        ) && said.cause == Cause::Cancelled,
        abandoned.kind == EventKind::MemberDied,
        abandoned.payload matches Payload::MemberDied(said) && spells_rule(
            said.rule@,
            teardown.rule,
        ) && said.cause == Cause::Cancelled,
{
}

// ---- A single-sided member ----
/// Whether an event says that a chain moved past a candidate, on no side and no turn in
/// particular.
pub open spec fn says_past(emission: Emission, past: FellThrough) -> bool {
    &&& emission.kind == EventKind::FallbackAdvanced
    &&& emission.payload matches Payload::FallbackAdvanced(said) && said.identity@ == past.harness@
        && said.reason@ == past.reason@ && said.role is None && said.turn is None
}

/// The candidates a run moved past, in order.
pub open spec fn moved_past(outcome: RunOutcome) -> Seq<FellThrough> {
    match outcome.fallback {
        Some(fallback) => fallback.fell_through@,
        None => seq![],
    }
}

proof fn only_the_last_ends(emissions: Seq<Emission>, from: int)
    requires
        0 <= from < emissions.len(),
        forall|i: int|
            0 <= i < emissions.len() - 1 ==> (#[trigger] emissions[i]).kind
                != EventKind::MemberDied && emissions[i].kind != EventKind::MemberSettled,
    ensures
        emissions.last().kind == EventKind::MemberSettled ==> ends_once(
            emissions,
            EventKind::MemberSettled,
            EventKind::MemberDied,
        ),
        emissions.last().kind == EventKind::MemberDied ==> ends_once(
            emissions,
            EventKind::MemberDied,
            EventKind::MemberSettled,
        ),
{
    let rest = emissions.drop_last();
    assert forall|i: int| 0 <= i < rest.len() implies (#[trigger] rest[i]).kind
        != EventKind::MemberDied && rest[i].kind != EventKind::MemberSettled by {
        assert(rest[i] == emissions[i]);
    }
    no_such_event(rest, EventKind::MemberDied);
    no_such_event(rest, EventKind::MemberSettled);
}

proof fn no_such_event(emissions: Seq<Emission>, kind: EventKind)
    requires
        forall|i: int| 0 <= i < emissions.len() ==> (#[trigger] emissions[i]).kind != kind,
    ensures
        count_of(emissions, kind) == 0,
    decreases emissions.len(),
{
    if emissions.len() > 0 {
        let rest = emissions.drop_last();
        assert forall|i: int| 0 <= i < rest.len() implies (#[trigger] rest[i]).kind != kind by {
            assert(rest[i] == emissions[i]);
        }
        no_such_event(rest, kind);
    }
}

/// A single-sided member settles on exit code zero and on no other: every other code, of
/// either sign, is one death by a failure of what runs it, with no settle published and
/// no turn closed, in the harness's own words where it had any.
pub proof fn a_nonzero_exit_is_a_death(
    ending: Ending,
    outcome: RunOutcome,
    turn: TheTurn,
    finished_at: Seq<char>,
)
    requires
        ends_as(ending, Ok(outcome), None, turn, finished_at),
        outcome.exit_code != 0,
    ensures
        ending.verdict == Verdict::Died(Rule::ProviderFailure),
        ends_once(ending.emissions@, EventKind::MemberDied, EventKind::MemberSettled),
        forall|i: int|
            0 <= i < ending.emissions@.len() ==> (#[trigger] ending.emissions@[i]).kind
                != EventKind::TurnCompleted,
        ending.emissions@.last().payload matches Payload::MemberDied(said) && said.rule@
            == "provider-failure"@ && said.cause == Cause::Unclassified && (
        outcome.failure_summary matches Some(summary) ==> details(
            said.detail@,
            summary@,
            said.truncated,
        )),
{
    chain_first(ending, outcome, None, turn, finished_at);
    let count = moved_past(outcome).len() as int;
    let rest = ending.emissions@.skip(count);
    assert(rest[0] == ending.emissions@[count]);
    assert(rest.last() == ending.emissions@.last());
    only_the_last_ends(ending.emissions@, count);
    if let Some(summary) = outcome.failure_summary {
        a_detail_is_trimmed_and_bounded(summary@);
    }
}

/// A run that exits zero in its group settles its member as completed: its turn is
/// closed, announced first where nothing had announced it, and the settle is the last
/// event, once.
pub proof fn a_zero_exit_settles(
    ending: Ending,
    outcome: RunOutcome,
    turn: TheTurn,
    finished_at: Seq<char>,
)
    requires
        ends_as(ending, Ok(outcome), None, turn, finished_at),
        outcome.exit_code == 0,
    ensures
        ({
            let events = ending.emissions@;
            let count = moved_past(outcome).len() as int;
            let start = if turn.opened {
                count
            } else {
                count + 1
            };
            &&& ending.verdict matches Verdict::Settled { completed, carried } && completed
                && carried is None
            &&& ends_once(events, EventKind::MemberSettled, EventKind::MemberDied)
            &&& events.last().payload matches Payload::MemberSettled(said) && said.completed
            &&& events.len() == start + 2
            &&& !turn.opened ==> events[count].kind == EventKind::TurnStarted && (
            events[count].payload matches Payload::TurnStarted(said) && said.turn == 1
                && said.role@ == "assistant"@ && said.started_at@ == turn.started_at@
                && begins_bounded(
                said.instruction@,
                turn.prompt@,
                said.instruction_truncated,
            ))
            &&& events[start].kind == EventKind::TurnCompleted
            &&& events[start].payload matches Payload::TurnCompleted(said) && said.turn == 1
                && said.role@ == "assistant"@ && said.started_at@ == turn.started_at@
                && said.finished_at@ == finished_at
            &&& events[start].payload matches Payload::TurnCompleted(said) && (
            outcome.fallback is None && outcome.results@.len() > 0 ==> said.usage
                == outcome.results@[0].usage)
        }),
{
    chain_first(ending, outcome, None, turn, finished_at);
    let events = ending.emissions@;
    let count = moved_past(outcome).len() as int;
    let rest = events.skip(count);
    let inner = rest.drop_last();
    assert(rest[0] == events[count]);
    assert(rest.last() == events.last());
    assert(inner[0] == events[count]);
    if !turn.opened {
        assert(inner[1] == events[count + 1]);
        crate::bound::a_head_is_the_longest_beginning_that_fits(turn.prompt@, 4096);
    }
    only_the_last_ends(events, count);
}

/// A harness that could not be put into its member's group outranks whatever its report
/// says: one death, caused by the start.
pub proof fn an_ungrouped_harness_is_a_death(
    ending: Ending,
    outcome: RunOutcome,
    reason: String,
    turn: TheTurn,
    finished_at: Seq<char>,
)
    requires
        ends_as(ending, Ok(outcome), Some(reason), turn, finished_at),
    ensures
        ending.verdict == Verdict::Died(Rule::ProviderFailure),
        ends_once(ending.emissions@, EventKind::MemberDied, EventKind::MemberSettled),
        ending.emissions@.last().payload matches Payload::MemberDied(said) && said.rule@
            == "provider-failure"@ && said.cause == Cause::Spawn && details(
            said.detail@,
            reason@,
            said.truncated,
        ),
{
    chain_first(ending, outcome, Some(reason), turn, finished_at);
    let count = moved_past(outcome).len() as int;
    let rest = ending.emissions@.skip(count);
    assert(rest[0] == ending.emissions@[count]);
    assert(rest.last() == ending.emissions@.last());
    only_the_last_ends(ending.emissions@, count);
    a_detail_is_trimmed_and_bounded(reason@);
}

/// A run that could not be asked for never started: one death, caused by the start, in
/// the words of the refusal.
pub proof fn a_refused_request_never_started(
    ending: Ending,
    reason: String,
    ungrouped: Option<String>,
    turn: TheTurn,
    finished_at: Seq<char>,
)
    requires
        ends_as(ending, Err(reason), ungrouped, turn, finished_at),
    ensures
        ending.verdict == Verdict::Unstartable(reason),
        ending.emissions@.len() == 1,
        ending.emissions@[0].kind == EventKind::MemberDied,
        ending.emissions@[0].payload matches Payload::MemberDied(said) && said.rule@
            == "provider-failure"@ && said.cause == Cause::Spawn && details(
            said.detail@,
            reason@,
            said.truncated,
        ),
{
    a_detail_is_trimmed_and_bounded(reason@);
}

/// Every candidate a run moved past is published first, in order, whatever came of the
/// run.
pub proof fn a_chains_steps_come_first(
    ending: Ending,
    outcome: RunOutcome,
    ungrouped: Option<String>,
    turn: TheTurn,
    finished_at: Seq<char>,
)
    requires
        ends_as(ending, Ok(outcome), ungrouped, turn, finished_at),
    ensures
        ending.emissions@.len() > moved_past(outcome).len(),
        forall|i: int|
            0 <= i < moved_past(outcome).len() ==> says_past(
                #[trigger] ending.emissions@[i],
                moved_past(outcome)[i],
            ),
        forall|i: int|
            moved_past(outcome).len() <= i < ending.emissions@.len() ==> (
            #[trigger] ending.emissions@[i]).kind != EventKind::FallbackAdvanced,
{
    chain_first(ending, outcome, ungrouped, turn, finished_at);
}

proof fn chain_first(
    ending: Ending,
    outcome: RunOutcome,
    ungrouped: Option<String>,
    turn: TheTurn,
    finished_at: Seq<char>,
)
    requires
        ends_as(ending, Ok(outcome), ungrouped, turn, finished_at),
    ensures
        ending.emissions@.len() > moved_past(outcome).len(),
        forall|i: int|
            0 <= i < moved_past(outcome).len() ==> says_past(
                #[trigger] ending.emissions@[i],
                moved_past(outcome)[i],
            ),
        forall|i: int|
            moved_past(outcome).len() <= i < ending.emissions@.len() ==> (
            #[trigger] ending.emissions@[i]).kind != EventKind::FallbackAdvanced,
        forall|i: int|
            0 <= i < ending.emissions@.len() - 1 ==> (#[trigger] ending.emissions@[i]).kind
                != EventKind::MemberDied && ending.emissions@[i].kind != EventKind::MemberSettled,
{
    let events = ending.emissions@;
    let count = moved_past(outcome).len() as int;
    let told = crate::judge::advances_of(moved_past(outcome), None, None, count as nat);
    let rest = events.skip(count);
    assert forall|i: int| 0 <= i < count implies says_past(
        #[trigger] events[i],
        moved_past(outcome)[i],
    ) by {
        assert(tells(events[i], told[i]));
    }
    let inner = rest.drop_last();
    assert forall|i: int| count <= i < events.len() implies (#[trigger] events[i]).kind
        != EventKind::FallbackAdvanced && (i < events.len() - 1 ==> events[i].kind
        != EventKind::MemberDied && events[i].kind != EventKind::MemberSettled) by {
        assert(rest[i - count] == events[i]);
        if i < events.len() - 1 {
            assert(inner[i - count] == rest[i - count]);
        } else {
            assert(rest.last() == events[i]);
        }
    }
}

proof fn the_last_named_is_the_last(results: Seq<RunResult>, name: Seq<char>, upto: nat)
    requires
        upto <= results.len(),
    ensures
        ({
            let at = last_named(results, name, upto);
            &&& -1 <= at < upto
            &&& at >= 0 ==> results[at].harness_id@ == name || results[at].harness@ == name
            &&& forall|i: int|
                at < i < upto ==> (#[trigger] results[i]).harness_id@ != name && results[i].harness@
                    != name
        }),
    decreases upto,
{
    if upto > 0 {
        the_last_named_is_the_last(results, name, (upto - 1) as nat);
    }
}

/// The accounting of a member's turn is that of the candidate that ran: the only result of
/// a run without a chain, and the last result under the identity a chain says ran; a chain
/// that ran nobody is accounted for by nobody.
pub proof fn a_turn_is_accounted_by_the_candidate_that_ran(
    results: &Vec<RunResult>,
    fallback: &Option<Fallback>,
    usage: Option<Usage>,
    at: int,
)
    requires
        call_ensures(ran, (results, fallback), usage),
    ensures
        fallback is None ==> usage == if results@.len() > 0 {
            Some(results@[0].usage)
        } else {
            None
        },
        fallback matches Some(chain) && chain.ran is None ==> usage is None,
        fallback matches Some(chain) && (chain.ran matches Some(name) && 0 <= at < results@.len()
            && (results@[at].harness_id@ == name@ || results@[at].harness@ == name@) && (forall|
            i: int,
        |
            at < i < results@.len() ==> (#[trigger] results@[i]).harness_id@ != name@
                && results@[i].harness@ != name@)) ==> usage == Some(results@[at].usage),
{
    if let Some(chain) = *fallback {
        if let Some(name) = chain.ran {
            the_last_named_is_the_last(results@, name@, results@.len());
            let last = last_named(results@, name@, results@.len());
            if 0 <= at < results@.len() && (results@[at].harness_id@ == name@
                || results@[at].harness@ == name@) {
                if last < at {
                    assert(results@[at].harness_id@ != name@);
                } else if at < last {
                    assert(results@[last].harness_id@ == name@ || results@[last].harness@ == name@);
                }
            }
        }
    }
}

/// A launch asks for its own config, directory and prompt, for tool events always, and
/// for a stream exactly where its turn is streamed.
pub proof fn a_launch_asks_for_what_it_was_given(launch: &HarnessLaunch, request: Request)
    requires
        call_ensures(HarnessLaunch::request, (launch,), request),
    ensures
        request.config@ == launch.config@,
        request.cwd@ == launch.worktree@,
        request.events,
        request.stream <==> launch.reporting is Streamed,
        request.prompt@.len() == 1,
        request.prompt@[0]@ == launch.prompt@,
{
}

// ---- A single-sided turn ----
/// Whether an event announces a single-sided turn: its prompt from the beginning, and the
/// moment it began.
pub open spec fn announces(emission: Emission, turn: TheTurn) -> bool {
    &&& emission.kind == EventKind::TurnStarted
    &&& emission.payload matches Payload::TurnStarted(said) && said.turn == 1 && said.role@
        == "assistant"@ && said.started_at@ == turn.started_at@ && begins_bounded(
        said.instruction@,
        turn.prompt@,
        said.instruction_truncated,
    )
}

/// A turn is announced once, however often it is opened, and stays the turn it was.
pub proof fn a_turn_is_announced_once(
    turn: TheTurn,
    after: TheTurn,
    emission: Option<Emission>,
    later: TheTurn,
    again: Option<Emission>,
)
    requires
        turn.opens(after, emission),
        after.opens(later, again),
        !turn.opened,
    ensures
        emission is Some && announces(emission->0, turn),
        again is None,
        later.prompt == turn.prompt,
        later.started_at == turn.started_at,
{
    crate::bound::a_head_is_the_longest_beginning_that_fits(turn.prompt@, 4096);
}

/// Every event a harness publishes is on the stream, the first of them after the turn's
/// announcement, and the run goes on exactly where it was not cancelled.
pub proof fn a_live_event_is_published_under_its_turn(
    turn: TheTurn,
    after: TheTurn,
    event: ActionEvent,
    cancelled: bool,
    emissions: Seq<Emission>,
    step: SinkStep,
)
    requires
        sinks(turn, after, event, cancelled, emissions, step),
    ensures
        step is Stop <==> cancelled,
        after.opened,
        emissions.len() == if turn.opened {
            1int
        } else {
            2
        },
        !turn.opened ==> announces(emissions[0], turn),
        emissions.last().kind == EventKind::TurnActivity,
        emissions.last().payload matches Payload::TurnActivity(said) && said.kind@ == event.kind@
            && text_of(said.name) == text_of(event.name) && text_of(said.tool_call_id) == text_of(
            event.tool_call_id,
        ) && said.index == event.index && (said.output is None <==> event.output is None),
{
    crate::bound::a_head_is_the_longest_beginning_that_fits(turn.prompt@, 4096);
}

/// The first refusal to be grouped is the one that is kept, and it says when it happened
/// and why.
pub proof fn the_first_refusal_is_kept(
    held: Option<String>,
    after: Option<String>,
    moment: Seq<char>,
    why: Seq<char>,
    later: Option<String>,
    next: Seq<char>,
    other: Seq<char>,
)
    requires
        holds_refusal(held, after, moment, why),
        holds_refusal(after, later, next, other),
        held is None,
    ensures
        after is Some,
        later == after,
        crate::stand_in_laws::occurs(after->0@, moment + ": "@ + why),
{
    let before =
        "this member's harness could not be put in the process group that a cancel and the activity watchdog reach it through ("@;
    let end = "), so the run was stopped rather than left billing outside it"@;
    let inner = moment + ": "@ + why;
    let text = after->0@;
    assert(text =~= before + inner + end);
    assert(text.subrange(before.len() as int, (before.len() + inner.len()) as int) =~= inner);
    assert(crate::stand_in_laws::stands(text, inner, before.len() as int));
}

/// A settled turn is closed with what the candidate that ran was billed, and with nothing
/// at all where none ran.
pub proof fn a_settled_turn_is_billed_by_what_ran(
    ending: Ending,
    outcome: RunOutcome,
    turn: TheTurn,
    finished_at: Seq<char>,
    usage: Option<Usage>,
)
    requires
        ends_as(ending, Ok(outcome), None, turn, finished_at),
        outcome.exit_code == 0,
        call_ensures(ran, (&outcome.results, &outcome.fallback), usage),
    ensures
        ending.emissions@.len() >= 2,
        ending.emissions@[ending.emissions@.len() - 2].payload matches Payload::TurnCompleted(said)
            && match usage {
            Some(billed) => said.usage == billed,
            None => said.usage.input_tokens is None && said.usage.output_tokens is None
                && said.usage.cache_read_tokens is None && said.usage.cache_write_tokens is None
                && said.usage.cost_usd_bits is None,
        },
{
    let events = ending.emissions@;
    let count = moved_past(outcome).len() as int;
    let rest = events.skip(count);
    let inner = rest.drop_last();
    assert(inner.last() == events[events.len() - 2]);
}

} // verus!
