//! What a two-party member's end says of the run it ended.

use vstd::prelude::*;

use crate::control::Turn;
use crate::event::EventKind;
use crate::judge::{
    attribution_told, attributions_told, carried_report, condemned_refusal, describe, described,
    evidence, finish, first_ran, ingest, last_attempted, pointer_of, provider_cause,
    publish_attribution, reconcile, record_control, session_pointer, tells, terminal_refusal,
    turn_record, Answer, Attribution, Candidate, Ended, Failure, Finished, Observation, Reconciled,
    Telemetry, Undelivered,
};
use crate::json_read::{json_fault, json_node, NodeText};
use crate::location::Location;
use crate::member::{Ending, Rule, Verdict};
use crate::member_laws::{a_detail_is_trimmed_and_bounded, details, spells_rule};
use crate::payload::{Cause, Emission, Party, Payload, Usage};
use crate::text::{separated, signed_decimal};

verus! {

// ---- The record a failure is judged against ----
/// Whether a candidate stands for an invocation: the first of its candidates that ran,
/// or the last of them where none did.
pub open spec fn stands_for(candidates: Seq<Candidate>, candidate: Candidate) -> bool {
    exists|j: int|
        0 <= j < candidates.len() && #[trigger] candidates[j] == candidate && if candidate.ran {
            forall|k: int| 0 <= k < j ==> !(#[trigger] candidates[k]).ran
        } else {
            j == candidates.len() - 1 && forall|k: int|
                0 <= k < candidates.len() ==> !(#[trigger] candidates[k]).ran
        }
}

/// Whether an invocation is the latest that attempted any candidate.
pub open spec fn latest_attempt(attributions: Seq<Attribution>, at: int) -> bool {
    &&& 0 <= at < attributions.len()
    &&& attributions[at].candidates@.len() > 0
    &&& forall|k: int|
        at < k < attributions.len() ==> (#[trigger] attributions[k]).candidates@.len() == 0
}

/// Whether an accounting reports work that was paid for: any figure above zero, or a
/// cost above zero, whose bits are those from the smallest positive double to infinity.
pub open spec fn paid(usage: Usage) -> bool {
    ||| usage.input_tokens matches Some(count) && count > 0
    ||| usage.output_tokens matches Some(count) && count > 0
    ||| usage.cache_read_tokens matches Some(count) && count > 0
    ||| usage.cache_write_tokens matches Some(count) && count > 0
    ||| usage.cost_usd_bits matches Some(bits) && 0 < bits <= 0x7ff0_0000_0000_0000
}

/// Whether a record says that its turn completed and was paid for.
pub open spec fn paid_and_done(record: Candidate) -> bool {
    &&& record.status@ == "ok"@
    &&& record.exit_code == Some(0i32)
    &&& record.usage matches Some(usage) && paid(usage)
}

proof fn the_last_attempt_is_the_latest(attributions: Seq<Attribution>, upto: nat)
    requires
        upto <= attributions.len(),
    ensures
        ({
            let at = last_attempted(attributions, upto);
            &&& -1 <= at < upto
            &&& at >= 0 ==> attributions[at].candidates@.len() > 0
            &&& forall|k: int|
                at < k < upto ==> (#[trigger] attributions[k]).candidates@.len() == 0
        }),
    decreases upto,
{
    if upto > 0 {
        the_last_attempt_is_the_latest(attributions, (upto - 1) as nat);
    }
}

proof fn the_first_that_ran(candidates: Seq<Candidate>, at: int)
    requires
        0 <= at <= candidates.len(),
    ensures
        ({
            let found = first_ran(candidates, at);
            &&& at <= found <= candidates.len()
            &&& found < candidates.len() ==> candidates[found].ran
            &&& forall|k: int| at <= k < found ==> !(#[trigger] candidates[k]).ran
        }),
    decreases candidates.len() - at,
{
    if at < candidates.len() && !candidates[at].ran {
        the_first_that_ran(candidates, at + 1);
    }
}

/// The record a failure is judged against is that of the latest invocation that
/// attempted anything, whatever the earlier ones say: its candidate that ran, or its
/// last one where none did. There is none exactly where no invocation attempted
/// anything.
pub proof fn a_failure_is_judged_by_its_latest_invocation(
    telemetry: &Option<Telemetry>,
    record: Option<&Candidate>,
)
    requires
        call_ensures(turn_record, (telemetry,), record),
    ensures
        match record {
            Some(found) => telemetry matches Some(telemetry) && exists|at: int| #[trigger]
                latest_attempt(telemetry.attribution@, at) && stands_for(
                    telemetry.attribution@[at].candidates@,
                    *found,
                ),
            None => telemetry matches Some(telemetry) ==> forall|k: int|
                0 <= k < telemetry.attribution@.len() ==> (
                #[trigger] telemetry.attribution@[k]).candidates@.len() == 0,
        },
{
    if let Some(known) = telemetry {
        let attributions = known.attribution@;
        the_last_attempt_is_the_latest(attributions, attributions.len());
        let at = last_attempted(attributions, attributions.len());
        if at >= 0 {
            let candidates = attributions[at].candidates@;
            the_first_that_ran(candidates, 0);
            assert(latest_attempt(attributions, at));
            let ran = first_ran(candidates, 0);
            let j = if ran < candidates.len() {
                ran
            } else {
                candidates.len() - 1
            };
            assert(candidates[j] == *(record->0));
            assert(stands_for(candidates, *(record->0)));
        }
    }
}

proof fn one_candidate_stands(candidates: Seq<Candidate>, a: Candidate, b: Candidate)
    requires
        stands_for(candidates, a),
        stands_for(candidates, b),
    ensures
        a == b,
{
    let i = choose|j: int|
        0 <= j < candidates.len() && #[trigger] candidates[j] == a && if a.ran {
            forall|k: int| 0 <= k < j ==> !(#[trigger] candidates[k]).ran
        } else {
            j == candidates.len() - 1 && forall|k: int|
                0 <= k < candidates.len() ==> !(#[trigger] candidates[k]).ran
        };
    let j = choose|j: int|
        0 <= j < candidates.len() && #[trigger] candidates[j] == b && if b.ran {
            forall|k: int| 0 <= k < j ==> !(#[trigger] candidates[k]).ran
        } else {
            j == candidates.len() - 1 && forall|k: int|
                0 <= k < candidates.len() ==> !(#[trigger] candidates[k]).ran
        };
    assert(candidates[i].ran == a.ran);
    assert(candidates[j].ran == b.ran);
    if i < j {
        assert(!candidates[i].ran || !b.ran);
    } else if j < i {
        assert(!candidates[j].ran || !a.ran);
    }
}

/// How many of the events are of a kind.
pub open spec fn count_of(emissions: Seq<Emission>, kind: EventKind) -> nat
    decreases emissions.len(),
{
    if emissions.len() == 0 {
        0
    } else {
        count_of(emissions.drop_last(), kind) + if emissions.last().kind == kind {
            1nat
        } else {
            0
        }
    }
}

proof fn none_is_counted(emissions: Seq<Emission>, kind: EventKind)
    requires
        forall|i: int| 0 <= i < emissions.len() ==> (#[trigger] emissions[i]).kind != kind,
    ensures
        count_of(emissions, kind) == 0,
    decreases emissions.len(),
{
    if emissions.len() > 0 {
        let rest = emissions.drop_last();
        assert forall|i: int| 0 <= i < rest.len() implies (#[trigger] rest[i]).kind != kind by {
            assert(rest[i] == emissions[i]);
        }
        none_is_counted(rest, kind);
    }
}

/// Whether the events end with one settle and hold no death, or with one death and hold
/// no settle.
pub open spec fn ends_once(emissions: Seq<Emission>, last: EventKind, never: EventKind) -> bool {
    &&& emissions.len() > 0
    &&& emissions.last().kind == last
    &&& count_of(emissions, last) == 1
    &&& count_of(emissions, never) == 0
}

proof fn attributions_end_nothing(emissions: Seq<Emission>, telemetry: Option<Telemetry>)
    requires
        emissions.len() > 0,
        crate::judge::tell_all(
            emissions.drop_last(),
            crate::judge::telemetry_told(telemetry),
        ),
    ensures
        emissions.last().kind == EventKind::MemberSettled ==> ends_once(
            emissions,
            EventKind::MemberSettled,
            EventKind::MemberDied,
        ),
        emissions.last().kind == EventKind::MemberDied ==> ends_once(
            emissions,
            EventKind::MemberDied,
            EventKind::MemberSettled,
        ),
{
    let rest = emissions.drop_last();
    let told = crate::judge::telemetry_told(telemetry);
    assert forall|i: int| 0 <= i < rest.len() implies (#[trigger] rest[i]).kind
        != EventKind::MemberDied && rest[i].kind != EventKind::MemberSettled by {
        assert(tells(rest[i], told[i]));
    }
    none_is_counted(rest, EventKind::MemberDied);
    none_is_counted(rest, EventKind::MemberSettled);
}

/// A conversation that ran to a report settles its member, once and last, and nobody
/// dies of it: completed where, and only where, onejudge exits zero on the report. Its
/// turn control is what the report says.
pub proof fn a_report_settles_its_member(answer: Answer, cancelled: bool, finished: Finished)
    requires
        call_ensures(finish, (answer, cancelled), finished),
        answer is Reported,
    ensures
        answer matches Answer::Reported { control, control_unavailable, exit_code, .. } && {
            let emissions = finished.ending.emissions@;
            &&& ends_once(emissions, EventKind::MemberSettled, EventKind::MemberDied)
            &&& emissions.last().payload matches Payload::MemberSettled(settled)
                && settled.completed == (exit_code == 0)
            &&& finished.ending.verdict matches Verdict::Settled { completed, carried }
                && completed == (exit_code == 0) && carried is None
            &&& match control {
                Some(address) => finished.control == Some(Turn::Open { address }),
                None => finished.control matches Some(Turn::Unavailable { reason }) && (
                control_unavailable matches Some(why) ==> reason@ == why@) && (
                control_unavailable is None ==> reason@
                    == "this member's report named no controllable turn"@),
            }
        },
{
    if let Answer::Reported { telemetry, .. } = answer {
        attributions_end_nothing(finished.ending.emissions@, telemetry);
    }
}

/// An operator's cancellation is the cause of a failed conversation's end, whatever its
/// record says and whatever it was classified as.
pub proof fn a_cancelled_failure_is_a_cancellation(answer: Answer, finished: Finished)
    requires
        call_ensures(finish, (answer, true), finished),
        answer is Failed,
    ensures
        finished.ending.verdict == Verdict::Died(Rule::ProviderFailure),
        finished.control is None,
        ends_once(
            finished.ending.emissions@,
            EventKind::MemberDied,
            EventKind::MemberSettled,
        ),
        finished.ending.emissions@.last().payload matches Payload::MemberDied(died) && died.cause
            == Cause::Cancelled && died.rule@ == "provider-failure"@,
{
    if let Answer::Failed { telemetry, .. } = answer {
        attributions_end_nothing(finished.ending.emissions@, telemetry);
    }
}

/// The cause a failure was classified as: the engine's own category, where it gave one.
pub open spec fn said_cause(failure: Failure, cause: Cause) -> bool {
    match failure {
        Failure::Engine(Some(category)) => cause == category,
        _ => cause == Cause::Unclassified,
    }
}

/// A failure of a turn is a death whenever the record of that turn — of the latest
/// invocation that attempted anything — does not say that it completed and was paid
/// for, whatever the records of earlier turns say: one death, with the cause the
/// failure was classified as, and no settle.
pub proof fn a_failed_turn_is_a_death_whatever_came_before(
    answer: Answer,
    finished: Finished,
    at: int,
    record: Candidate,
)
    requires
        call_ensures(finish, (answer, false), finished),
        answer matches Answer::Failed { telemetry: Some(telemetry), .. } && latest_attempt(
            telemetry.attribution@,
            at,
        ) && stands_for(telemetry.attribution@[at].candidates@, record),
        !paid_and_done(record),
    ensures
        finished.ending.verdict == Verdict::Died(Rule::ProviderFailure),
        finished.control is None,
        ends_once(
            finished.ending.emissions@,
            EventKind::MemberDied,
            EventKind::MemberSettled,
        ),
        finished.ending.emissions@.last().payload matches Payload::MemberDied(died)
            && answer matches Answer::Failed { failure, .. } && said_cause(failure, died.cause)
            && died.rule@ == "provider-failure"@,
{
    if let Answer::Failed { telemetry, .. } = answer {
        attributions_end_nothing(finished.ending.emissions@, telemetry);
        the_record_is_the_latest(telemetry, at, record);
    }
}

/// A failure whose record says that its turn completed and was paid for is carried: one
/// settle, of a task that was not completed, with a reason, and no death.
pub proof fn a_paid_turn_is_carried(
    answer: Answer,
    finished: Finished,
    at: int,
    record: Candidate,
    cause: Cause,
)
    requires
        call_ensures(finish, (answer, false), finished),
        answer matches Answer::Failed { telemetry: Some(telemetry), .. } && latest_attempt(
            telemetry.attribution@,
            at,
        ) && stands_for(telemetry.attribution@[at].candidates@, record),
        paid_and_done(record),
        answer matches Answer::Failed { failure, .. } && said_cause(failure, cause),
    ensures
        finished.ending.verdict matches Verdict::Settled { completed, carried } && !completed
            && carried is Some,
        finished.ending.verdict matches Verdict::Settled { carried: Some(why), .. }
            && answer matches Answer::Failed { error, .. } && exists|facts: Seq<char>| #[trigger]
            reads_as(facts, record) && why@ == "the provider classified this turn "@ + cause.wire()
                + ", but "@ + facts
                + ", so the turn it describes is carried rather than published as a death — "@
                + error@,
        finished.control is None,
        ends_once(
            finished.ending.emissions@,
            EventKind::MemberSettled,
            EventKind::MemberDied,
        ),
        finished.ending.emissions@.last().payload matches Payload::MemberSettled(settled)
            && !settled.completed,
{
    if let Answer::Failed { telemetry, .. } = answer {
        attributions_end_nothing(finished.ending.emissions@, telemetry);
        the_record_is_the_latest(telemetry, at, record);
        a_record_reads_as_it_is(record);
    }
}

/// A failure with no record to judge it against is a death, as it was classified.
pub proof fn a_failure_without_a_record_is_a_death(answer: Answer, finished: Finished)
    requires
        call_ensures(finish, (answer, false), finished),
        answer is Failed,
        answer matches Answer::Failed { telemetry: Some(telemetry), .. } ==> forall|k: int|
            0 <= k < telemetry.attribution@.len() ==> (
            #[trigger] telemetry.attribution@[k]).candidates@.len() == 0,
    ensures
        finished.ending.verdict == Verdict::Died(Rule::ProviderFailure),
        ends_once(
            finished.ending.emissions@,
            EventKind::MemberDied,
            EventKind::MemberSettled,
        ),
        finished.ending.emissions@.last().payload matches Payload::MemberDied(died)
            && answer matches Answer::Failed { failure, .. } && said_cause(failure, died.cause),
{
    if let Answer::Failed { telemetry, .. } = answer {
        attributions_end_nothing(finished.ending.emissions@, telemetry);
        if let Some(telemetry) = telemetry {
            the_last_attempt_is_the_latest(
                telemetry.attribution@,
                telemetry.attribution@.len(),
            );
        }
    }
}

proof fn the_record_is_the_latest(telemetry: Option<Telemetry>, at: int, record: Candidate)
    requires
        telemetry matches Some(telemetry) && latest_attempt(telemetry.attribution@, at)
            && stands_for(telemetry.attribution@[at].candidates@, record),
    ensures
        crate::judge::record_of(telemetry) == Some(record),
{
    let attributions = telemetry->0.attribution@;
    the_last_attempt_is_the_latest(attributions, attributions.len());
    let last = last_attempted(attributions, attributions.len());
    assert(last == at) by {
        if last < at {
            assert(attributions[at].candidates@.len() == 0);
        } else if last > at {
            assert(attributions[last].candidates@.len() == 0);
        }
    }
    let candidates = attributions[at].candidates@;
    the_first_that_ran(candidates, 0);
    let ran = first_ran(candidates, 0);
    let j = if ran < candidates.len() {
        ran
    } else {
        candidates.len() - 1
    };
    assert(stands_for(candidates, candidates[j]));
    one_candidate_stands(candidates, candidates[j], record);
}

/// A classification is set aside exactly where the record says that the turn completed
/// and was paid for, and stands unchallenged where there is no record.
pub proof fn only_a_paid_turn_outranks_its_classification(
    cause: Cause,
    record: Option<&Candidate>,
    reconciled: Reconciled,
)
    requires
        call_ensures(reconcile, (cause, record), reconciled),
    ensures
        reconciled is Completed <==> (record matches Some(record) && paid_and_done(*record)),
        record is None ==> reconciled is Unchallenged,
        record matches Some(record) && record.failure_kind is None && !paid_and_done(*record)
            ==> reconciled is Disputed,
{
}

/// A failure's cause is the category its engine gave it, and no other.
pub proof fn a_failure_is_classified_by_its_engine(failure: Failure, cause: Cause)
    requires
        call_ensures(provider_cause, (failure,), cause),
    ensures
        said_cause(failure, cause),
{
}

/// A turn that can be addressed is recorded with its address, and one that cannot with
/// the report's own reason.
pub proof fn a_reports_address_is_recorded(
    control: Option<crate::control::Address>,
    unavailable: Option<String>,
    turn: Turn,
)
    requires
        call_ensures(record_control, (control, unavailable), turn),
    ensures
        control matches Some(address) ==> turn == (Turn::Open { address }),
        control is None ==> turn is Unavailable,
        control is None ==> (unavailable matches Some(why) ==> turn->reason@ == why@),
        control is None && unavailable is None ==> turn->reason@
            == "this member's report named no controllable turn"@,
{
}

// ---- What a run attributes ----
/// Whether an event says that this chain moved past a candidate.
pub open spec fn says_advanced(
    emission: Emission,
    attribution: Attribution,
    step: int,
) -> bool {
    &&& emission.kind == EventKind::FallbackAdvanced
    &&& emission.payload matches Payload::FallbackAdvanced(advanced) && advanced.identity@
        == attribution.fell_through@[step].harness@ && advanced.reason@
        == attribution.fell_through@[step].reason@ && advanced.role == Some(attribution.role)
        && advanced.turn == Some(attribution.turn)
}

/// Whether an event says where this invocation's conversation was written down, by the
/// first of its candidates that ran.
pub open spec fn says_session(emission: Emission, attribution: Attribution) -> bool {
    &&& emission.kind == EventKind::OneharnessSession
    &&& exists|j: int|
        0 <= j < attribution.candidates@.len() && (#[trigger] attribution.candidates@[j]).ran && (
        forall|k: int| 0 <= k < j ==> !(#[trigger] attribution.candidates@[k]).ran)
            && attribution.candidates@[j].history_id is Some && attribution.history_file is Some
            && (emission.payload matches Payload::OneharnessSession(session) && session.role
            == attribution.role && session.turn == attribution.turn && session.identity@
            == attribution.candidates@[j].harness_id@ && crate::text::text_of(session.session_id)
            == crate::text::text_of(attribution.candidates@[j].session_id) && session.history_id@
            == attribution.candidates@[j].history_id->0@) && emission.artifacts@.len() == 1
            && emission.artifacts@[0].id@ == attribution.candidates@[j].history_id->0@
            && emission.artifacts@[0].kind@ == "oneharness_session"@
            && emission.artifacts@[0].bytes == attribution.history_bytes
}

proof fn each_step_is_told(attributions: Seq<Attribution>, upto: nat, a: int, step: int) -> (at: int)
    requires
        0 <= a < upto <= attributions.len(),
        0 <= step < attributions[a].fell_through@.len(),
    ensures
        0 <= at < attributions_told(attributions, upto).len(),
        attributions_told(attributions, upto)[at] == (crate::judge::Told::Advanced {
            identity: attributions[a].fell_through@[step].harness@,
            reason: attributions[a].fell_through@[step].reason@,
            side: Some(attributions[a].role),
            on: Some(attributions[a].turn),
        }),
    decreases upto,
{
    let fewer = (upto - 1) as nat;
    let before = attributions_told(attributions, fewer);
    let more = attribution_told(attributions[upto - 1]);
    if a == upto - 1 {
        assert((before + more)[before.len() + step] == more[step]);
        before.len() + step
    } else {
        let at = each_step_is_told(attributions, fewer, a, step);
        assert((before + more)[at] == before[at]);
        at
    }
}

proof fn each_telling_has_its_invocation(attributions: Seq<Attribution>, upto: nat, at: int) -> (a:
    int)
    requires
        upto <= attributions.len(),
        0 <= at < attributions_told(attributions, upto).len(),
    ensures
        0 <= a < upto,
        exists|i: int|
            0 <= i < attribution_told(attributions[a]).len() && #[trigger] attribution_told(
                attributions[a],
            )[i] == attributions_told(attributions, upto)[at],
    decreases upto,
{
    let fewer = (upto - 1) as nat;
    let before = attributions_told(attributions, fewer);
    let more = attribution_told(attributions[upto - 1]);
    if at >= before.len() {
        assert((before + more)[at] == more[at - before.len()]);
        upto - 1
    } else {
        assert((before + more)[at] == before[at]);
        each_telling_has_its_invocation(attributions, fewer, at)
    }
}

/// Every candidate that any chain of a run moved past is on the stream, under the side
/// and the turn it was on.
pub proof fn every_step_past_a_candidate_is_published(
    telemetry: &Option<Telemetry>,
    emissions: Vec<Emission>,
    a: int,
    step: int,
)
    requires
        call_ensures(publish_attribution, (telemetry,), emissions),
        telemetry matches Some(known) && 0 <= a < known.attribution@.len() && 0 <= step
            < known.attribution@[a].fell_through@.len(),
    ensures
        exists|i: int|
            0 <= i < emissions@.len() && says_advanced(
                #[trigger] emissions@[i],
                telemetry->0.attribution@[a],
                step,
            ),
{
    let attributions = telemetry->0.attribution@;
    let at = each_step_is_told(attributions, attributions.len(), a, step);
    assert(tells(emissions@[at], attributions_told(attributions, attributions.len())[at]));
    assert(says_advanced(emissions@[at], attributions[a], step));
}

/// Nothing else is published of a run's telemetry than steps past candidates and the
/// conversations its invocations wrote down, each of them one of the run's own.
pub proof fn what_is_published_was_attributed(
    telemetry: &Option<Telemetry>,
    emissions: Vec<Emission>,
    at: int,
)
    requires
        call_ensures(publish_attribution, (telemetry,), emissions),
        0 <= at < emissions@.len(),
    ensures
        telemetry matches Some(known) && exists|a: int|
            0 <= a < known.attribution@.len() && (says_session(
                emissions@[at],
                #[trigger] known.attribution@[a],
            ) || exists|step: int|
                0 <= step < known.attribution@[a].fell_through@.len() && says_advanced(
                    emissions@[at],
                    known.attribution@[a],
                    step,
                )),
{
    let attributions = telemetry->0.attribution@;
    let told = attributions_told(attributions, attributions.len());
    assert(tells(emissions@[at], told[at]));
    let a = each_telling_has_its_invocation(attributions, attributions.len(), at);
    let own = attribution_told(attributions[a]);
    let i = choose|i: int| 0 <= i < own.len() && #[trigger] own[i] == told[at];
    let steps = attributions[a].fell_through@.len() as int;
    the_first_that_ran(attributions[a].candidates@, 0);
    if i < steps {
        assert(says_advanced(emissions@[at], attributions[a], i));
    } else {
        let j = first_ran(attributions[a].candidates@, 0);
        assert(attributions[a].candidates@[j].ran);
        assert(says_session(emissions@[at], attributions[a]));
    }
}

/// Whether an invocation left a conversation that can be found again: in a file of the
/// store, under the record of the first candidate that ran.
pub open spec fn left_a_conversation(attribution: Attribution) -> bool {
    &&& attribution.history_file matches Some(file) && crate::location::in_store(file@)
    &&& exists|j: int|
        0 <= j < attribution.candidates@.len() && (#[trigger] attribution.candidates@[j]).ran && (
        forall|k: int| 0 <= k < j ==> !(#[trigger] attribution.candidates@[k]).ran)
            && attribution.candidates@[j].history_id is Some
}

/// How many events the first `upto` invocations of a run are worth: one for each
/// candidate that was stepped past, and one for each conversation that was left.
pub open spec fn worth(attributions: Seq<Attribution>, upto: nat) -> nat
    decreases upto,
{
    if upto == 0 {
        0
    } else {
        worth(attributions, (upto - 1) as nat) + attributions[upto - 1].fell_through@.len() + (
        if left_a_conversation(attributions[upto - 1]) {
            1nat
        } else {
            0nat
        })
    }
}

/// Whether events are what invocations attribute: invocation by invocation, the candidates
/// each stepped past in order, and then the conversation it left.
pub open spec fn publishes(events: Seq<Emission>, attributions: Seq<Attribution>) -> bool {
    &&& events.len() == worth(attributions, attributions.len())
    &&& forall|a: int, step: int|
        0 <= a < attributions.len() && 0 <= step < attributions[a].fell_through@.len()
            ==> says_advanced(
            #[trigger] events[worth(attributions, a as nat) + step],
            #[trigger] attributions[a],
            step,
        )
    &&& forall|a: int|
        0 <= a < attributions.len() && left_a_conversation(#[trigger] attributions[a])
            ==> says_session(
            events[worth(attributions, a as nat) + attributions[a].fell_through@.len() as int],
            attributions[a],
        )
}

/// What a run's telemetry attributes, one for each invocation.
pub open spec fn invocations(telemetry: Option<Telemetry>) -> Seq<Attribution> {
    match telemetry {
        Some(telemetry) => telemetry.attribution@,
        None => seq![],
    }
}

proof fn a_pointer_is_a_conversation(attribution: Attribution)
    ensures
        pointer_of(attribution).len() == if left_a_conversation(attribution) {
            1nat
        } else {
            0nat
        },
{
    let candidates = attribution.candidates@;
    the_first_that_ran(candidates, 0);
    let at = first_ran(candidates, 0);
    if left_a_conversation(attribution) {
        let j = choose|j: int|
            0 <= j < candidates.len() && (#[trigger] candidates[j]).ran && (forall|k: int|
                0 <= k < j ==> !(#[trigger] candidates[k]).ran) && candidates[j].history_id is Some;
        if at < j {
            assert(!candidates[at].ran);
        } else if j < at {
            assert(!candidates[j].ran);
        }
    }
    if pointer_of(attribution).len() > 0 {
        assert(candidates[at].ran);
    }
}

proof fn tellings_are_counted(attributions: Seq<Attribution>, upto: nat)
    requires
        upto <= attributions.len(),
    ensures
        attributions_told(attributions, upto).len() == worth(attributions, upto),
    decreases upto,
{
    if upto > 0 {
        tellings_are_counted(attributions, (upto - 1) as nat);
        a_pointer_is_a_conversation(attributions[upto - 1]);
    }
}

proof fn tellings_keep_their_place(attributions: Seq<Attribution>, upto: nat, a: int, i: int)
    requires
        0 <= a < upto <= attributions.len(),
        0 <= i < attribution_told(attributions[a]).len(),
    ensures
        0 <= worth(attributions, a as nat) + i < attributions_told(attributions, upto).len(),
        attributions_told(attributions, upto)[worth(attributions, a as nat) + i]
            == attribution_told(attributions[a])[i],
    decreases upto,
{
    let fewer = (upto - 1) as nat;
    tellings_are_counted(attributions, fewer);
    if a < fewer {
        tellings_keep_their_place(attributions, fewer, a, i);
    }
}

proof fn a_telling_of_a_session(emission: Emission, attribution: Attribution)
    requires
        left_a_conversation(attribution),
        pointer_of(attribution).len() == 1,
        tells(emission, pointer_of(attribution)[0]),
    ensures
        says_session(emission, attribution),
{
    the_first_that_ran(attribution.candidates@, 0);
    let j = first_ran(attribution.candidates@, 0);
    assert(attribution.candidates@[j].ran);
}

proof fn what_is_told_is_published(events: Seq<Emission>, telemetry: Option<Telemetry>)
    requires
        crate::judge::tell_all(events, crate::judge::telemetry_told(telemetry)),
    ensures
        publishes(events, invocations(telemetry)),
{
    if let Some(known) = telemetry {
        let attributions = known.attribution@;
        let told = attributions_told(attributions, attributions.len());
        tellings_are_counted(attributions, attributions.len());
        assert forall|a: int, step: int|
            0 <= a < attributions.len() && 0 <= step
                < attributions[a].fell_through@.len() implies says_advanced(
            #[trigger] events[worth(attributions, a as nat) + step],
            #[trigger] attributions[a],
            step,
        ) by {
            tellings_keep_their_place(attributions, attributions.len(), a, step);
            assert(tells(
                events[worth(attributions, a as nat) + step],
                told[worth(attributions, a as nat) + step],
            ));
        }
        assert forall|a: int|
            0 <= a < attributions.len() && left_a_conversation(
                #[trigger] attributions[a],
            ) implies says_session(
            events[worth(attributions, a as nat) + attributions[a].fell_through@.len() as int],
            attributions[a],
        ) by {
            let step = attributions[a].fell_through@.len() as int;
            a_pointer_is_a_conversation(attributions[a]);
            tellings_keep_their_place(attributions, attributions.len(), a, step);
            assert(tells(
                events[worth(attributions, a as nat) + step],
                told[worth(attributions, a as nat) + step],
            ));
            assert(attribution_told(attributions[a])[step] == pointer_of(attributions[a])[0]);
            a_telling_of_a_session(
                events[worth(attributions, a as nat) + step],
                attributions[a],
            );
        }
    }
}

/// A run's telemetry is published invocation by invocation: each candidate that was
/// stepped past, in order, and then the conversation the invocation left, and nothing
/// besides.
pub proof fn telemetry_is_published_in_order(
    telemetry: &Option<Telemetry>,
    emissions: Vec<Emission>,
)
    requires
        call_ensures(publish_attribution, (telemetry,), emissions),
    ensures
        publishes(emissions@, invocations(*telemetry)),
{
    what_is_told_is_published(emissions@, *telemetry);
}

/// What a run attributes stands before its end, however it ended: cancelled, failed,
/// carried or reported.
pub proof fn attributions_stand_before_the_end(
    answer: Answer,
    cancelled: bool,
    finished: Finished,
)
    requires
        call_ensures(finish, (answer, cancelled), finished),
    ensures
        finished.ending.emissions@.len() > 0,
        publishes(
            finished.ending.emissions@.drop_last(),
            match answer {
                Answer::Reported { telemetry, .. } => invocations(telemetry),
                Answer::Failed { telemetry, .. } => invocations(telemetry),
            },
        ),
{
    match answer {
        Answer::Reported { telemetry, .. } => {
            what_is_told_is_published(finished.ending.emissions@.drop_last(), telemetry);
        },
        Answer::Failed { telemetry, .. } => {
            what_is_told_is_published(finished.ending.emissions@.drop_last(), telemetry);
        },
    }
}

/// A condemned member's answer is worth all that its run attributes and no more, whichever
/// way the conversation went.
pub proof fn evidence_is_what_was_attributed(answer: &Answer, emissions: Vec<Emission>)
    requires
        call_ensures(evidence, (answer,), emissions),
    ensures
        publishes(
            emissions@,
            match *answer {
                Answer::Reported { telemetry, .. } => invocations(telemetry),
                Answer::Failed { telemetry, .. } => invocations(telemetry),
            },
        ),
{
    match *answer {
        Answer::Reported { telemetry, .. } => {
            what_is_told_is_published(emissions@, telemetry);
        },
        Answer::Failed { telemetry, .. } => {
            what_is_told_is_published(emissions@, telemetry);
        },
    }
}

/// The place a conversation is found at is the place its own file is in.
pub proof fn a_conversation_is_found_where_its_file_is(
    attribution: &Attribution,
    pointer: Option<Emission>,
    file: &str,
    location: Option<Location>,
)
    requires
        call_ensures(session_pointer, (attribution,), pointer),
        attribution.history_file matches Some(named) && named@ == file@,
        call_ensures(Location::of, (file,), location),
    ensures
        pointer is Some <==> left_a_conversation(*attribution),
        pointer is Some ==> location is Some && says_session(pointer->0, *attribution) && (
        pointer->0.payload matches Payload::OneharnessSession(session) && session.history_dir@
            == location->0.store() && session.history_project@ == location->0.within()
            && session.history_session@ == location->0.named()),
{
    a_pointer_is_a_conversation(*attribution);
    if let Some(emission) = pointer {
        assert(tells(seq![emission][0], pointer_of(*attribution)[0]));
        a_telling_of_a_session(emission, *attribution);
    }
}

// ---- What an end says ----
/// How a record reads: its status, its exit code and its bill, and `none` for what it does
/// not have.
pub open spec fn reads_as(text: Seq<char>, record: Candidate) -> bool {
    let code = if record.exit_code is Some {
        signed_decimal(record.exit_code->0 as int)
    } else {
        "none"@
    };
    let bill = if record.usage_text is Some {
        record.usage_text->0@
    } else {
        "none"@
    };
    text == separated(
        seq![
            "the harness's own record for that turn says status "@ + record.status@,
            "exit code "@ + code,
            "usage "@ + bill,
        ],
        ", "@,
    )
}

proof fn a_record_reads_as_it_is(record: Candidate)
    ensures
        reads_as(described(record), record),
{
    let code = match record.exit_code {
        Some(code) => signed_decimal(code as int),
        None => "none"@,
    };
    let bill = match record.usage_text {
        Some(text) => text@,
        None => "none"@,
    };
    let head = "the harness's own record for that turn says status "@ + record.status@;
    let parts = seq![head, "exit code "@ + code, "usage "@ + bill];
    reveal_strlit(", exit code ");
    reveal_strlit("exit code ");
    reveal_strlit(", usage ");
    reveal_strlit("usage ");
    reveal_strlit(", ");
    assert(", exit code "@ =~= ", "@ + "exit code "@);
    assert(", usage "@ =~= ", "@ + "usage "@);
    reveal_with_fuel(separated, 4);
    assert(parts.drop_last() =~= seq![head, "exit code "@ + code]);
    assert(parts.drop_last().drop_last() =~= seq![head]);
    assert(parts.drop_last().last() == "exit code "@ + code);
    assert(described(record) =~= separated(parts, ", "@));
}

/// A record is told by its status, its exit code and its bill.
pub proof fn a_record_is_told_by_its_facts(record: &Candidate, text: String)
    requires
        call_ensures(describe, (record,), text),
    ensures
        reads_as(text@, *record),
{
    a_record_reads_as_it_is(*record);
}

/// A death says what failed in the failure's own words, alone where the run was cancelled,
/// where there is no record, or where the record names the same cause; otherwise it names
/// the cause and says what the record says too.
pub proof fn a_death_quotes_its_failure(
    answer: Answer,
    cancelled: bool,
    finished: Finished,
    record: Option<&Candidate>,
    cause: Cause,
    kind: &str,
    named: Cause,
)
    requires
        call_ensures(finish, (answer, cancelled), finished),
        finished.ending.verdict is Died,
        answer matches Answer::Failed { telemetry, failure, .. } && call_ensures(
            turn_record,
            (&telemetry,),
            record,
        ) && said_cause(failure, cause),
        record matches Some(known) && known.failure_kind is Some ==> record->0.failure_kind->0@
            == kind@,
        call_ensures(Cause::classify, (kind,), named),
    ensures
        finished.ending.emissions@.len() > 0,
        finished.ending.emissions@.last().payload matches Payload::MemberDied(died)
            && answer matches Answer::Failed { error, .. } && (if cancelled || record is None || (
        record->0.failure_kind is Some && named == cause) {
            details(died.detail@, error@, died.truncated)
        } else {
            exists|facts: Seq<char>| #[trigger]
                reads_as(facts, *record->0) && details(
                    died.detail@,
                    error@ + " — classified "@ + cause.wire() + ", while "@ + facts,
                    died.truncated,
                )
        }),
{
    if let Answer::Failed { error, .. } = answer {
        a_detail_is_trimmed_and_bounded(error@);
        if let Some(record) = record {
            a_record_reads_as_it_is(*record);
            a_detail_is_trimmed_and_bounded(
                error@ + " — classified "@ + cause.wire() + ", while "@ + described(*record),
            );
        }
    }
}

/// A note to a condemned member is told which watchdog condemned it.
pub proof fn a_condemned_member_says_by_which_rule(rule: Rule, refusal: Undelivered)
    requires
        call_ensures(condemned_refusal, (rule,), refusal),
    ensures
        refusal matches Undelivered::MemberSettled { outcome } && exists|name: Seq<char>|
            #[trigger] spells_rule(name, rule) && outcome@ == "the member was condemned by its "@
                + name + " watchdog"@,
{
    assert(spells_rule(rule.wire(), rule));
}

/// Only an ending that was carried has a report of its own, which says why it was.
pub proof fn a_carried_ending_has_its_report(
    ending: &Ending,
    telemetry: Option<&str>,
    report: Option<String>,
)
    requires
        call_ensures(carried_report, (ending, telemetry), report),
    ensures
        report is Some <==> (ending.verdict matches Verdict::Settled { carried, .. }
            && carried is Some),
        report matches Some(document) ==> (json_fault(document@) is None ==> (
        ending.verdict matches Verdict::Settled { carried: Some(why), .. } && json_node(
            document@,
            "/settled_reason"@,
        ) == NodeText::Text(why@))),
{
}

// ---- What a conversation publishes ----
/// Whether a role is spelled as its party is.
pub open spec fn spells(role: Seq<char>, party: Party) -> bool {
    match party {
        Party::Assistant => role == "assistant"@,
        Party::User => role == "user"@,
        Party::System => role == "system"@,
    }
}

/// Whether `kept` is the beginning of a text, whole where it fits into the bound on a
/// payload's text, and otherwise cut no shorter than a character needs.
pub open spec fn begins_bounded(kept: Seq<char>, text: Seq<char>, cut: bool) -> bool {
    &&& kept.len() <= text.len()
    &&& kept == text.take(kept.len() as int)
    &&& vstd::utf8::encode_utf8(kept).len() <= 4096
    &&& cut == (vstd::utf8::encode_utf8(text).len() > 4096)
    &&& !cut ==> kept == text
    &&& cut ==> vstd::utf8::encode_utf8(kept).len() > 4092
}

/// Whether an event says of an observation what was observed: the same turn, party,
/// times and figures, and its text from the beginning.
pub open spec fn reports_observation(emission: Emission, observation: Observation) -> bool {
    &&& emission.artifacts@.len() == 0
    &&& match observation {
        Observation::TurnOpened { turn, role, instruction, started_at } => emission.kind
            == EventKind::TurnStarted && (emission.payload matches Payload::TurnStarted(said)
            && said.turn == turn && spells(said.role@, role) && begins_bounded(
            said.instruction@,
            instruction@,
            said.instruction_truncated,
        ) && said.started_at@ == started_at@),
        Observation::Message { turn, role, text } => emission.kind == EventKind::TurnMessage && (
        emission.payload matches Payload::TurnMessage(said) && said.turn == turn && spells(
            said.role@,
            role,
        ) && begins_bounded(said.text@, text@, said.truncated)),
        Observation::TurnClosed { turn, role, usage, started_at, finished_at } => emission.kind
            == EventKind::TurnCompleted && (emission.payload matches Payload::TurnCompleted(said)
            && said.turn == turn && spells(said.role@, role) && said.started_at@ == started_at@
            && said.finished_at@ == finished_at@ && (usage matches Some(usage) ==> said.usage
            == usage) && (usage is None ==> said.usage.input_tokens is None
            && said.usage.output_tokens is None && said.usage.cache_read_tokens is None
            && said.usage.cache_write_tokens is None && said.usage.cost_usd_bits is None)),
        Observation::Tool { kind, name, output, tool_call_id, index, .. } => emission.kind
            == EventKind::TurnActivity && (emission.payload matches Payload::TurnActivity(said)
            && said.kind@ == kind@ && crate::text::text_of(said.name) == crate::text::text_of(name)
            && crate::text::text_of(said.tool_call_id) == crate::text::text_of(tool_call_id)
            && said.index == index && (output is None <==> said.output is None)),
    }
}

/// Every observation is published as the event of its own kind, saying what was
/// observed.
pub proof fn an_observation_is_published_as_it_was(observation: &Observation, emission: Emission)
    requires
        call_ensures(ingest, (observation,), emission),
    ensures
        reports_observation(emission, *observation),
{
    match *observation {
        Observation::TurnOpened { instruction, .. } => {
            crate::bound::a_head_is_the_longest_beginning_that_fits(instruction@, 4096);
        },
        Observation::Message { text, .. } => {
            crate::bound::a_head_is_the_longest_beginning_that_fits(text@, 4096);
        },
        _ => {},
    }
}

/// A note that comes too late is told that the conversation completed exactly where it
/// did.
pub proof fn only_a_completed_conversation_says_so(ended: Ended, refusal: Undelivered)
    requires
        call_ensures(terminal_refusal, (ended,), refusal),
    ensures
        refusal is ConversationCompleted <==> (ended matches Ended::Settled { completed, .. }
            && completed),
        ended matches Ended::Failed(error) ==> (refusal matches Undelivered::MemberSettled {
            outcome,
        } && outcome@ == "its conversation failed: "@ + error@),
        ended matches Ended::Settled { done_when: None, settled_reason: Some(reason), .. } ==> (
        match refusal {
            Undelivered::ConversationCompleted { completion_reason } => completion_reason@
                == reason@,
            Undelivered::MemberSettled { outcome } => outcome@ == reason@,
        }),
{
}

} // verus!
