//! A single-sided member: the one turn it takes, and how it ends.
//!
//! `oneharness run` is a single turn, so this member's turn is its run and the
//! run's bounds are the turn's.

use vstd::prelude::*;
use vstd::string::StringExecFns;

use crate::clock::{millis_of, now_rfc3339, rendered, Instant};
use crate::judge::{
    advance, advances_of, close, opening, tells, tells_of_close, tells_of_opening, usage_or_none,
    FellThrough,
};
use crate::member::{
    activity, died, settle, tells_of_activity, tells_of_death, tells_of_settle, unstartable, Ending,
    Rule, Verdict,
};
use crate::payload::{Cause, Emission, Party, Usage};
use crate::text::{same, signed_decimal, text_of, write_signed};

verus! {

/// The engine a single-sided member is driven by, as its `member-started` names
/// it.
pub const ONEHARNESS_ENGINE: &'static str = "oneharness";

/// The turn index every event of a single-sided member's run is attributed to.
pub const THE_ONLY_TURN: u64 = 1;

/// How a member's config asked for its turn to be reported.
#[derive(Debug, Clone, Copy, PartialEq, Eq, Structural)]
pub enum Reporting {
    /// Event by event, as the turn happens.
    Streamed,
    /// In one report, at its end.
    Buffered,
}

impl Reporting {
    /// Whether the turn streams.
    pub fn streams(self) -> (streams: bool)
        ensures
            streams == (self is Streamed),
    {
        match self {
            Reporting::Streamed => true,
            Reporting::Buffered => false,
        }
    }
}

/// Everything driving one single-sided member in this process needs.
#[derive(Debug, PartialEq, Eq)]
pub struct HarnessLaunch {
    /// The member's stamped oneharness config.
    pub config: String,
    /// The directory its harness works in.
    pub worktree: String,
    /// The task prose.
    pub prompt: String,
    /// How its turn is reported.
    pub reporting: Reporting,
}

/// The request oneharness is handed, field by field; everything else about it is
/// oneharness's own default.
#[derive(Debug, PartialEq, Eq)]
pub struct Request {
    /// The config to run under.
    pub config: String,
    /// The directory to run in.
    pub cwd: String,
    /// Whether tool events are asked for.
    pub events: bool,
    /// Whether they are streamed.
    pub stream: bool,
    /// The prompt.
    pub prompt: Vec<String>,
}

impl HarnessLaunch {
    /// The request this launch makes of oneharness. Its directory is a parameter,
    /// never this process's own: one process hosts every member.
    pub fn request(&self) -> (request: Request)
        ensures
            request.config@ == self.config@,
            request.cwd@ == self.worktree@,
            request.events,
            request.stream == (self.reporting is Streamed),
            request.prompt@.len() == 1 && request.prompt@[0]@ == self.prompt@,
    {
        let mut prompt: Vec<String> = Vec::new();
        prompt.push(self.prompt.clone());
        Request {
            config: self.config.clone(),
            cwd: self.worktree.clone(),
            events: true,
            stream: self.reporting.streams(),
            prompt,
        }
    }
}

/// The one turn a single-sided member takes.
///
/// Held from before the engine is handed the request, because a turn's opening and
/// its close have to name the same instant.
#[derive(Debug, PartialEq, Eq)]
pub struct TheTurn {
    /// The task prose this turn is answering.
    pub prompt: String,
    /// When it began.
    pub started_at: String,
    /// Whether it has been announced on the stream.
    pub opened: bool,
}

impl TheTurn {
    /// A turn beginning at `started_at`, not announced yet.
    pub fn at(prompt: &str, started_at: String) -> (turn: Self)
        ensures
            turn.prompt@ == prompt@,
            turn.started_at == started_at,
            !turn.opened,
    {
        TheTurn { prompt: String::from_str(prompt), started_at, opened: false }
    }

    /// A turn beginning now, not announced yet.
    pub fn new(prompt: &str) -> (turn: Self)
        ensures
            turn.prompt@ == prompt@,
            !turn.opened,
            exists|at: Instant| turn.started_at@ == rendered(#[trigger] millis_of(at) as int),
    {
        let started_at = now_rfc3339();
        TheTurn::at(prompt, started_at)
    }

    /// Whether an event announces this turn.
    pub open spec fn announced_by(self, emission: Emission) -> bool {
        tells_of_opening(
            emission,
            THE_ONLY_TURN,
            Party::Assistant,
            self.prompt@,
            self.started_at@,
        )
    }

    /// Whether opening this turn leaves `after`, and announces it where it was not
    /// announced yet.
    pub open spec fn opens(self, after: TheTurn, emission: Option<Emission>) -> bool {
        &&& after.opened
        &&& after.prompt == self.prompt
        &&& after.started_at == self.started_at
        &&& self.opened ==> emission is None
        &&& !self.opened ==> (emission matches Some(opening) && self.announced_by(opening))
    }

    /// Announce the turn, once however often this is called.
    pub fn open(&mut self) -> (emission: Option<Emission>)
        ensures
            old(self).opens(*final(self), emission),
    {
        if self.opened {
            return None;
        }
        self.opened = true;
        Some(
            opening(
                THE_ONLY_TURN,
                Party::Assistant,
                self.prompt.as_str(),
                self.started_at.as_str(),
            ),
        )
    }
}

/// What is said of a run whose harness was not put in its member's process group.
pub open spec fn ungrouped_text(moment: Seq<char>, why: Seq<char>) -> Seq<char> {
    "this member's harness could not be put in the process group that a cancel and the activity watchdog reach it through ("@
        + moment + ": "@ + why
        + "), so the run was stopped rather than left billing outside it"@
}

/// Whether a refusal to be grouped leaves `after` held where `before` was.
pub open spec fn holds_refusal(
    before: Option<String>,
    after: Option<String>,
    moment: Seq<char>,
    why: Seq<char>,
) -> bool {
    &&& before is Some ==> after == before
    &&& before is None ==> text_of(after) == Some(ungrouped_text(moment, why))
}

/// Record a harness that could not be grouped. The first refusal is the one a run
/// is explained by: what follows it is the run being stopped.
pub fn refuse_grouping(held: &mut Option<String>, moment: &str, why: &str)
    ensures
        holds_refusal(*old(held), *final(held), moment@, why@),
{
    if held.is_none() {
        let mut text = String::from_str(
            "this member's harness could not be put in the process group that a cancel and the activity watchdog reach it through (",
        );
        text.append(moment);
        text.append(": ");
        text.append(why);
        text.append("), so the run was stopped rather than left billing outside it");
        *held = Some(text);
    }
}

/// What to tell an engine that published an event.
#[derive(Debug, Clone, Copy, PartialEq, Eq, Structural)]
pub enum SinkStep {
    /// Go on.
    Continue,
    /// Stop: the run was cancelled.
    Stop,
}

/// One tool event a harness reported.
#[derive(Debug, PartialEq, Eq)]
pub struct ActionEvent {
    /// `tool_call` or `tool_result`.
    pub kind: String,
    /// The tool.
    pub name: Option<String>,
    /// What summarises its structured input.
    pub detail: String,
    /// What it returned.
    pub output: Option<String>,
    /// The call's identity.
    pub tool_call_id: Option<String>,
    /// Its position within the turn.
    pub index: u64,
}

/// Whether an event of the stream carries a tool event.
pub open spec fn reports(emission: Emission, event: ActionEvent) -> bool {
    tells_of_activity(
        emission,
        event.kind@,
        event.name,
        event.detail@,
        text_of(event.output),
        event.tool_call_id,
        event.index,
    )
}

/// One live tool event, as the stream carries it.
pub fn ingest(event: &ActionEvent) -> (emission: Emission)
    ensures
        reports(emission, *event),
{
    activity(
        event.kind.as_str(),
        &event.name,
        event.detail.as_str(),
        &event.output,
        &event.tool_call_id,
        event.index,
    )
}

/// Whether `emissions` announce the turn, where it was not announced yet, and then
/// say `last`.
pub open spec fn announces_then(turn: TheTurn, emissions: Seq<Emission>, last: spec_fn(Emission) -> bool) -> bool {
    if turn.opened {
        emissions.len() == 1 && last(emissions[0])
    } else {
        emissions.len() == 2 && turn.announced_by(emissions[0]) && last(emissions[1])
    }
}

/// Whether publishing an event leaves `after`, says `emissions` and answers `step`.
pub open spec fn sinks(
    before: TheTurn,
    after: TheTurn,
    event: ActionEvent,
    cancelled: bool,
    emissions: Seq<Emission>,
    step: SinkStep,
) -> bool {
    &&& after.opened
    &&& after.prompt == before.prompt
    &&& after.started_at == before.started_at
    &&& announces_then(before, emissions, |emission: Emission| reports(emission, event))
    &&& step == if cancelled {
        SinkStep::Stop
    } else {
        SinkStep::Continue
    }
}

/// Publish one live event: the member's first opens its only turn, and every event
/// publishes under it. A cancelled run is told to stop at its next event.
pub fn sink_event(turn: &mut TheTurn, event: &ActionEvent, cancelled: bool) -> (published: (
    Vec<Emission>,
    SinkStep,
))
    ensures
        sinks(*old(turn), *final(turn), *event, cancelled, published.0@, published.1),
{
    let mut emissions: Vec<Emission> = Vec::new();
    if let Some(opening) = turn.open() {
        emissions.push(opening);
    }
    emissions.push(ingest(event));
    let step = if cancelled {
        SinkStep::Stop
    } else {
        SinkStep::Continue
    };
    (emissions, step)
}

/// What one candidate's turn came to, as far as its accounting goes.
#[derive(Debug, PartialEq, Eq)]
pub struct RunResult {
    /// The identity, by the composed id.
    pub harness_id: String,
    /// The identity, by its family.
    pub harness: String,
    /// What it consumed.
    pub usage: Usage,
}

/// What a fallback chain came to.
#[derive(Debug, PartialEq, Eq)]
pub struct Fallback {
    /// The candidate that ran, when one did.
    pub ran: Option<String>,
    /// The candidates stepped past.
    pub fell_through: Vec<FellThrough>,
}

/// Where the last result carrying an identity is, among the first `upto`; -1 when
/// none does.
pub open spec fn last_named(results: Seq<RunResult>, name: Seq<char>, upto: nat) -> int
    decreases upto,
{
    if upto == 0 {
        -1
    } else if results[upto - 1].harness_id@ == name || results[upto - 1].harness@ == name {
        upto - 1
    } else {
        last_named(results, name, (upto - 1) as nat)
    }
}

/// The accounting of the candidate whose result is the member's turn, when one
/// ran: the first result of a run without a chain, and the last one carrying the
/// identity a chain says ran. A chain that fell through every candidate names
/// none.
pub open spec fn turn_usage(results: Seq<RunResult>, fallback: Option<Fallback>) -> Option<Usage> {
    match fallback {
        None => if results.len() > 0 {
            Some(results[0].usage)
        } else {
            None
        },
        Some(fallback) => match fallback.ran {
            None => None,
            Some(name) => {
                let at = last_named(results, name@, results.len());
                if at >= 0 {
                    Some(results[at].usage)
                } else if results.len() > 0 {
                    Some(results.last().usage)
                } else {
                    None
                }
            },
        },
    }
}

/// The accounting of the candidate whose result is this member's turn, when one
/// ran.
#[verifier::loop_isolation(false)]
pub fn ran(results: &Vec<RunResult>, fallback: &Option<Fallback>) -> (usage: Option<Usage>)
    ensures
        usage == turn_usage(results@, *fallback),
{
    let fallback = match fallback {
        None => return if results.len() > 0 {
            Some(results[0].usage)
        } else {
            None
        },
        Some(fallback) => fallback,
    };
    let name = match &fallback.ran {
        Some(name) => name,
        None => return None,
    };
    let mut end: usize = results.len();
    while end > 0
        invariant
            end <= results@.len(),
            last_named(results@, name@, results@.len()) == last_named(
                results@,
                name@,
                end as nat,
            ),
        decreases end,
    {
        let result = &results[end - 1];
        if same(result.harness_id.as_str(), name.as_str()) || same(
            result.harness.as_str(),
            name.as_str(),
        ) {
            return Some(result.usage);
        }
        end = end - 1;
    }
    if results.len() > 0 {
        Some(results[results.len() - 1].usage)
    } else {
        None
    }
}

/// What a run that was answered came to.
#[derive(Debug, PartialEq, Eq)]
pub struct RunOutcome {
    /// The candidates' results, in order.
    pub results: Vec<RunResult>,
    /// The chain, when it was one.
    pub fallback: Option<Fallback>,
    /// What the run exited. Anything but zero is a turn that did not settle,
    /// whatever its report says.
    pub exit_code: i32,
    /// oneharness's own summary of a failure.
    pub failure_summary: Option<String>,
}

/// What is said of a turn that did not settle.
pub open spec fn unsettled_text(outcome: RunOutcome) -> Seq<char> {
    match outcome.failure_summary {
        Some(summary) => summary@,
        None => "the turn exited "@ + signed_decimal(outcome.exit_code as int)
            + " without a report"@,
    }
}

/// The candidates a run stepped past.
pub open spec fn stepped_past(fallback: Option<Fallback>) -> Seq<FellThrough> {
    match fallback {
        Some(fallback) => fallback.fell_through@,
        None => seq![],
    }
}

/// Whether `ending` is what an answered run comes to.
///
/// A run whose request could not be honoured never started. Otherwise every
/// candidate stepped past is published first, whether or not a later one ran; then
/// a harness that could not be grouped outranks whatever the report says, a
/// non-zero exit is a death, and a turn that settled is closed — announced first
/// where nothing announced it — before the event of the member's settle, the last.
pub open spec fn ends_as(
    ending: Ending,
    outcome: Result<RunOutcome, String>,
    ungrouped: Option<String>,
    turn: TheTurn,
    finished_at: Seq<char>,
) -> bool {
    match outcome {
        Err(reason) => {
            &&& ending.emissions@.len() == 1
            &&& tells_of_death(
                ending.emissions@[0],
                Rule::ProviderFailure,
                Cause::Spawn,
                reason@,
            )
            &&& ending.verdict == Verdict::Unstartable(reason)
        },
        Ok(outcome) => {
            let past = stepped_past(outcome.fallback);
            let count = past.len() as int;
            let told = advances_of(past, None, None, past.len());
            let rest = ending.emissions@.skip(count);
            &&& ending.emissions@.len() >= count
            &&& forall|i: int| 0 <= i < count ==> tells(#[trigger] ending.emissions@[i], told[i])
            &&& match ungrouped {
                Some(reason) => {
                    &&& rest.len() == 1
                    &&& tells_of_death(
                        rest[0],
                        Rule::ProviderFailure,
                        Cause::Spawn,
                        reason@,
                    )
                    &&& ending.verdict == Verdict::Died(Rule::ProviderFailure)
                },
                None => if outcome.exit_code != 0 {
                    &&& rest.len() == 1
                    &&& tells_of_death(
                        rest[0],
                        Rule::ProviderFailure,
                        Cause::Unclassified,
                        unsettled_text(outcome),
                    )
                    &&& ending.verdict == Verdict::Died(Rule::ProviderFailure)
                } else {
                    &&& rest.len() > 0
                    &&& tells_of_settle(rest.last(), true)
                    &&& announces_then(
                        turn,
                        rest.drop_last(),
                        |emission: Emission|
                            tells_of_close(
                                emission,
                                THE_ONLY_TURN,
                                Party::Assistant,
                                usage_or_none(turn_usage(outcome.results@, outcome.fallback)),
                                turn.started_at@,
                                finished_at,
                            ),
                    )
                    &&& ending.verdict == (Verdict::Settled {
                        completed: true,
                        carried: None::<String>,
                    })
                },
            }
        },
    }
}

/// Settle or condemn a member whose engine answered: an answered run is not
/// automatically a settled member.
pub fn finish(
    outcome: Result<RunOutcome, String>,
    ungrouped: Option<String>,
    turn: &mut TheTurn,
    finished_at: &str,
) -> (ending: Ending)
    ensures
        ends_as(ending, outcome, ungrouped, *old(turn), finished_at@),
        final(turn).prompt == old(turn).prompt,
        final(turn).started_at == old(turn).started_at,
        final(turn).opened == (old(turn).opened || ending.verdict is Settled),
{
    let mut emissions: Vec<Emission> = Vec::new();
    let outcome = match outcome {
        Ok(outcome) => outcome,
        Err(reason) => {
            emissions.push(unstartable(reason.as_str()));
            return Ending { emissions, verdict: Verdict::Unstartable(reason) };
        },
    };
    if let Some(fallback) = &outcome.fallback {
        advance(&fallback.fell_through, None, None, &mut emissions);
    }
    let ghost past = stepped_past(outcome.fallback);
    let ghost count = past.len() as int;
    let ghost told = advances_of(past, None, None, past.len());
    let ghost advanced = emissions@;
    proof {
        assert forall|i: int| 0 <= i < count implies tells(#[trigger] advanced[i], told[i]) by {
            assert(tells(advanced[0 + i], told[i]));
        }
    }
    if let Some(reason) = ungrouped {
        let death = died(Rule::ProviderFailure, Cause::Spawn, reason.as_str());
        let ghost last = death;
        emissions.push(death);
        proof {
            assert(emissions@.skip(count) =~= seq![last]);
            kept_in_front(advanced, emissions@, told, count);
        }
        return Ending { emissions, verdict: Verdict::Died(Rule::ProviderFailure) };
    }
    if outcome.exit_code != 0 {
        let detail = match &outcome.failure_summary {
            Some(summary) => summary.clone(),
            None => {
                let mut text = String::from_str("the turn exited ");
                text.append(write_signed(outcome.exit_code).as_str());
                text.append(" without a report");
                text
            },
        };
        let death = died(Rule::ProviderFailure, Cause::Unclassified, detail.as_str());
        let ghost last = death;
        emissions.push(death);
        proof {
            assert(emissions@.skip(count) =~= seq![last]);
            kept_in_front(advanced, emissions@, told, count);
        }
        return Ending { emissions, verdict: Verdict::Died(Rule::ProviderFailure) };
    }
    let usage = match ran(&outcome.results, &outcome.fallback) {
        Some(usage) => usage,
        None => Usage::default(),
    };
    let opened = turn.open();
    let closing = close(
        THE_ONLY_TURN,
        Party::Assistant,
        usage,
        turn.started_at.as_str(),
        finished_at,
    );
    let ghost last = closing;
    let settled = settle(true);
    let ghost end = settled;
    match opened {
        Some(opening) => {
            let ghost first = opening;
            emissions.push(opening);
            emissions.push(closing);
            emissions.push(settled);
            proof {
                assert(emissions@.skip(count) =~= seq![first, last, end]);
                assert(emissions@.skip(count).drop_last() =~= seq![first, last]);
                kept_in_front(advanced, emissions@, told, count);
            }
        },
        None => {
            emissions.push(closing);
            emissions.push(settled);
            proof {
                assert(emissions@.skip(count) =~= seq![last, end]);
                assert(emissions@.skip(count).drop_last() =~= seq![last]);
                kept_in_front(advanced, emissions@, told, count);
            }
        },
    }
    Ending { emissions, verdict: Verdict::Settled { completed: true, carried: None } }
}

/// What a condemned member's answer is worth: the chain it attempted is evidence,
/// and the member is dead by the rule that condemned it all the same.
pub fn evidence(outcome: &Result<RunOutcome, String>) -> (emissions: Vec<Emission>)
    ensures
        ({
            let past = match *outcome {
                Ok(outcome) => stepped_past(outcome.fallback),
                Err(_) => seq![],
            };
            let told = advances_of(past, None, None, past.len());
            &&& emissions@.len() == past.len()
            &&& forall|i: int| 0 <= i < past.len() ==> tells(#[trigger] emissions@[i], told[i])
        }),
{
    let mut emissions: Vec<Emission> = Vec::new();
    if let Ok(outcome) = outcome {
        if let Some(fallback) = &outcome.fallback {
            advance(&fallback.fell_through, None, None, &mut emissions);
            let ghost past = stepped_past(outcome.fallback);
            let ghost told = advances_of(past, None, None, past.len());
            assert forall|i: int| 0 <= i < past.len() implies tells(
                #[trigger] emissions@[i],
                told[i],
            ) by {
                assert(tells(emissions@[0 + i], told[i]));
            }
        }
    }
    emissions
}

proof fn kept_in_front(
    advanced: Seq<Emission>,
    all: Seq<Emission>,
    told: Seq<crate::judge::Told>,
    count: int,
)
    requires
        advanced.len() == count,
        told.len() == count,
        all.len() >= count,
        forall|i: int| 0 <= i < count ==> #[trigger] all[i] == advanced[i],
        forall|i: int| 0 <= i < count ==> tells(#[trigger] advanced[i], told[i]),
    ensures
        forall|i: int| 0 <= i < count ==> tells(#[trigger] all[i], told[i]),
{
    assert forall|i: int| 0 <= i < count implies tells(#[trigger] all[i], told[i]) by {
        assert(tells(advanced[i], told[i]));
    }
}

/// A turn that is closed was announced: a member whose run published no event
/// still has its turn announced before it is closed.
pub proof fn a_closed_turn_was_announced(
    ending: Ending,
    outcome: RunOutcome,
    turn: TheTurn,
    finished_at: Seq<char>,
)
    requires
        ends_as(ending, Ok(outcome), None, turn, finished_at),
        outcome.exit_code == 0,
        !turn.opened,
    ensures
        ({
            let count = stepped_past(outcome.fallback).len() as int;
            &&& ending.emissions@.len() == count + 3
            &&& turn.announced_by(ending.emissions@[count])
        }),
{
    let count = stepped_past(outcome.fallback).len() as int;
    let rest = ending.emissions@.skip(count);
    assert(rest[0] == ending.emissions@[count]);
    assert(rest.drop_last()[0] == rest[0]);
}

} // verus!
