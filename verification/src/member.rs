//! What both kinds of member share: how they are watched and condemned, how they
//! die, and how a tool event reads on the stream.

use vstd::prelude::*;
use vstd::string::StringExecFns;

use crate::anchor::{join_path, under};
use crate::bound::{
    bound_detail, bound_text, bytes_of, detail_of, tail, MAX_ACTIVITY_DETAIL_CHARS,
    MAX_PAYLOAD_TEXT_BYTES,
};
use crate::event::{Artifact, EventKind};
use crate::invoke::GeneratedFile;
use crate::payload::{Cause, Emission, MemberDied, MemberSettled, Payload, TurnActivity};
use crate::text::{
    copy_text, decimal, separated, text_of, trim, trimmed, words, write_decimal,
};

verus! {

/// Which program's contract a member settles under.
#[derive(Debug, Clone, Copy, PartialEq, Eq, Structural)]
pub enum Kind {
    /// A two-party conversation.
    Onejudge,
    /// A single-sided agent.
    Oneharness,
}

impl Kind {
    /// What a kind's engine is called.
    pub open spec fn engine_name(self) -> Seq<char> {
        match self {
            Kind::Onejudge => "onejudge"@,
            Kind::Oneharness => "oneharness"@,
        }
    }

    /// This kind's engine.
    pub fn engine(self) -> (name: &'static str)
        ensures
            name@ == self.engine_name(),
    {
        match self {
            Kind::Onejudge => "onejudge",
            Kind::Oneharness => "oneharness",
        }
    }
}

/// The liveness rule a member dies by.
#[derive(Debug, Clone, Copy, PartialEq, Eq, Structural)]
pub enum Rule {
    /// It stopped saying it is alive.
    Heartbeat,
    /// It recorded nothing for too long.
    Activity,
    /// What runs it failed.
    ProviderFailure,
}

impl Rule {
    /// How a rule is spelled.
    pub open spec fn wire(self) -> Seq<char> {
        match self {
            Rule::Heartbeat => "heartbeat"@,
            Rule::Activity => "activity"@,
            Rule::ProviderFailure => "provider-failure"@,
        }
    }

    /// This rule's spelling.
    pub fn as_str(self) -> (text: &'static str)
        ensures
            text@ == self.wire(),
    {
        match self {
            Rule::Heartbeat => "heartbeat",
            Rule::Activity => "activity",
            Rule::ProviderFailure => "provider-failure",
        }
    }
}

/// How one member ended.
#[derive(Debug, PartialEq, Eq)]
pub enum Verdict {
    /// It settled, and its report is to be stored: whether its task was completed,
    /// and the reason a settle that replaces a death gives.
    Settled {
        /// Whether the member's task was completed.
        completed: bool,
        /// Why a turn is carried rather than published as a death.
        carried: Option<String>,
    },
    /// It died by this rule.
    Died(Rule),
    /// It never started, and why.
    Unstartable(String),
}

/// What is said of a member's end: the events to emit, in order, and how it ended.
#[derive(Debug, PartialEq, Eq)]
pub struct Ending {
    /// The events, in order.
    pub emissions: Vec<Emission>,
    /// How the member ended.
    pub verdict: Verdict,
}

/// Whether an event is the death of a member by `rule`, of `cause`, in those
/// words: trimmed, and bounded from the end.
///
/// A member run in this process was never a process of its own, so it has none of
/// the three facts one leaves behind.
pub open spec fn tells_of_death(emission: Emission, rule: Rule, cause: Cause, detail: Seq<char>) -> bool {
    &&& emission.kind == EventKind::MemberDied
    &&& emission.artifacts@.len() == 0
    &&& emission.payload matches Payload::MemberDied(died) && died.rule@ == rule.wire()
        && died.cause == cause && died.detail@ == tail(
        trimmed(detail),
        MAX_PAYLOAD_TEXT_BYTES as nat,
    ) && died.truncated == (bytes_of(trimmed(detail)) > MAX_PAYLOAD_TEXT_BYTES)
        && died.exit_code is None && died.disposition is None && died.stderr_tail is None
}

/// A member that died: which rule found it, and what caused it.
pub fn died(rule: Rule, cause: Cause, detail: &str) -> (emission: Emission)
    ensures
        tells_of_death(emission, rule, cause, detail@),
{
    let kept = trim(detail);
    let (detail, truncated) = bound_text(kept.as_str());
    let payload = MemberDied {
        rule: String::from_str(rule.as_str()),
        cause,
        detail,
        truncated,
        exit_code: None,
        disposition: None,
        stderr_tail: None,
    };
    Emission {
        kind: EventKind::MemberDied,
        payload: Payload::MemberDied(payload),
        artifacts: Vec::new(),
    }
}

/// A member that never started: nothing of it was spawned.
pub fn unstartable(reason: &str) -> (emission: Emission)
    ensures
        tells_of_death(emission, Rule::ProviderFailure, Cause::Spawn, reason@),
{
    died(Rule::ProviderFailure, Cause::Spawn, reason)
}

/// Whether an event is a member's settle.
pub open spec fn tells_of_settle(emission: Emission, completed: bool) -> bool {
    &&& emission.kind == EventKind::MemberSettled
    &&& emission.payload == Payload::MemberSettled(MemberSettled { completed })
    &&& emission.artifacts@.len() == 0
}

/// A member that settled, with the verdict inline. Its report is attached once it
/// is stored; see [`attach_report`].
pub fn settle(completed: bool) -> (emission: Emission)
    ensures
        tells_of_settle(emission, completed),
{
    Emission {
        kind: EventKind::MemberSettled,
        payload: Payload::MemberSettled(MemberSettled { completed }),
        artifacts: Vec::new(),
    }
}

/// Whether `attached` is `ending` with the report of a settled member among the
/// artifacts of its last event, and with nothing else changed.
pub open spec fn attaches(ending: Ending, report: Artifact, attached: Ending) -> bool {
    &&& attached.verdict == ending.verdict
    &&& if ending.verdict is Settled && ending.emissions@.len() > 0 {
        let last = ending.emissions@.last();
        &&& attached.emissions@.len() == ending.emissions@.len()
        &&& attached.emissions@.drop_last() == ending.emissions@.drop_last()
        &&& attached.emissions@.last().kind == last.kind
        &&& attached.emissions@.last().payload == last.payload
        &&& attached.emissions@.last().artifacts@ == last.artifacts@.push(report)
    } else {
        attached.emissions@ == ending.emissions@
    }
}

/// Attach the report a settled member's run stored to the event of its settle,
/// which is its last. A member that did not settle has no report.
pub fn attach_report(ending: Ending, report: Artifact) -> (attached: Ending)
    ensures
        attaches(ending, report, attached),
{
    let settled = match &ending.verdict {
        Verdict::Settled { .. } => true,
        _ => false,
    };
    let mut emissions = ending.emissions;
    let ghost was = emissions@;
    if settled {
        if let Some(last) = emissions.pop() {
            let mut artifacts = last.artifacts;
            artifacts.push(report);
            emissions.push(Emission { kind: last.kind, payload: last.payload, artifacts });
            assert(emissions@.drop_last() =~= was.drop_last());
        }
    }
    Ending { emissions, verdict: ending.verdict }
}

/// The file of a member's scratch that the report of its settle is stored in.
pub const REPORT_FILE: &'static str = "report.json";

/// What the report of a settle is, as an artifact.
pub const REPORT_ARTIFACT: &'static str = "report";

/// A settled member's ending with its report attached, and the file to store it in.
#[derive(Debug, PartialEq, Eq)]
pub struct Settling {
    /// The ending.
    pub ending: Ending,
    /// The report, for a member that settled.
    pub file: Option<GeneratedFile>,
}

/// Store the report of a member that settled, and attach it to the event of its
/// settle.
pub fn settle_report(ending: Ending, scratch: &str, document: &str) -> (settling: Settling)
    ensures
        match settling.file {
            Some(file) => ending.verdict is Settled && file.path@ == under(scratch@, REPORT_FILE@)
                && file.content@ == document@ && exists|report: Artifact|
                #[trigger] attaches(ending, report, settling.ending) && report.id@ == file.path@
                    && report.kind@ == REPORT_ARTIFACT@ && report.bytes == bytes_of(document@),
            None => !(ending.verdict is Settled) && settling.ending == ending,
        },
{
    match &ending.verdict {
        Verdict::Settled { .. } => {},
        _ => return Settling { ending, file: None },
    }
    let path = join_path(scratch, REPORT_FILE);
    let report = Artifact {
        id: path.clone(),
        kind: String::from_str(REPORT_ARTIFACT),
        bytes: document.as_bytes().len() as u64,
    };
    let ghost stored = report;
    let attached = attach_report(ending, report);
    assert(attaches(ending, stored, attached));
    Settling {
        ending: attached,
        file: Some(GeneratedFile { path, content: String::from_str(document) }),
    }
}

/// What is said of a member whose engine's thread ended without answering.
pub open spec fn gone_text(kind: Kind) -> Seq<char> {
    "the "@ + kind.engine_name() + " engine ended without answering"@
}

/// A member whose engine is gone: its thread panicked, which is this member's
/// death and not the graph's.
pub fn engine_gone(kind: Kind) -> (ending: Ending)
    ensures
        ending.emissions@.len() == 1,
        tells_of_death(
            ending.emissions@[0],
            Rule::ProviderFailure,
            Cause::Unclassified,
            gone_text(kind),
        ),
        ending.verdict == Verdict::Died(Rule::ProviderFailure),
{
    let mut text = String::from_str("the ");
    text.append(kind.engine());
    text.append(" engine ended without answering");
    let mut emissions: Vec<Emission> = Vec::new();
    emissions.push(died(Rule::ProviderFailure, Cause::Unclassified, text.as_str()));
    Ending { emissions, verdict: Verdict::Died(Rule::ProviderFailure) }
}

/// What is said of a member the host gave no thread to.
pub open spec fn unthreaded_text(why: Seq<char>) -> Seq<char> {
    "cannot start this member's engine thread: "@ + why
}

/// A member the host gave no thread to: nothing of it was spawned, so it is
/// refused rather than reported as running.
pub fn engine_refused(why: &str) -> (ending: Ending)
    ensures
        ending.emissions@.len() == 1,
        tells_of_death(
            ending.emissions@[0],
            Rule::ProviderFailure,
            Cause::Spawn,
            unthreaded_text(why@),
        ),
        ending.verdict matches Verdict::Unstartable(reason) && reason@ == unthreaded_text(why@),
{
    let mut reason = String::from_str("cannot start this member's engine thread: ");
    reason.append(why);
    let mut emissions: Vec<Emission> = Vec::new();
    emissions.push(unstartable(reason.as_str()));
    Ending { emissions, verdict: Verdict::Unstartable(reason) }
}

/// Whether an event is one tool call, or the observation that answered one.
pub open spec fn tells_of_activity(
    emission: Emission,
    kind: Seq<char>,
    name: Option<String>,
    detail: Seq<char>,
    output: Option<Seq<char>>,
    tool_call_id: Option<String>,
    index: u64,
) -> bool {
    &&& emission.kind == EventKind::TurnActivity
    &&& emission.artifacts@.len() == 0
    &&& emission.payload matches Payload::TurnActivity(activity) && activity.kind@ == kind
        && activity.name == name && activity.detail@ == detail_of(detail) && activity.truncated
        == (separated(words(detail), seq![' ']).len() > MAX_ACTIVITY_DETAIL_CHARS) && text_of(
        activity.output,
    ) == (match output {
        Some(text) => Some(tail(text, MAX_PAYLOAD_TEXT_BYTES as nat)),
        None => None,
    }) && activity.output_truncated == (output matches Some(text) && bytes_of(text)
        > MAX_PAYLOAD_TEXT_BYTES) && activity.tool_call_id == tool_call_id && activity.index
        == index
}

/// One live tool event, through the one builder both member kinds share.
///
/// `detail` is what summarises the call's structured input. An observation the
/// trace did not expose is absent; one that was genuinely empty is an empty text.
pub fn activity(
    kind: &str,
    name: &Option<String>,
    detail: &str,
    output: &Option<String>,
    tool_call_id: &Option<String>,
    index: u64,
) -> (emission: Emission)
    ensures
        tells_of_activity(
            emission,
            kind@,
            *name,
            detail@,
            text_of(*output),
            *tool_call_id,
            index,
        ),
{
    let (summary, truncated) = bound_detail(detail);
    let (output, output_truncated) = match output {
        Some(text) => {
            let (kept, cut) = bound_text(text.as_str());
            (Some(kept), cut)
        },
        None => (None, false),
    };
    let payload = TurnActivity {
        kind: String::from_str(kind),
        name: copy_text(name),
        detail: summary,
        truncated,
        output,
        output_truncated,
        tool_call_id: copy_text(tool_call_id),
        index,
    };
    Emission {
        kind: EventKind::TurnActivity,
        payload: Payload::TurnActivity(payload),
        artifacts: Vec::new(),
    }
}

// ---- Watching a member ----
/// What listening for a member's engine came to.
#[derive(Debug, Clone, Copy, PartialEq, Eq, Structural)]
pub enum Heard {
    /// It answered.
    Answer,
    /// It ended without answering: its thread panicked.
    Gone,
    /// Nothing, for one interval.
    Nothing,
}

/// What to do next about a member that is being watched.
#[derive(Debug, Clone, Copy, PartialEq, Eq, Structural)]
pub enum Next {
    /// Its engine answered: settle or condemn it by the answer.
    Finish,
    /// Its engine is gone: it died.
    Gone,
    /// Go on listening, publishing a heartbeat first or not.
    Listen {
        /// Whether a heartbeat is due on the stream.
        publish: bool,
    },
    /// A watchdog condemned it, publishing a heartbeat first or not.
    Condemn {
        /// The rule.
        rule: Rule,
        /// Whether a heartbeat is due on the stream.
        publish: bool,
    },
}

/// Whether a member is stalled: it recorded nothing for longer than it may, and none
/// of its processes is at work meanwhile.
pub fn is_stalled(last: u64, now: u64, bound: u64, working: bool) -> (stalled: bool)
    ensures
        stalled == (since(last, now) > bound && !working),
{
    now.saturating_sub(last) > bound && !working
}

/// The two watchdogs over one member, in milliseconds of one clock.
#[derive(Debug, Clone, Copy, PartialEq, Eq, Structural)]
pub struct Watch {
    /// How long the member may go without a heartbeat.
    pub heartbeat: u64,
    /// How often a heartbeat is published.
    pub publish_every: u64,
    /// When the last heartbeat was taken.
    pub beat: u64,
    /// When one was last published.
    pub published: u64,
}

/// How often a heartbeat is published: far more rarely than it is taken, so that a
/// stream is not mostly heartbeats.
pub open spec fn publishing_pace(heartbeat: u64, interval: u64) -> int {
    if heartbeat / 4 > 2 * interval {
        (heartbeat / 4) as int
    } else {
        2 * interval
    }
}

/// The milliseconds from one reading of a clock to a later one.
pub open spec fn since(earlier: u64, now: u64) -> int {
    if now > earlier {
        now - earlier
    } else {
        0
    }
}

impl Watch {
    /// Watch a member from `now`, listening for one `interval` at a time.
    pub fn new(now: u64, heartbeat: u64, interval: u64) -> (watch: Self)
        requires
            2 * interval <= u64::MAX,
        ensures
            watch.heartbeat == heartbeat,
            watch.publish_every == publishing_pace(heartbeat, interval),
            watch.beat == now,
            watch.published == now,
    {
        let quarter: u64 = heartbeat / 4;
        let double: u64 = 2 * interval;
        let publish_every: u64 = if quarter > double {
            quarter
        } else {
            double
        };
        Watch { heartbeat, publish_every, beat: now, published: now }
    }

    /// What comes next, and where that leaves the watch: an answer or a gone
    /// engine ends it; otherwise a heartbeat that came too late condemns the
    /// member before anything else, and a stalled member is condemned after the
    /// heartbeat that was due is published.
    pub open spec fn next(self, heard: Heard, now: u64, stalled: bool) -> (Next, Watch) {
        match heard {
            Heard::Answer => (Next::Finish, self),
            Heard::Gone => (Next::Gone, self),
            Heard::Nothing => if since(self.beat, now) > self.heartbeat {
                (Next::Condemn { rule: Rule::Heartbeat, publish: false }, self)
            } else {
                let publish = since(self.published, now) >= self.publish_every;
                let watch = Watch {
                    beat: now,
                    published: if publish {
                        now
                    } else {
                        self.published
                    },
                    ..self
                };
                if stalled {
                    (Next::Condemn { rule: Rule::Activity, publish }, watch)
                } else {
                    (Next::Listen { publish }, watch)
                }
            },
        }
    }

    /// Take one turn of the watch.
    pub fn step(&mut self, heard: Heard, now: u64, stalled: bool) -> (next: Next)
        ensures
            (next, *final(self)) == old(self).next(heard, now, stalled),
    {
        match heard {
            Heard::Answer => Next::Finish,
            Heard::Gone => Next::Gone,
            Heard::Nothing => {
                let silent: u64 = now.saturating_sub(self.beat);
                if silent > self.heartbeat {
                    return Next::Condemn { rule: Rule::Heartbeat, publish: false };
                }
                self.beat = now;
                let publish = now.saturating_sub(self.published) >= self.publish_every;
                if publish {
                    self.published = now;
                }
                if stalled {
                    Next::Condemn { rule: Rule::Activity, publish }
                } else {
                    Next::Listen { publish }
                }
            },
        }
    }
}

/// A member that says it is alive inside its bound and is not stalled is never
/// condemned.
pub proof fn a_live_member_is_never_condemned(watch: Watch, heard: Heard, now: u64)
    requires
        since(watch.beat, now) <= watch.heartbeat,
    ensures
        !(watch.next(heard, now, false).0 is Condemn),
{
}

/// A member whose heartbeat came too late is condemned by that rule, whatever else
/// is true of it.
pub proof fn a_late_heartbeat_condemns(watch: Watch, now: u64, stalled: bool)
    requires
        since(watch.beat, now) > watch.heartbeat,
    ensures
        watch.next(Heard::Nothing, now, stalled).0 == (Next::Condemn {
            rule: Rule::Heartbeat,
            publish: false,
        }),
{
}

// ---- Stopping a condemned member ----
/// How many seconds a condemned member's engine is given to answer before its
/// thread is abandoned and the member reported dead regardless.
pub const TEARDOWN_GRACE_SECONDS: u64 = 5;

/// How often, in milliseconds, the teardown re-reaps while it waits.
pub const TEARDOWN_POLL_MILLIS: u64 = 100;

/// Tearing a condemned member down: the rule that condemned it, and how many of
/// its processes were signalled so far.
#[derive(Debug, Clone, Copy, PartialEq, Eq, Structural)]
pub struct Teardown {
    /// The rule that condemned the member.
    pub rule: Rule,
    /// When it is given up on, in milliseconds.
    pub deadline: u64,
    /// How many processes were signalled.
    pub reaped: u64,
}

/// What is said of a condemned member whose engine stopped.
pub open spec fn stopped_text(rule: Rule, reaped: u64) -> Seq<char> {
    "the "@ + rule.wire() + " rule condemned this member; its engine tore down "@ + decimal(
        reaped as nat,
    ) + " process(es) and stopped"@
}

/// What is said of a condemned member whose engine never answered.
pub open spec fn abandoned_text(rule: Rule, reaped: u64) -> Seq<char> {
    "the "@ + rule.wire() + " rule condemned this member; "@ + decimal(reaped as nat)
        + " process(es) were signalled and its engine did not answer inside "@ + decimal(
        TEARDOWN_GRACE_SECONDS as nat,
    ) + "s, so the run gave up on it"@
}

/// What to do next about a condemned member.
#[derive(Debug, Clone, Copy, PartialEq, Eq, Structural)]
pub enum Stopping {
    /// Its engine answered: what it attempted is evidence, and it is dead by the
    /// rule that condemned it all the same.
    Answered,
    /// Its engine is gone, or has had its time: it is dead.
    Abandoned,
    /// Reap again, and listen for one more poll.
    Reap,
}

impl Teardown {
    /// Begin tearing a member down at `now`, with `reaped` processes signalled.
    pub fn begin(rule: Rule, now: u64, reaped: u64) -> (teardown: Self)
        requires
            now + 1000 * TEARDOWN_GRACE_SECONDS <= u64::MAX,
        ensures
            teardown.rule == rule,
            teardown.deadline == now + 1000 * TEARDOWN_GRACE_SECONDS,
            teardown.reaped == reaped,
    {
        Teardown { rule, deadline: now + 1000 * TEARDOWN_GRACE_SECONDS, reaped }
    }

    /// Whether the member still has time to answer at `now`.
    pub fn waits(&self, now: u64) -> (waits: bool)
        ensures
            waits == (now < self.deadline),
    {
        now < self.deadline
    }

    /// What one poll comes to.
    pub fn hear(&self, heard: Heard) -> (next: Stopping)
        ensures
            next == match heard {
                Heard::Answer => Stopping::Answered,
                Heard::Gone => Stopping::Abandoned,
                Heard::Nothing => Stopping::Reap,
            },
    {
        match heard {
            Heard::Answer => Stopping::Answered,
            Heard::Gone => Stopping::Abandoned,
            Heard::Nothing => Stopping::Reap,
        }
    }

    /// Count the processes one more reap signalled.
    pub fn count(&mut self, signalled: u64)
        ensures
            final(self).rule == old(self).rule,
            final(self).deadline == old(self).deadline,
            final(self).reaped == if old(self).reaped + signalled > u64::MAX {
                u64::MAX as int
            } else {
                old(self).reaped + signalled
            },
    {
        self.reaped = self.reaped.saturating_add(signalled);
    }

    /// The death of a condemned member whose engine answered.
    pub fn stopped(&self) -> (emission: Emission)
        ensures
            tells_of_death(
                emission,
                self.rule,
                Cause::Cancelled,
                stopped_text(self.rule, self.reaped),
            ),
    {
        let mut text = String::from_str("the ");
        text.append(self.rule.as_str());
        text.append(" rule condemned this member; its engine tore down ");
        text.append(write_decimal(self.reaped).as_str());
        text.append(" process(es) and stopped");
        died(self.rule, Cause::Cancelled, text.as_str())
    }

    /// The death of a condemned member whose engine never answered.
    pub fn abandoned(&self) -> (emission: Emission)
        ensures
            tells_of_death(
                emission,
                self.rule,
                Cause::Cancelled,
                abandoned_text(self.rule, self.reaped),
            ),
    {
        let mut text = String::from_str("the ");
        text.append(self.rule.as_str());
        text.append(" rule condemned this member; ");
        text.append(write_decimal(self.reaped).as_str());
        text.append(" process(es) were signalled and its engine did not answer inside ");
        text.append(write_decimal(TEARDOWN_GRACE_SECONDS).as_str());
        text.append("s, so the run gave up on it");
        died(self.rule, Cause::Cancelled, text.as_str())
    }
}

} // verus!
