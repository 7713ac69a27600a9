//! The shared event envelope, and what decides which envelopes a stream carries.
//!
//! Every process in the stack emits NDJSON in one envelope shape. A consumer
//! detects loss through per-stream gaps in `seq`, so a number is taken only by an
//! envelope that reaches the stream.

use vstd::prelude::*;
use vstd::string::StringExecFns;

pub use crate::bound::{
    bound_detail, bound_head, bound_text, MAX_ACTIVITY_DETAIL_CHARS, MAX_PAYLOAD_TEXT_BYTES,
};
pub use crate::emitter::{Emitted, Emitter, Sequence};
pub use crate::payload::{
    Cause, Disposition, Emission, FallbackAdvanced, MemberDied, MemberSettled, MemberStarted,
    OneharnessSession, Party, Payload, PreTurnContext, PreTurnOutcome, Role, Runner, TurnActivity,
    TurnCompleted, TurnInterrupted, TurnMessage, TurnStarted, Usage,
};
pub use crate::session::{session_label, MAX_SESSION_CHARS};

use crate::glob::{glob, globs};
use crate::json::{json_string, write_json_string};
use crate::keyed::{get, value_at};
use crate::text::{
    blank, copy_text, decimal, is_blank, join, same, separated, texts_of, write_decimal,
};

verus! {

/// The envelope version this library produces and understands.
pub const ENVELOPE_VERSION: u8 = 1;

/// The free-form label key naming the conversation a turn belongs to.
pub const SESSION_LABEL: &'static str = "session";

/// The `kind` of the artifact an [`EventKind::OneharnessSession`] carries.
pub const ONEHARNESS_SESSION_ARTIFACT: &'static str = "oneharness_session";

/// The library that produced an event.
#[derive(Debug, Clone, Copy, PartialEq, Eq, Hash, Structural)]
pub enum Source {
    /// This library.
    Agentgraph,
    /// `onevcs`.
    Vcs,
    /// `onepipeline`.
    Pipeline,
}

impl Source {
    /// How a source is spelled on the wire.
    pub open spec fn wire(self) -> Seq<char> {
        match self {
            Source::Agentgraph => "agentgraph"@,
            Source::Vcs => "vcs"@,
            Source::Pipeline => "pipeline"@,
        }
    }

    /// This source's spelling on the wire.
    pub fn as_str(self) -> (text: &'static str)
        ensures
            text@ == self.wire(),
    {
        match self {
            Source::Agentgraph => "agentgraph",
            Source::Vcs => "vcs",
            Source::Pipeline => "pipeline",
        }
    }
}

/// What an [`Envelope`] reports.
#[derive(Debug, Clone, Copy, PartialEq, Eq, Hash, Structural)]
pub enum EventKind {
    /// The graph began running.
    GraphStarted,
    /// A member's first process started.
    MemberStarted,
    /// One of a member's declared pre-turn commands ran.
    PreTurnContext,
    /// A turn began on one side of a member's conversation.
    TurnStarted,
    /// A bounded tool summary from inside a turn.
    TurnActivity,
    /// One party's own words for a turn, as the turn happens.
    TurnMessage,
    /// A turn finished.
    TurnCompleted,
    /// An operator asked a member's in-flight turn to do something else.
    TurnInterrupted,
    /// A member is alive but has produced nothing since the last heartbeat.
    MemberHeartbeat,
    /// An identity chain moved past a candidate.
    FallbackAdvanced,
    /// One oneharness invocation named the history record it wrote.
    OneharnessSession,
    /// A member's process died.
    MemberDied,
    /// A scheduled member fired.
    CronFired,
    /// A resettable schedule's clock restarted.
    CronReset,
    /// A member settled.
    MemberSettled,
    /// Every member settled.
    GraphSettled,
}

impl EventKind {
    /// How a kind is spelled on the wire.
    pub open spec fn wire(self) -> Seq<char> {
        match self {
            EventKind::GraphStarted => "graph-started"@,
            EventKind::MemberStarted => "member-started"@,
            EventKind::PreTurnContext => "pre-turn-context"@,
            EventKind::TurnStarted => "turn-started"@,
            EventKind::TurnActivity => "turn-activity"@,
            EventKind::TurnMessage => "turn-message"@,
            EventKind::TurnCompleted => "turn-completed"@,
            EventKind::TurnInterrupted => "turn-interrupted"@,
            EventKind::MemberHeartbeat => "member-heartbeat"@,
            EventKind::FallbackAdvanced => "fallback-advanced"@,
            EventKind::OneharnessSession => "oneharness-session"@,
            EventKind::MemberDied => "member-died"@,
            EventKind::CronFired => "cron-fired"@,
            EventKind::CronReset => "cron-reset"@,
            EventKind::MemberSettled => "member-settled"@,
            EventKind::GraphSettled => "graph-settled"@,
        }
    }

    /// This kind's kebab-case spelling on the wire, which is what an
    /// [`EventFilter`] globs against and what a rendering names.
    pub fn as_str(self) -> (text: &'static str)
        ensures
            text@ == self.wire(),
    {
        match self {
            EventKind::GraphStarted => "graph-started",
            EventKind::MemberStarted => "member-started",
            EventKind::PreTurnContext => "pre-turn-context",
            EventKind::TurnStarted => "turn-started",
            EventKind::TurnActivity => "turn-activity",
            EventKind::TurnMessage => "turn-message",
            EventKind::TurnCompleted => "turn-completed",
            EventKind::TurnInterrupted => "turn-interrupted",
            EventKind::MemberHeartbeat => "member-heartbeat",
            EventKind::FallbackAdvanced => "fallback-advanced",
            EventKind::OneharnessSession => "oneharness-session",
            EventKind::MemberDied => "member-died",
            EventKind::CronFired => "cron-fired",
            EventKind::CronReset => "cron-reset",
            EventKind::MemberSettled => "member-settled",
            EventKind::GraphSettled => "graph-settled",
        }
    }

    /// The kinds that name a conversation.
    pub open spec fn names_session(self) -> bool {
        ||| self is TurnStarted
        ||| self is TurnActivity
        ||| self is TurnMessage
        ||| self is TurnCompleted
        ||| self is TurnInterrupted
    }

    /// Whether this kind names the conversation its member's turns belong to,
    /// through a [`SESSION_LABEL`] among the envelope's extras.
    ///
    /// A consumer reads a labelled envelope as part of a transcript, so a session
    /// on the heartbeats a member publishes would render a transcript of
    /// heartbeats.
    pub fn carries_session(self) -> (answer: bool)
        ensures
            answer == self.names_session(),
    {
        match self {
            EventKind::TurnStarted
            | EventKind::TurnActivity
            | EventKind::TurnMessage
            | EventKind::TurnCompleted
            | EventKind::TurnInterrupted => true,
            _ => false,
        }
    }
}

/// A few of the characters a kind is spelled with: enough to tell it by.
spec fn tell(kind: EventKind) -> (nat, char, char, char) {
    match kind {
        EventKind::GraphStarted => (13, 'g', '-', 'a'),
        EventKind::MemberStarted => (14, 'm', 'r', 't'),
        EventKind::PreTurnContext => (16, 'p', 'u', '-'),
        EventKind::TurnStarted => (12, 't', 's', 'r'),
        EventKind::TurnActivity => (13, 't', 'a', 'i'),
        EventKind::TurnMessage => (12, 't', 'm', 's'),
        EventKind::TurnCompleted => (14, 't', 'c', 'p'),
        EventKind::TurnInterrupted => (16, 't', 'i', 'e'),
        EventKind::MemberHeartbeat => (16, 'm', 'r', 'e'),
        EventKind::FallbackAdvanced => (17, 'f', 'a', '-'),
        EventKind::OneharnessSession => (18, 'o', 'r', 's'),
        EventKind::MemberDied => (11, 'm', 'r', 'i'),
        EventKind::CronFired => (10, 'c', 'f', 'e'),
        EventKind::CronReset => (10, 'c', 'r', 'e'),
        EventKind::MemberSettled => (14, 'm', 'r', 'e'),
        EventKind::GraphSettled => (13, 'g', '-', 't'),
    }
}

proof fn a_kind_is_told_by_its_spelling(kind: EventKind)
    ensures
        tell(kind) == (kind.wire().len(), kind.wire()[0], kind.wire()[5], kind.wire()[8]),
{
    match kind {
        EventKind::GraphStarted => {
            reveal_strlit("graph-started");
        },
        EventKind::MemberStarted => {
            reveal_strlit("member-started");
        },
        EventKind::PreTurnContext => {
            reveal_strlit("pre-turn-context");
        },
        EventKind::TurnStarted => {
            reveal_strlit("turn-started");
        },
        EventKind::TurnActivity => {
            reveal_strlit("turn-activity");
        },
        EventKind::TurnMessage => {
            reveal_strlit("turn-message");
        },
        EventKind::TurnCompleted => {
            reveal_strlit("turn-completed");
        },
        EventKind::TurnInterrupted => {
            reveal_strlit("turn-interrupted");
        },
        EventKind::MemberHeartbeat => {
            reveal_strlit("member-heartbeat");
        },
        EventKind::FallbackAdvanced => {
            reveal_strlit("fallback-advanced");
        },
        EventKind::OneharnessSession => {
            reveal_strlit("oneharness-session");
        },
        EventKind::MemberDied => {
            reveal_strlit("member-died");
        },
        EventKind::CronFired => {
            reveal_strlit("cron-fired");
        },
        EventKind::CronReset => {
            reveal_strlit("cron-reset");
        },
        EventKind::MemberSettled => {
            reveal_strlit("member-settled");
        },
        EventKind::GraphSettled => {
            reveal_strlit("graph-settled");
        },
    }
}

/// No two kinds are spelled alike.
pub proof fn kinds_are_told_apart_on_the_wire(one: EventKind, other: EventKind)
    requires
        one.wire() == other.wire(),
    ensures
        one == other,
{
    a_kind_is_told_by_its_spelling(one);
    a_kind_is_told_by_its_spelling(other);
}

/// One label's value among the extras.
#[derive(Debug, PartialEq, Eq)]
pub enum LabelValue {
    /// A string.
    Text(String),
    /// Any other JSON value, by its JSON text.
    Other(String),
}

impl LabelValue {
    /// A copy of this value.
    pub fn copy(&self) -> (copy: LabelValue)
        ensures
            copy == *self,
    {
        match self {
            LabelValue::Text(text) => LabelValue::Text(text.clone()),
            LabelValue::Other(text) => LabelValue::Other(text.clone()),
        }
    }

    /// The string this value is, if it is one.
    pub open spec fn string(self) -> Option<Seq<char>> {
        match self {
            LabelValue::Text(text) => Some(text@),
            LabelValue::Other(_) => None,
        }
    }
}

/// The reserved label keys, plus whatever else a producer stamped.
///
/// Reserved keys are absent rather than empty when unknown, so an enricher can
/// tell "not stamped" from "stamped empty".
#[derive(Debug, PartialEq, Eq)]
pub struct Labels {
    /// The run this event belongs to.
    pub run_id: Option<String>,
    /// The round within the run.
    pub round: Option<u64>,
    /// The graph node.
    pub node: Option<String>,
    /// The step within the node.
    pub step: Option<String>,
    /// The graph member.
    pub member: Option<String>,
    /// The persona the member runs under.
    pub persona: Option<String>,
    /// Free-form extras, carried through untouched.
    pub extra: Vec<(String, LabelValue)>,
}

impl Default for Labels {
    fn default() -> (labels: Self)
        ensures
            labels.run_id is None && labels.round is None && labels.node is None,
            labels.step is None && labels.member is None && labels.persona is None,
            labels.extra@.len() == 0,
    {
        Labels {
            run_id: None,
            round: None,
            node: None,
            step: None,
            member: None,
            persona: None,
            extra: Vec::new(),
        }
    }
}

/// A copy of a label's extras.
fn copy_extra(extra: &Vec<(String, LabelValue)>) -> (copy: Vec<(String, LabelValue)>)
    ensures
        copy@ == extra@,
{
    let mut copy: Vec<(String, LabelValue)> = Vec::new();
    let mut at: usize = 0;
    while at < extra.len()
        invariant
            at <= extra@.len(),
            copy@ == extra@.take(at as int),
        decreases extra@.len() - at,
    {
        copy.push((extra[at].0.clone(), extra[at].1.copy()));
        assert(extra@.take(at + 1) =~= extra@.take(at as int).push(extra@[at as int]));
        at = at + 1;
    }
    assert(extra@.take(at as int) =~= extra@);
    copy
}

impl Labels {
    /// Whether two sets of labels say the same.
    pub open spec fn agrees(self, other: Labels) -> bool {
        &&& self.run_id == other.run_id
        &&& self.round == other.round
        &&& self.node == other.node
        &&& self.step == other.step
        &&& self.member == other.member
        &&& self.persona == other.persona
        &&& self.extra@ == other.extra@
    }

    /// A copy of these labels.
    pub fn copy(&self) -> (copy: Labels)
        ensures
            copy.agrees(*self),
    {
        Labels {
            run_id: copy_text(&self.run_id),
            round: self.round,
            node: copy_text(&self.node),
            step: copy_text(&self.step),
            member: copy_text(&self.member),
            persona: copy_text(&self.persona),
            extra: copy_extra(&self.extra),
        }
    }
}

/// Evidence too large for a payload: stored by the producing library, referenced
/// by id, and read back through that library.
#[derive(Debug, PartialEq, Eq)]
pub struct Artifact {
    /// Identifier, unique within the producing library's store.
    pub id: String,
    /// What the artifact is.
    pub kind: String,
    /// Size of the stored artifact.
    pub bytes: u64,
}

/// One NDJSON event, carrying a payload of whatever shape its kind has.
///
/// Merge order across streams is `(ts, stream, seq)`.
#[derive(Debug, PartialEq, Eq)]
pub struct Envelope<P> {
    /// Envelope version; [`ENVELOPE_VERSION`] for anything this library writes.
    pub v: u8,
    /// RFC 3339 timestamp, millisecond precision, UTC.
    pub ts: String,
    /// Unique id of the producing process.
    pub stream: String,
    /// Monotonic per [`stream`](Self::stream).
    pub seq: u64,
    /// Which library in the stack produced the event.
    pub source: Source,
    /// What happened.
    pub kind: EventKind,
    /// Reserved keys plus free-form extras.
    pub labels: Labels,
    /// Kind-specific detail.
    pub payload: P,
    /// Evidence stored by the producing library and referenced by id.
    pub artifacts: Vec<Artifact>,
}

// ---- Which envelopes reach a stream ----
/// Which envelopes a run puts on its merged stream.
///
/// A filter with no matcher on either list admits everything. A filter decides
/// what is emitted, never what the run acts on.
#[derive(Debug, PartialEq, Eq)]
pub struct EventFilter {
    /// Matchers an envelope satisfies one of to pass. Empty admits every
    /// envelope.
    pub included: Vec<Matcher>,
    /// Matchers that reject, whatever [`included`](Self::included) said.
    pub excluded: Vec<Matcher>,
}

impl Default for EventFilter {
    fn default() -> (filter: Self)
        ensures
            filter.included@.len() == 0,
            filter.excluded@.len() == 0,
    {
        EventFilter { included: Vec::new(), excluded: Vec::new() }
    }
}

/// One matcher: every field it names must hold of an envelope, and a field it
/// does not name is not consulted.
#[derive(Debug, PartialEq, Eq)]
pub struct Matcher {
    /// The producing library, by exact equality.
    pub source: Option<Source>,
    /// A glob over the kind's wire string.
    pub kind: Option<String>,
    /// The run id the envelope was stamped with, by exact equality.
    pub run_id: Option<String>,
    /// The node the envelope was stamped with, by exact equality.
    pub node: Option<String>,
    /// The step the envelope was stamped with, by exact equality.
    pub step: Option<String>,
    /// The member the envelope was stamped with, by exact equality.
    pub member: Option<String>,
    /// The persona the envelope was stamped with, by exact equality.
    pub persona: Option<String>,
}

impl Default for Matcher {
    fn default() -> (matcher: Self)
        ensures
            matcher.source is None && matcher.kind is None && matcher.run_id is None,
            matcher.node is None && matcher.step is None && matcher.member is None,
            matcher.persona is None,
    {
        Matcher {
            source: None,
            kind: None,
            run_id: None,
            node: None,
            step: None,
            member: None,
            persona: None,
        }
    }
}

/// What an envelope carries under one reserved key: the typed slot, or — where
/// that is unset — a string under the same key among the extras.
pub open spec fn carried(labels: Labels, key: Seq<char>, typed: Option<String>) -> Option<
    Seq<char>,
> {
    match typed {
        Some(value) => Some(value@),
        None => match value_at(labels.extra@, key) {
            Some(value) => value.string(),
            None => None,
        },
    }
}

/// Whether what a matcher asks of one label is what the envelope carries.
pub open spec fn satisfied(asked: Option<String>, carries: Option<Seq<char>>) -> bool {
    asked matches Some(value) ==> carries == Some(value@)
}

impl Matcher {
    /// Whether every field a matcher names holds of an envelope.
    pub open spec fn holds(self, source: Source, kind: Seq<char>, labels: Labels) -> bool {
        &&& self.source matches Some(named) ==> named == source
        &&& self.kind matches Some(pattern) ==> globs(pattern@, kind)
        &&& satisfied(self.run_id, carried(labels, "run_id"@, labels.run_id))
        &&& satisfied(self.node, carried(labels, "node"@, labels.node))
        &&& satisfied(self.step, carried(labels, "step"@, labels.step))
        &&& satisfied(self.member, carried(labels, "member"@, labels.member))
        &&& satisfied(self.persona, carried(labels, "persona"@, labels.persona))
    }

    /// Whether a matcher names any field at all.
    pub open spec fn names_something(self) -> bool {
        ||| self.source is Some
        ||| self.kind is Some
        ||| self.run_id is Some
        ||| self.node is Some
        ||| self.step is Some
        ||| self.member is Some
        ||| self.persona is Some
    }

    /// Why a matcher could not match anything, or would match everything.
    pub open spec fn refusal(self) -> Option<Seq<char>> {
        if blank_text(self.kind) {
            Some(empty_field("kind"@))
        } else if blank_text(self.run_id) {
            Some(empty_field("run_id"@))
        } else if blank_text(self.node) {
            Some(empty_field("node"@))
        } else if blank_text(self.step) {
            Some(empty_field("step"@))
        } else if blank_text(self.member) {
            Some(empty_field("member"@))
        } else if blank_text(self.persona) {
            Some(empty_field("persona"@))
        } else if !self.names_something() {
            Some(
                "a matcher naming no field matches every event — name at least one of `source`, `kind`, `run_id`, `node`, `step`, `member`, or `persona`"@,
            )
        } else {
            None
        }
    }

    /// The fields a matcher names, as JSON members.
    pub open spec fn fields(self) -> Seq<Seq<char>> {
        let source = match self.source {
            Some(source) => seq!["\"source\":"@ + json_string(source.wire())],
            None => seq![],
        };
        source + named_field("\"kind\":"@, self.kind) + named_field("\"run_id\":"@, self.run_id)
            + named_field("\"node\":"@, self.node) + named_field("\"step\":"@, self.step)
            + named_field("\"member\":"@, self.member) + named_field(
            "\"persona\":"@,
            self.persona,
        )
    }

    /// A matcher as JSON, naming only the fields it names.
    pub open spec fn written(self) -> Seq<char> {
        "{"@ + separated(self.fields(), ","@) + "}"@
    }
}

/// Whether a field is named and says nothing.
pub open spec fn blank_text(text: Option<String>) -> bool {
    text matches Some(value) && blank(value@)
}

/// What a matcher is told about a field that says nothing.
pub open spec fn empty_field(field: Seq<char>) -> Seq<char> {
    "`"@ + field + "` is empty, and nothing on the stream carries an empty "@ + field
        + " — omit the field to leave it unasked"@
}

/// One named field as a JSON member, or nothing.
pub open spec fn named_field(key: Seq<char>, value: Option<String>) -> Seq<Seq<char>> {
    match value {
        Some(value) => seq![key + json_string(value@)],
        None => seq![],
    }
}

/// Whether one of `matchers` holds of an envelope.
pub open spec fn one_holds(
    matchers: Seq<Matcher>,
    source: Source,
    kind: Seq<char>,
    labels: Labels,
) -> bool {
    exists|i: int| 0 <= i < matchers.len() && (#[trigger] matchers[i]).holds(source, kind, labels)
}

/// Whether `asked` is what `labels` carries under `key`.
fn satisfies(asked: &Option<String>, labels: &Labels, key: &str, typed: &Option<String>) -> (yes:
    bool)
    ensures
        yes == satisfied(*asked, carried(*labels, key@, *typed)),
{
    match asked {
        None => true,
        Some(asked) => match typed {
            Some(value) => same(value.as_str(), asked.as_str()),
            None => match get(&labels.extra, key) {
                Some(LabelValue::Text(value)) => same(value.as_str(), asked.as_str()),
                _ => false,
            },
        },
    }
}

fn is_blank_text(text: &Option<String>) -> (yes: bool)
    ensures
        yes == blank_text(*text),
{
    match text {
        Some(value) => is_blank(value.as_str()),
        None => false,
    }
}

fn say_empty(field: &str) -> (why: String)
    ensures
        why@ == empty_field(field@),
{
    let mut why = String::from_str("`");
    why.append(field);
    why.append("` is empty, and nothing on the stream carries an empty ");
    why.append(field);
    why.append(" — omit the field to leave it unasked");
    why
}

fn push_field(fields: &mut Vec<String>, key: &str, value: &Option<String>)
    ensures
        texts_of(final(fields)@) == texts_of(old(fields)@) + named_field(key@, *value),
{
    if let Some(value) = value {
        let mut field = String::from_str(key);
        field.append(write_json_string(value.as_str()).as_str());
        fields.push(field);
        assert(texts_of(fields@) =~= texts_of(old(fields)@).push(field@));
    }
    assert(texts_of(fields@) =~= texts_of(old(fields)@) + named_field(key@, *value));
}

impl Matcher {
    /// Whether every field this matcher names holds of the envelope.
    pub fn matches(&self, source: Source, kind: &str, labels: &Labels) -> (matched: bool)
        ensures
            matched == self.holds(source, kind@, *labels),
    {
        if let Some(named) = self.source {
            if named != source {
                return false;
            }
        }
        if let Some(pattern) = &self.kind {
            if !glob(pattern.as_str(), kind) {
                return false;
            }
        }
        satisfies(&self.run_id, labels, "run_id", &labels.run_id) && satisfies(
            &self.node,
            labels,
            "node",
            &labels.node,
        ) && satisfies(&self.step, labels, "step", &labels.step) && satisfies(
            &self.member,
            labels,
            "member",
            &labels.member,
        ) && satisfies(&self.persona, labels, "persona", &labels.persona)
    }

    /// Whether this matcher could match anything; see [`EventFilter::validate`].
    pub fn check(&self) -> (outcome: Result<(), String>)
        ensures
            match self.refusal() {
                None => outcome is Ok,
                Some(why) => outcome matches Err(text) && text@ == why,
            },
    {
        if is_blank_text(&self.kind) {
            return Err(say_empty("kind"));
        }
        if is_blank_text(&self.run_id) {
            return Err(say_empty("run_id"));
        }
        if is_blank_text(&self.node) {
            return Err(say_empty("node"));
        }
        if is_blank_text(&self.step) {
            return Err(say_empty("step"));
        }
        if is_blank_text(&self.member) {
            return Err(say_empty("member"));
        }
        if is_blank_text(&self.persona) {
            return Err(say_empty("persona"));
        }
        if self.source.is_none() && self.kind.is_none() && self.run_id.is_none()
            && self.node.is_none() && self.step.is_none() && self.member.is_none()
            && self.persona.is_none() {
            return Err(
                String::from_str(
                    "a matcher naming no field matches every event — name at least one of `source`, `kind`, `run_id`, `node`, `step`, `member`, or `persona`",
                ),
            );
        }
        Ok(())
    }

    /// This matcher as JSON, naming only the fields it names.
    pub fn write(&self) -> (text: String)
        ensures
            text@ == self.written(),
    {
        let mut fields: Vec<String> = Vec::new();
        if let Some(source) = self.source {
            let mut field = String::from_str("\"source\":");
            field.append(write_json_string(source.as_str()).as_str());
            fields.push(field);
        }
        proof {
            let first = match self.source {
                Some(source) => seq!["\"source\":"@ + json_string(source.wire())],
                None => seq![],
            };
            assert(texts_of(fields@) =~= first);
        }
        push_field(&mut fields, "\"kind\":", &self.kind);
        push_field(&mut fields, "\"run_id\":", &self.run_id);
        push_field(&mut fields, "\"node\":", &self.node);
        push_field(&mut fields, "\"step\":", &self.step);
        push_field(&mut fields, "\"member\":", &self.member);
        push_field(&mut fields, "\"persona\":", &self.persona);
        let mut text = String::from_str("{");
        text.append(join(&fields, ",").as_str());
        text.append("}");
        text
    }

    /// A copy of this matcher.
    pub fn copy(&self) -> (copy: Matcher)
        ensures
            copy == *self,
    {
        Matcher {
            source: self.source,
            kind: copy_text(&self.kind),
            run_id: copy_text(&self.run_id),
            node: copy_text(&self.node),
            step: copy_text(&self.step),
            member: copy_text(&self.member),
            persona: copy_text(&self.persona),
        }
    }
}

/// What is said of the first unusable one of a list's matchers, among the first
/// `upto`.
pub open spec fn list_refusal(list: Seq<char>, matchers: Seq<Matcher>, upto: nat) -> Option<
    Seq<char>,
>
    decreases upto,
{
    if upto == 0 {
        None
    } else {
        let at = (upto - 1) as nat;
        match list_refusal(list, matchers, at) {
            Some(why) => Some(why),
            None => match matchers[at as int].refusal() {
                Some(why) => Some(
                    list + "["@ + decimal(at) + "] "@ + matchers[at as int].written() + ": "@
                        + why,
                ),
                None => None,
            },
        }
    }
}

fn check_list(list: &str, matchers: &Vec<Matcher>) -> (outcome: Result<(), String>)
    ensures
        match list_refusal(list@, matchers@, matchers@.len()) {
            None => outcome is Ok,
            Some(why) => outcome matches Err(text) && text@ == why,
        },
{
    let mut at: usize = 0;
    while at < matchers.len()
        invariant
            at <= matchers@.len(),
            list_refusal(list@, matchers@, at as nat) is None,
        decreases matchers@.len() - at,
    {
        if let Err(why) = matchers[at].check() {
            let mut text = String::from_str(list);
            text.append("[");
            text.append(write_decimal(at as u64).as_str());
            text.append("] ");
            text.append(matchers[at].write().as_str());
            text.append(": ");
            text.append(why.as_str());
            proof {
                a_refused_entry_is_the_lists_answer(list@, matchers@, at as nat, matchers@.len());
            }
            return Err(text);
        }
        at = at + 1;
    }
    Ok(())
}

proof fn a_refused_entry_is_the_lists_answer(
    list: Seq<char>,
    matchers: Seq<Matcher>,
    at: nat,
    upto: nat,
)
    requires
        at < upto <= matchers.len(),
        list_refusal(list, matchers, at) is None,
        matchers[at as int].refusal() is Some,
    ensures
        list_refusal(list, matchers, upto) == list_refusal(list, matchers, at + 1),
    decreases upto,
{
    if at + 1 < upto {
        a_refused_entry_is_the_lists_answer(list, matchers, at, (upto - 1) as nat);
    }
}

fn copy_matchers(matchers: &Vec<Matcher>) -> (copy: Vec<Matcher>)
    ensures
        copy@ == matchers@,
{
    let mut copy: Vec<Matcher> = Vec::new();
    let mut at: usize = 0;
    while at < matchers.len()
        invariant
            at <= matchers@.len(),
            copy@ == matchers@.take(at as int),
        decreases matchers@.len() - at,
    {
        copy.push(matchers[at].copy());
        assert(matchers@.take(at + 1) =~= matchers@.take(at as int).push(matchers@[at as int]));
        at = at + 1;
    }
    assert(matchers@.take(at as int) =~= matchers@);
    copy
}

fn any_matches(matchers: &Vec<Matcher>, source: Source, kind: &str, labels: &Labels) -> (found:
    bool)
    ensures
        found == one_holds(matchers@, source, kind@, *labels),
{
    let mut at: usize = 0;
    while at < matchers.len()
        invariant
            at <= matchers@.len(),
            forall|i: int|
                0 <= i < at ==> !(#[trigger] matchers@[i]).holds(source, kind@, *labels),
        decreases matchers@.len() - at,
    {
        if matchers[at].matches(source, kind, labels) {
            return true;
        }
        at = at + 1;
    }
    false
}

impl EventFilter {
    /// Whether an envelope reaches the merged stream.
    pub open spec fn admits(self, source: Source, kind: Seq<char>, labels: Labels) -> bool {
        &&& !one_holds(self.excluded@, source, kind, labels)
        &&& self.included@.len() == 0 || one_holds(self.included@, source, kind, labels)
    }

    /// Why a filter is not usable.
    pub open spec fn refusal(self) -> Option<Seq<char>> {
        match list_refusal("include"@, self.included@, self.included@.len()) {
            Some(why) => Some(why),
            None => list_refusal("exclude"@, self.excluded@, self.excluded@.len()),
        }
    }

    /// Whether an envelope reaches the merged stream: `excluded` wins, and an empty
    /// `included` admits everything.
    ///
    /// The kind arrives as its wire string, because the merged stream carries what
    /// a sibling library relayed as well as what this one produced.
    pub fn allows(&self, source: Source, kind: &str, labels: &Labels) -> (admitted: bool)
        ensures
            admitted == self.admits(source, kind@, *labels),
    {
        if any_matches(&self.excluded, source, kind, labels) {
            return false;
        }
        self.included.len() == 0 || any_matches(&self.included, source, kind, labels)
    }

    /// Whether every matcher in this filter could match anything, naming the
    /// first one that could not: which list it is in, where, and what it says.
    pub fn validate(&self) -> (outcome: Result<(), String>)
        ensures
            match self.refusal() {
                None => outcome is Ok,
                Some(why) => outcome matches Err(text) && text@ == why,
            },
    {
        match check_list("include", &self.included) {
            Ok(()) => check_list("exclude", &self.excluded),
            Err(why) => Err(why),
        }
    }

    /// A copy of this filter.
    pub fn copy(&self) -> (copy: EventFilter)
        ensures
            copy.included@ == self.included@,
            copy.excluded@ == self.excluded@,
    {
        EventFilter {
            included: copy_matchers(&self.included),
            excluded: copy_matchers(&self.excluded),
        }
    }
}

} // verus!
