//! Stamping and numbering this process's events.
//!
//! One sequence per producing process, because `seq` is monotonic per `stream`
//! and `stream` is a unique id per producing process. The emitters a graph derives
//! for its members draw on the same sequence.

use vstd::prelude::*;
use vstd::string::StringExecFns;

use crate::clock::{millis_of, now_rfc3339, rendered, Instant};
use crate::event::{
    Artifact, Envelope, EventFilter, EventKind, LabelValue, Labels, Source, ENVELOPE_VERSION,
    SESSION_LABEL,
};
use crate::keyed::{get, has_name, value_after_push, value_at};
use crate::session::{session_label, session_of};
use crate::text::{copy_text, same};

verus! {

/// The numbers a stream has given out.
#[derive(Debug, Clone, Copy, PartialEq, Eq, Structural)]
pub struct Sequence {
    /// The number the next envelope on the stream takes.
    pub next: u64,
}

impl Default for Sequence {
    fn default() -> (sequence: Self)
        ensures
            sequence.next == 0,
    {
        Sequence { next: 0 }
    }
}

/// One event, and whether it belongs on the stream.
#[derive(Debug)]
pub struct Emitted<P> {
    /// The envelope, which the run reads whether or not a consumer sees it.
    pub envelope: Envelope<P>,
    /// Whether the emitter's filter admits it.
    pub admitted: bool,
}

/// Stamps and numbers one producing process's events.
#[derive(Debug)]
pub struct Emitter {
    stream: String,
    labels: Labels,
    filter: EventFilter,
}

/// The value a derived emitter stamps under one reserved key: its own, or the one
/// it was derived from.
pub open spec fn stamped_over<T>(own: Option<T>, inherited: Option<T>) -> Option<T> {
    match own {
        Some(value) => Some(value),
        None => inherited,
    }
}

/// Labels stamped over others: what they say stands, and what they leave unsaid
/// is what the others say.
pub open spec fn merges(own: Labels, inherited: Labels, merged: Labels) -> bool {
    &&& merged.run_id == stamped_over(own.run_id, inherited.run_id)
    &&& merged.round == stamped_over(own.round, inherited.round)
    &&& merged.node == stamped_over(own.node, inherited.node)
    &&& merged.step == stamped_over(own.step, inherited.step)
    &&& merged.member == stamped_over(own.member, inherited.member)
    &&& merged.persona == stamped_over(own.persona, inherited.persona)
    &&& forall|key: Seq<char>| #[trigger]
        value_at(merged.extra@, key) == stamped_over(
            value_at(own.extra@, key),
            value_at(inherited.extra@, key),
        )
}

/// The conversation an envelope of `kind` names, if it names one.
pub open spec fn conversation(stream: Seq<char>, labels: Labels, kind: EventKind) -> Option<
    Seq<char>,
> {
    if kind.names_session() {
        match labels.member {
            Some(member) => session_of(stream, member@),
            None => None,
        }
    } else {
        None
    }
}

/// The labels one kind of envelope carries: an emitter's own, with the
/// conversation on the kinds that name one and without it on every other.
pub open spec fn stamps(stream: Seq<char>, labels: Labels, kind: EventKind, stamped: Labels) -> bool {
    &&& stamped.run_id == labels.run_id
    &&& stamped.round == labels.round
    &&& stamped.node == labels.node
    &&& stamped.step == labels.step
    &&& stamped.member == labels.member
    &&& stamped.persona == labels.persona
    &&& forall|key: Seq<char>|
        key != SESSION_LABEL@ ==> #[trigger] value_at(stamped.extra@, key) == value_at(
            labels.extra@,
            key,
        )
    &&& match conversation(stream, labels, kind) {
        Some(session) => value_at(stamped.extra@, SESSION_LABEL@) matches Some(LabelValue::Text(
            text,
        )) && text@ == session,
        None => value_at(stamped.extra@, SESSION_LABEL@) is None,
    }
}

fn over(own: Option<String>, inherited: &Option<String>) -> (stamped: Option<String>)
    ensures
        stamped == stamped_over(own, *inherited),
{
    match own {
        Some(value) => Some(value),
        None => copy_text(inherited),
    }
}

impl Emitter {
    /// The stream id, as text.
    pub closed spec fn stream_id(self) -> Seq<char> {
        self.stream@
    }

    /// The labels this emitter stamps.
    pub closed spec fn stamp(self) -> Labels {
        self.labels
    }

    /// What this emitter puts on the stream.
    pub closed spec fn rule(self) -> EventFilter {
        self.filter
    }

    /// An emitter for `stream`, stamping nothing and admitting everything.
    pub fn new(stream: String) -> (emitter: Self)
        ensures
            emitter.stream_id() == stream@,
            emitter.stamp().run_id is None && emitter.stamp().round is None,
            emitter.stamp().node is None && emitter.stamp().step is None,
            emitter.stamp().member is None && emitter.stamp().persona is None,
            emitter.stamp().extra@.len() == 0,
            emitter.rule().included@.len() == 0,
            emitter.rule().excluded@.len() == 0,
    {
        Emitter { stream, labels: Labels::default(), filter: EventFilter::default() }
    }

    /// The same emitter, putting only what `filter` admits on the stream.
    pub fn with_filter(&self, filter: EventFilter) -> (emitter: Self)
        ensures
            emitter.stream_id() == self.stream_id(),
            emitter.stamp().agrees(self.stamp()),
            emitter.rule() == filter,
    {
        Emitter { stream: self.stream.clone(), labels: self.labels.copy(), filter }
    }

    /// The same emitter with `labels` stamped on everything it writes next.
    ///
    /// Enrichers never rewrite: what `labels` says stands, and what it leaves
    /// unsaid is what this emitter already stamps.
    pub fn with_labels(&self, labels: Labels) -> (emitter: Self)
        ensures
            emitter.stream_id() == self.stream_id(),
            merges(labels, self.stamp(), emitter.stamp()),
            emitter.rule().included@ == self.rule().included@,
            emitter.rule().excluded@ == self.rule().excluded@,
    {
        let ghost own = labels;
        let ghost given = labels.extra@;
        let mut extra = labels.extra;
        let inherited = &self.labels.extra;
        let mut at: usize = 0;
        assert(inherited@.take(0) =~= seq![]);
        while at < inherited.len()
            invariant
                at <= inherited@.len(),
                forall|key: Seq<char>| #[trigger]
                    value_at(extra@, key) == stamped_over(
                        value_at(given, key),
                        value_at(inherited@.take(at as int), key),
                    ),
            decreases inherited@.len() - at,
        {
            let ghost earlier = extra@;
            let ghost seen = inherited@.take(at as int);
            let entry = &inherited[at];
            proof {
                assert(inherited@.take(at + 1) =~= seen.push(inherited@[at as int]));
            }
            if get(&extra, entry.0.as_str()).is_none() {
                extra.push((entry.0.clone(), entry.1.copy()));
                assert forall|key: Seq<char>| #[trigger] value_at(extra@, key) == stamped_over(
                    value_at(given, key),
                    value_at(inherited@.take(at + 1), key),
                ) by {
                    value_after_push(earlier, *entry, key);
                    value_after_push(seen, *entry, key);
                    assert(value_at(earlier, entry.0@) is None);
                    assert(value_at(earlier, key) == stamped_over(
                        value_at(given, key),
                        value_at(seen, key),
                    ));
                }
            } else {
                assert forall|key: Seq<char>| #[trigger] value_at(extra@, key) == stamped_over(
                    value_at(given, key),
                    value_at(inherited@.take(at + 1), key),
                ) by {
                    value_after_push(seen, *entry, key);
                    assert(value_at(earlier, entry.0@) is Some);
                    assert(value_at(earlier, key) == stamped_over(
                        value_at(given, key),
                        value_at(seen, key),
                    ));
                }
            }
            at = at + 1;
        }
        assert(inherited@.take(at as int) =~= inherited@);
        let merged = Labels {
            run_id: over(labels.run_id, &self.labels.run_id),
            round: match labels.round {
                Some(round) => Some(round),
                None => self.labels.round,
            },
            node: over(labels.node, &self.labels.node),
            step: over(labels.step, &self.labels.step),
            member: over(labels.member, &self.labels.member),
            persona: over(labels.persona, &self.labels.persona),
            extra,
        };
        Emitter { stream: self.stream.clone(), labels: merged, filter: self.filter.copy() }
    }

    /// The stream id every envelope this emitter writes carries.
    pub fn stream(&self) -> (stream: &str)
        ensures
            stream@ == self.stream_id(),
    {
        self.stream.as_str()
    }

    /// This emitter's labels as one kind of envelope carries them.
    ///
    /// The emitter owns the [`SESSION_LABEL`] key: one stamped by hand is taken
    /// off every kind, and the conversation is put on the kinds that name one.
    pub fn stamp_session(&self, kind: EventKind) -> (stamped: Labels)
        ensures
            stamps(self.stream_id(), self.stamp(), kind, stamped),
    {
        let session = if kind.carries_session() {
            match &self.labels.member {
                Some(member) => session_label(self.stream.as_str(), member.as_str()),
                None => None,
            }
        } else {
            None
        };
        let own = &self.labels.extra;
        let mut extra: Vec<(String, LabelValue)> = Vec::new();
        let mut at: usize = 0;
        assert(own@.take(0) =~= seq![]);
        while at < own.len()
            invariant
                at <= own@.len(),
                !has_name(extra@, SESSION_LABEL@),
                forall|key: Seq<char>|
                    key != SESSION_LABEL@ ==> #[trigger] value_at(extra@, key) == value_at(
                        own@.take(at as int),
                        key,
                    ),
                forall|key: Seq<char>|
                    key != SESSION_LABEL@ ==> #[trigger] has_name(extra@, key) == has_name(
                        own@.take(at as int),
                        key,
                    ),
            decreases own@.len() - at,
        {
            let ghost earlier = extra@;
            let ghost seen = own@.take(at as int);
            let entry = &own[at];
            assert(own@.take(at + 1) =~= seen.push(own@[at as int]));
            if !same(entry.0.as_str(), SESSION_LABEL) {
                extra.push((entry.0.clone(), entry.1.copy()));
                proof {
                    value_after_push(earlier, *entry, SESSION_LABEL@);
                }
                assert forall|key: Seq<char>| key != SESSION_LABEL@ implies #[trigger] value_at(
                    extra@,
                    key,
                ) == value_at(own@.take(at + 1), key) by {
                    value_after_push(earlier, *entry, key);
                    value_after_push(seen, *entry, key);
                    assert(value_at(earlier, key) == value_at(seen, key));
                    assert(has_name(earlier, key) == has_name(seen, key));
                }
                assert forall|key: Seq<char>| key != SESSION_LABEL@ implies #[trigger] has_name(
                    extra@,
                    key,
                ) == has_name(own@.take(at + 1), key) by {
                    value_after_push(earlier, *entry, key);
                    value_after_push(seen, *entry, key);
                    assert(has_name(earlier, key) == has_name(seen, key));
                }
            } else {
                assert forall|key: Seq<char>| key != SESSION_LABEL@ implies #[trigger] value_at(
                    extra@,
                    key,
                ) == value_at(own@.take(at + 1), key) by {
                    value_after_push(seen, *entry, key);
                    assert(value_at(earlier, key) == value_at(seen, key));
                    assert(has_name(earlier, key) == has_name(seen, key));
                }
                assert forall|key: Seq<char>| key != SESSION_LABEL@ implies #[trigger] has_name(
                    extra@,
                    key,
                ) == has_name(own@.take(at + 1), key) by {
                    value_after_push(seen, *entry, key);
                    assert(has_name(earlier, key) == has_name(seen, key));
                }
            }
            at = at + 1;
        }
        assert(own@.take(at as int) =~= own@);
        if let Some(session) = session {
            let ghost earlier = extra@;
            let entry = (String::from_str(SESSION_LABEL), LabelValue::Text(session));
            let ghost added = entry;
            extra.push(entry);
            proof {
                value_after_push(earlier, added, SESSION_LABEL@);
            }
            assert forall|key: Seq<char>| key != SESSION_LABEL@ implies #[trigger] value_at(
                extra@,
                key,
            ) == value_at(own@, key) by {
                value_after_push(earlier, added, key);
                assert(value_at(earlier, key) == value_at(own@, key));
            }
        }
        Labels {
            run_id: copy_text(&self.labels.run_id),
            round: self.labels.round,
            node: copy_text(&self.labels.node),
            step: copy_text(&self.labels.step),
            member: copy_text(&self.labels.member),
            persona: copy_text(&self.labels.persona),
            extra,
        }
    }

    /// Whether `emitted` is what this emitter makes of an event at `ts` when the
    /// sequence is at `next`, and `after` is where that leaves the sequence.
    ///
    /// An admitted envelope takes the sequence's number and moves it on; one the
    /// filter holds back carries the number the next admitted one will take, and
    /// takes none itself.
    pub open spec fn emits<P>(
        self,
        next: u64,
        ts: Seq<char>,
        kind: EventKind,
        payload: P,
        artifacts: Seq<Artifact>,
        emitted: Emitted<P>,
        after: u64,
    ) -> bool {
        let envelope = emitted.envelope;
        &&& envelope.v == ENVELOPE_VERSION
        &&& envelope.ts@ == ts
        &&& envelope.stream@ == self.stream_id()
        &&& envelope.seq == next
        &&& envelope.source == Source::Agentgraph
        &&& envelope.kind == kind
        &&& stamps(self.stream_id(), self.stamp(), kind, envelope.labels)
        &&& envelope.payload == payload
        &&& envelope.artifacts@ == artifacts
        &&& emitted.admitted == self.rule().admits(
            Source::Agentgraph,
            kind.wire(),
            envelope.labels,
        )
        &&& after == if emitted.admitted {
            next.wrapping_add(1)
        } else {
            next
        }
    }

    /// Make one event as of `ts`.
    pub fn emit_at<P>(
        &self,
        sequence: &mut Sequence,
        ts: String,
        kind: EventKind,
        payload: P,
        artifacts: Vec<Artifact>,
    ) -> (emitted: Emitted<P>)
        ensures
            self.emits(
                old(sequence).next,
                ts@,
                kind,
                payload,
                artifacts@,
                emitted,
                final(sequence).next,
            ),
    {
        let labels = self.stamp_session(kind);
        let admitted = self.filter.allows(Source::Agentgraph, kind.as_str(), &labels);
        let seq: u64 = sequence.next;
        if admitted {
            sequence.next = seq.wrapping_add(1);
        }
        let envelope = Envelope {
            v: ENVELOPE_VERSION,
            ts,
            stream: self.stream.clone(),
            seq,
            source: Source::Agentgraph,
            kind,
            labels,
            payload,
            artifacts,
        };
        Emitted { envelope, admitted }
    }

    /// Make one event, as of now, with artifacts attached.
    pub fn emit_with<P>(
        &self,
        sequence: &mut Sequence,
        kind: EventKind,
        payload: P,
        artifacts: Vec<Artifact>,
    ) -> (emitted: Emitted<P>)
        ensures
            exists|at: Instant|
                self.emits(
                    old(sequence).next,
                    rendered(#[trigger] millis_of(at) as int),
                    kind,
                    payload,
                    artifacts@,
                    emitted,
                    final(sequence).next,
                ),
    {
        let ts = now_rfc3339();
        let ghost at = choose|at: Instant| ts@ == rendered(#[trigger] millis_of(at) as int);
        assert(ts@ == rendered(millis_of(at) as int));
        self.emit_at(sequence, ts, kind, payload, artifacts)
    }

    /// Make one event, as of now.
    pub fn emit<P>(&self, sequence: &mut Sequence, kind: EventKind, payload: P) -> (emitted:
        Emitted<P>)
        ensures
            exists|at: Instant|
                self.emits(
                    old(sequence).next,
                    rendered(#[trigger] millis_of(at) as int),
                    kind,
                    payload,
                    Seq::<Artifact>::empty(),
                    emitted,
                    final(sequence).next,
                ),
    {
        self.emit_with(sequence, kind, payload, Vec::new())
    }
}

/// How many of the first `at` events were admitted.
pub open spec fn admitted_before<P>(emitted: Seq<Emitted<P>>, at: int) -> int
    decreases at,
{
    if at <= 0 {
        0
    } else {
        admitted_before(emitted, at - 1) + if emitted[at - 1].admitted {
            1int
        } else {
            0
        }
    }
}

/// Whether these are events that emitters made one after another on a fresh
/// sequence: the sequence stands at `numbers[i]` before the event at `i`.
pub open spec fn made_in_turn<P>(
    emitters: Seq<Emitter>,
    emitted: Seq<Emitted<P>>,
    numbers: Seq<u64>,
) -> bool {
    &&& emitters.len() == emitted.len()
    &&& numbers.len() == emitted.len() + 1
    &&& numbers[0] == 0
    &&& forall|i: int|
        0 <= i < emitted.len() ==> emitters[i].emits(
            numbers[i],
            (#[trigger] emitted[i]).envelope.ts@,
            emitted[i].envelope.kind,
            emitted[i].envelope.payload,
            emitted[i].envelope.artifacts@,
            emitted[i],
            numbers[i + 1],
        )
}

/// The envelopes a stream carries are numbered from zero without a gap, whatever
/// was held back between them and whichever emitters made them: each number is how
/// many were admitted before it.
pub proof fn admitted_envelopes_are_numbered_without_a_gap<P>(
    emitters: Seq<Emitter>,
    emitted: Seq<Emitted<P>>,
    numbers: Seq<u64>,
    at: int,
)
    requires
        made_in_turn(emitters, emitted, numbers),
        emitted.len() < u64::MAX,
        0 <= at < emitted.len(),
    ensures
        emitted[at].envelope.seq == admitted_before(emitted, at),
{
    numbers_count_the_admitted(emitters, emitted, numbers, at);
}

proof fn numbers_count_the_admitted<P>(
    emitters: Seq<Emitter>,
    emitted: Seq<Emitted<P>>,
    numbers: Seq<u64>,
    at: int,
)
    requires
        made_in_turn(emitters, emitted, numbers),
        emitted.len() < u64::MAX,
        0 <= at <= emitted.len(),
    ensures
        numbers[at] == admitted_before(emitted, at),
        0 <= admitted_before(emitted, at) <= at,
    decreases at,
{
    if at > 0 {
        numbers_count_the_admitted(emitters, emitted, numbers, at - 1);
        assert(emitters[at - 1].emits(
            numbers[at - 1],
            emitted[at - 1].envelope.ts@,
            emitted[at - 1].envelope.kind,
            emitted[at - 1].envelope.payload,
            emitted[at - 1].envelope.artifacts@,
            emitted[at - 1],
            numbers[at - 1 + 1],
        ));
    }
}

/// A filter that names nothing admits every envelope.
pub proof fn a_filter_naming_nothing_admits_everything(
    filter: EventFilter,
    source: Source,
    kind: Seq<char>,
    labels: Labels,
)
    requires
        filter.included@.len() == 0,
        filter.excluded@.len() == 0,
    ensures
        filter.admits(source, kind, labels),
{
}

/// A matcher in the exclude list rejects whatever the include list said.
pub proof fn an_exclusion_beats_an_inclusion(
    filter: EventFilter,
    at: int,
    source: Source,
    kind: Seq<char>,
    labels: Labels,
)
    requires
        0 <= at < filter.excluded@.len(),
        filter.excluded@[at].holds(source, kind, labels),
    ensures
        !filter.admits(source, kind, labels),
{
}

/// Stamping twice never rewrites: what the first stamp of a derived emitter said
/// under a key is what every later derivation from it still says, wherever the
/// later labels leave the key unsaid.
pub proof fn a_label_reaches_every_derived_emitter(
    base: Labels,
    own: Labels,
    merged: Labels,
    key: Seq<char>,
)
    requires
        merges(own, base, merged),
    ensures
        own.run_id is Some ==> merged.run_id == own.run_id,
        own.run_id is None ==> merged.run_id == base.run_id,
        own.round is Some ==> merged.round == own.round,
        own.round is None ==> merged.round == base.round,
        own.node is Some ==> merged.node == own.node,
        own.node is None ==> merged.node == base.node,
        own.step is Some ==> merged.step == own.step,
        own.step is None ==> merged.step == base.step,
        own.member is Some ==> merged.member == own.member,
        own.member is None ==> merged.member == base.member,
        own.persona is Some ==> merged.persona == own.persona,
        own.persona is None ==> merged.persona == base.persona,
        value_at(own.extra@, key) is Some ==> value_at(merged.extra@, key) == value_at(
            own.extra@,
            key,
        ),
        value_at(own.extra@, key) is None ==> value_at(merged.extra@, key) == value_at(
            base.extra@,
            key,
        ),
{
}

/// An envelope names a conversation exactly when its kind is one of a turn's, its
/// emitter names a member, and something of the two ids survives — whatever an
/// operator stamped under the key by hand.
pub proof fn only_a_turns_envelope_names_a_conversation(
    stream: Seq<char>,
    labels: Labels,
    kind: EventKind,
    stamped: Labels,
)
    requires
        stamps(stream, labels, kind, stamped),
    ensures
        value_at(stamped.extra@, SESSION_LABEL@) is Some <==> kind.names_session()
            && labels.member is Some && session_of(stream, labels.member->0@) is Some,
{
}

} // verus!
