//! What reaches a stream, and what an envelope on it says.

use vstd::prelude::*;

use crate::emitter::{Emitted, Emitter};
use crate::event::{
    Artifact, EventFilter, EventKind, LabelValue, Labels, Matcher, Source,
};
use crate::glob::{glob, globs};
use crate::keyed::{place_is_the_first, value_at};
use crate::text::white_space;

verus! {

// ---- Matching one envelope ----
/// Whether the first of the extras under a key is this text.
pub open spec fn extra_says(
    extra: Seq<(String, LabelValue)>,
    key: Seq<char>,
    value: Seq<char>,
) -> bool {
    exists|i: int|
        0 <= i < extra.len() && (#[trigger] extra[i]).0@ == key && (
        extra[i].1 matches LabelValue::Text(text) && text@ == value) && forall|j: int|
            0 <= j < i ==> (#[trigger] extra[j]).0@ != key
}

/// Whether an envelope carries a value under a reserved key: in its own slot, or, where
/// that is unset, as the text among the extras.
pub open spec fn envelope_says(
    slot: Option<String>,
    extra: Seq<(String, LabelValue)>,
    key: Seq<char>,
    value: Seq<char>,
) -> bool {
    match slot {
        Some(held) => held@ == value,
        None => extra_says(extra, key, value),
    }
}

proof fn an_extra_is_its_first_entry(
    extra: Seq<(String, LabelValue)>,
    key: Seq<char>,
    value: Seq<char>,
)
    ensures
        (value_at(extra, key) matches Some(held) && held.string() == Some(value)) <==> extra_says(
            extra,
            key,
            value,
        ),
{
    place_is_the_first(extra, key);
    let at = crate::keyed::place(extra, key);
    if value_at(extra, key) matches Some(held) && held.string() == Some(value) {
        assert(extra[at].0@ == key);
    }
    if extra_says(extra, key, value) {
        let i = choose|i: int|
            0 <= i < extra.len() && (#[trigger] extra[i]).0@ == key && (
            extra[i].1 matches LabelValue::Text(text) && text@ == value) && forall|j: int|
                0 <= j < i ==> (#[trigger] extra[j]).0@ != key;
        assert(extra[i].0@ == key);
        assert(crate::keyed::has_name(extra, key));
        if at < i {
            assert(extra[at].0@ != key);
        } else if i < at {
            assert(extra[i].0@ != key);
        }
    }
}

/// A matcher holds only of envelopes that carry exactly what it names: the source, a
/// kind its pattern matches, and under each label it names that very value.
pub proof fn a_matcher_holds_only_of_what_it_names(
    matcher: &Matcher,
    source: Source,
    kind: &str,
    labels: &Labels,
)
    requires
        call_ensures(Matcher::matches, (matcher, source, kind, labels), true),
    ensures
        matcher.source matches Some(named) ==> named == source,
        matcher.kind matches Some(pattern) ==> globs(pattern@, kind@),
        matcher.run_id matches Some(value) ==> envelope_says(
            labels.run_id,
            labels.extra@,
            "run_id"@,
            value@,
        ),
        matcher.node matches Some(value) ==> envelope_says(
            labels.node,
            labels.extra@,
            "node"@,
            value@,
        ),
        matcher.step matches Some(value) ==> envelope_says(
            labels.step,
            labels.extra@,
            "step"@,
            value@,
        ),
        matcher.member matches Some(value) ==> envelope_says(
            labels.member,
            labels.extra@,
            "member"@,
            value@,
        ),
        matcher.persona matches Some(value) ==> envelope_says(
            labels.persona,
            labels.extra@,
            "persona"@,
            value@,
        ),
{
    labels_are_told(*matcher, *labels);
}

/// A matcher that does not hold names something the envelope does not carry.
pub proof fn a_matcher_fails_only_over_what_it_names(
    matcher: &Matcher,
    source: Source,
    kind: &str,
    labels: &Labels,
)
    requires
        call_ensures(Matcher::matches, (matcher, source, kind, labels), false),
    ensures
        ({
            ||| matcher.source matches Some(named) && named != source
            ||| matcher.kind matches Some(pattern) && !globs(pattern@, kind@)
            ||| matcher.run_id matches Some(value) && !envelope_says(
                labels.run_id,
                labels.extra@,
                "run_id"@,
                value@,
            )
            ||| matcher.node matches Some(value) && !envelope_says(
                labels.node,
                labels.extra@,
                "node"@,
                value@,
            )
            ||| matcher.step matches Some(value) && !envelope_says(
                labels.step,
                labels.extra@,
                "step"@,
                value@,
            )
            ||| matcher.member matches Some(value) && !envelope_says(
                labels.member,
                labels.extra@,
                "member"@,
                value@,
            )
            ||| matcher.persona matches Some(value) && !envelope_says(
                labels.persona,
                labels.extra@,
                "persona"@,
                value@,
            )
        }),
{
    labels_are_told(*matcher, *labels);
}

proof fn labels_are_told(matcher: Matcher, labels: Labels)
    ensures
        matcher.run_id matches Some(value) ==> (crate::event::carried(
            labels,
            "run_id"@,
            labels.run_id,
        ) == Some(value@) <==> envelope_says(labels.run_id, labels.extra@, "run_id"@, value@)),
        matcher.node matches Some(value) ==> (crate::event::carried(labels, "node"@, labels.node)
            == Some(value@) <==> envelope_says(labels.node, labels.extra@, "node"@, value@)),
        matcher.step matches Some(value) ==> (crate::event::carried(labels, "step"@, labels.step)
            == Some(value@) <==> envelope_says(labels.step, labels.extra@, "step"@, value@)),
        matcher.member matches Some(value) ==> (crate::event::carried(
            labels,
            "member"@,
            labels.member,
        ) == Some(value@) <==> envelope_says(labels.member, labels.extra@, "member"@, value@)),
        matcher.persona matches Some(value) ==> (crate::event::carried(
            labels,
            "persona"@,
            labels.persona,
        ) == Some(value@) <==> envelope_says(labels.persona, labels.extra@, "persona"@, value@)),
{
    if let Some(value) = matcher.run_id {
        an_extra_is_its_first_entry(labels.extra@, "run_id"@, value@);
    }
    if let Some(value) = matcher.node {
        an_extra_is_its_first_entry(labels.extra@, "node"@, value@);
    }
    if let Some(value) = matcher.step {
        an_extra_is_its_first_entry(labels.extra@, "step"@, value@);
    }
    if let Some(value) = matcher.member {
        an_extra_is_its_first_entry(labels.extra@, "member"@, value@);
    }
    if let Some(value) = matcher.persona {
        an_extra_is_its_first_entry(labels.extra@, "persona"@, value@);
    }
}

// ---- Patterns ----
/// Whether a text holds no star.
pub open spec fn starless(text: Seq<char>) -> bool {
    forall|i: int| 0 <= i < text.len() ==> #[trigger] text[i] != '*'
}

/// A pattern with no star in it matches itself and nothing else.
pub proof fn a_plain_pattern_is_itself(pattern: &str, text: &str, matched: bool)
    requires
        call_ensures(glob, (pattern, text), matched),
        starless(pattern@),
    ensures
        matched <==> pattern@ == text@,
{
    crate::glob::a_pattern_without_a_star_matches_only_itself(pattern@, text@);
}

/// A pattern with one star matches exactly the texts that begin with what stands before
/// it and end with what stands behind it, the two of them apart.
pub proof fn a_star_stands_for_any_run(
    pattern: &str,
    text: &str,
    matched: bool,
    before: Seq<char>,
    behind: Seq<char>,
)
    requires
        call_ensures(glob, (pattern, text), matched),
        pattern@ == before + seq!['*'] + behind,
        starless(before),
        starless(behind),
    ensures
        matched <==> before.len() + behind.len() <= text@.len() && text@.take(before.len() as int)
            == before && text@.skip(text@.len() - behind.len()) == behind,
{
    a_star_between(before, behind, text@);
}

proof fn a_star_between(before: Seq<char>, behind: Seq<char>, text: Seq<char>)
    requires
        starless(before),
        starless(behind),
    ensures
        globs(before + seq!['*'] + behind, text) <==> before.len() + behind.len() <= text.len()
            && text.take(before.len() as int) == before && text.skip(text.len() - behind.len())
            == behind,
    decreases before.len(),
{
    let pattern = before + seq!['*'] + behind;
    if before.len() == 0 {
        assert(pattern.drop_first() =~= behind);
        assert(text.take(0) =~= before);
        if globs(pattern, text) {
            let run = choose|run: int|
                0 <= run <= text.len() && globs(pattern.drop_first(), #[trigger] text.skip(run));
            crate::glob::a_pattern_without_a_star_matches_only_itself(behind, text.skip(run));
        }
        if behind.len() <= text.len() {
            let run = text.len() - behind.len();
            crate::glob::a_pattern_without_a_star_matches_only_itself(behind, text.skip(run));
        }
    } else if text.len() > 0 {
        let rest = before.drop_first();
        let left = text.drop_first();
        assert(pattern.drop_first() =~= rest + seq!['*'] + behind);
        assert forall|i: int| 0 <= i < rest.len() implies #[trigger] rest[i] != '*' by {
            assert(before[i + 1] != '*');
        }
        a_star_between(rest, behind, left);
        let n = before.len() as int;
        assert(before[0] != '*');
        assert(pattern[0] == before[0]);
        if n + behind.len() <= text.len() {
            assert(text.take(n).drop_first() =~= left.take(n - 1));
            assert(left.skip(left.len() - behind.len()) =~= text.skip(text.len() - behind.len()));
            if text[0] == before[0] && left.take(n - 1) == rest {
                assert(text.take(n) =~= seq![text[0]] + left.take(n - 1));
                assert(before =~= seq![before[0]] + rest);
            }
        }
    }
}

// ---- Filtering ----
/// An envelope is on the stream exactly where no matcher that excludes holds of it and,
/// if any matcher includes, one of them does: exclusion wins, and a filter that includes
/// nothing in particular includes everything.
pub proof fn a_stream_carries_what_its_filter_admits(
    filter: &EventFilter,
    source: Source,
    kind: &str,
    labels: &Labels,
    admitted: bool,
)
    requires
        call_ensures(EventFilter::allows, (filter, source, kind, labels), admitted),
    ensures
        forall|i: int|
            0 <= i < filter.excluded@.len() && #[trigger] call_ensures(
                Matcher::matches,
                (&filter.excluded@[i], source, kind, labels),
                true,
            ) ==> !admitted,
        admitted && filter.included@.len() > 0 ==> exists|i: int|
            0 <= i < filter.included@.len() && (#[trigger] filter.included@[i]).holds(
                source,
                kind@,
                *labels,
            ),
        filter.excluded@.len() == 0 && filter.included@.len() == 0 ==> admitted,
        forall|i: int|
            filter.excluded@.len() == 0 && 0 <= i < filter.included@.len()
                && #[trigger] call_ensures(
                Matcher::matches,
                (&filter.included@[i], source, kind, labels),
                true,
            ) ==> admitted,
        !admitted && filter.excluded@.len() == 0 ==> filter.included@.len() > 0 && forall|i: int|
            0 <= i < filter.included@.len() ==> !(#[trigger] filter.included@[i]).holds(
                source,
                kind@,
                *labels,
            ),
        !admitted && filter.included@.len() == 0 ==> exists|i: int|
            0 <= i < filter.excluded@.len() && (#[trigger] filter.excluded@[i]).holds(
                source,
                kind@,
                *labels,
            ),
{
}

/// A stream filtered to one member carries the envelopes of that member, and of no
/// other.
pub proof fn a_stream_of_one_member_carries_only_its_envelopes(
    filter: &EventFilter,
    source: Source,
    kind: &str,
    labels: &Labels,
    admitted: bool,
    member: Seq<char>,
)
    requires
        call_ensures(EventFilter::allows, (filter, source, kind, labels), admitted),
        filter.included@.len() > 0,
        forall|i: int|
            0 <= i < filter.included@.len() ==> ((#[trigger] filter.included@[i]).member matches Some(
                named,
            ) && named@ == member),
        labels.member is Some,
    ensures
        admitted ==> labels.member->0@ == member,
        labels.member->0@ != member ==> !admitted,
        labels.member->0@ == member && filter.excluded@.len() == 0 && (exists|i: int|
            0 <= i < filter.included@.len() && {
                let matcher = #[trigger] filter.included@[i];
                matcher.source is None && matcher.kind is None && matcher.run_id is None
                    && matcher.node is None && matcher.step is None && matcher.persona is None
            }) ==> admitted,
{
    if labels.member->0@ == member && filter.excluded@.len() == 0 && exists|i: int|
        0 <= i < filter.included@.len() && {
            let matcher = #[trigger] filter.included@[i];
            matcher.source is None && matcher.kind is None && matcher.run_id is None
                && matcher.node is None && matcher.step is None && matcher.persona is None
        } {
        let i = choose|i: int|
            0 <= i < filter.included@.len() && {
                let matcher = #[trigger] filter.included@[i];
                matcher.source is None && matcher.kind is None && matcher.run_id is None
                    && matcher.node is None && matcher.step is None && matcher.persona is None
            };
        assert(filter.included@[i].holds(source, kind@, *labels));
    }
}

// ---- Which filters are usable ----
/// Whether a field, where it is named, says something.
pub open spec fn says_something(field: Option<String>) -> bool {
    field matches Some(text) ==> exists|i: int|
        0 <= i < text@.len() && !white_space(#[trigger] text@[i])
}

/// Whether a matcher can be used: it names at least one field, whichever it is, and
/// everything it names says something.
pub open spec fn usable(matcher: Matcher) -> bool {
    &&& says_something(matcher.kind)
    &&& says_something(matcher.run_id)
    &&& says_something(matcher.node)
    &&& says_something(matcher.step)
    &&& says_something(matcher.member)
    &&& says_something(matcher.persona)
    &&& !(matcher.source is None && matcher.kind is None && matcher.run_id is None
        && matcher.node is None && matcher.step is None && matcher.member is None
        && matcher.persona is None)
}

/// A matcher is refused exactly where it names nothing, or names a field that says
/// nothing: naming one field that says something is enough, whichever field it is.
pub proof fn naming_one_field_is_enough(matcher: &Matcher, outcome: Result<(), String>)
    requires
        call_ensures(Matcher::check, (matcher,), outcome),
    ensures
        outcome is Ok <==> usable(*matcher),
{
}

proof fn every_matcher_is_looked_at(list: Seq<char>, matchers: Seq<Matcher>, upto: nat)
    requires
        upto <= matchers.len(),
    ensures
        crate::event::list_refusal(list, matchers, upto) is None <==> forall|i: int|
            0 <= i < upto ==> usable(#[trigger] matchers[i]),
    decreases upto,
{
    if upto > 0 {
        every_matcher_is_looked_at(list, matchers, (upto - 1) as nat);
        let last = matchers[upto - 1];
        assert(last.refusal() is None <==> usable(last));
    }
}

/// A filter is accepted exactly where every matcher of either list can be used.
pub proof fn a_filter_of_usable_matchers_is_accepted(
    filter: &EventFilter,
    outcome: Result<(), String>,
)
    requires
        call_ensures(EventFilter::validate, (filter,), outcome),
    ensures
        outcome is Ok <==> (forall|i: int|
            0 <= i < filter.included@.len() ==> usable(#[trigger] filter.included@[i])) && (forall|
            i: int,
        |
            0 <= i < filter.excluded@.len() ==> usable(#[trigger] filter.excluded@[i])),
{
    every_matcher_is_looked_at("include"@, filter.included@, filter.included@.len());
    every_matcher_is_looked_at("exclude"@, filter.excluded@, filter.excluded@.len());
}

pub(crate) proof fn a_filter_is_refused_over_a_matcher(filter: EventFilter)
    ensures
        filter.refusal() is None <==> (forall|i: int|
            0 <= i < filter.included@.len() ==> usable(#[trigger] filter.included@[i])) && (forall|
            i: int,
        |
            0 <= i < filter.excluded@.len() ==> usable(#[trigger] filter.excluded@[i])),
{
    every_matcher_is_looked_at("include"@, filter.included@, filter.included@.len());
    every_matcher_is_looked_at("exclude"@, filter.excluded@, filter.excluded@.len());
}

// ---- What an envelope says ----
/// An envelope carries what it was made of and nothing else: the stream, time, kind,
/// payload and evidence it was given, this library as its source, and the reserved
/// labels of its emitter as they are. One that is admitted takes the next number and
/// moves it on by one; one that is held back takes none.
pub proof fn an_envelope_is_what_it_was_made_of<P>(
    emitter: Emitter,
    next: u64,
    ts: Seq<char>,
    kind: EventKind,
    payload: P,
    artifacts: Seq<Artifact>,
    emitted: Emitted<P>,
    after: u64,
)
    requires
        emitter.emits(next, ts, kind, payload, artifacts, emitted, after),
    ensures
        emitted.envelope.v == 1,
        emitted.envelope.source == Source::Agentgraph,
        emitted.envelope.stream@ == emitter.stream_id(),
        emitted.envelope.ts@ == ts,
        emitted.envelope.kind == kind,
        emitted.envelope.payload == payload,
        emitted.envelope.artifacts@ == artifacts,
        emitted.envelope.seq == next,
        emitted.envelope.labels.run_id == emitter.stamp().run_id,
        emitted.envelope.labels.round == emitter.stamp().round,
        emitted.envelope.labels.node == emitter.stamp().node,
        emitted.envelope.labels.step == emitter.stamp().step,
        emitted.envelope.labels.member == emitter.stamp().member,
        emitted.envelope.labels.persona == emitter.stamp().persona,
        emitted.admitted && next < u64::MAX ==> after == next + 1,
        !emitted.admitted ==> after == next,
        emitter.rule().included@.len() == 0 && emitter.rule().excluded@.len() == 0
            ==> emitted.admitted,
        forall|i: int|
            0 <= i < emitter.rule().excluded@.len() && (
            #[trigger] emitter.rule().excluded@[i]).source == Some(Source::Agentgraph)
                && emitter.rule().excluded@[i].kind is None
                && emitter.rule().excluded@[i].run_id is None
                && emitter.rule().excluded@[i].node is None
                && emitter.rule().excluded@[i].step is None
                && emitter.rule().excluded@[i].member is None
                && emitter.rule().excluded@[i].persona is None ==> !emitted.admitted,
{
    let labels = emitted.envelope.labels;
    assert forall|i: int|
        0 <= i < emitter.rule().excluded@.len() && (
        #[trigger] emitter.rule().excluded@[i]).source == Some(Source::Agentgraph)
            && emitter.rule().excluded@[i].kind is None && emitter.rule().excluded@[i].run_id is None
            && emitter.rule().excluded@[i].node is None && emitter.rule().excluded@[i].step is None
            && emitter.rule().excluded@[i].member is None
            && emitter.rule().excluded@[i].persona is None implies !emitted.admitted by {
        assert(emitter.rule().excluded@[i].holds(Source::Agentgraph, kind.wire(), labels));
    }
}

/// Whether a kind is one of a turn's own: the five a transcript is read from.
pub open spec fn of_a_turn(kind: EventKind) -> bool {
    match kind {
        EventKind::TurnStarted
        | EventKind::TurnActivity
        | EventKind::TurnMessage
        | EventKind::TurnCompleted
        | EventKind::TurnInterrupted => true,
        _ => false,
    }
}

/// A conversation is named on the envelopes of a turn and on no other, and every other
/// extra is carried through untouched.
pub proof fn a_conversation_is_named_on_a_turns_envelopes(
    emitter: &Emitter,
    kind: EventKind,
    stamped: Labels,
    key: Seq<char>,
)
    requires
        call_ensures(Emitter::stamp_session, (emitter, kind), stamped),
    ensures
        !of_a_turn(kind) ==> value_at(stamped.extra@, "session"@) is None,
        emitter.stamp().member is None ==> value_at(stamped.extra@, "session"@) is None,
        value_at(stamped.extra@, "session"@) matches Some(value) ==> of_a_turn(kind)
            && value.string() == crate::session::session_of(
            emitter.stream_id(),
            emitter.stamp().member->0@,
        ),
        of_a_turn(kind) && (emitter.stamp().member matches Some(member) && member@.len() > 0
            && emitter.stream_id().len() + member@.len() < 128 && member@[0] != '.')
            ==> value_at(stamped.extra@, "session"@) is Some,
        key != "session"@ ==> value_at(stamped.extra@, key) == value_at(
            emitter.stamp().extra@,
            key,
        ),
        stamped.member == emitter.stamp().member,
{
    if let Some(member) = emitter.stamp().member {
        if member@.len() > 0 && emitter.stream_id().len() + member@.len() < 128 && member@[0]
            != '.' {
            let whole = crate::session::joined(emitter.stream_id(), member@);
            reveal_strlit(".");
            a_label_outlives_its_dots(whole, emitter.stream_id().len() as int + 1);
        }
    }
}

proof fn a_label_outlives_its_dots(text: Seq<char>, at: int)
    requires
        0 <= at < text.len(),
        text[at] != '.',
    ensures
        crate::session::undotted(text).len() > 0,
    decreases text.len(),
{
    if text[0] == '.' {
        a_label_outlives_its_dots(text.drop_first(), at - 1);
    }
}

/// What is stamped stands: a derived emitter keeps the stream and the filter of the one
/// it comes from, says what its own labels say, and elsewhere what that one said.
pub proof fn a_derived_emitter_adds_its_labels(
    emitter: &Emitter,
    labels: Labels,
    derived: Emitter,
    key: Seq<char>,
)
    requires
        call_ensures(Emitter::with_labels, (emitter, labels), derived),
    ensures
        derived.stream_id() == emitter.stream_id(),
        derived.rule().included@ == emitter.rule().included@,
        derived.rule().excluded@ == emitter.rule().excluded@,
        labels.member is Some ==> derived.stamp().member == labels.member,
        labels.member is None ==> derived.stamp().member == emitter.stamp().member,
        labels.run_id is Some ==> derived.stamp().run_id == labels.run_id,
        labels.run_id is None ==> derived.stamp().run_id == emitter.stamp().run_id,
        labels.round is Some ==> derived.stamp().round == labels.round,
        labels.round is None ==> derived.stamp().round == emitter.stamp().round,
        labels.node is Some ==> derived.stamp().node == labels.node,
        labels.node is None ==> derived.stamp().node == emitter.stamp().node,
        labels.step is Some ==> derived.stamp().step == labels.step,
        labels.step is None ==> derived.stamp().step == emitter.stamp().step,
        labels.persona is Some ==> derived.stamp().persona == labels.persona,
        labels.persona is None ==> derived.stamp().persona == emitter.stamp().persona,
        value_at(labels.extra@, key) is Some ==> value_at(derived.stamp().extra@, key) == value_at(
            labels.extra@,
            key,
        ),
        value_at(labels.extra@, key) is None ==> value_at(derived.stamp().extra@, key) == value_at(
            emitter.stamp().extra@,
            key,
        ),
{
}

/// A filtered emitter keeps its stream and its labels, and puts on the stream what the
/// filter admits.
pub proof fn a_filtered_emitter_keeps_its_labels(
    emitter: &Emitter,
    filter: EventFilter,
    filtered: Emitter,
)
    requires
        call_ensures(Emitter::with_filter, (emitter, filter), filtered),
    ensures
        filtered.stream_id() == emitter.stream_id(),
        filtered.rule() == filter,
        filtered.stamp().member == emitter.stamp().member,
        filtered.stamp().run_id == emitter.stamp().run_id,
        filtered.stamp().round == emitter.stamp().round,
        filtered.stamp().node == emitter.stamp().node,
        filtered.stamp().step == emitter.stamp().step,
        filtered.stamp().persona == emitter.stamp().persona,
        filtered.stamp().extra@ == emitter.stamp().extra@,
{
}

/// The sources are spelled as their libraries are called.
pub proof fn a_source_is_spelled_by_its_library(source: Source, text: &'static str)
    requires
        call_ensures(Source::as_str, (source,), text),
    ensures
        match source {
            Source::Agentgraph => text@ == "agentgraph"@,
            Source::Vcs => text@ == "vcs"@,
            Source::Pipeline => text@ == "pipeline"@,
        },
{
}

// ---- How an event is told ----
/// Whether a name is the one a kind goes by on the wire.
pub open spec fn goes_by(kind: EventKind, name: Seq<char>) -> bool {
    match kind {
        EventKind::GraphStarted => name == "graph-started"@,
        EventKind::GraphSettled => name == "graph-settled"@,
        EventKind::MemberStarted => name == "member-started"@,
        EventKind::MemberHeartbeat => name == "member-heartbeat"@,
        EventKind::MemberDied => name == "member-died"@,
        EventKind::MemberSettled => name == "member-settled"@,
        EventKind::PreTurnContext => name == "pre-turn-context"@,
        EventKind::TurnStarted => name == "turn-started"@,
        EventKind::TurnActivity => name == "turn-activity"@,
        EventKind::TurnMessage => name == "turn-message"@,
        EventKind::TurnCompleted => name == "turn-completed"@,
        EventKind::TurnInterrupted => name == "turn-interrupted"@,
        EventKind::FallbackAdvanced => name == "fallback-advanced"@,
        EventKind::OneharnessSession => name == "oneharness-session"@,
        EventKind::CronFired => name == "cron-fired"@,
        EventKind::CronReset => name == "cron-reset"@,
    }
}

/// A kind is told by its own name, which is no other kind's.
pub proof fn a_kind_goes_by_its_own_name(
    kind: EventKind,
    name: &'static str,
    other: EventKind,
    different: &'static str,
)
    requires
        call_ensures(EventKind::as_str, (kind,), name),
        call_ensures(EventKind::as_str, (other,), different),
    ensures
        goes_by(kind, name@),
        name@ == different@ ==> kind == other,
{
    if name@ == different@ {
        crate::event::kinds_are_told_apart_on_the_wire(kind, other);
    }
}

/// The kinds that name a conversation are those of a turn: nothing of a member, a graph, a
/// chain or a schedule does.
pub proof fn only_a_turn_names_a_conversation(kind: EventKind, answer: bool, name: &'static str)
    requires
        call_ensures(EventKind::carries_session, (kind,), answer),
        call_ensures(EventKind::as_str, (kind,), name),
    ensures
        answer <==> name@.len() > 5 && name@.take(5) == "turn-"@,
{
    reveal_strlit("turn-");
    reveal_strlit("graph-started");
    reveal_strlit("graph-settled");
    reveal_strlit("member-started");
    reveal_strlit("member-heartbeat");
    reveal_strlit("member-died");
    reveal_strlit("member-settled");
    reveal_strlit("pre-turn-context");
    reveal_strlit("turn-started");
    reveal_strlit("turn-activity");
    reveal_strlit("turn-message");
    reveal_strlit("turn-completed");
    reveal_strlit("turn-interrupted");
    reveal_strlit("fallback-advanced");
    reveal_strlit("oneharness-session");
    reveal_strlit("cron-fired");
    reveal_strlit("cron-reset");
    assert("turn-"@[0] == 't');
    assert(name@.take(5)[0] == name@[0]);
    if kind.names_session() {
        assert(name@.take(5) =~= "turn-"@);
    }
}

} // verus!
