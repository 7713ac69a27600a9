//! A two-party member: what its conversation publishes, and how it ends.
//!
//! onejudge drives the conversation. What is here is everything around it: each
//! live observation as the event that carries it, what a run's telemetry
//! attributes, and the verdict on a member whose engine answered — a producer's
//! classification of a failure is read against the record the harness wrote beside
//! it before it becomes the cause of a death.

use vstd::prelude::*;
use vstd::string::StringExecFns;

use crate::anchor::{
    anchored_path, anchored_path_of, components, join_path, seen, take_components, under,
};
use crate::bound::{bound_head, bytes_of, head, MAX_PAYLOAD_TEXT_BYTES};
use crate::control::{Address, Turn};
use crate::event::{Artifact, EventKind, ONEHARNESS_SESSION_ARTIFACT};
use crate::json_read::{json_fault, json_node, NodeText};
use crate::location::{
    in_store, parent, parent_of, project_of, session_in, store_of, Location,
};
use crate::member::{
    activity, died, settle, tells_of_activity, tells_of_death, tells_of_settle, Ending, Rule, Verdict,
};
use crate::payload::{
    classified, no_usage, Cause, Emission, FallbackAdvanced, OneharnessSession, Party, Payload, Role,
    TurnCompleted, TurnMessage, TurnStarted, Usage,
};
use crate::text::{
    copy_text, quote, quoted, same, signed_decimal, text_of, texts_of, write_signed,
};

verus! {

// ---- What a conversation publishes ----
/// One thing a conversation was observed to do.
#[derive(Debug, PartialEq, Eq)]
pub enum Observation {
    /// A turn began, naming the message it is answering.
    TurnOpened {
        /// The turn's index.
        turn: u64,
        /// Who is about to speak.
        role: Party,
        /// The message it answers.
        instruction: String,
        /// When it began.
        started_at: String,
    },
    /// A tool was called, or answered.
    Tool {
        /// Which of the two.
        kind: String,
        /// The tool.
        name: Option<String>,
        /// What summarises its structured input.
        detail: String,
        /// What it returned.
        output: Option<String>,
        /// The call's identity.
        tool_call_id: Option<String>,
        /// Its position within the turn.
        index: u64,
    },
    /// A party's own words.
    Message {
        /// The turn they belong to.
        turn: u64,
        /// Who is speaking.
        role: Party,
        /// The words.
        text: String,
    },
    /// A turn ended.
    TurnClosed {
        /// The turn that ended.
        turn: u64,
        /// Who spoke.
        role: Party,
        /// What it consumed, when the provider said.
        usage: Option<Usage>,
        /// When it began.
        started_at: String,
        /// When it ended.
        finished_at: String,
    },
}

/// Whether an event is a turn beginning, with its instruction bounded from the
/// front.
pub open spec fn tells_of_opening(
    emission: Emission,
    turn: u64,
    role: Party,
    instruction: Seq<char>,
    started_at: Seq<char>,
) -> bool {
    &&& emission.kind == EventKind::TurnStarted
    &&& emission.artifacts@.len() == 0
    &&& emission.payload matches Payload::TurnStarted(started) && started.turn == turn
        && started.role@ == role.wire() && started.instruction@ == head(
        instruction,
        MAX_PAYLOAD_TEXT_BYTES as nat,
    ) && started.instruction_truncated == (bytes_of(instruction) > MAX_PAYLOAD_TEXT_BYTES)
        && started.started_at@ == started_at
}

/// Whether an event is a party's own words, bounded from the front.
pub open spec fn tells_of_words(emission: Emission, turn: u64, role: Party, text: Seq<char>) -> bool {
    &&& emission.kind == EventKind::TurnMessage
    &&& emission.artifacts@.len() == 0
    &&& emission.payload matches Payload::TurnMessage(message) && message.turn == turn
        && message.role@ == role.wire() && message.text@ == head(
        text,
        MAX_PAYLOAD_TEXT_BYTES as nat,
    ) && message.truncated == (bytes_of(text) > MAX_PAYLOAD_TEXT_BYTES)
}

/// Whether an event is a turn ending.
pub open spec fn tells_of_close(
    emission: Emission,
    turn: u64,
    role: Party,
    usage: Usage,
    started_at: Seq<char>,
    finished_at: Seq<char>,
) -> bool {
    &&& emission.kind == EventKind::TurnCompleted
    &&& emission.artifacts@.len() == 0
    &&& emission.payload matches Payload::TurnCompleted(completed) && completed.turn == turn
        && completed.role@ == role.wire() && completed.usage == usage && completed.started_at@
        == started_at && completed.finished_at@ == finished_at
}

/// A turn beginning.
pub fn opening(turn: u64, role: Party, instruction: &str, started_at: &str) -> (emission: Emission)
    ensures
        tells_of_opening(emission, turn, role, instruction@, started_at@),
{
    let (kept, cut) = bound_head(instruction);
    let payload = TurnStarted {
        turn,
        role: String::from_str(role.as_str()),
        instruction: kept,
        instruction_truncated: cut,
        started_at: String::from_str(started_at),
    };
    Emission {
        kind: EventKind::TurnStarted,
        payload: Payload::TurnStarted(payload),
        artifacts: Vec::new(),
    }
}

/// A turn ending.
pub fn close(turn: u64, role: Party, usage: Usage, started_at: &str, finished_at: &str) -> (emission:
    Emission)
    ensures
        tells_of_close(emission, turn, role, usage, started_at@, finished_at@),
{
    let payload = TurnCompleted {
        turn,
        role: String::from_str(role.as_str()),
        usage,
        started_at: String::from_str(started_at),
        finished_at: String::from_str(finished_at),
    };
    Emission {
        kind: EventKind::TurnCompleted,
        payload: Payload::TurnCompleted(payload),
        artifacts: Vec::new(),
    }
}

/// What a turn consumed, or nothing at all where the provider said nothing.
pub open spec fn usage_or_none(usage: Option<Usage>) -> Usage {
    match usage {
        Some(usage) => usage,
        None => no_usage(),
    }
}

/// Whether an event carries an observation.
pub open spec fn carries(emission: Emission, observation: Observation) -> bool {
    match observation {
        Observation::TurnOpened { turn, role, instruction, started_at } => tells_of_opening(
            emission,
            turn,
            role,
            instruction@,
            started_at@,
        ),
        Observation::Tool { kind, name, detail, output, tool_call_id, index } => tells_of_activity(
            emission,
            kind@,
            name,
            detail@,
            text_of(output),
            tool_call_id,
            index,
        ),
        Observation::Message { turn, role, text } => tells_of_words(emission, turn, role, text@),
        Observation::TurnClosed { turn, role, usage, started_at, finished_at } => tells_of_close(
            emission,
            turn,
            role,
            usage_or_none(usage),
            started_at@,
            finished_at@,
        ),
    }
}

/// The event that carries one live observation. Every observation is published,
/// and nothing is dropped for being unnamed.
pub fn ingest(observation: &Observation) -> (emission: Emission)
    ensures
        carries(emission, *observation),
{
    match observation {
        Observation::TurnOpened { turn, role, instruction, started_at } => opening(
            *turn,
            *role,
            instruction.as_str(),
            started_at.as_str(),
        ),
        Observation::Tool { kind, name, detail, output, tool_call_id, index } => activity(
            kind.as_str(),
            name,
            detail.as_str(),
            output,
            tool_call_id,
            *index,
        ),
        Observation::Message { turn, role, text } => {
            let (kept, cut) = bound_head(text.as_str());
            let payload = TurnMessage {
                turn: *turn,
                role: String::from_str(role.as_str()),
                text: kept,
                truncated: cut,
            };
            Emission {
                kind: EventKind::TurnMessage,
                payload: Payload::TurnMessage(payload),
                artifacts: Vec::new(),
            }
        },
        Observation::TurnClosed { turn, role, usage, started_at, finished_at } => {
            let usage = match usage {
                Some(usage) => *usage,
                None => Usage::default(),
            };
            close(*turn, *role, usage, started_at.as_str(), finished_at.as_str())
        },
    }
}

/// The file a conversation waits for between two turns, and the file that says it
/// got there; none but on the close of the supervisor's turn, which is the gap
/// before the next turn of the worker opens.
pub fn fixture_hold(observation: &Observation, named: &Option<String>) -> (hold: Option<
    (String, String),
>)
    ensures
        match (*observation, *named) {
            (Observation::TurnClosed { role: Party::User, .. }, Some(path)) => hold matches Some(
                found,
            ) && found.0@ == path@ && found.1@ == path@ + ".entered"@,
            _ => hold is None,
        },
{
    match (observation, named) {
        (Observation::TurnClosed { role: Party::User, .. }, Some(path)) => {
            let mut entered = path.clone();
            entered.append(".entered");
            Some((path.clone(), entered))
        },
        _ => None,
    }
}

// ---- What a run's telemetry attributes ----
/// One candidate a chain stepped past, and why.
#[derive(Debug, PartialEq, Eq)]
pub struct FellThrough {
    /// The identity.
    pub harness: String,
    /// oneharness's classification.
    pub reason: String,
}

/// The record of one candidate's attempt at a turn.
#[derive(Debug, PartialEq, Eq)]
pub struct Candidate {
    /// The identity, by the composed id that reproduces it.
    pub harness_id: String,
    /// oneharness's own status for the attempt.
    pub status: String,
    /// What the process exited.
    pub exit_code: Option<i32>,
    /// Whether it is the one that ran.
    pub ran: bool,
    /// oneharness's own name for a failure.
    pub failure_kind: Option<String>,
    /// What the attempt was billed.
    pub usage: Option<Usage>,
    /// That accounting, as JSON.
    pub usage_text: Option<String>,
    /// The harness's own continuation id.
    pub session_id: Option<String>,
    /// The history record it wrote.
    pub history_id: Option<String>,
}

/// What one invocation of a side's chain attributes.
#[derive(Debug, PartialEq, Eq)]
pub struct Attribution {
    /// Which side.
    pub role: Role,
    /// Which turn.
    pub turn: u64,
    /// The candidates stepped past.
    pub fell_through: Vec<FellThrough>,
    /// The candidates attempted.
    pub candidates: Vec<Candidate>,
    /// Where the conversation was written down.
    pub history_file: Option<String>,
    /// How many bytes of it there are; none for a file that cannot be read.
    pub history_bytes: u64,
}

/// What a run attributes, in the order of its invocations.
#[derive(Debug, PartialEq, Eq)]
pub struct Telemetry {
    /// One for each invocation.
    pub attribution: Vec<Attribution>,
}

/// One thing an attribution tells.
pub enum Told {
    /// A chain moved past a candidate.
    Advanced {
        /// The identity.
        identity: Seq<char>,
        /// Why.
        reason: Seq<char>,
        /// Which side's chain.
        side: Option<Role>,
        /// On which turn.
        on: Option<u64>,
    },
    /// A conversation was written down.
    Session {
        /// By which side.
        role: Role,
        /// On which turn.
        turn: u64,
        /// By which identity.
        identity: Seq<char>,
        /// Under which continuation id.
        session_id: Option<Seq<char>>,
        /// In which record.
        history_id: Seq<char>,
        /// In which file.
        file: Seq<char>,
        /// Of how many bytes.
        bytes: u64,
    },
}

/// Whether an event tells that.
pub open spec fn tells(emission: Emission, told: Told) -> bool {
    match told {
        Told::Advanced { identity, reason, side, on } => {
            &&& emission.kind == EventKind::FallbackAdvanced
            &&& emission.artifacts@.len() == 0
            &&& emission.payload matches Payload::FallbackAdvanced(advanced) && advanced.identity@
                == identity && advanced.reason@ == reason && advanced.role == side && advanced.turn
                == on
        },
        Told::Session { role, turn, identity, session_id, history_id, file, bytes } => {
            &&& emission.kind == EventKind::OneharnessSession
            &&& emission.payload matches Payload::OneharnessSession(session) && session.role == role
                && session.turn == turn && session.identity@ == identity && text_of(
                session.session_id,
            ) == session_id && session.history_id@ == history_id && session.history_dir@
                == store_of(file) && session.history_project@ == project_of(file)
                && session.history_session@ == session_in(file)
            &&& emission.artifacts@.len() == 1
            &&& emission.artifacts@[0].id@ == history_id
            &&& emission.artifacts@[0].kind@ == ONEHARNESS_SESSION_ARTIFACT@
            &&& emission.artifacts@[0].bytes == bytes
        },
    }
}

/// Whether the events tell exactly those things, in order.
pub open spec fn tell_all(emissions: Seq<Emission>, told: Seq<Told>) -> bool {
    &&& emissions.len() == told.len()
    &&& forall|i: int| 0 <= i < told.len() ==> tells(#[trigger] emissions[i], told[i])
}

/// What a chain's first `upto` steps tell.
pub open spec fn advances_of(
    fell_through: Seq<FellThrough>,
    role: Option<Role>,
    turn: Option<u64>,
    upto: nat,
) -> Seq<Told> {
    Seq::new(
        upto,
        |i: int|
            Told::Advanced {
                identity: fell_through[i].harness@,
                reason: fell_through[i].reason@,
                side: role,
                on: turn,
            },
    )
}

/// Where the first candidate that ran is, from `at` on; the length of the list
/// when none did.
pub open spec fn first_ran(candidates: Seq<Candidate>, at: int) -> int
    decreases candidates.len() - at,
{
    if at >= candidates.len() || candidates[at].ran {
        at
    } else {
        first_ran(candidates, at + 1)
    }
}

/// Where one invocation's conversation was written down: nothing for one that
/// names no file in the store, in which nothing ran, or whose candidate wrote no
/// record.
pub open spec fn pointer_of(attribution: Attribution) -> Seq<Told> {
    let at = first_ran(attribution.candidates@, 0);
    if attribution.history_file is Some && in_store(attribution.history_file->0@) && at
        < attribution.candidates@.len() && attribution.candidates@[at].history_id is Some {
        let ran = attribution.candidates@[at];
        seq![
            Told::Session {
                role: attribution.role,
                turn: attribution.turn,
                identity: ran.harness_id@,
                session_id: text_of(ran.session_id),
                history_id: ran.history_id->0@,
                file: attribution.history_file->0@,
                bytes: attribution.history_bytes,
            },
        ]
    } else {
        seq![]
    }
}

/// What one attribution tells: the candidates its chain stepped past, then where
/// its conversation was written down.
pub open spec fn attribution_told(attribution: Attribution) -> Seq<Told> {
    advances_of(
        attribution.fell_through@,
        Some(attribution.role),
        Some(attribution.turn),
        attribution.fell_through@.len(),
    ) + pointer_of(attribution)
}

/// What the first `upto` attributions tell.
pub open spec fn attributions_told(attributions: Seq<Attribution>, upto: nat) -> Seq<Told>
    decreases upto,
{
    if upto == 0 {
        seq![]
    } else {
        attributions_told(attributions, (upto - 1) as nat) + attribution_told(
            attributions[upto - 1],
        )
    }
}

/// What a run's telemetry tells.
pub open spec fn telemetry_told(telemetry: Option<Telemetry>) -> Seq<Told> {
    match telemetry {
        Some(telemetry) => attributions_told(
            telemetry.attribution@,
            telemetry.attribution@.len(),
        ),
        None => seq![],
    }
}

/// Publish every candidate of a chain that was stepped past.
pub fn advance(
    fell_through: &Vec<FellThrough>,
    role: Option<Role>,
    turn: Option<u64>,
    emissions: &mut Vec<Emission>,
)
    ensures
        final(emissions)@.len() == old(emissions)@.len() + fell_through@.len(),
        forall|i: int|
            0 <= i < old(emissions)@.len() ==> #[trigger] final(emissions)@[i] == old(
                emissions,
            )@[i],
        forall|i: int|
            0 <= i < fell_through@.len() ==> tells(
                #[trigger] final(emissions)@[old(emissions)@.len() + i],
                advances_of(fell_through@, role, turn, fell_through@.len())[i],
            ),
{
    let ghost was = emissions@;
    let mut at: usize = 0;
    while at < fell_through.len()
        invariant
            at <= fell_through@.len(),
            emissions@.len() == was.len() + at,
            forall|i: int| 0 <= i < was.len() ==> #[trigger] emissions@[i] == was[i],
            forall|i: int|
                0 <= i < at ==> tells(
                    #[trigger] emissions@[was.len() + i],
                    advances_of(fell_through@, role, turn, fell_through@.len())[i],
                ),
        decreases fell_through@.len() - at,
    {
        let ghost before = emissions@;
        let payload = FallbackAdvanced {
            identity: fell_through[at].harness.clone(),
            reason: fell_through[at].reason.clone(),
            role,
            turn,
        };
        let emission = Emission {
            kind: EventKind::FallbackAdvanced,
            payload: Payload::FallbackAdvanced(payload),
            artifacts: Vec::new(),
        };
        emissions.push(emission);
        proof {
            assert forall|i: int| 0 <= i < at + 1 implies tells(
                #[trigger] emissions@[was.len() + i],
                advances_of(fell_through@, role, turn, fell_through@.len())[i],
            ) by {
                if i < at {
                    assert(emissions@[was.len() + i] == before[was.len() + i]);
                }
            }
        }
        at = at + 1;
    }
}

fn find_ran(candidates: &Vec<Candidate>) -> (found: Option<usize>)
    ensures
        match found {
            Some(at) => at == first_ran(candidates@, 0) && at < candidates@.len(),
            None => first_ran(candidates@, 0) == candidates@.len(),
        },
{
    let mut at: usize = 0;
    while at < candidates.len()
        invariant
            at <= candidates@.len(),
            first_ran(candidates@, 0) == first_ran(candidates@, at as int),
        decreases candidates@.len() - at,
    {
        if candidates[at].ran {
            return Some(at);
        }
        at = at + 1;
    }
    None
}

/// Where one invocation's conversation was written down, and how much of it there
/// is.
///
/// The id comes from the candidate that ran: the others' records are attempts.
pub fn session_pointer(attribution: &Attribution) -> (pointer: Option<Emission>)
    ensures
        match pointer {
            Some(emission) => tell_all(seq![emission], pointer_of(*attribution)),
            None => pointer_of(*attribution).len() == 0,
        },
{
    let file = match &attribution.history_file {
        Some(file) => file,
        None => return None,
    };
    let location = match Location::of(file.as_str()) {
        Some(location) => location,
        None => return None,
    };
    let at: usize = match find_ran(&attribution.candidates) {
        Some(at) => at,
        None => return None,
    };
    let ran = &attribution.candidates[at];
    let history_id = match &ran.history_id {
        Some(history_id) => history_id,
        None => return None,
    };
    let session = OneharnessSession {
        role: attribution.role,
        turn: attribution.turn,
        identity: ran.harness_id.clone(),
        session_id: copy_text(&ran.session_id),
        history_id: history_id.clone(),
        history_dir: String::from_str(location.dir()),
        history_project: String::from_str(location.project()),
        history_session: String::from_str(location.session()),
    };
    let mut artifacts: Vec<Artifact> = Vec::new();
    artifacts.push(
        Artifact {
            id: history_id.clone(),
            kind: String::from_str(ONEHARNESS_SESSION_ARTIFACT),
            bytes: attribution.history_bytes,
        },
    );
    Some(
        Emission {
            kind: EventKind::OneharnessSession,
            payload: Payload::OneharnessSession(session),
            artifacts,
        },
    )
}

/// Publish what a run's telemetry attributes: every candidate its chains stepped
/// past, and the conversation each invocation wrote down.
pub fn publish_attribution(telemetry: &Option<Telemetry>) -> (emissions: Vec<Emission>)
    ensures
        tell_all(emissions@, telemetry_told(*telemetry)),
{
    let mut emissions: Vec<Emission> = Vec::new();
    let attributions = match telemetry {
        Some(telemetry) => &telemetry.attribution,
        None => return emissions,
    };
    let mut at: usize = 0;
    while at < attributions.len()
        invariant
            at <= attributions@.len(),
            tell_all(emissions@, attributions_told(attributions@, at as nat)),
        decreases attributions@.len() - at,
    {
        let attribution = &attributions[at];
        let ghost before = emissions@;
        let ghost told = attributions_told(attributions@, at as nat);
        let ghost more = attribution_told(*attribution);
        let ghost steps = advances_of(
            attribution.fell_through@,
            Some(attribution.role),
            Some(attribution.turn),
            attribution.fell_through@.len(),
        );
        advance(
            &attribution.fell_through,
            Some(attribution.role),
            Some(attribution.turn),
            &mut emissions,
        );
        let ghost advanced = emissions@;
        proof {
            assert forall|i: int| 0 <= i < (told + steps).len() implies tells(
                #[trigger] advanced[i],
                (told + steps)[i],
            ) by {
                if i < told.len() {
                    assert(advanced[i] == before[i]);
                } else {
                    assert(tells(advanced[before.len() + (i - told.len())], steps[i - told.len()]));
                }
            }
        }
        let pointer = session_pointer(attribution);
        if let Some(emission) = pointer {
            let ghost last = emission;
            emissions.push(emission);
            proof {
                let pointed = pointer_of(*attribution);
                assert(seq![last][0] == last);
                assert(tells(last, pointed[0]));
                assert(told + more =~= (told + steps).push(pointed[0]));
                assert forall|i: int| 0 <= i < (told + more).len() implies tells(
                    #[trigger] emissions@[i],
                    (told + more)[i],
                ) by {
                    if i < advanced.len() {
                        assert(emissions@[i] == advanced[i]);
                    }
                }
            }
        } else {
            proof {
                assert(told + more =~= told + steps);
            }
        }
        at = at + 1;
    }
    emissions
}

// ---- How a member ends ----
/// Where the last attribution that names any candidate is, among the first `upto`;
/// -1 when none does.
pub open spec fn last_attempted(attributions: Seq<Attribution>, upto: nat) -> int
    decreases upto,
{
    if upto == 0 {
        -1
    } else if attributions[upto - 1].candidates@.len() > 0 {
        upto - 1
    } else {
        last_attempted(attributions, (upto - 1) as nat)
    }
}

/// The harness record for the invocation a failure was classified on: of the last
/// invocation that attempted anything, the candidate that ran, or the last one
/// attempted when none did.
pub open spec fn record_of(telemetry: Option<Telemetry>) -> Option<Candidate> {
    match telemetry {
        None => None,
        Some(telemetry) => {
            let attributions = telemetry.attribution@;
            let at = last_attempted(attributions, attributions.len());
            if at < 0 {
                None
            } else {
                let candidates = attributions[at].candidates@;
                let ran = first_ran(candidates, 0);
                Some(
                    if ran < candidates.len() {
                        candidates[ran]
                    } else {
                        candidates.last()
                    },
                )
            }
        },
    }
}

/// The harness record for the invocation a failure was classified on.
pub fn turn_record(telemetry: &Option<Telemetry>) -> (record: Option<&Candidate>)
    ensures
        match record_of(*telemetry) {
            Some(candidate) => record == Some(&candidate),
            None => record is None,
        },
{
    let attributions = match telemetry {
        Some(telemetry) => &telemetry.attribution,
        None => return None,
    };
    let mut end: usize = attributions.len();
    while end > 0
        invariant
            end <= attributions@.len(),
            last_attempted(attributions@, attributions@.len()) == last_attempted(
                attributions@,
                end as nat,
            ),
            *telemetry matches Some(found) && found.attribution@ == attributions@,
        decreases end,
    {
        let candidates = &attributions[end - 1].candidates;
        if candidates.len() > 0 {
            return match find_ran(candidates) {
                Some(at) => Some(&candidates[at]),
                None => Some(&candidates[candidates.len() - 1]),
            };
        }
        end = end - 1;
    }
    None
}

/// The record's own three facts.
pub open spec fn described(record: Candidate) -> Seq<char> {
    let code = match record.exit_code {
        Some(code) => signed_decimal(code as int),
        None => "none"@,
    };
    let usage = match record.usage_text {
        Some(text) => text@,
        None => "none"@,
    };
    "the harness's own record for that turn says status "@ + record.status@ + ", exit code "@ + code
        + ", usage "@ + usage
}

/// The record's own three facts, in the words a reader needs beside a
/// classification: what oneharness called the attempt, what the process exited,
/// and what it was billed.
pub fn describe(record: &Candidate) -> (text: String)
    ensures
        text@ == described(*record),
{
    let mut text = String::from_str("the harness's own record for that turn says status ");
    text.append(record.status.as_str());
    text.append(", exit code ");
    match record.exit_code {
        Some(code) => {
            text.append(write_signed(code).as_str());
        },
        None => {
            text.append("none");
        },
    }
    text.append(", usage ");
    match &record.usage_text {
        Some(usage) => {
            text.append(usage.as_str());
        },
        None => {
            text.append("none");
        },
    }
    text
}

/// How a producer's classification stands against the harness record beside it.
#[derive(Debug, PartialEq, Eq)]
pub enum Reconciled {
    /// The record describes a turn that ran to completion and was billed, so there
    /// is no death to publish. Carries the record's own words.
    Completed(String),
    /// The record and the classification disagree some other way. The death is
    /// published with its cause unchanged, and names the record too.
    Disputed(String),
    /// Nothing in the record contradicts the classification, or there is none.
    Unchallenged,
}

/// Whether a record describes a turn somebody paid for and got.
pub open spec fn completed_and_billed(record: Candidate) -> bool {
    &&& record.status@ == "ok"@
    &&& record.exit_code == Some(0i32)
    &&& record.usage matches Some(usage) && usage.billed()
}

/// Whether a record names the failure it was classified as.
pub open spec fn names_cause(record: Candidate, cause: Cause) -> bool {
    record.failure_kind matches Some(kind) && classified(kind@) == cause
}

/// Whether that is how a classification stands against a record.
pub open spec fn reconciles(reconciled: Reconciled, cause: Cause, record: Option<Candidate>) -> bool {
    match record {
        None => reconciled is Unchallenged,
        Some(record) => if completed_and_billed(record) {
            reconciled matches Reconciled::Completed(text) && text@ == described(record)
        } else if names_cause(record, cause) {
            reconciled is Unchallenged
        } else {
            reconciled matches Reconciled::Disputed(text) && text@ == described(record)
        },
    }
}

/// Judge one classification against the harness record for the same turn.
pub fn reconcile(cause: Cause, record: Option<&Candidate>) -> (reconciled: Reconciled)
    ensures
        reconciles(
            reconciled,
            cause,
            match record {
                Some(record) => Some(*record),
                None => None,
            },
        ),
{
    let record = match record {
        Some(record) => record,
        None => return Reconciled::Unchallenged,
    };
    let exited_zero = match record.exit_code {
        Some(code) => code == 0,
        None => false,
    };
    let billed = match &record.usage {
        Some(usage) => usage.reports_billed_work(),
        None => false,
    };
    if same(record.status.as_str(), "ok") && exited_zero && billed {
        return Reconciled::Completed(describe(record));
    }
    let named = match &record.failure_kind {
        Some(kind) => Cause::classify(kind.as_str()) == cause,
        None => false,
    };
    if named {
        return Reconciled::Unchallenged;
    }
    Reconciled::Disputed(describe(record))
}

/// Why a run did not complete, as far as its cause goes.
#[derive(Debug, Clone, Copy, PartialEq, Eq, Structural)]
pub enum Failure {
    /// The engine failed, with the category it gave the failure.
    Engine(Option<Cause>),
    /// A config or IO failure: no provider ran.
    Other,
}

/// The classified cause of a failed run.
pub fn provider_cause(failure: Failure) -> (cause: Cause)
    ensures
        cause == match failure {
            Failure::Engine(Some(cause)) => cause,
            _ => Cause::Unclassified,
        },
{
    match failure {
        Failure::Engine(Some(cause)) => cause,
        _ => Cause::Unclassified,
    }
}

/// What a member's engine answered.
#[derive(Debug, PartialEq, Eq)]
pub enum Answer {
    /// The conversation ran to a report.
    Reported {
        /// What the run attributes.
        telemetry: Option<Telemetry>,
        /// Where the report says the turn was addressed.
        control: Option<Address>,
        /// Why the report says it could not be.
        control_unavailable: Option<String>,
        /// What onejudge exits with on this report: zero for a completed task.
        exit_code: i32,
    },
    /// The conversation failed.
    Failed {
        /// What the run attributes.
        telemetry: Option<Telemetry>,
        /// The failure's category.
        failure: Failure,
        /// What it said.
        error: String,
    },
}

/// Whether `turn` is what a report says of a member's turn control.
pub open spec fn records_control(
    turn: Turn,
    control: Option<Address>,
    unavailable: Option<String>,
) -> bool {
    match control {
        Some(address) => turn == (Turn::Open { address }),
        None => turn matches Turn::Unavailable { reason } && reason@ == match unavailable {
            Some(why) => why@,
            None => "this member's report named no controllable turn"@,
        },
    }
}

/// What a member's report says of its turn control: this is the first moment the
/// process learns whether the ask was honored at all.
pub fn record_control(control: Option<Address>, unavailable: Option<String>) -> (turn: Turn)
    ensures
        records_control(turn, control, unavailable),
{
    match control {
        Some(address) => Turn::Open { address },
        None => Turn::Unavailable {
            reason: match unavailable {
                Some(reason) => reason,
                None => String::from_str("this member's report named no controllable turn"),
            },
        },
    }
}

/// The handle the agent side's turns are threaded under.
pub fn agent_session(member_session: &str) -> (handle: String)
    ensures
        handle@ == member_session@ + "-skill"@,
{
    let mut handle = String::from_str(member_session);
    handle.append("-skill");
    handle
}

/// The directory a conversation works in: a config with no skill directory of its
/// own is anchored to the member's worktree by name.
pub fn conversation_dir(skill_dir: String, worktree: &str) -> (dir: String)
    ensures
        dir@ == if skill_dir@ == "."@ {
            worktree@
        } else {
            skill_dir@
        },
{
    if same(skill_dir.as_str(), ".") {
        String::from_str(worktree)
    } else {
        skill_dir
    }
}

/// Where a config's own `skill:` is: read against the directory the config is in.
pub fn skill_dir(here: &str, config: &str, named: &str) -> (dir: String)
    ensures
        dir@ == anchored_path_of(here@, parent_of(config@), named@),
{
    match parent(config) {
        Some(base) => anchored_path(here, Some(base.as_str()), named),
        None => anchored_path(here, None, named),
    }
}

/// The `skill:` a conversation's config names, if it names one, or why the text is no
/// such config.
pub uninterp spec fn skill_named(text: Seq<char>) -> Result<Option<Seq<char>>, Seq<char>>;

/// `onejudge::cli::Config::from_yaml`: the `skill` of the config that a YAML text
/// holds, as its path is spelled, or the parser's own words on a text that holds
/// none. Both are a function of the text alone.
#[verifier::external_body]
fn read_skill(text: &str) -> (skill: Result<Option<String>, String>)
    ensures
        match skill_named(text@) {
            Ok(Some(wanted)) => skill matches Ok(Some(named)) && named@ == wanted,
            Ok(None) => skill matches Ok(None),
            Err(why) => skill matches Err(said) && said@ == why,
        },
{
    match onejudge::cli::Config::from_yaml(text) {
        Ok(config) => Ok(config.skill.map(|path| path.display().to_string())),
        Err(err) => Err(err.to_string()),
    }
}

/// Where the `skill:` of a conversation's config is, for a config that was read from
/// the file `config`; `text` is what the file holds. A text that is no config is
/// refused in the words of its parser.
pub fn config_skill(here: &str, config: &str, text: &str) -> (skill: Result<Option<String>, String>)
    ensures
        match skill_named(text@) {
            Ok(Some(named)) => skill matches Ok(Some(dir)) && dir@ == anchored_path_of(
                here@,
                parent_of(config@),
                named,
            ),
            Ok(None) => skill matches Ok(None),
            Err(why) => skill matches Err(said) && said@ == why,
        },
{
    match read_skill(text) {
        Ok(Some(named)) => Ok(Some(skill_dir(here, config, named.as_str()))),
        Ok(None) => Ok(None),
        Err(why) => Err(why),
    }
}

/// What is added to the arguments of a process a conversation is about to start.
///
/// The agent side is told which config it runs under; a judge side is left as it
/// stands.
pub fn spawn_args(role: Role, agent_config: &str) -> (args: Vec<String>)
    ensures
        texts_of(args@) == match role {
            Role::Agent => seq!["--config"@, agent_config@],
            Role::Judge => seq![],
        },
{
    let mut args: Vec<String> = Vec::new();
    match role {
        Role::Agent => {
            args.push(String::from_str("--config"));
            args.push(String::from_str(agent_config));
            assert(texts_of(args@) =~= seq!["--config"@, agent_config@]);
        },
        Role::Judge => {
            assert(texts_of(args@) =~= seq![]);
        },
    }
    args
}

/// Why a turn the record says completed is carried rather than published as a
/// death.
pub open spec fn carried_text(cause: Cause, record: Candidate, error: Seq<char>) -> Seq<char> {
    "the provider classified this turn "@ + cause.wire() + ", but "@ + described(record)
        + ", so the turn it describes is carried rather than published as a death — "@ + error
}

/// What a disputed classification is published as.
pub open spec fn disputed_text(cause: Cause, record: Candidate, error: Seq<char>) -> Seq<char> {
    error + " — classified "@ + cause.wire() + ", while "@ + described(record)
}

/// Whether `ending` is what a failed conversation comes to.
///
/// What it attributes is published either way. An operator's own cancellation
/// names the cause; otherwise the classification stands unless the record beside it
/// says the turn completed and was billed.
pub open spec fn fails_as(
    ending: Ending,
    telemetry: Option<Telemetry>,
    failure: Failure,
    error: Seq<char>,
    cancelled: bool,
) -> bool {
    let told = telemetry_told(telemetry);
    let cause = match failure {
        Failure::Engine(Some(cause)) => cause,
        _ => Cause::Unclassified,
    };
    let record = record_of(telemetry);
    &&& ending.emissions@.len() == told.len() + 1
    &&& tell_all(ending.emissions@.drop_last(), told)
    &&& if !cancelled && record is Some && completed_and_billed(record->0) {
        &&& tells_of_settle(ending.emissions@.last(), false)
        &&& ending.verdict matches Verdict::Settled { completed, carried } && !completed
            && text_of(carried) == Some(carried_text(cause, record->0, error))
    } else {
        &&& ending.verdict == Verdict::Died(Rule::ProviderFailure)
        &&& tells_of_death(
            ending.emissions@.last(),
            Rule::ProviderFailure,
            if cancelled {
                Cause::Cancelled
            } else {
                cause
            },
            if cancelled || record is None || names_cause(record->0, cause) {
                error
            } else {
                disputed_text(cause, record->0, error)
            },
        )
    }
}

fn with_last(emissions: Vec<Emission>, told: Ghost<Seq<Told>>, last: Emission) -> (all: Vec<
    Emission,
>)
    requires
        tell_all(emissions@, told@),
    ensures
        all@.len() == told@.len() + 1,
        tell_all(all@.drop_last(), told@),
        all@.last() == last,
{
    let ghost before = emissions@;
    let mut all = emissions;
    all.push(last);
    assert(all@.drop_last() =~= before);
    all
}

/// What a failed conversation comes to.
pub fn fail(
    telemetry: &Option<Telemetry>,
    failure: Failure,
    error: &str,
    cancelled: bool,
) -> (ending: Ending)
    ensures
        fails_as(ending, *telemetry, failure, error@, cancelled),
{
    let emissions = publish_attribution(telemetry);
    let ghost told = telemetry_told(*telemetry);
    if cancelled {
        let death = died(Rule::ProviderFailure, Cause::Cancelled, error);
        return Ending {
            emissions: with_last(emissions, Ghost(told), death),
            verdict: Verdict::Died(Rule::ProviderFailure),
        };
    }
    let cause = provider_cause(failure);
    match reconcile(cause, turn_record(telemetry)) {
        Reconciled::Completed(record) => {
            let mut why = String::from_str("the provider classified this turn ");
            why.append(cause.as_str());
            why.append(", but ");
            why.append(record.as_str());
            why.append(
                ", so the turn it describes is carried rather than published as a death — ",
            );
            why.append(error);
            Ending {
                emissions: with_last(emissions, Ghost(told), settle(false)),
                verdict: Verdict::Settled { completed: false, carried: Some(why) },
            }
        },
        Reconciled::Disputed(record) => {
            let mut detail = String::from_str(error);
            detail.append(" — classified ");
            detail.append(cause.as_str());
            detail.append(", while ");
            detail.append(record.as_str());
            let death = died(Rule::ProviderFailure, cause, detail.as_str());
            Ending {
                emissions: with_last(emissions, Ghost(told), death),
                verdict: Verdict::Died(Rule::ProviderFailure),
            }
        },
        Reconciled::Unchallenged => {
            let death = died(Rule::ProviderFailure, cause, error);
            Ending {
                emissions: with_last(emissions, Ghost(told), death),
                verdict: Verdict::Died(Rule::ProviderFailure),
            }
        },
    }
}

/// The report of a conversation that was carried for a reason, with its telemetry
/// where that is given as the JSON of one.
pub uninterp spec fn report_of(why: Seq<char>, telemetry: Option<Seq<char>>) -> Seq<char>;

/// `onejudge::Report::new` with an empty transcript and nothing else, its
/// `settled_reason` and its `telemetry` filled in, as `serde_json` writes it: a
/// function of the reason and of the telemetry's text. Where the document reads back
/// as JSON, its `settled_reason` is the reason.
#[verifier::external_body]
fn write_report(why: &str, telemetry: Option<&str>) -> (document: String)
    ensures
        document@ == report_of(why@, seen(telemetry)),
        json_fault(document@) is None ==> json_node(document@, "/settled_reason"@)
            == NodeText::Text(why@),
{
    let mut report =
        onejudge::Report::new(onejudge::Transcript::default(), Vec::new(), None, false);
    report.settled_reason = Some(why.to_string());
    report.telemetry = telemetry.and_then(|text| serde_json::from_str(text).ok());
    serde_json::to_value(&report).unwrap_or_default().to_string()
}

/// The report stored for a turn that is carried rather than published as a death: a
/// real one, with why it was carried on it. Any other ending has none of its own.
pub fn carried_report(ending: &Ending, telemetry: Option<&str>) -> (report: Option<String>)
    ensures
        match ending.verdict {
            Verdict::Settled { carried: Some(why), .. } => report matches Some(document)
                && document@ == report_of(why@, seen(telemetry)) && (json_fault(document@) is None
                ==> json_node(document@, "/settled_reason"@) == NodeText::Text(why@)),
            _ => report is None,
        },
{
    match &ending.verdict {
        Verdict::Settled { carried: Some(why), .. } => Some(write_report(why.as_str(), telemetry)),
        _ => None,
    }
}

/// How a member whose engine answered ends, and the control record to write.
#[derive(Debug, PartialEq, Eq)]
pub struct Finished {
    /// What is said of it.
    pub ending: Ending,
    /// What its report says of its turn control.
    pub control: Option<Turn>,
}

/// Settle or condemn a member whose engine answered.
pub fn finish(answer: Answer, cancelled: bool) -> (finished: Finished)
    ensures
        match answer {
            Answer::Reported { telemetry, control, control_unavailable, exit_code } => {
                let emissions = finished.ending.emissions@;
                &&& emissions.len() == telemetry_told(telemetry).len() + 1
                &&& tell_all(emissions.drop_last(), telemetry_told(telemetry))
                &&& tells_of_settle(emissions.last(), exit_code == 0)
                &&& finished.ending.verdict == (Verdict::Settled {
                    completed: exit_code == 0,
                    carried: None::<String>,
                })
                &&& finished.control matches Some(turn) && records_control(
                    turn,
                    control,
                    control_unavailable,
                )
            },
            Answer::Failed { telemetry, failure, error } => {
                &&& fails_as(finished.ending, telemetry, failure, error@, cancelled)
                &&& finished.control is None
            },
        },
{
    match answer {
        Answer::Reported { telemetry, control, control_unavailable, exit_code } => {
            let completed = exit_code == 0;
            let ghost told = telemetry_told(telemetry);
            let attributed = publish_attribution(&telemetry);
            let emissions = with_last(attributed, Ghost(told), settle(completed));
            let turn = record_control(control, control_unavailable);
            Finished {
                ending: Ending {
                    emissions,
                    verdict: Verdict::Settled { completed, carried: None },
                },
                control: Some(turn),
            }
        },
        Answer::Failed { telemetry, failure, error } => Finished {
            ending: fail(&telemetry, failure, error.as_str(), cancelled),
            control: None,
        },
    }
}

/// What a condemned member's answer is worth: the chain it attempted is evidence,
/// and the member is dead by the rule that condemned it all the same.
pub fn evidence(answer: &Answer) -> (emissions: Vec<Emission>)
    ensures
        tell_all(
            emissions@,
            match *answer {
                Answer::Reported { telemetry, .. } => telemetry_told(telemetry),
                Answer::Failed { telemetry, .. } => telemetry_told(telemetry),
            },
        ),
{
    match answer {
        Answer::Reported { telemetry, .. } => publish_attribution(telemetry),
        Answer::Failed { telemetry, .. } => publish_attribution(telemetry),
    }
}

/// The files whose presence says this member, or its whole run, was explicitly
/// stopped; none for a scratch that is not two directories inside a run's own.
pub open spec fn stop_paths(scratch: Seq<char>, signal_dir: Seq<char>) -> Option<
    (Seq<char>, Seq<char>),
> {
    let parts = components(scratch);
    match parent_of(scratch) {
        None => None,
        Some(members) => match parent_of(members) {
            None => None,
            Some(root) => if parts.len() == 0 || parts.last() == ".."@ {
                None
            } else {
                let signals = under(root, signal_dir);
                Some((under(signals, "stop"@), under(signals, parts.last() + ".stop"@)))
            },
        },
    }
}

/// The files whose presence says this member, or its whole run, was explicitly
/// stopped.
pub fn stop_files(scratch: &str, signal_dir: &str) -> (files: Option<(String, String)>)
    ensures
        match stop_paths(scratch@, signal_dir@) {
            Some(paths) => files matches Some(found) && (found.0@, found.1@) == paths,
            None => files is None,
        },
{
    let parts = take_components(scratch);
    assert(texts_of(parts@).len() == parts@.len());
    let members = match parent(scratch) {
        Some(members) => members,
        None => return None,
    };
    let root = match parent(members.as_str()) {
        Some(root) => root,
        None => return None,
    };
    if parts.len() == 0 {
        return None;
    }
    let name = parts[parts.len() - 1].as_str();
    assert(components(scratch@).last() == name@);
    if same(name, "..") {
        return None;
    }
    let signals = join_path(root.as_str(), signal_dir);
    let mut own = String::from_str(name);
    own.append(".stop");
    Some((join_path(signals.as_str(), "stop"), join_path(signals.as_str(), own.as_str())))
}

// ---- What a note that comes too late is told ----
/// How a conversation that takes no more notes ended.
#[derive(Debug, PartialEq, Eq)]
pub enum Ended {
    /// It failed, and this is what its failure said.
    Failed(String),
    /// It settled.
    Settled {
        /// The criterion its supervisor judged, and whether it was satisfied.
        done_when: Option<(String, bool)>,
        /// The reason a loop that ended without a completion decision records.
        settled_reason: Option<String>,
        /// Whether it completed.
        completed: bool,
    },
}

/// The refusal a note that arrives after a member is over gets.
#[derive(Debug, PartialEq, Eq)]
pub enum Undelivered {
    /// The supervisor passed the conversation: the note is a follow-up.
    ConversationCompleted {
        /// Why.
        completion_reason: String,
    },
    /// The member is over without that.
    MemberSettled {
        /// How.
        outcome: String,
    },
}

/// Why a settled conversation is over, in the supervisor's own words where it gave
/// any.
pub open spec fn why_over(
    done_when: Option<(String, bool)>,
    settled_reason: Option<String>,
    completed: bool,
) -> Seq<char> {
    match done_when {
        Some((criterion, satisfied)) => "its supervisor judged "@ + quoted(criterion@) + " "@ + if satisfied {
            "satisfied"@
        } else {
            "unsatisfied"@
        },
        None => match settled_reason {
            Some(reason) => reason@,
            None => if completed {
                "its conversation completed"@
            } else {
                "its conversation ended without completing"@
            },
        },
    }
}

/// The refusal every note that arrives after this member is over will get. A
/// passed conversation needs no relaunch, while one that merely ended may well be
/// worth starting again.
pub fn terminal_refusal(ended: Ended) -> (refusal: Undelivered)
    ensures
        match ended {
            Ended::Failed(error) => refusal matches Undelivered::MemberSettled { outcome }
                && outcome@ == "its conversation failed: "@ + error@,
            Ended::Settled { done_when, settled_reason, completed } => if completed {
                refusal matches Undelivered::ConversationCompleted { completion_reason }
                    && completion_reason@ == why_over(done_when, settled_reason, completed)
            } else {
                refusal matches Undelivered::MemberSettled { outcome } && outcome@ == why_over(
                    done_when,
                    settled_reason,
                    completed,
                )
            },
        },
{
    match ended {
        Ended::Failed(error) => {
            let mut outcome = String::from_str("its conversation failed: ");
            outcome.append(error.as_str());
            Undelivered::MemberSettled { outcome }
        },
        Ended::Settled { done_when, settled_reason, completed } => {
            let why = match done_when {
                Some((criterion, satisfied)) => {
                    let mut why = String::from_str("its supervisor judged ");
                    why.append(quote(criterion.as_str()).as_str());
                    why.append(" ");
                    if satisfied {
                        why.append("satisfied");
                    } else {
                        why.append("unsatisfied");
                    }
                    why
                },
                None => match settled_reason {
                    Some(reason) => reason,
                    None => if completed {
                        String::from_str("its conversation completed")
                    } else {
                        String::from_str("its conversation ended without completing")
                    },
                },
            };
            if completed {
                Undelivered::ConversationCompleted { completion_reason: why }
            } else {
                Undelivered::MemberSettled { outcome: why }
            }
        },
    }
}

/// The refusal a note gets from a member a watchdog condemned.
pub fn condemned_refusal(rule: Rule) -> (refusal: Undelivered)
    ensures
        refusal matches Undelivered::MemberSettled { outcome } && outcome@
            == "the member was condemned by its "@ + rule.wire() + " watchdog"@,
{
    let mut outcome = String::from_str("the member was condemned by its ");
    outcome.append(rule.as_str());
    outcome.append(" watchdog");
    Undelivered::MemberSettled { outcome }
}

/// A member is never killed over a classification that its own record contradicts:
/// where the record says the turn completed and was billed, and nobody cancelled
/// it, no death is published, and the member settles instead, as one that did not
/// complete its task.
pub proof fn a_paid_turn_is_never_a_death(
    ending: Ending,
    telemetry: Option<Telemetry>,
    failure: Failure,
    error: Seq<char>,
)
    requires
        fails_as(ending, telemetry, failure, error, false),
        record_of(telemetry) matches Some(record) && completed_and_billed(record),
    ensures
        ending.verdict is Settled,
        ending.emissions@.len() > 0,
        ending.emissions@.last().kind == EventKind::MemberSettled,
        forall|i: int|
            0 <= i < ending.emissions@.len() ==> (#[trigger] ending.emissions@[i]).kind
                != EventKind::MemberDied,
        forall|i: int|
            0 <= i < ending.emissions@.len() - 1 ==> (#[trigger] ending.emissions@[i]).kind
                != EventKind::MemberSettled,
{
    let told = telemetry_told(telemetry);
    assert forall|i: int| 0 <= i < ending.emissions@.len() - 1 implies (
    #[trigger] ending.emissions@[i]).kind != EventKind::MemberDied && ending.emissions@[i].kind
        != EventKind::MemberSettled by {
        assert(ending.emissions@.drop_last()[i] == ending.emissions@[i]);
        assert(tells(ending.emissions@.drop_last()[i], told[i]));
    }
}

/// Nothing else is swallowed: every other failure is published as exactly one
/// death, with the cause it was classified as, after what the run attributes.
pub proof fn any_other_failure_is_one_death(
    ending: Ending,
    telemetry: Option<Telemetry>,
    cause: Cause,
    error: Seq<char>,
)
    requires
        fails_as(ending, telemetry, Failure::Engine(Some(cause)), error, false),
        !(record_of(telemetry) matches Some(record) && completed_and_billed(record)),
    ensures
        ending.verdict == Verdict::Died(Rule::ProviderFailure),
        ending.emissions@.len() == telemetry_told(telemetry).len() + 1,
        ending.emissions@.last().payload matches Payload::MemberDied(died) && died.cause == cause,
        forall|i: int|
            0 <= i < ending.emissions@.len() - 1 ==> (#[trigger] ending.emissions@[i]).kind
                != EventKind::MemberDied,
{
    let told = telemetry_told(telemetry);
    assert forall|i: int| 0 <= i < ending.emissions@.len() - 1 implies (
    #[trigger] ending.emissions@[i]).kind != EventKind::MemberDied by {
        assert(ending.emissions@.drop_last()[i] == ending.emissions@[i]);
        assert(tells(ending.emissions@.drop_last()[i], told[i]));
    }
}

} // verus!
